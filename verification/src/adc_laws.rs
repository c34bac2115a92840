//! What holds of the analog to digital converter across its operations.
use crate::adc::{
    buffer_passed_on, clock_selected, config_begun, config_step, config_value, continuous_started,
    continuous_timer_ok, delivered, highspeed_refused, highspeed_started, highspeed_timer_ok,
    interrupted, pass_on_actions, provide_refused, receive_length, repeats_for, sequencer_value,
    single_started, stage_reached, start_refused, stop_begun, stop_ended, stop_report,
    timer_counter, timer_frequency, Action, Adc, AdcChannel, Channel, ConfigPhase, ConfigStep,
    Stage, BUFFER_TIMEOUT, ENABLE_TIMEOUT,
};
use crate::adc_clock::{
    clock_for, law_cpu_clock_frequency, ClockSelection, MAX_PRESCALER,
    RCSYS_MAX_FREQUENCY,
};
use crate::adc_registers::{
    bit_set, ITIMER_MAX, SEQCFG_TRGSEL_CONTINUOUS, SEQCFG_TRGSEL_INTERNAL_TIMER,
    SEQCFG_TRGSEL_SOFTWARE, SR_SEOC,
};
use crate::error_code::ErrorCode;
use vstd::prelude::*;

verus! {

/// Different channels have different representations.
pub proof fn law_channels_are_distinct(a: Channel, b: Channel)
    requires
        a != b,
    ensures
        AdcChannel::of(a) != AdcChannel::of(b),
{
}

/// Whatever the channel and the trigger, samples are 12 bits, use the ground
/// pad as the negative reference and a gain of 0.5x, and are left justified;
/// the channel and the trigger each stand in a field of their own.
pub proof fn law_sequencer_fields(channel: Channel, trigger: u32)
    requires
        trigger == SEQCFG_TRGSEL_SOFTWARE || trigger == SEQCFG_TRGSEL_INTERNAL_TIMER || trigger
            == SEQCFG_TRGSEL_CONTINUOUS,
    ensures
        ({
            let adc_channel = AdcChannel::of(channel);
            let value = sequencer_value(adc_channel, trigger);
            &&& 0 <= value <= u32::MAX
            // half word left adjust
            &&& value % 2 == 1
            // not bipolar
            &&& value / 0x4 % 2 == 0
            // gain of 0.5x
            &&& value / 0x10 % 8 == 7
            // no gain compensation
            &&& value / 0x80 % 2 == 0
            &&& value / 0x100 % 8 * 0x100 == trigger
            // 12 bits
            &&& value / 0x1000 % 2 == 0
            &&& value / 0x4000 % 4 == 2 + adc_channel.internal
            &&& value / 0x1_0000 % 16 == adc_channel.chan_num
            // ground pad
            &&& value / 0x10_0000 % 8 == 7
            &&& value / 0x1000_0000 == 0
        }),
{
    let adc_channel = AdcChannel::of(channel);
    assert(adc_channel.chan_num < 16 && adc_channel.internal < 2);
    lemma_sequencer_fields(
        adc_channel.chan_num as int,
        adc_channel.internal as int,
        trigger as int / 0x100,
        sequencer_value(adc_channel, trigger),
    );
}

/// The fields of a sequencer configuration, one by one.
proof fn lemma_sequencer_fields(chan_num: int, internal: int, trigger: int, value: int)
    requires
        0 <= chan_num < 16,
        0 <= internal < 2,
        0 <= trigger < 8,
        value == 0x70_0000 + chan_num * 0x1_0000 + (2 + internal) * 0x4000 + trigger * 0x100 + 0x71,
    ensures
        value % 2 == 1,
        value / 0x4 % 2 == 0,
        value / 0x10 % 8 == 7,
        value / 0x80 % 2 == 0,
        value / 0x100 % 8 == trigger,
        value / 0x1000 % 2 == 0,
        value / 0x4000 % 4 == 2 + internal,
        value / 0x1_0000 % 16 == chan_num,
        value / 0x10_0000 % 8 == 7,
        value / 0x1000_0000 == 0,
{
    assert(value / 0x10_0000 == 7);
    assert(value / 0x1_0000 == 0x70 + chan_num);
    assert(value / 0x4000 == 0x1C0 + 4 * chan_num + 2 + internal);
    assert(value / 0x1000 == 4 * (0x1C0 + 4 * chan_num + 2 + internal));
    assert(value / 0x100 == 0x40 * (0x1C0 + 4 * chan_num + 2 + internal) + trigger);
    assert(value / 0x80 == 2 * (value / 0x100));
    assert(value / 0x10 == 16 * (value / 0x100) + 7);
    assert(value / 0x4 == 4 * (value / 0x10));
}

/// Whatever the clock, the reference is half of VCC at a speed of 300 ksps,
/// and the prescaler stands in a field of its own.
pub proof fn law_configuration_fields(selection: ClockSelection)
    requires
        selection.prescaler <= MAX_PRESCALER,
    ensures
        ({
            let value = config_value(selection);
            &&& 0 <= value <= u32::MAX
            &&& value / 0x2 % 8 == 4
            &&& value / 0x10 % 4 == 0
            &&& value / 0x100 % 8 == selection.prescaler
        }),
{
}

/// How many more looks at the status register a configuration can take.
pub open spec fn polls_left(phase: ConfigPhase) -> int {
    phase.timeout + match phase.stage {
        Stage::Disabling => ENABLE_TIMEOUT + BUFFER_TIMEOUT,
        Stage::Enabling => BUFFER_TIMEOUT as int,
        Stage::Buffering => 0,
    }
}

/// A configuration ends, whatever the status register shows, after 120000
/// looks at it at most.
pub proof fn law_configuration_ends(
    adc: Adc,
    frequency: u32,
    phase: ConfigPhase,
    status: u32,
    cpu_frequency: u32,
)
    requires
        phase.timeout > 0,
    ensures
        config_begun(adc, frequency).2 matches Ok(ConfigStep::Poll(first)) ==> first.timeout > 0
            && first.frequency == frequency && polls_left(first) == 120000,
        polls_left(phase) > 0,
        config_step(adc, phase, status, cpu_frequency).2 matches Ok(ConfigStep::Poll(next))
            ==> next.timeout > 0 && next.frequency == phase.frequency && polls_left(next)
            < polls_left(phase),
{
}

/// How a configuration goes on after a number of looks at a status register
/// that does not change.
pub open spec fn after_polls(
    adc: Adc,
    phase: ConfigPhase,
    status: u32,
    cpu_frequency: u32,
    polls: nat,
) -> Result<ConfigStep, ErrorCode>
    decreases polls,
{
    if polls == 0 {
        Ok(ConfigStep::Poll(phase))
    } else {
        match after_polls(adc, phase, status, cpu_frequency, (polls - 1) as nat) {
            Ok(ConfigStep::Poll(next)) => config_step(adc, next, status, cpu_frequency).2,
            other => other,
        }
    }
}

/// A status register that never shows what is waited for is looked at as often
/// as the timeout says, and the configuration fails with the last look.
pub proof fn law_configuration_gives_up(
    adc: Adc,
    phase: ConfigPhase,
    status: u32,
    cpu_frequency: u32,
    polls: nat,
)
    requires
        !stage_reached(phase.stage, status),
        polls <= phase.timeout,
        phase.timeout > 0,
    ensures
        after_polls(adc, phase, status, cpu_frequency, polls) == (if polls < phase.timeout {
            Ok(
                ConfigStep::Poll(
                    ConfigPhase { timeout: (phase.timeout - polls) as u32, ..phase },
                ),
            )
        } else {
            Err(ErrorCode::FAIL)
        }),
        config_step(adc, phase, status, cpu_frequency).0 == adc,
        config_step(adc, phase, status, cpu_frequency).1 == Seq::<Action>::empty(),
    decreases polls,
{
    if polls > 0 {
        law_configuration_gives_up(adc, phase, status, cpu_frequency, (polls - 1) as nat);
    }
}

/// A converter that shows itself disabled, then enabled, then with its buffers
/// enabled is configured: it runs off the clock for the frequency, and is
/// enabled.
pub proof fn law_configuration_succeeds(
    adc: Adc,
    frequency: u32,
    cpu_frequency: u32,
    disabled: u32,
    enabled: u32,
    buffered: u32,
)
    requires
        !adc.active,
        frequency != 0,
        !(adc.enabled && adc.configured == Some(frequency)),
        stage_reached(Stage::Disabling, disabled),
        stage_reached(Stage::Enabling, enabled),
        stage_reached(Stage::Buffering, buffered),
    ensures
        ({
            let (begun, _, first) = config_begun(adc, frequency);
            let selected = clock_selected(
                begun,
                clock_for(frequency as int, cpu_frequency as int),
            );
            let done = Adc { configured: Some(frequency), ..selected };
            &&& done.enabled
            &&& first matches Ok(ConfigStep::Poll(first)) && {
                let (one, _, second) = config_step(begun, first, disabled, cpu_frequency);
                &&& one == selected
                &&& second matches Ok(ConfigStep::Poll(second)) && {
                    let (two, _, third) = config_step(selected, second, enabled, cpu_frequency);
                    &&& two == selected
                    &&& third matches Ok(ConfigStep::Poll(third)) && config_step(
                        selected,
                        third,
                        buffered,
                        cpu_frequency,
                    ) == (done, Seq::<Action>::empty(), Ok::<ConfigStep, ErrorCode>(
                        ConfigStep::Done,
                    ))
                }
            }
        }),
{
}

/// A configuration that ends well leaves the converter enabled, and configured
/// for the frequency that was asked for.
pub proof fn law_configured_converter_is_enabled(
    adc: Adc,
    frequency: u32,
    phase: ConfigPhase,
    status: u32,
    cpu_frequency: u32,
)
    ensures
        ({
            let (after, _, result) = config_begun(adc, frequency);
            result == Ok::<ConfigStep, ErrorCode>(ConfigStep::Done) ==> after.enabled
                && after.configured == Some(frequency)
        }),
        ({
            let (after, _, result) = config_step(adc, phase, status, cpu_frequency);
            result == Ok::<ConfigStep, ErrorCode>(ConfigStep::Done) ==> after.enabled
                && after.configured == Some(phase.frequency)
        }),
{
}

/// Subsequent calls with the same frequency have no effect: nothing is done, and
/// nothing changes.
pub proof fn law_configuration_is_kept(
    adc: Adc,
    phase: ConfigPhase,
    status: u32,
    cpu_frequency: u32,
)
    requires
        !adc.active,
        phase.frequency != 0,
        config_step(adc, phase, status, cpu_frequency).2 == Ok::<ConfigStep, ErrorCode>(
            ConfigStep::Done,
        ),
    ensures
        ({
            let after = config_step(adc, phase, status, cpu_frequency).0;
            config_begun(after, phase.frequency) == (
                after,
                Seq::<Action>::empty(),
                Ok::<ConfigStep, ErrorCode>(ConfigStep::Done),
            )
        }),
{
}

/// A configuration that did not end well is made anew: while it goes on, and
/// after it was given up, no frequency counts as configured.
pub proof fn law_failed_configuration_is_repeated(
    adc: Adc,
    frequency: u32,
    phase: ConfigPhase,
    status: u32,
    cpu_frequency: u32,
    next_frequency: u32,
)
    requires
        next_frequency != 0,
    ensures
        config_begun(adc, frequency).2 matches Ok(ConfigStep::Poll(_)) ==> config_begun(
            adc,
            frequency,
        ).0.configured is None,
        ({
            let (after, _, result) = config_step(adc, phase, status, cpu_frequency);
            adc.configured is None && !adc.active && result != Ok::<ConfigStep, ErrorCode>(
                ConfigStep::Done,
            ) ==> after.configured is None && (config_begun(
                after,
                next_frequency,
            ).2 matches Ok(ConfigStep::Poll(_)))
        }),
{
}

/// While sampling goes on, no other sampling can be configured or started.
pub proof fn law_one_operation_at_a_time(
    adc: Adc,
    frequency: u32,
    configured: Result<(), ErrorCode>,
)
    requires
        adc.active,
    ensures
        config_begun(adc, frequency) == (
            adc,
            Seq::<Action>::empty(),
            Err::<ConfigStep, ErrorCode>(ErrorCode::BUSY),
        ),
        start_refused(adc, configured) is Some,
{
}

/// In the range of 1-22 Hz the timer runs at between 42 and 60 Hz.
pub proof fn law_slow_timer_frequency(frequency: u32)
    requires
        1 <= frequency < 23,
    ensures
        42 <= timer_frequency(frequency as int) <= 60,
{
    let f = frequency;
    assert(f == 1 || f == 2 || f == 3 || f == 4 || f == 5 || f == 6 || f == 7 || f == 8 || f == 9
        || f == 10 || f == 11 || f == 12 || f == 13 || f == 14 || f == 15 || f == 16 || f == 17
        || f == 18 || f == 19 || f == 20 || f == 21 || f == 22);
}

/// Samples are delivered at the frequency asked for: the timer runs as many times
/// faster as it takes timer fires for a sample.
pub proof fn law_fires_make_up_the_frequency(frequency: u32)
    requires
        frequency != 0,
    ensures
        repeats_for(frequency as int) >= 0,
        timer_frequency(frequency as int) == frequency * (repeats_for(frequency as int) + 1),
{
    if frequency < 23 {
        let f = frequency as int;
        assert(60int / f >= 1) by (nonlinear_arith)
            requires
                0 < f < 23,
        ;
    } else {
        assert(frequency * 1 == frequency) by (nonlinear_arith);
    }
}

/// The timer runs at the frequency asked for or faster, and one count more
/// would make it slower, wherever it can count that far.
pub proof fn law_timer_keeps_up(adc_clk_freq: int, frequency: int)
    requires
        0 < frequency <= adc_clk_freq,
        adc_clk_freq / frequency <= ITIMER_MAX + 1,
    ensures
        ({
            let counter = timer_counter(adc_clk_freq, frequency);
            &&& 0 <= counter <= ITIMER_MAX
            &&& frequency * (counter + 1) <= adc_clk_freq
            &&& adc_clk_freq < frequency * (counter + 2)
        }),
{
    vstd::arithmetic::div_mod::lemma_fundamental_div_mod(adc_clk_freq, frequency);
    let q = adc_clk_freq / frequency;
    assert(q >= 1 && frequency * q <= adc_clk_freq < frequency * (q + 1)) by (nonlinear_arith)
        requires
            adc_clk_freq == frequency * q + adc_clk_freq % frequency,
            0 <= adc_clk_freq % frequency < frequency,
            frequency <= adc_clk_freq,
    ;
}

/// The timer can count as far as sampling into buffers needs it to.
pub proof fn law_highspeed_timer_in_bounds(
    adc: Adc,
    frequency: u32,
    length: usize,
    configured: Result<(), ErrorCode>,
)
    requires
        highspeed_refused(adc, frequency, length, configured) is None,
        frequency <= adc.adc_clk_freq,
    ensures
        adc.adc_clk_freq as int / frequency as int <= ITIMER_MAX,
{
    let clock = adc.adc_clk_freq as int;
    let f = frequency as int;
    let q = clock / f;
    vstd::arithmetic::div_mod::lemma_fundamental_div_mod(clock, f);
    assert(q <= 0xFFFF) by (nonlinear_arith)
        requires
            clock == f * q + clock % f,
            0 <= clock % f,
            clock < 0x1_0000 * f,
            f > 0,
    ;
}

/// While the CPU runs at 1 MHz at least, a converter that was configured for a
/// frequency can start every kind of sampling at it.
pub proof fn law_timers_run_at_usual_clocks(
    adc: Adc,
    frequency: u32,
    cpu_frequency: u32,
    length: usize,
    configured: Result<(), ErrorCode>,
)
    requires
        cpu_frequency >= 1_000_000,
    ensures
        ({
            let selected = clock_selected(
                adc,
                clock_for(frequency as int, cpu_frequency as int),
            );
            &&& continuous_timer_ok(selected, frequency, configured)
            &&& highspeed_timer_ok(selected, frequency, length, configured)
        }),
{
    if frequency > RCSYS_MAX_FREQUENCY {
        law_cpu_clock_frequency(frequency, cpu_frequency);
    }
}

/// A single sample is delivered once: the interrupt for it finds the sample
/// wanted, and any further interrupt finds the converter inactive.
pub proof fn law_single_sample_is_delivered_once(adc: Adc, status: u32, later_status: u32)
    requires
        adc.enabled,
        bit_set(status, SR_SEOC),
    ensures
        ({
            let started = single_started(adc);
            let done = delivered(started).0;
            &&& interrupted(started, status) == (started, None::<Seq<Action>>)
            &&& !done.active
            &&& interrupted(done, later_status).1 is Some
            &&& interrupted(done, later_status).0 == done
        }),
{
}

/// The state after `fires` end of conversion interrupts, none of which
/// delivered a sample.
pub open spec fn after_fires(adc: Adc, status: u32, fires: nat) -> Adc
    decreases fires,
{
    if fires == 0 {
        adc
    } else {
        interrupted(after_fires(adc, status, (fires - 1) as nat), status).0
    }
}

/// Continuous sampling passes over as many timer fires as it is set to, delivers
/// a sample with the next one, and begins to count anew.
pub proof fn law_fires_are_passed_over(adc: Adc, frequency: u32, status: u32, fires: nat)
    requires
        adc.enabled,
        bit_set(status, SR_SEOC),
        fires <= continuous_started(adc, frequency).timer_repeats,
    ensures
        ({
            let started = continuous_started(adc, frequency);
            let passed = after_fires(started, status, fires);
            &&& passed == (Adc { timer_counts: fires as u8, ..started })
            &&& fires < started.timer_repeats ==> interrupted(passed, status).1 is Some
            &&& fires == started.timer_repeats ==> {
                &&& interrupted(passed, status) == (passed, None::<Seq<Action>>)
                &&& delivered(passed).0 == started
            }
        }),
    decreases fires,
{
    if fires > 0 {
        law_fires_are_passed_over(adc, frequency, status, (fires - 1) as nat);
    }
}

/// When sampling into buffers stops, both buffers come back. The one that was to
/// be filled next can be reclaimed. The one that the DMA was filling is returned
/// to the client for buffers, with the number of samples that were asked for; if
/// there is no client, it can be reclaimed too.
pub proof fn law_buffers_come_back(
    adc: Adc,
    buffer1: Vec<u16>,
    length1: usize,
    buffer2: Vec<u16>,
    length2: usize,
    disabled: bool,
    client_set: bool,
)
    requires
        adc.rx_dma is Some,
    ensures
        ({
            let started = highspeed_started(adc, buffer1, length1, buffer2, length2);
            let stopping = stop_begun(started);
            let off = Adc { enabled: stopping.enabled && !disabled, ..stopping };
            let stopped = stop_ended(off, Some(buffer1), client_set);
            let report = stop_report(off, Some(buffer1), client_set);
            &&& !stopped.active
            &&& !stopped.continuous
            &&& !stopped.dma_running
            &&& stopped.next_dma_buffer == Some(buffer2)
            &&& stopped.rx_length == 0
            &&& if client_set {
                report == Some((buffer1, receive_length(buffer1, length1)))
            } else {
                report is None && stopped.stopped_buffer == Some(buffer1)
            }
        }),
{
}

/// Where the DMA gives no buffer back, nothing is returned, and nothing that was
/// kept is lost.
pub proof fn law_stopping_without_a_buffer(adc: Adc, client_set: bool)
    ensures
        stop_report(adc, None, client_set) is None,
        stop_ended(adc, None, client_set) == (Adc { rx_length: 0, ..adc }),
{
}

/// When the first buffer is full the second one is filled, and a third one can
/// be provided.
pub proof fn law_buffers_take_turns(
    adc: Adc,
    buffer1: Vec<u16>,
    length1: usize,
    buffer2: Vec<u16>,
    length2: usize,
)
    requires
        adc.enabled,
        adc.rx_dma is Some,
        receive_length(buffer2, length2) > 0,
    ensures
        ({
            let started = highspeed_started(adc, buffer1, length1, buffer2, length2);
            let full = Adc { dma_running: false, ..started };
            let next = buffer_passed_on(full);
            &&& started.rx_length == receive_length(buffer1, length1)
            &&& provide_refused(started) == Some(ErrorCode::BUSY)
            &&& pass_on_actions(full) == seq![
                Action::Transfer {
                    channel: adc.rx_dma->0,
                    peripheral: adc.rx_dma_peripheral,
                    buffer: buffer2,
                    length: receive_length(buffer2, length2),
                },
            ]
            &&& next.dma_running
            &&& next.rx_length == receive_length(buffer2, length2)
            &&& provide_refused(next) is None
        }),
{
}

/// A converter that was stopped, or that is not enabled, is configured anew by
/// the next request, whatever the frequency.
pub proof fn law_stopped_converter_is_configured_anew(adc: Adc, disabled: bool, frequency: u32)
    requires
        frequency != 0,
    ensures
        ({
            let stopping = stop_begun(adc);
            let stopped = Adc { enabled: stopping.enabled && !disabled, ..stopping };
            config_begun(stopped, frequency).2 matches Ok(ConfigStep::Poll(_))
        }),
        !adc.enabled && !adc.active ==> (config_begun(adc, frequency).2 matches Ok(
            ConfigStep::Poll(_),
        )),
{
}

} // verus!
