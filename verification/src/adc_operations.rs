//! What each operation of the analog to digital converter does to the driver
//! and to the registers, in terms of the request and the words written.
//!
//! Every law here is about a call: `call_ensures` relates the arguments of an
//! operation to what it returned, and the law says what the two have to do with
//! one another. The words are taken apart into the fields of the registers.
use crate::adc::{
    config_value, Action, Adc, AdcChannel, Channel, ConfigPhase, ConfigStep, DMAChannel,
    DMAPeripheral, DisableStep, Interrupted, Stage, TransferDone,
};
use crate::adc_clock::{
    clock_for, lemma_greatest_shift_bounds, lemma_least_shift_bounds, prescaler_for, select_clock,
    ClockSelection, ClockSource,
};
use crate::adc_registers::{is_set, Register};
use crate::error_code::ErrorCode;
use crate::math::{closest_power_of_two, log_base_two};
use vstd::arithmetic::div_mod::{lemma_fundamental_div_mod, lemma_fundamental_div_mod_converse};
use vstd::arithmetic::power2::{
    lemma2_to64, lemma_pow2_adds, lemma_pow2_pos, lemma_pow2_strictly_increases, lemma_pow2_unfold,
    pow2,
};
use vstd::prelude::*;

verus! {

/// Whether a word for the sequencer samples the input of a channel against
/// ground, with the given trigger: every bit of the word is accounted for.
pub open spec fn samples_channel(word: u32, channel: AdcChannel, trigger: int) -> bool {
    // half word left adjust
    &&& word % 2 == 1
    &&& word / 0x2 % 8 == 0
    // a gain of one half
    &&& word / 0x10 % 8 == 7
    // twelve bits
    &&& word / 0x80 % 2 == 0
    &&& word / 0x100 % 8 == trigger
    &&& word / 0x800 % 8 == 0
    &&& word / 0x4000 % 4 == 2 + channel.internal % 2
    &&& word / 0x1_0000 % 16 == channel.chan_num % 16
    // the ground pad
    &&& word / 0x10_0000 == 7
}

/// The fields of a word that sets up the sequencer.
proof fn lemma_sequencer_word(word: int, chan_num: int, internal: int, trigger: int)
    requires
        0 <= chan_num < 16,
        0 <= internal < 2,
        0 <= trigger < 8,
        word == 0x70_0000 + chan_num * 0x1_0000 + (2 + internal) * 0x4000 + trigger * 0x100 + 0x71,
    ensures
        0 <= word <= u32::MAX,
        word % 2 == 1,
        word / 0x2 % 8 == 0,
        word / 0x10 % 8 == 7,
        word / 0x80 % 2 == 0,
        word / 0x100 % 8 == trigger,
        word / 0x800 % 8 == 0,
        word / 0x4000 % 4 == 2 + internal,
        word / 0x1_0000 % 16 == chan_num,
        word / 0x10_0000 == 7,
{
    let upper = 0x1C0 + 4 * chan_num + 2 + internal;
    assert(word / 0x1_0000 == 0x70 + chan_num);
    assert(word / 0x4000 == upper);
    assert(word / 0x800 == 8 * upper);
    assert(word / 0x100 == 0x40 * upper + trigger);
    assert(word / 0x80 == 2 * (word / 0x100));
    assert(word / 0x10 == 16 * (word / 0x100) + 7);
    assert(word / 0x2 == 8 * (word / 0x10));
}

/// A pad is selected by its own number, 15 the bandgap; the internal sources
/// are marked as such.
pub proof fn law_channel(channel: Channel, number: u8, result: AdcChannel)
    requires
        call_ensures(Channel::number, (channel,), number),
        call_ensures(AdcChannel::new, (channel,), result),
    ensures
        result.internal * 16 + result.chan_num == number,
        result.chan_num < 16,
        match channel {
            Channel::AD0 => result.internal == 0 && result.chan_num == 0,
            Channel::AD1 => result.internal == 0 && result.chan_num == 1,
            Channel::AD2 => result.internal == 0 && result.chan_num == 2,
            Channel::AD3 => result.internal == 0 && result.chan_num == 3,
            Channel::AD4 => result.internal == 0 && result.chan_num == 4,
            Channel::AD5 => result.internal == 0 && result.chan_num == 5,
            Channel::AD6 => result.internal == 0 && result.chan_num == 6,
            Channel::AD7 => result.internal == 0 && result.chan_num == 7,
            Channel::AD8 => result.internal == 0 && result.chan_num == 8,
            Channel::AD9 => result.internal == 0 && result.chan_num == 9,
            Channel::AD10 => result.internal == 0 && result.chan_num == 10,
            Channel::AD11 => result.internal == 0 && result.chan_num == 11,
            Channel::AD12 => result.internal == 0 && result.chan_num == 12,
            Channel::AD13 => result.internal == 0 && result.chan_num == 13,
            Channel::AD14 => result.internal == 0 && result.chan_num == 14,
            Channel::Bandgap => result.internal == 0 && result.chan_num == 15,
            Channel::ScaledVCC => result.internal == 1 && result.chan_num == 2,
            Channel::DAC => result.internal == 1 && result.chan_num == 3,
            Channel::Vsingle => result.internal == 1 && result.chan_num == 6,
            Channel::ReferenceGround => result.internal == 1 && result.chan_num == 7,
        },
{
}

/// Why sampling does not start: the configuration for it failed, the converter
/// is off, or it is sampling. Sampling starts otherwise, unless the request
/// itself is not possible.
pub open spec fn start_error(
    adc: Adc,
    configured: Result<(), ErrorCode>,
    possible: bool,
) -> Option<ErrorCode> {
    if configured is Err {
        Some(configured->Err_0)
    } else if !adc.enabled {
        Some(ErrorCode::OFF)
    } else if adc.active {
        Some(ErrorCode::BUSY)
    } else if !possible {
        Some(ErrorCode::INVAL)
    } else {
        None
    }
}

/// A single sample is of the channel that was asked for, and triggered by
/// software once the interrupts are cleared and the end of the conversion is to
/// interrupt.
pub proof fn law_single_sample(
    adc: &mut Adc,
    channel: &AdcChannel,
    configured: Result<(), ErrorCode>,
    result: Result<Vec<Action>, ErrorCode>,
)
    requires
        call_ensures(Adc::sample_configured, (adc, channel, configured), result),
    ensures
        match start_error(*old(adc), configured, true) {
            Some(e) => result == Err::<Vec<Action>, ErrorCode>(e) && *final(adc) == *old(adc),
            None => {
                &&& *final(adc) == (Adc {
                    active: true,
                    continuous: false,
                    timer_repeats: 0,
                    timer_counts: 0,
                    ..*old(adc)
                })
                &&& result matches Ok(actions)
                &&& actions@.len() == 4
                &&& actions@[0] matches Action::Write(Register::Seqcfg, word)
                &&& samples_channel(word, *channel, 0)
                &&& actions@[1] == Action::Write(Register::Scr, 0x2F)
                &&& actions@[2] == Action::Write(Register::Ier, 0x01)
                &&& actions@[3] == Action::Write(Register::Cr, 0x08)
            },
        },
{
    let chan_num = channel.chan_num as int % 16;
    let internal = channel.internal as int % 2;
    lemma_sequencer_word(
        0x70_0000 + chan_num * 0x1_0000 + (2 + internal) * 0x4000 + 0x71,
        chan_num,
        internal,
        0,
    );
}

/// A timer that fires every `counter + 1` ticks of a clock fires at a frequency
/// or faster, and with one tick more it would be slower, unless the counter is
/// at its limit.
pub open spec fn counts_down(counter: u32, clock: int, frequency: int) -> bool {
    &&& counter <= 0xFFFF
    &&& frequency * (counter + 1) <= clock
    &&& counter < 0xFFFF ==> clock < frequency * (counter + 2)
}

/// The counter of a timer is the quotient of clock and frequency, less one.
proof fn lemma_counter(clock: int, frequency: int)
    requires
        1 <= frequency <= clock <= u32::MAX,
    ensures
        clock / frequency >= 1,
        ({
            let q = clock / frequency;
            let counter = if q - 1 <= 0xFFFF {
                q - 1
            } else {
                0xFFFF
            };
            counts_down(counter as u32, clock, frequency)
        }),
{
    let q = clock / frequency;
    lemma_fundamental_div_mod(clock, frequency);
    assert(q >= 1 && frequency * q <= clock && clock < frequency * (q + 1)) by (nonlinear_arith)
        requires
            clock == frequency * q + clock % frequency,
            0 <= clock % frequency < frequency,
            1 <= frequency <= clock,
    ;
    if q - 1 > 0xFFFF {
        assert(frequency * 0x1_0000 <= frequency * q) by (nonlinear_arith)
            requires
                q >= 0x1_0000,
                frequency >= 1,
        ;
    }
}

/// How many fires of the timer make one sample: below 23 Hz as many as keep the
/// timer at no more than 60 Hz, and one from there on.
pub open spec fn fires_per_sample(frequency: int, fires: int) -> bool {
    if frequency < 23 {
        frequency * fires <= 60 && 60 < frequency * (fires + 1)
    } else {
        fires == 1
    }
}

/// Continuous sampling is of the channel that was asked for. Off the CPU clock
/// the internal timer triggers it, and as many fires as make one sample are
/// counted; off another clock it is triggered all the time. The timer is stopped
/// before it is set and started last.
pub proof fn law_continuous_sampling(
    adc: &mut Adc,
    channel: &AdcChannel,
    frequency: u32,
    configured: Result<(), ErrorCode>,
    result: Result<Vec<Action>, ErrorCode>,
)
    requires
        call_ensures(
            Adc::sample_continuous_configured,
            (adc, channel, frequency, configured),
            result,
        ),
        adc.cpu_clock && frequency < 23 ==> adc.adc_clk_freq >= 60,
        adc.cpu_clock ==> adc.adc_clk_freq >= frequency,
    ensures
        match start_error(*old(adc), configured, 1 <= frequency <= 10000) {
            Some(e) => result == Err::<Vec<Action>, ErrorCode>(e) && *final(adc) == *old(adc),
            None => {
                let fires = final(adc).timer_repeats + 1;
                let last = if old(adc).cpu_clock {
                    3int
                } else {
                    2int
                };
                &&& *final(adc) == (Adc {
                    active: true,
                    continuous: true,
                    timer_repeats: final(adc).timer_repeats,
                    timer_counts: 0,
                    ..*old(adc)
                })
                &&& result matches Ok(actions)
                &&& actions@.len() == last + 3
                &&& actions@[0] matches Action::Write(Register::Seqcfg, word)
                &&& samples_channel(
                    word,
                    *channel,
                    if old(adc).cpu_clock {
                        1
                    } else {
                        3
                    },
                )
                &&& actions@[1] == Action::Write(Register::Cr, 0x02)
                &&& old(adc).cpu_clock ==> {
                    &&& fires_per_sample(frequency as int, fires)
                    &&& actions@[2] matches Action::Write(Register::Itimer, counter)
                    &&& counts_down(counter, old(adc).adc_clk_freq as int, frequency * fires)
                }
                &&& !old(adc).cpu_clock ==> fires == 1
                &&& actions@[last] == Action::Write(Register::Scr, 0x2F)
                &&& actions@[last + 1] == Action::Write(Register::Ier, 0x01)
                &&& actions@[last + 2] == Action::Write(Register::Cr, 0x04)
            },
        },
{
    let chan_num = channel.chan_num as int % 16;
    let internal = channel.internal as int % 2;
    let trigger = if adc.cpu_clock {
        1int
    } else {
        3int
    };
    lemma_sequencer_word(
        0x70_0000 + chan_num * 0x1_0000 + (2 + internal) * 0x4000 + trigger * 0x100 + 0x71,
        chan_num,
        internal,
        trigger,
    );
    if adc.cpu_clock && 1 <= frequency <= 10000 {
        let f = frequency as int;
        if f < 23 {
            let n = 60int / f;
            lemma_fundamental_div_mod(60, f);
            assert(2 <= n <= 60 && f * n <= 60 && 60 < f * (n + 1)) by (nonlinear_arith)
                requires
                    60 == f * n + 60int % f,
                    0 <= 60int % f < f,
                    1 <= f < 23,
            ;
            lemma_counter(adc.adc_clk_freq as int, f * n);
        } else {
            lemma_counter(adc.adc_clk_freq as int, f);
        }
    }
}

/// Sampling into buffers is of the channel that was asked for, at the frequency
/// that was asked for. The first buffer is on its way to the DMA, for as many
/// samples as were asked for and as there is room, the second waits with its
/// length. A refused request gives both buffers back.
pub proof fn law_highspeed_sampling(
    adc: &mut Adc,
    channel: &AdcChannel,
    frequency: u32,
    buffer1: Vec<u16>,
    length1: usize,
    buffer2: Vec<u16>,
    length2: usize,
    configured: Result<(), ErrorCode>,
    result: Result<Vec<Action>, (ErrorCode, Vec<u16>, Vec<u16>)>,
)
    requires
        call_ensures(
            Adc::sample_highspeed_configured,
            (adc, channel, frequency, buffer1, length1, buffer2, length2, configured),
            result,
        ),
        adc.cpu_clock ==> adc.adc_clk_freq >= frequency,
    ensures
        match start_error(
            *old(adc),
            configured,
            old(adc).adc_clk_freq < (frequency as int) * 0x1_0000 && frequency <= 250000 && length1
                > 0,
        ) {
            Some(e) => {
                &&& result == Err::<Vec<Action>, (ErrorCode, Vec<u16>, Vec<u16>)>(
                    (e, buffer1, buffer2),
                )
                &&& *final(adc) == *old(adc)
            },
            None => {
                let timer = if old(adc).cpu_clock {
                    1int
                } else {
                    0int
                };
                let transfer = if old(adc).rx_dma is Some {
                    1int
                } else {
                    0int
                };
                &&& *final(adc) == (Adc {
                    active: true,
                    continuous: true,
                    next_dma_buffer: Some(buffer2),
                    next_dma_length: length2,
                    dma_running: old(adc).dma_running || old(adc).rx_dma is Some,
                    rx_length: final(adc).rx_length,
                    ..*old(adc)
                })
                &&& result matches Ok(actions)
                &&& actions@.len() == 4 + timer + transfer
                &&& actions@[0] matches Action::Write(Register::Seqcfg, word)
                &&& samples_channel(
                    word,
                    *channel,
                    if old(adc).cpu_clock {
                        1
                    } else {
                        3
                    },
                )
                &&& actions@[1] == Action::Write(Register::Cr, 0x02)
                &&& old(adc).cpu_clock ==> {
                    &&& actions@[2] matches Action::Write(Register::Itimer, counter)
                    &&& counts_down(counter, old(adc).adc_clk_freq as int, frequency as int)
                }
                &&& actions@[2 + timer] == Action::Write(Register::Scr, 0x2F)
                &&& match old(adc).rx_dma {
                    Some(dma) => {
                        &&& final(adc).rx_length <= length1
                        &&& final(adc).rx_length <= buffer1@.len()
                        &&& final(adc).rx_length == length1 || final(adc).rx_length
                            == buffer1@.len()
                        &&& actions@[3 + timer] == (Action::Transfer {
                            channel: dma,
                            peripheral: old(adc).rx_dma_peripheral,
                            buffer: buffer1,
                            length: final(adc).rx_length,
                        })
                    },
                    None => final(adc).rx_length == old(adc).rx_length,
                }
                &&& actions@[3 + timer + transfer] == Action::Write(Register::Cr, 0x04)
            },
        },
{
    let chan_num = channel.chan_num as int % 16;
    let internal = channel.internal as int % 2;
    let trigger = if adc.cpu_clock {
        1int
    } else {
        3int
    };
    lemma_sequencer_word(
        0x70_0000 + chan_num * 0x1_0000 + (2 + internal) * 0x4000 + trigger * 0x100 + 0x71,
        chan_num,
        internal,
        trigger,
    );
    if adc.cpu_clock && 1 <= frequency {
        lemma_counter(adc.adc_clk_freq as int, frequency as int);
    }
}

/// Whether a clock is right for a sampling frequency. Off an RC oscillator,
/// which alone allows `max` samples in a second, it is the slowest that reaches
/// the frequency; off the CPU clock, which is divided by four at least, it is
/// the fastest within the limit of the converter. The frequency that results is
/// what the division leaves.
pub open spec fn clock_fits(
    source: ClockSource,
    prescaler: int,
    resulting: int,
    frequency: int,
    cpu_frequency: int,
) -> bool {
    let p = pow2(prescaler as nat) as int;
    &&& 0 <= prescaler <= 7
    &&& source == (if frequency <= 1000 {
        ClockSource::RC32K
    } else if frequency <= 3550 {
        ClockSource::RCSYS
    } else {
        ClockSource::CpuClock
    })
    &&& match source {
        ClockSource::RC32K => {
            &&& frequency * p <= 1000
            &&& prescaler < 7 ==> 1000 < frequency * (2 * p)
            &&& resulting * p <= 1000 < (resulting + 1) * p
        },
        ClockSource::RCSYS => {
            &&& frequency * p <= 3550
            &&& prescaler < 7 ==> 3550 < frequency * (2 * p)
            &&& resulting * p <= 3550 < (resulting + 1) * p
        },
        ClockSource::CpuClock => {
            &&& prescaler < 7 ==> cpu_frequency <= 1500000 * (4 * p)
            &&& prescaler > 0 ==> 1500000 * (2 * p) < cpu_frequency
            &&& resulting * (4 * p) <= cpu_frequency < (resulting + 1) * (4 * p)
        },
    }
}

/// What a division leaves, in terms of a product.
proof fn lemma_quotient(dividend: int, divisor: int)
    requires
        dividend >= 0,
        divisor >= 1,
    ensures
        0 <= dividend / divisor <= dividend,
        dividend / divisor * divisor <= dividend < (dividend / divisor + 1) * divisor,
{
    let q = dividend / divisor;
    lemma_fundamental_div_mod(dividend, divisor);
    assert(0 <= q <= dividend && q * divisor <= dividend < (q + 1) * divisor) by (nonlinear_arith)
        requires
            dividend == divisor * q + dividend % divisor,
            0 <= dividend % divisor < divisor,
            dividend >= 0,
    ;
}

/// The clock that is selected for a sampling frequency is right for it.
pub proof fn law_selected_clock(frequency: u32, cpu_frequency: u32, selection: ClockSelection)
    requires
        call_ensures(select_clock, (frequency, cpu_frequency), selection),
        frequency != 0,
    ensures
        clock_fits(
            selection.source,
            selection.prescaler as int,
            selection.frequency as int,
            frequency as int,
            cpu_frequency as int,
        ),
{
    lemma_clock_for(frequency, cpu_frequency);
}

/// The steps of a configuration: first the converter is disabled. While
/// sampling goes on nothing is configured, and nothing is for the frequency 0
/// nor where the converter is set up for the frequency as it is.
pub proof fn law_configuration_begins(
    adc: &mut Adc,
    frequency: u32,
    result: (Vec<Action>, Result<ConfigStep, ErrorCode>),
)
    requires
        call_ensures(Adc::config_and_enable, (adc, frequency), result),
    ensures
        configuration_begun(*old(adc), frequency, *final(adc), result.0@, result.1),
{
}

/// What the beginning of a configuration comes to.
pub open spec fn configuration_begun(
    before: Adc,
    frequency: u32,
    after: Adc,
    actions: Seq<Action>,
    result: Result<ConfigStep, ErrorCode>,
) -> bool {
    let ready = before.enabled && before.configured == Some(frequency);
    if before.active || frequency == 0 || ready {
        &&& after == before
        &&& actions.len() == 0
        &&& before.active ==> result == Err::<ConfigStep, ErrorCode>(ErrorCode::BUSY)
        &&& !before.active && frequency == 0 && before.enabled ==> result == Err::<
            ConfigStep,
            ErrorCode,
        >(ErrorCode::INVAL)
        &&& !before.active && frequency == 0 && !before.enabled ==> result == Err::<
            ConfigStep,
            ErrorCode,
        >(ErrorCode::OFF)
        &&& !before.active && frequency != 0 ==> result == Ok::<ConfigStep, ErrorCode>(
            ConfigStep::Done,
        )
    } else {
        &&& after == (Adc { configured: None, ..before })
        &&& actions == seq![Action::Write(Register::Cr, 0x200)]
        &&& result matches Ok(ConfigStep::Poll(phase))
        &&& phase.frequency == frequency
        &&& phase.stage == Stage::Disabling
        &&& phase.timeout == 10000
    }
}

/// A single sample configures the converter for 1000 Hz.
pub proof fn law_single_sample_configures(
    adc: &mut Adc,
    result: (Vec<Action>, Result<ConfigStep, ErrorCode>),
)
    requires
        call_ensures(Adc::sample, (adc,), result),
    ensures
        configuration_begun(*old(adc), 1000, *final(adc), result.0@, result.1),
{
}

/// Continuous sampling configures the converter for its frequency.
pub proof fn law_continuous_sampling_configures(
    adc: &mut Adc,
    frequency: u32,
    result: (Vec<Action>, Result<ConfigStep, ErrorCode>),
)
    requires
        call_ensures(Adc::sample_continuous, (adc, frequency), result),
    ensures
        configuration_begun(*old(adc), frequency, *final(adc), result.0@, result.1),
{
}

/// Sampling into buffers configures the converter for its frequency.
pub proof fn law_highspeed_sampling_configures(
    adc: &mut Adc,
    frequency: u32,
    result: (Vec<Action>, Result<ConfigStep, ErrorCode>),
)
    requires
        call_ensures(Adc::sample_highspeed, (adc, frequency), result),
    ensures
        configuration_begun(*old(adc), frequency, *final(adc), result.0@, result.1),
{
}

/// Whether the status register shows what a configuration waits for: the enable
/// bit clear before the clock is switched and set after it, and at the end both
/// buffers ready as well.
pub open spec fn status_shows(stage: Stage, status: u32) -> bool {
    let enabled = status / 0x0100_0000 % 2 == 1;
    let reference = status / 0x1000_0000 % 2 == 1;
    let bandgap = status / 0x4000_0000 % 2 == 1;
    match stage {
        Stage::Disabling => !enabled,
        Stage::Enabling => enabled,
        Stage::Buffering => enabled && reference && bandgap,
    }
}

/// A configuration that does not see what it waits for looks again, with one
/// look fewer left, and fails with the last.
pub proof fn law_configuration_waits(
    adc: &mut Adc,
    phase: ConfigPhase,
    status: u32,
    cpu_frequency: u32,
    result: (Vec<Action>, Result<ConfigStep, ErrorCode>),
)
    requires
        call_ensures(Adc::config_polled, (adc, phase, status, cpu_frequency), result),
        phase.timeout > 0,
        !status_shows(phase.stage, status),
    ensures
        *final(adc) == *old(adc),
        result.0@.len() == 0,
        phase.timeout == 1 ==> result.1 == Err::<ConfigStep, ErrorCode>(ErrorCode::FAIL),
        phase.timeout > 1 ==> {
            &&& result.1 matches Ok(ConfigStep::Poll(next))
            &&& next.frequency == phase.frequency
            &&& next.stage == phase.stage
            &&& next.timeout + 1 == phase.timeout
        },
{
}

/// Once the converter is disabled, its clocks are turned on with a source and a
/// prescaler that are right for the frequency, the configuration with half of
/// VCC as the reference at 300 ksps and the startup time of 24 cycles are
/// written, and the converter is reset and then enabled, in this order.
pub proof fn law_configuration_selects_clock(
    adc: &mut Adc,
    phase: ConfigPhase,
    status: u32,
    cpu_frequency: u32,
    result: (Vec<Action>, Result<ConfigStep, ErrorCode>),
)
    requires
        call_ensures(Adc::config_polled, (adc, phase, status, cpu_frequency), result),
        phase.stage == Stage::Disabling,
        status_shows(phase.stage, status),
        phase.frequency != 0,
    ensures
        ({
            let actions = result.0@;
            &&& actions.len() == 6
            &&& actions[0] == Action::EnableBusClock
            &&& actions[1] matches Action::EnableGenericClock(source)
            &&& actions[2] matches Action::Write(Register::Cfg, word)
            &&& clock_fits(
                source,
                word as int / 0x100 % 8,
                final(adc).adc_clk_freq as int,
                phase.frequency as int,
                cpu_frequency as int,
            )
            // half of VCC
            &&& word % 0x10 == 8
            // 300 ksps
            &&& word / 0x10 % 4 == 0
            &&& word / 0x40 % 4 == if source == ClockSource::CpuClock {
                1int
            } else {
                0int
            }
            &&& word / 0x800 == 0
            // startup of 24 cycles
            &&& actions[3] == Action::Write(Register::Tim, 0x117)
            &&& actions[4] == Action::Write(Register::Cr, 0x001)
            &&& actions[5] == Action::Write(Register::Cr, 0x100)
            &&& *final(adc) == (Adc {
                enabled: true,
                cpu_clock: source == ClockSource::CpuClock,
                adc_clk_freq: final(adc).adc_clk_freq,
                ..*old(adc)
            })
            &&& result.1 matches Ok(ConfigStep::Poll(next))
            &&& next.frequency == phase.frequency
            &&& next.stage == Stage::Enabling
            &&& next.timeout == 10000
        }),
{
    let f = phase.frequency as int;
    let cpu = cpu_frequency as int;
    lemma2_to64();
    if f <= 1000 {
        lemma_greatest_shift_bounds(1000, f, 0);
    } else if f <= 3550 {
        lemma_greatest_shift_bounds(3550, f, 0);
    } else {
        lemma_least_shift_bounds(cpu, 6000000, 0);
    }
    let selection = clock_for(f, cpu);
    let word = config_value(selection);
    assert(word / 0x100 % 8 == selection.prescaler);
    lemma_clock_for(phase.frequency, cpu_frequency);
}

/// The clock that is determined for a sampling frequency is right for it.
proof fn lemma_clock_for(frequency: u32, cpu_frequency: u32)
    requires
        frequency != 0,
    ensures
        ({
            let selection = clock_for(frequency as int, cpu_frequency as int);
            clock_fits(
                selection.source,
                selection.prescaler as int,
                selection.frequency as int,
                frequency as int,
                cpu_frequency as int,
            )
        }),
{
    let f = frequency as int;
    let cpu = cpu_frequency as int;
    let n = prescaler_for(f, cpu);
    let p = pow2(n) as int;
    lemma2_to64();
    lemma_pow2_pos(n);
    lemma_pow2_adds(n, 1);
    lemma_pow2_adds(n, 2);
    if f <= 1000 {
        lemma_greatest_shift_bounds(1000, f, 0);
        lemma_quotient(1000, p);
    } else if f <= 3550 {
        lemma_greatest_shift_bounds(3550, f, 0);
        lemma_quotient(3550, p);
    } else {
        lemma_least_shift_bounds(cpu, 6000000, 0);
        lemma_quotient(cpu, 4 * p);
        if n > 0 {
            lemma_pow2_adds((n - 1) as nat, 1);
        }
    }
}

/// Once the converter is enabled, both buffers are asked for.
pub proof fn law_configuration_enables_buffers(
    adc: &mut Adc,
    phase: ConfigPhase,
    status: u32,
    cpu_frequency: u32,
    result: (Vec<Action>, Result<ConfigStep, ErrorCode>),
)
    requires
        call_ensures(Adc::config_polled, (adc, phase, status, cpu_frequency), result),
        phase.stage == Stage::Enabling,
        status_shows(phase.stage, status),
    ensures
        *final(adc) == *old(adc),
        result.0@.len() == 1,
        result.0@[0] == Action::Write(Register::Cr, 0x410),
        ({
            &&& result.1 matches Ok(ConfigStep::Poll(next))
            &&& next.frequency == phase.frequency
            &&& next.stage == Stage::Buffering
            &&& next.timeout == 100000
        }),
{
}

/// Once the buffers are ready the configuration is done, and its frequency
/// kept.
pub proof fn law_configuration_ends(
    adc: &mut Adc,
    phase: ConfigPhase,
    status: u32,
    cpu_frequency: u32,
    result: (Vec<Action>, Result<ConfigStep, ErrorCode>),
)
    requires
        call_ensures(Adc::config_polled, (adc, phase, status, cpu_frequency), result),
        phase.stage == Stage::Buffering,
        status_shows(phase.stage, status),
    ensures
        *final(adc) == (Adc { enabled: true, configured: Some(phase.frequency), ..*old(adc) }),
        result.0@.len() == 0,
        result.1 == Ok::<ConfigStep, ErrorCode>(ConfigStep::Done),
{
}

/// An interrupt while sampling hands out a sample where a conversion has ended
/// and as many fires were passed over as are to be; one fire more is passed over
/// where there are some left. An interrupt at any other time is turned off.
pub proof fn law_interrupt(adc: &mut Adc, status: u32, result: Interrupted)
    requires
        call_ensures(Adc::handle_interrupt, (adc, status), result),
    ensures
        ({
            let sampling = old(adc).enabled && old(adc).active;
            let ended = status % 2 == 1;
            let left = old(adc).timer_counts < old(adc).timer_repeats;
            &&& result is Sample <==> sampling && ended && !left
            &&& !(sampling && ended && left) ==> *final(adc) == *old(adc)
            &&& sampling && ended && left ==> {
                &&& final(adc).timer_counts == old(adc).timer_counts + 1
                &&& *final(adc) == (Adc {
                    timer_counts: final(adc).timer_counts,
                    ..*old(adc)
                })
            }
            &&& result matches Interrupted::Handled(actions) ==> if !sampling {
                actions@ == seq![
                    Action::Write(Register::Idr, 0x2F),
                    Action::Write(Register::Scr, 0x2F),
                ]
            } else if ended {
                actions@ == seq![Action::Write(Register::Scr, 0x01)]
            } else {
                actions@.len() == 0
            }
        }),
{
}

/// After a sample the end of the conversion is cleared. Continuous sampling
/// goes on with no fire counted, a single sample ends it.
pub proof fn law_after_sample(adc: &mut Adc, actions: Vec<Action>)
    requires
        call_ensures(Adc::sample_delivered, (adc,), actions),
    ensures
        actions@.len() == if old(adc).continuous {
            1int
        } else {
            2int
        },
        actions@.last() == Action::Write(Register::Scr, 0x01),
        !old(adc).continuous ==> actions@[0] == Action::Write(Register::Idr, 0x01),
        *final(adc) == (Adc {
            active: old(adc).active && old(adc).continuous,
            timer_counts: if old(adc).continuous {
                0
            } else {
                old(adc).timer_counts
            },
            ..*old(adc)
        }),
{
}

/// The value of a sample is the lower half of the register, whatever the upper
/// half holds.
pub proof fn law_sample_value(upper: u16, lower: u16, value: u16)
    requires
        call_ensures(Adc::sample_value, ((upper * 0x1_0000 + lower) as u32,), value),
    ensures
        value == lower,
{
}

/// The converter is told to be disabled, and the status register looked at
/// 10000 times at most. Once it shows the converter disabled the buffers and
/// both clocks are turned off; until then nothing is done.
pub proof fn law_disabling(
    adc: &mut Adc,
    timeout: u32,
    status: u32,
    begun: (Action, u32),
    result: DisableStep,
)
    requires
        call_ensures(Adc::disable, (), begun),
        call_ensures(Adc::disable_polled, (adc, timeout, status), result),
        timeout > 0,
    ensures
        begun.0 == Action::Write(Register::Cr, 0x200),
        begun.1 == 10000,
        status / 0x0100_0000 % 2 == 0 ==> {
            &&& *final(adc) == (Adc { enabled: false, ..*old(adc) })
            &&& result matches DisableStep::Done(actions)
            &&& actions@.len() == 3
            &&& actions@[0] == Action::Write(Register::Cr, 0x820)
            &&& actions@[1] == Action::DisableGenericClock
            &&& actions@[2] == Action::DisableBusClock
        },
        status / 0x0100_0000 % 2 == 1 ==> {
            &&& *final(adc) == *old(adc)
            &&& timeout > 1 ==> result == DisableStep::Poll((timeout - 1) as u32)
            &&& timeout == 1 ==> {
                &&& result matches DisableStep::Done(actions)
                &&& actions@.len() == 0
            }
        },
{
}

/// Sampling that goes on is stopped: the timer first, then the interrupt, and
/// then the converter is reset. It is to be configured again before it is used.
pub proof fn law_stop(adc: &mut Adc, result: Result<Vec<Action>, ErrorCode>)
    requires
        call_ensures(Adc::stop_sampling, (adc,), result),
    ensures
        !old(adc).enabled ==> result == Err::<Vec<Action>, ErrorCode>(ErrorCode::OFF),
        old(adc).enabled && !old(adc).active ==> result == Err::<Vec<Action>, ErrorCode>(
            ErrorCode::INVAL,
        ),
        result is Err ==> *final(adc) == *old(adc),
        old(adc).enabled && old(adc).active ==> {
            &&& *final(adc) == (Adc {
                active: false,
                continuous: false,
                dma_running: false,
                configured: None,
                ..*old(adc)
            })
            &&& result matches Ok(actions)
            &&& actions@.len() == 3
            &&& actions@[0] == Action::Write(Register::Cr, 0x02)
            &&& actions@[1] == Action::Write(Register::Idr, 0x01)
            &&& actions@[2] == Action::Write(Register::Cr, 0x01)
        },
{
}

/// The buffer that was being filled when sampling stopped goes to the client,
/// with the number of samples it was to hold, or is kept where there is none.
pub proof fn law_buffer_after_stop(
    adc: &mut Adc,
    dma_buffer: Option<Vec<u16>>,
    client_set: bool,
    report: Option<(Vec<u16>, usize)>,
)
    requires
        call_ensures(Adc::sampling_stopped, (adc, dma_buffer, client_set), report),
    ensures
        final(adc).rx_length == 0,
        *final(adc) == (Adc {
            rx_length: 0,
            stopped_buffer: final(adc).stopped_buffer,
            ..*old(adc)
        }),
        match dma_buffer {
            Some(buffer) => if client_set {
                &&& report == Some((buffer, old(adc).rx_length))
                &&& final(adc).stopped_buffer == old(adc).stopped_buffer
            } else {
                report is None && final(adc).stopped_buffer == Some(buffer)
            },
            None => report is None && final(adc).stopped_buffer == old(adc).stopped_buffer,
        },
{
}

/// A sample has twelve bits against a reference of 3.3 volts.
pub proof fn law_properties(adc: &Adc, bits: usize, millivolts: Option<usize>)
    requires
        call_ensures(Adc::get_resolution_bits, (adc,), bits),
        call_ensures(Adc::get_voltage_reference_mv, (adc,), millivolts),
    ensures
        bits == 12,
        millivolts == Some(3300usize),
{
}

/// A driver starts with the converter off, and takes the DMA channel it is
/// given.
pub proof fn law_new(peripheral: DMAPeripheral, made: Adc)
    requires
        call_ensures(Adc::new, (peripheral,), made),
    ensures
        !made.enabled && !made.active && !made.continuous && !made.dma_running && !made.cpu_clock,
        made.configured is None,
        made.adc_clk_freq == 0,
        made.timer_repeats == 0 && made.timer_counts == 0,
        made.rx_dma is None,
        made.rx_dma_peripheral == peripheral,
        made.rx_length == 0 && made.next_dma_length == 0,
        made.next_dma_buffer is None && made.stopped_buffer is None,
{
}

/// The channel that the driver is given is the one it uses; nothing else
/// changes.
pub proof fn law_set_dma(adc: &mut Adc, rx_dma: DMAChannel)
    requires
        call_ensures(Adc::set_dma, (adc, rx_dma), ()),
    ensures
        *final(adc) == (Adc { rx_dma: Some(rx_dma), ..*old(adc) }),
{
}

/// A further buffer is taken while sampling into buffers and none waits, and
/// given back otherwise.
pub proof fn law_provide_buffer(
    adc: &mut Adc,
    buf: Vec<u16>,
    length: usize,
    result: Result<(), (ErrorCode, Vec<u16>)>,
)
    requires
        call_ensures(Adc::provide_buffer, (adc, buf, length), result),
    ensures
        ({
            let repeated = old(adc).active && old(adc).continuous;
            let waits = old(adc).next_dma_buffer is Some;
            &&& result is Ok <==> old(adc).enabled && repeated && !waits
            &&& result is Ok ==> *final(adc) == (Adc {
                next_dma_buffer: Some(buf),
                next_dma_length: length,
                ..*old(adc)
            })
            &&& result matches Err(refused) ==> {
                &&& *final(adc) == *old(adc)
                &&& refused.1 == buf
                &&& refused.0 == if !old(adc).enabled {
                    ErrorCode::OFF
                } else if !repeated {
                    ErrorCode::INVAL
                } else {
                    ErrorCode::BUSY
                }
            }
        }),
{
}

/// Both buffers are given back, and none is kept, unless sampling goes on.
pub proof fn law_retrieve_buffers(
    adc: &mut Adc,
    result: Result<(Option<Vec<u16>>, Option<Vec<u16>>), ErrorCode>,
)
    requires
        call_ensures(Adc::retrieve_buffers, (adc,), result),
    ensures
        result is Ok <==> !old(adc).active,
        result matches Ok(buffers) ==> {
            &&& buffers.0 == old(adc).next_dma_buffer
            &&& buffers.1 == old(adc).stopped_buffer
            &&& *final(adc) == (Adc { next_dma_buffer: None, stopped_buffer: None, ..*old(adc) })
        },
        result matches Err(e) ==> e == ErrorCode::INVAL && *final(adc) == *old(adc),
{
}

/// A transfer of the converter's own peripheral is ended on the channel in use;
/// another's is none of its business.
pub proof fn law_transfer_done(adc: &mut Adc, pid: DMAPeripheral, result: TransferDone)
    requires
        call_ensures(Adc::transfer_done, (adc, pid), result),
    ensures
        pid.0 != old(adc).rx_dma_peripheral.0 ==> result is Ignored && *final(adc) == *old(adc),
        pid.0 == old(adc).rx_dma_peripheral.0 ==> match old(adc).rx_dma {
            Some(channel) => {
                &&& result == TransferDone::Abort(channel)
                &&& *final(adc) == (Adc { dma_running: false, ..*old(adc) })
            },
            None => result is NoChannel && *final(adc) == *old(adc),
        },
{
}

/// A full buffer is reported with the number of samples that it was to hold.
/// The buffer that waits is then on its way to the DMA, for as many samples as
/// were asked for and as there is room; one without room goes on waiting.
pub proof fn law_transfer_aborted(
    adc: &mut Adc,
    dma_buffer: Option<Vec<u16>>,
    result: (Vec<Action>, Option<(Vec<u16>, usize)>),
)
    requires
        call_ensures(Adc::transfer_aborted, (adc, dma_buffer), result),
    ensures
        match dma_buffer {
            Some(buffer) => result.1 == Some((buffer, old(adc).rx_length)),
            None => result.1 is None,
        },
        ({
            let waiting = old(adc).next_dma_buffer;
            let fits = waiting is Some && waiting->Some_0@.len() > 0 && old(adc).next_dma_length
                > 0;
            let passed = fits && old(adc).rx_dma is Some;
            &&& !fits ==> *final(adc) == *old(adc)
            &&& fits ==> *final(adc) == (Adc {
                next_dma_buffer: None,
                dma_running: old(adc).dma_running || passed,
                rx_length: final(adc).rx_length,
                ..*old(adc)
            })
            &&& !passed ==> result.0@.len() == 0 && final(adc).rx_length == old(adc).rx_length
            &&& passed ==> {
                let length = final(adc).rx_length;
                &&& length <= old(adc).next_dma_length
                &&& length <= waiting->Some_0@.len()
                &&& length == old(adc).next_dma_length || length == waiting->Some_0@.len()
                &&& result.0@.len() == 1
                &&& result.0@[0] == (Action::Transfer {
                    channel: old(adc).rx_dma->Some_0,
                    peripheral: old(adc).rx_dma_peripheral,
                    buffer: waiting->Some_0,
                    length,
                })
            }
        }),
{
}

/// Whether the timer can run at a frequency is told before sampling starts: it
/// cannot where a start that would not be refused needs the timer faster than
/// the clock.
pub proof fn law_timer_runs(
    adc: &Adc,
    frequency: u32,
    length: usize,
    configured: Result<(), ErrorCode>,
    continuous: bool,
    highspeed: bool,
)
    requires
        call_ensures(Adc::continuous_timer_runs, (adc, frequency, configured), continuous),
        call_ensures(Adc::highspeed_timer_runs, (adc, frequency, length, configured), highspeed),
    ensures
        !continuous <==> {
            &&& start_error(*adc, configured, 1 <= frequency <= 10000) is None
            &&& adc.cpu_clock
            &&& exists|fires: int|
                fires_per_sample(frequency as int, fires) && adc.adc_clk_freq < frequency * fires
        },
        !highspeed <==> {
            &&& start_error(
                *adc,
                configured,
                adc.adc_clk_freq < (frequency as int) * 0x1_0000 && frequency <= 250000 && length
                    > 0,
            ) is None
            &&& adc.cpu_clock
            &&& adc.adc_clk_freq < frequency
        },
{
    let f = frequency as int;
    if 1 <= f < 23 {
        let n = 60int / f;
        lemma_fundamental_div_mod(60, f);
        assert(f * n <= 60 && 60 < f * (n + 1)) by (nonlinear_arith)
            requires
                60 == f * n + 60int % f,
                0 <= 60int % f < f,
        ;
        assert(fires_per_sample(f, n));
        assert forall|fires: int| fires_per_sample(f, fires) implies fires == n by {
            assert(fires == n) by (nonlinear_arith)
                requires
                    f * n <= 60,
                    60 < f * (n + 1),
                    f * fires <= 60,
                    60 < f * (fires + 1),
                    f >= 1,
            ;
        }
    } else if f >= 23 {
        assert(fires_per_sample(f, 1));
    }
}

/// A bit of a word is told whatever stands above and below it.
pub proof fn law_bit_told(upper: int, bit: int, lower: int, mask: u32, word: u32, set: bool)
    requires
        call_ensures(is_set, (word, mask), set),
        0 <= bit < 2,
        0 <= upper,
        0 <= lower < mask,
        word == (2 * upper + bit) * mask + lower,
    ensures
        set <==> bit == 1,
{
    let q = 2 * upper + bit;
    lemma_fundamental_div_mod_converse(word as int, mask as int, q, lower);
}

/// The power of two that is found for a number is the least that is not below it.
pub proof fn law_closest_power(num: u32, result: u32, k: nat)
    requires
        call_ensures(closest_power_of_two, (num,), result),
        1 <= num,
    ensures
        num <= result,
        num <= pow2(k) ==> result <= pow2(k),
        exists|e: nat| result == #[trigger] pow2(e),
{
    let e = choose|e: nat| result == #[trigger] pow2(e);
    if num <= pow2(k) && k < e {
        lemma_pow2_strictly_increases(k, e);
        lemma_pow2_unfold(e);
        if k < e - 1 {
            lemma_pow2_strictly_increases(k, (e - 1) as nat);
        }
    } else if e < k {
        lemma_pow2_strictly_increases(e, k);
    }
}

/// The logarithm of a number is the greatest exponent whose power of two is not
/// above it.
pub proof fn law_logarithm(num: u32, result: u32, k: nat)
    requires
        call_ensures(log_base_two, (num,), result),
    ensures
        num == 0 ==> result == 0,
        num > 0 ==> pow2(result as nat) <= num,
        num > 0 && pow2(k) <= num ==> k <= result,
{
    if num > 0 && k > result {
        if k > result + 1 {
            lemma_pow2_strictly_increases((result + 1) as nat, k);
        }
    }
}

/// A look at the status register can be dealt with as long as looks are left, and
/// the clock selected for any frequency but 0 off an oscillator, and off the CPU
/// clock where that runs and the rounding up of its quotient does not overflow.
pub proof fn law_configuration_is_possible(
    adc: &mut Adc,
    phase: ConfigPhase,
    status: u32,
    cpu_frequency: u32,
)
    requires
        phase.timeout > 0,
        phase.stage == Stage::Disabling && status_shows(phase.stage, status) ==> {
            &&& phase.frequency != 0
            &&& phase.frequency > 3550 ==> 1 <= cpu_frequency <= u32::MAX - 1499999
        },
    ensures
        call_requires(Adc::config_polled, (old(adc), phase, status, cpu_frequency)),
        phase.stage == Stage::Disabling && status_shows(phase.stage, status) ==> call_requires(
            select_clock,
            (phase.frequency, cpu_frequency),
        ),
{
}

/// Sampling can be started, whatever comes of it, wherever the clock is not
/// slower than the timer that it needs.
pub proof fn law_start_is_possible(
    adc: &mut Adc,
    channel: &AdcChannel,
    frequency: u32,
    buffer1: Vec<u16>,
    length1: usize,
    buffer2: Vec<u16>,
    length2: usize,
    configured: Result<(), ErrorCode>,
)
    requires
        adc.cpu_clock && frequency < 23 ==> adc.adc_clk_freq >= 60,
        adc.cpu_clock ==> adc.adc_clk_freq >= frequency,
    ensures
        call_requires(
            Adc::sample_continuous_configured,
            (old(adc), channel, frequency, configured),
        ),
        call_requires(
            Adc::sample_highspeed_configured,
            (old(adc), channel, frequency, buffer1, length1, buffer2, length2, configured),
        ),
{
    let f = frequency as int;
    if 1 <= f < 23 {
        let n = 60int / f;
        lemma_fundamental_div_mod(60, f);
        assert(f * n <= 60) by (nonlinear_arith)
            requires
                60 == f * n + 60int % f,
                0 <= 60int % f < f,
        ;
    }
}

} // verus!
