//! Implementation of the SAM4L ADCIFE.
//!
//! This is an implementation of the SAM4L analog to digital converter. It is
//! bare-bones because it provides little flexibility on how samples are taken.
//! Currently, all samples:
//!
//! - are 12 bits
//! - use the ground pad as the negative reference
//! - use a VCC/2 positive reference
//! - use a gain of 0.5x
//! - are left justified
//!
//! Samples can either be collected individually or continuously at a specified
//! frequency.
//!
//! The driver decides what the hardware is to do; whoever runs it does that in
//! the order given, and hands back what the status register shows and what the
//! DMA delivers.
use crate::adc_clock::{
    clock_for, select_clock, ClockSelection, ClockSource, MAX_ADC_CLOCK, RCSYS_MAX_FREQUENCY,
};
use crate::adc_registers::{
    bit_set, is_set, Register, CFG_CLKSEL_APB, CFG_CLKSEL_GENERIC, CFG_PRESCAL,
    CFG_REFSEL_VCC_X0P5, CFG_SPEED_KSPS300, CR_BGREQDIS, CR_BGREQEN, CR_DIS, CR_EN, CR_REFBUFDIS,
    CR_REFBUFEN, CR_STRIG, CR_SWRST, CR_TSTART, CR_TSTOP, INTERRUPT_ALL, INTERRUPT_SEOC,
    ITIMER_MAX, SEQCFG_GAIN_0P5X, SEQCFG_HWLA, SEQCFG_INTERNAL, SEQCFG_MUXNEG_GROUND,
    SEQCFG_MUXPOS, SEQCFG_TRGSEL_CONTINUOUS, SEQCFG_TRGSEL_INTERNAL_TIMER, SEQCFG_TRGSEL_SOFTWARE,
    SR_BGREQ, SR_EN, SR_REFBUF, SR_SEOC, TIM_STARTUP_24_CYCLES,
};
use crate::error_code::ErrorCode;
use vstd::prelude::*;

verus! {

/// SAM4L ADC channels.
#[derive(Copy, Clone, Debug, PartialEq, Eq, Structural)]
pub enum Channel {
    AD0,
    AD1,
    AD2,
    AD3,
    AD4,
    AD5,
    AD6,
    AD7,
    AD8,
    AD9,
    AD10,
    AD11,
    AD12,
    AD13,
    AD14,
    Bandgap,
    ScaledVCC,
    DAC,
    Vsingle,
    ReferenceGround,
}

impl Channel {
    /// The number of the channel: the low four bits select the input, the
    /// fifth is set for the internal ones.
    pub open spec fn spec_number(self) -> u8 {
        match self {
            Channel::AD0 => 0x00,
            Channel::AD1 => 0x01,
            Channel::AD2 => 0x02,
            Channel::AD3 => 0x03,
            Channel::AD4 => 0x04,
            Channel::AD5 => 0x05,
            Channel::AD6 => 0x06,
            Channel::AD7 => 0x07,
            Channel::AD8 => 0x08,
            Channel::AD9 => 0x09,
            Channel::AD10 => 0x0A,
            Channel::AD11 => 0x0B,
            Channel::AD12 => 0x0C,
            Channel::AD13 => 0x0D,
            Channel::AD14 => 0x0E,
            Channel::Bandgap => 0x0F,
            Channel::ScaledVCC => 0x12,
            Channel::DAC => 0x13,
            Channel::Vsingle => 0x16,
            Channel::ReferenceGround => 0x17,
        }
    }

    /// The number of the channel.
    pub fn number(self) -> (number: u8)
        ensures
            number == self.spec_number(),
    {
        match self {
            Channel::AD0 => 0x00,
            Channel::AD1 => 0x01,
            Channel::AD2 => 0x02,
            Channel::AD3 => 0x03,
            Channel::AD4 => 0x04,
            Channel::AD5 => 0x05,
            Channel::AD6 => 0x06,
            Channel::AD7 => 0x07,
            Channel::AD8 => 0x08,
            Channel::AD9 => 0x09,
            Channel::AD10 => 0x0A,
            Channel::AD11 => 0x0B,
            Channel::AD12 => 0x0C,
            Channel::AD13 => 0x0D,
            Channel::AD14 => 0x0E,
            Channel::Bandgap => 0x0F,
            Channel::ScaledVCC => 0x12,
            Channel::DAC => 0x13,
            Channel::Vsingle => 0x16,
            Channel::ReferenceGround => 0x17,
        }
    }
}

/// Representation of an ADC channel on the SAM4L.
#[derive(Copy, Clone, Debug, PartialEq, Eq, Structural)]
pub struct AdcChannel {
    /// The input that the channel selects.
    pub chan_num: u32,
    /// 1 for an internal channel, 0 for a pad.
    pub internal: u32,
}

impl AdcChannel {
    /// The representation of a channel.
    pub open spec fn of(channel: Channel) -> AdcChannel {
        AdcChannel {
            chan_num: (channel.spec_number() % 16) as u32,
            internal: (channel.spec_number() / 16) as u32,
        }
    }

    /// Create a new ADC channel.
    ///
    /// - `channel`: Channel enum representing the channel number and whether it
    ///   is internal
    pub fn new(channel: Channel) -> (result: AdcChannel)
        ensures
            result == Self::of(channel),
    {
        let number: u8 = channel.number();
        assert(number & 0x0F == number % 16) by (bit_vector);
        assert((number >> 4) & 0x01 == number / 16) by (bit_vector)
            requires
                number < 32,
        ;
        AdcChannel { chan_num: (number & 0x0F) as u32, internal: ((number >> 4) & 0x01) as u32 }
    }
}

/// Identifies a channel of the DMA controller.
#[derive(Copy, Clone, Debug, PartialEq, Eq, Structural)]
pub struct DMAChannel(pub usize);

/// Identifies a peripheral that the DMA controller serves.
#[derive(Copy, Clone, Debug, PartialEq, Eq, Structural)]
pub struct DMAPeripheral(pub u8);

/// Something that the hardware is to do.
#[derive(Debug, PartialEq)]
pub enum Action {
    /// Write a register.
    Write(Register, u32),
    /// Turn on the ADCIFE bus clock.
    EnableBusClock,
    /// Turn off the ADCIFE bus clock.
    DisableBusClock,
    /// Run the generic clock off a source.
    EnableGenericClock(ClockSource),
    /// Stop the generic clock.
    DisableGenericClock,
    /// Enable a DMA channel, and have it receive `length` samples into the
    /// buffer.
    Transfer {
        /// The channel to use.
        channel: DMAChannel,
        /// The peripheral that is served.
        peripheral: DMAPeripheral,
        /// The buffer to fill.
        buffer: Vec<u16>,
        /// The number of samples to receive.
        length: usize,
    },
}

/// What a configuration waits for.
#[derive(Copy, Clone, Debug, PartialEq, Eq, Structural)]
pub enum Stage {
    /// The converter is to be disabled before the clocks can be switched.
    Disabling,
    /// The converter is to be enabled.
    Enabling,
    /// The buffers are to be enabled.
    Buffering,
}

/// A configuration that waits for the status register.
#[derive(Copy, Clone, Debug, PartialEq, Eq, Structural)]
pub struct ConfigPhase {
    /// The frequency to configure.
    pub frequency: u32,
    /// What is waited for.
    pub stage: Stage,
    /// How often the status register is looked at before the wait is given up.
    pub timeout: u32,
}

/// How a configuration goes on.
#[derive(Copy, Clone, Debug, PartialEq, Eq, Structural)]
pub enum ConfigStep {
    /// The status register is to be read, and handed to `Adc::config_polled`.
    Poll(ConfigPhase),
    /// The converter is configured.
    Done,
}

/// How the disabling of the converter goes on.
#[derive(Debug, PartialEq)]
pub enum DisableStep {
    /// The status register is to be read, and handed to `Adc::disable_polled`
    /// with this timeout.
    Poll(u32),
    /// The wait is over, and this is to be done.
    Done(Vec<Action>),
}

/// What is to be done after an interrupt.
#[derive(Debug, PartialEq)]
pub enum Interrupted {
    /// These actions, and no more.
    Handled(Vec<Action>),
    /// The client is to be given the sample in the last converted value
    /// register, and `Adc::sample_delivered` to be called after that.
    Sample,
}

/// What is to be done after the DMA has completed a transfer.
#[derive(Copy, Clone, Debug, PartialEq, Eq, Structural)]
pub enum TransferDone {
    /// Nothing: the transfer was another peripheral's.
    Ignored,
    /// The transfer on this channel is to be aborted, the channel disabled, and
    /// the buffer that comes back handed to `Adc::transfer_aborted`.
    Abort(DMAChannel),
    /// There is no channel, hence no buffer: `Adc::transfer_aborted` is to be
    /// called without one.
    NoChannel,
}

/// How often the status register is looked at for the converter to be disabled
/// or enabled.
pub const ENABLE_TIMEOUT: u32 = 10000;

/// How often the status register is looked at for the buffers to be enabled.
pub const BUFFER_TIMEOUT: u32 = 100000;

/// The sampling frequency that single samples are configured for.
pub const SINGLE_SAMPLE_FREQUENCY: u32 = 1000;

/// The highest frequency of continuous sampling with a callback per sample.
pub const MAX_CONTINUOUS_FREQUENCY: u32 = 10000;

/// The highest frequency of sampling into buffers.
pub const MAX_HIGHSPEED_FREQUENCY: u32 = 250000;

/// ADC driver code for the SAM4L.
pub struct Adc {
    /// Whether the converter is enabled.
    pub enabled: bool,
    /// The frequency that the last configuration was asked for, if it ended well
    /// and the converter was not told to be disabled since.
    pub configured: Option<u32>,
    /// The clock that resulted from the configuration.
    pub adc_clk_freq: u32,
    /// Whether sampling is going on.
    pub active: bool,
    /// Whether sampling goes on after a sample.
    pub continuous: bool,
    /// Whether the DMA is receiving samples.
    pub dma_running: bool,
    /// Whether the converter runs off the CPU clock.
    pub cpu_clock: bool,
    /// How many timer fires are passed over before a sample is delivered.
    pub timer_repeats: u8,
    /// How many timer fires have been passed over.
    pub timer_counts: u8,
    /// The DMA channel to use.
    pub rx_dma: Option<DMAChannel>,
    /// The peripheral type used for DMA transactions.
    pub rx_dma_peripheral: DMAPeripheral,
    /// The number of samples that the DMA receives.
    pub rx_length: usize,
    /// The buffer to fill next.
    pub next_dma_buffer: Option<Vec<u16>>,
    /// The number of samples to receive into it.
    pub next_dma_length: usize,
    /// The buffer that was being filled when sampling stopped, where there was
    /// no client to return it to.
    pub stopped_buffer: Option<Vec<u16>>,
}

/// The configuration register for a clock.
pub open spec fn config_value(selection: ClockSelection) -> int {
    CFG_SPEED_KSPS300 + CFG_REFSEL_VCC_X0P5 + selection.prescaler * CFG_PRESCAL + (
    if selection.source == ClockSource::CpuClock {
        CFG_CLKSEL_APB
    } else {
        CFG_CLKSEL_GENERIC
    })
}

/// What the hardware is to do to run off a clock.
pub open spec fn clock_actions(selection: ClockSelection) -> Seq<Action> {
    seq![
        Action::EnableBusClock,
        Action::EnableGenericClock(selection.source),
        Action::Write(Register::Cfg, config_value(selection) as u32),
        Action::Write(Register::Tim, TIM_STARTUP_24_CYCLES),
        Action::Write(Register::Cr, CR_SWRST),
        Action::Write(Register::Cr, CR_EN),
    ]
}

/// The state after the clock was selected.
pub open spec fn clock_selected(adc: Adc, selection: ClockSelection) -> Adc {
    Adc {
        enabled: true,
        cpu_clock: selection.source == ClockSource::CpuClock,
        adc_clk_freq: selection.frequency,
        ..adc
    }
}

/// What a request for a sampling frequency comes to: the state, what to do, and
/// how the configuration goes on. Where the converter is enabled, and configured
/// for the frequency, nothing is left to do. No clock is configured for the
/// frequency 0.
pub open spec fn config_begun(adc: Adc, frequency: u32) -> (
    Adc,
    Seq<Action>,
    Result<ConfigStep, ErrorCode>,
) {
    if adc.active {
        (adc, seq![], Err(ErrorCode::BUSY))
    } else if frequency == 0 {
        (
            adc,
            seq![],
            Err(
                if adc.enabled {
                    ErrorCode::INVAL
                } else {
                    ErrorCode::OFF
                },
            ),
        )
    } else if adc.enabled && adc.configured == Some(frequency) {
        (adc, seq![], Ok(ConfigStep::Done))
    } else {
        (
            Adc { configured: None, ..adc },
            seq![Action::Write(Register::Cr, CR_DIS)],
            Ok(
                ConfigStep::Poll(
                    ConfigPhase { frequency, stage: Stage::Disabling, timeout: ENABLE_TIMEOUT },
                ),
            ),
        )
    }
}

/// Whether the status register shows what is waited for.
pub open spec fn stage_reached(stage: Stage, status: u32) -> bool {
    match stage {
        Stage::Disabling => !bit_set(status, SR_EN),
        Stage::Enabling => bit_set(status, SR_EN),
        Stage::Buffering => bit_set(status, SR_BGREQ) && bit_set(status, SR_REFBUF) && bit_set(
            status,
            SR_EN,
        ),
    }
}

/// What a look at the status register comes to: the state, what to do, and how
/// the configuration goes on.
pub open spec fn config_step(adc: Adc, phase: ConfigPhase, status: u32, cpu_frequency: u32) -> (
    Adc,
    Seq<Action>,
    Result<ConfigStep, ErrorCode>,
) {
    if !stage_reached(phase.stage, status) {
        (
            adc,
            seq![],
            if phase.timeout <= 1 {
                Err(ErrorCode::FAIL)
            } else {
                Ok(
                    ConfigStep::Poll(
                        ConfigPhase { timeout: (phase.timeout - 1) as u32, ..phase },
                    ),
                )
            },
        )
    } else {
        match phase.stage {
            Stage::Disabling => {
                let selection = clock_for(phase.frequency as int, cpu_frequency as int);
                (
                    clock_selected(adc, selection),
                    clock_actions(selection),
                    Ok(
                        ConfigStep::Poll(
                            ConfigPhase {
                                stage: Stage::Enabling,
                                timeout: ENABLE_TIMEOUT,
                                ..phase
                            },
                        ),
                    ),
                )
            },
            Stage::Enabling => (
                adc,
                seq![Action::Write(Register::Cr, (CR_BGREQEN + CR_REFBUFEN) as u32)],
                Ok(
                    ConfigStep::Poll(
                        ConfigPhase { stage: Stage::Buffering, timeout: BUFFER_TIMEOUT, ..phase },
                    ),
                ),
            ),
            Stage::Buffering => (
                Adc { enabled: true, configured: Some(phase.frequency), ..adc },
                seq![],
                Ok(ConfigStep::Done),
            ),
        }
    }
}

/// The frequencies that a clock can be determined for: no division by zero and
/// no overflow.
pub open spec fn config_possible(frequency: u32, cpu_frequency: u32) -> bool {
    &&& frequency != 0
    &&& frequency > RCSYS_MAX_FREQUENCY ==> 1 <= cpu_frequency <= u32::MAX - (MAX_ADC_CLOCK - 1)
}

/// What an interrupt comes to: the state, and what to do. `None` stands for a
/// sample that is to be delivered.
pub open spec fn interrupted(adc: Adc, status: u32) -> (Adc, Option<Seq<Action>>) {
    if adc.enabled && adc.active {
        if !bit_set(status, SR_SEOC) {
            (adc, Some(seq![]))
        } else if adc.timer_counts >= adc.timer_repeats {
            (adc, None)
        } else {
            (
                Adc { timer_counts: (adc.timer_counts + 1) as u8, ..adc },
                Some(seq![Action::Write(Register::Scr, INTERRUPT_SEOC)]),
            )
        }
    } else {
        (
            adc,
            Some(
                seq![
                    Action::Write(Register::Idr, INTERRUPT_ALL),
                    Action::Write(Register::Scr, INTERRUPT_ALL),
                ],
            ),
        )
    }
}

/// The state after a sample was delivered, and what to do.
pub open spec fn delivered(adc: Adc) -> (Adc, Seq<Action>) {
    if adc.continuous {
        (
            Adc { timer_counts: 0, ..adc },
            seq![Action::Write(Register::Scr, INTERRUPT_SEOC)],
        )
    } else {
        (
            Adc { active: false, ..adc },
            seq![
                Action::Write(Register::Idr, INTERRUPT_SEOC),
                Action::Write(Register::Scr, INTERRUPT_SEOC),
            ],
        )
    }
}

/// Why sampling cannot start, whatever the request, given how the
/// configuration for it ended.
pub open spec fn start_refused(adc: Adc, configured: Result<(), ErrorCode>) -> Option<ErrorCode> {
    match configured {
        Err(e) => Some(e),
        Ok(_) => if !adc.enabled {
            Some(ErrorCode::OFF)
        } else if adc.active {
            Some(ErrorCode::BUSY)
        } else {
            None
        },
    }
}

/// The sequencer configuration for a channel and a trigger.
pub open spec fn sequencer_value(channel: AdcChannel, trigger: u32) -> int {
    SEQCFG_MUXNEG_GROUND + (channel.chan_num % 16) * SEQCFG_MUXPOS + (2 + channel.internal % 2)
        * SEQCFG_INTERNAL + trigger + SEQCFG_GAIN_0P5X + SEQCFG_HWLA
}

/// The trigger of repeated samples, which rests on how good the clock is.
pub open spec fn repeated_trigger(adc: Adc) -> u32 {
    if adc.cpu_clock {
        SEQCFG_TRGSEL_INTERNAL_TIMER
    } else {
        SEQCFG_TRGSEL_CONTINUOUS
    }
}

/// Why continuous sampling cannot start.
pub open spec fn continuous_refused(
    adc: Adc,
    frequency: u32,
    configured: Result<(), ErrorCode>,
) -> Option<ErrorCode> {
    match start_refused(adc, configured) {
        Some(e) => Some(e),
        None => if frequency == 0 || frequency > MAX_CONTINUOUS_FREQUENCY {
            Some(ErrorCode::INVAL)
        } else {
            None
        },
    }
}

/// Why sampling into buffers cannot start.
pub open spec fn highspeed_refused(
    adc: Adc,
    frequency: u32,
    length: usize,
    configured: Result<(), ErrorCode>,
) -> Option<ErrorCode> {
    match start_refused(adc, configured) {
        Some(e) => Some(e),
        None => if frequency <= adc.adc_clk_freq as int / 0x1_0000 || frequency
            > MAX_HIGHSPEED_FREQUENCY || length == 0 {
            Some(ErrorCode::INVAL)
        } else {
            None
        },
    }
}

/// How many timer fires are passed over before a sample is delivered: below
/// 23 Hz the timer alone is too fast, and a sample is delivered at every N-th
/// fire.
pub open spec fn repeats_for(frequency: int) -> int {
    if frequency < 23 {
        60int / frequency - 1
    } else {
        0
    }
}

/// The frequency that the timer is to run at for a sampling frequency.
pub open spec fn timer_frequency(frequency: int) -> int {
    if frequency < 23 {
        frequency * (60int / frequency)
    } else {
        frequency
    }
}

/// Whether the clock is fast enough for the timer of continuous sampling, where
/// sampling can start and a timer is needed.
pub open spec fn continuous_timer_ok(
    adc: Adc,
    frequency: u32,
    configured: Result<(), ErrorCode>,
) -> bool {
    continuous_refused(adc, frequency, configured) is None && adc.cpu_clock ==> adc.adc_clk_freq
        >= timer_frequency(frequency as int)
}

/// Whether the clock is fast enough for the timer of sampling into buffers,
/// where sampling can start and a timer is needed.
pub open spec fn highspeed_timer_ok(
    adc: Adc,
    frequency: u32,
    length: usize,
    configured: Result<(), ErrorCode>,
) -> bool {
    highspeed_refused(adc, frequency, length, configured) is None && adc.cpu_clock
        ==> adc.adc_clk_freq >= frequency
}

/// The counter that makes the timer run at a frequency:
/// f(timer) = f(adc) / (counter + 1), limited to what the timer can count.
pub open spec fn timer_counter(adc_clk_freq: int, frequency: int) -> int {
    let counter = adc_clk_freq / frequency - 1;
    if counter <= ITIMER_MAX {
        counter
    } else {
        ITIMER_MAX as int
    }
}

/// The state after a single sample was started.
pub open spec fn single_started(adc: Adc) -> Adc {
    Adc { active: true, continuous: false, timer_repeats: 0, timer_counts: 0, ..adc }
}

/// The state after continuous sampling was started.
pub open spec fn continuous_started(adc: Adc, frequency: u32) -> Adc {
    Adc {
        active: true,
        continuous: true,
        timer_repeats: if adc.cpu_clock {
            repeats_for(frequency as int) as u8
        } else {
            0
        },
        timer_counts: 0,
        ..adc
    }
}

/// What starts continuous sampling.
pub open spec fn continuous_actions(adc: Adc, channel: AdcChannel, frequency: u32) -> Seq<Action> {
    let first = seq![
        Action::Write(Register::Seqcfg, sequencer_value(channel, repeated_trigger(adc)) as u32),
        Action::Write(Register::Cr, CR_TSTOP),
    ];
    let timer = if adc.cpu_clock {
        seq![
            Action::Write(
                Register::Itimer,
                timer_counter(adc.adc_clk_freq as int, timer_frequency(frequency as int)) as u32,
            ),
        ]
    } else {
        seq![]
    };
    first + timer + seq![
        Action::Write(Register::Scr, INTERRUPT_ALL),
        Action::Write(Register::Ier, INTERRUPT_SEOC),
        Action::Write(Register::Cr, CR_TSTART),
    ]
}

/// The number of samples to receive into a buffer.
pub open spec fn receive_length(buffer: Vec<u16>, length: usize) -> usize {
    if buffer@.len() <= length {
        buffer@.len() as usize
    } else {
        length
    }
}

/// The state after a transfer into a buffer was started, if there is a channel
/// for it.
pub open spec fn transfer_started(adc: Adc, length: usize) -> Adc {
    if adc.rx_dma is Some {
        Adc { dma_running: true, rx_length: length, ..adc }
    } else {
        adc
    }
}

/// What starts a transfer into a buffer, if there is a channel for it.
pub open spec fn transfer_actions(adc: Adc, buffer: Vec<u16>, length: usize) -> Seq<Action> {
    match adc.rx_dma {
        Some(channel) => seq![
            Action::Transfer { channel, peripheral: adc.rx_dma_peripheral, buffer, length },
        ],
        None => seq![],
    }
}

/// The state after sampling into buffers was started.
pub open spec fn highspeed_started(
    adc: Adc,
    buffer1: Vec<u16>,
    length1: usize,
    buffer2: Vec<u16>,
    length2: usize,
) -> Adc {
    transfer_started(
        Adc {
            active: true,
            continuous: true,
            next_dma_buffer: Some(buffer2),
            next_dma_length: length2,
            ..adc
        },
        receive_length(buffer1, length1),
    )
}

/// What starts sampling into buffers.
pub open spec fn highspeed_actions(
    adc: Adc,
    channel: AdcChannel,
    frequency: u32,
    buffer1: Vec<u16>,
    length1: usize,
) -> Seq<Action> {
    let first = seq![
        Action::Write(Register::Seqcfg, sequencer_value(channel, repeated_trigger(adc)) as u32),
        Action::Write(Register::Cr, CR_TSTOP),
    ];
    let timer = if adc.cpu_clock {
        seq![
            Action::Write(
                Register::Itimer,
                timer_counter(adc.adc_clk_freq as int, frequency as int) as u32,
            ),
        ]
    } else {
        seq![]
    };
    first + timer + seq![Action::Write(Register::Scr, INTERRUPT_ALL)] + transfer_actions(
        adc,
        buffer1,
        receive_length(buffer1, length1),
    ) + seq![Action::Write(Register::Cr, CR_TSTART)]
}

/// The state after sampling was told to stop. The converter, which is to be
/// disabled, has to be configured again before it is used.
pub open spec fn stop_begun(adc: Adc) -> Adc {
    Adc { active: false, continuous: false, dma_running: false, configured: None, ..adc }
}

/// The state after the DMA gave back what it was filling when sampling
/// stopped. A buffer that no client can be given is kept.
pub open spec fn stop_ended(adc: Adc, dma_buffer: Option<Vec<u16>>, client_set: bool) -> Adc {
    Adc {
        rx_length: 0,
        stopped_buffer: if dma_buffer is Some && !client_set {
            dma_buffer
        } else {
            adc.stopped_buffer
        },
        ..adc
    }
}

/// What a client is given when sampling stops: the buffer that the DMA was
/// filling, and the number of samples that the DMA was to receive into it.
pub open spec fn stop_report(adc: Adc, dma_buffer: Option<Vec<u16>>, client_set: bool) -> Option<
    (Vec<u16>, usize),
> {
    match dma_buffer {
        Some(buffer) if client_set => Some((buffer, adc.rx_length)),
        _ => None,
    }
}

/// Why a further buffer cannot be taken.
pub open spec fn provide_refused(adc: Adc) -> Option<ErrorCode> {
    if !adc.enabled {
        Some(ErrorCode::OFF)
    } else if !adc.active || !adc.continuous {
        Some(ErrorCode::INVAL)
    } else if adc.next_dma_buffer is Some {
        Some(ErrorCode::BUSY)
    } else {
        None
    }
}

/// The state after the DMA gave back a full buffer: the next one, unless it
/// has no room, is on its way to the DMA.
pub open spec fn buffer_passed_on(adc: Adc) -> Adc {
    match adc.next_dma_buffer {
        Some(buffer) => if receive_length(buffer, adc.next_dma_length) > 0 {
            transfer_started(
                Adc { next_dma_buffer: None, ..adc },
                receive_length(buffer, adc.next_dma_length),
            )
        } else {
            adc
        },
        None => adc,
    }
}

/// What passes the next buffer to the DMA.
pub open spec fn pass_on_actions(adc: Adc) -> Seq<Action> {
    match adc.next_dma_buffer {
        Some(buffer) => if receive_length(buffer, adc.next_dma_length) > 0 {
            transfer_actions(adc, buffer, receive_length(buffer, adc.next_dma_length))
        } else {
            seq![]
        },
        None => seq![],
    }
}

impl Adc {
    /// Create a new ADC driver.
    ///
    /// - `rx_dma_peripheral`: type used for DMA transactions
    pub fn new(rx_dma_peripheral: DMAPeripheral) -> (adc: Adc)
        ensures
            adc == (Adc {
                enabled: false,
                configured: None,
                adc_clk_freq: 0,
                active: false,
                continuous: false,
                dma_running: false,
                cpu_clock: false,
                timer_repeats: 0,
                timer_counts: 0,
                rx_dma: None,
                rx_dma_peripheral,
                rx_length: 0,
                next_dma_buffer: None,
                next_dma_length: 0,
                stopped_buffer: None,
            }),
    {
        Adc {
            // status of the ADC peripheral
            enabled: false,
            configured: None,
            adc_clk_freq: 0,
            active: false,
            continuous: false,
            dma_running: false,
            cpu_clock: false,
            // timer repeating state for slow sampling rates
            timer_repeats: 0,
            timer_counts: 0,
            // DMA status and stuff
            rx_dma: None,
            rx_dma_peripheral,
            rx_length: 0,
            next_dma_buffer: None,
            next_dma_length: 0,
            stopped_buffer: None,
        }
    }

    /// Sets the DMA channel for this driver.
    ///
    /// - `rx_dma`: the DMA channel the ADC should use
    pub fn set_dma(&mut self, rx_dma: DMAChannel)
        ensures
            *final(self) == (Adc { rx_dma: Some(rx_dma), ..*old(self) }),
    {
        self.rx_dma = Some(rx_dma);
    }

    /// Configures the ADC with the slowest clock that can provide continuous
    /// sampling at the desired frequency and enables the ADC. Subsequent calls
    /// with the same frequency value have no effect. Using the slowest clock also
    /// ensures efficient discrete sampling.
    pub fn config_and_enable(&mut self, frequency: u32) -> (result: (
        Vec<Action>,
        Result<ConfigStep, ErrorCode>,
    ))
        ensures
            (*final(self), result.0@, result.1) == config_begun(*old(self), frequency),
    {
        if self.active {
            // disallow reconfiguration during sampling
            return (vec![], Err(ErrorCode::BUSY));
        }
        if frequency == 0 {
            // there is no clock for it
            let code = if self.enabled {
                ErrorCode::INVAL
            } else {
                ErrorCode::OFF
            };
            return (vec![], Err(code));
        }
        if self.enabled {
            if let Some(configured) = self.configured {
                if configured == frequency {
                    // already configured to work on this frequency
                    return (vec![], Ok(ConfigStep::Done));
                }
            }
        }
        self.configured = None;
        // disabling the ADC before switching clocks is necessary to avoid
        // leaving it in undefined state
        let actions = vec![Action::Write(Register::Cr, CR_DIS)];
        let phase = ConfigPhase { frequency, stage: Stage::Disabling, timeout: ENABLE_TIMEOUT };
        (actions, Ok(ConfigStep::Poll(phase)))
    }

    /// Goes on with a configuration after the status register was read.
    pub fn config_polled(&mut self, phase: ConfigPhase, status: u32, cpu_frequency: u32) -> (
        result: (Vec<Action>, Result<ConfigStep, ErrorCode>))
        requires
            phase.timeout > 0,
            phase.stage == Stage::Disabling && !bit_set(status, SR_EN) ==> config_possible(
                phase.frequency,
                cpu_frequency,
            ),
        ensures
            (*final(self), result.0@, result.1) == config_step(
                *old(self),
                phase,
                status,
                cpu_frequency,
            ),
    {
        let reached = match phase.stage {
            Stage::Disabling => !is_set(status, SR_EN),
            Stage::Enabling => is_set(status, SR_EN),
            Stage::Buffering => is_set(status, SR_BGREQ) && is_set(status, SR_REFBUF) && is_set(
                status,
                SR_EN,
            ),
        };
        if !reached {
            if phase.timeout == 1 {
                return (vec![], Err(ErrorCode::FAIL));
            }
            let again = ConfigPhase { timeout: phase.timeout - 1, ..phase };
            return (vec![], Ok(ConfigStep::Poll(again)));
        }
        match phase.stage {
            Stage::Disabling => {
                self.enabled = true;
                let selection = select_clock(phase.frequency, cpu_frequency);
                self.cpu_clock = match selection.source {
                    ClockSource::CpuClock => true,
                    _ => false,
                };
                self.adc_clk_freq = selection.frequency;
                let clksel: u32 = if self.cpu_clock {
                    CFG_CLKSEL_APB
                } else {
                    CFG_CLKSEL_GENERIC
                };
                // configure the ADC max speed and reference select
                let cfg_val: u32 = CFG_SPEED_KSPS300 + CFG_REFSEL_VCC_X0P5 + selection.prescaler
                    * CFG_PRESCAL + clksel;
                let actions = vec![
                    // turn on ADCIFE bus clock. Already set to the same
                    // frequency as the CPU clock
                    Action::EnableBusClock,
                    Action::EnableGenericClock(selection.source),
                    Action::Write(Register::Cfg, cfg_val),
                    // set startup to wait 24 cycles
                    Action::Write(Register::Tim, TIM_STARTUP_24_CYCLES),
                    // software reset (does not clear registers)
                    Action::Write(Register::Cr, CR_SWRST),
                    // enable ADC
                    Action::Write(Register::Cr, CR_EN),
                ];
                let next = ConfigPhase { stage: Stage::Enabling, timeout: ENABLE_TIMEOUT, ..phase };
                (actions, Ok(ConfigStep::Poll(next)))
            },
            Stage::Enabling => {
                // enable Bandgap buffer and Reference buffer
                let actions = vec![Action::Write(Register::Cr, CR_BGREQEN + CR_REFBUFEN)];
                let next = ConfigPhase {
                    stage: Stage::Buffering,
                    timeout: BUFFER_TIMEOUT,
                    ..phase
                };
                (actions, Ok(ConfigStep::Poll(next)))
            },
            Stage::Buffering => {
                self.enabled = true;
                self.configured = Some(phase.frequency);
                (vec![], Ok(ConfigStep::Done))
            },
        }
    }

    /// Interrupt handler for the ADC, to be called with what the status
    /// register shows.
    pub fn handle_interrupt(&mut self, status: u32) -> (result: Interrupted)
        ensures
            (*final(self), match result {
                Interrupted::Handled(actions) => Some(actions@),
                Interrupted::Sample => None,
            }) == interrupted(*old(self), status),
    {
        if self.enabled && self.active {
            if is_set(status, SR_SEOC) {
                // sample complete interrupt

                // should we deal with this sample now, or wait for the next
                // one?
                if self.timer_counts >= self.timer_repeats {
                    // we actually care about this sample
                    Interrupted::Sample
                } else {
                    // increment count and wait for next sample
                    self.timer_counts = self.timer_counts + 1;
                    // clear status
                    Interrupted::Handled(vec![Action::Write(Register::Scr, INTERRUPT_SEOC)])
                }
            } else {
                Interrupted::Handled(vec![])
            }
        } else {
            // we are inactive, why did we get an interrupt?
            // disable all interrupts, clear status, and just ignore it
            Interrupted::Handled(
                vec![Action::Write(Register::Idr, INTERRUPT_ALL), Self::clear_status()],
            )
        }
    }

    /// The sample in the last converted value register.
    pub fn sample_value(lcv: u32) -> (value: u16)
        ensures
            value == lcv % 0x1_0000,
    {
        (lcv % 0x1_0000) as u16
    }

    /// Cleans up after a sample was delivered to the client.
    pub fn sample_delivered(&mut self) -> (actions: Vec<Action>)
        ensures
            (*final(self), actions@) == delivered(*old(self)),
    {
        if self.continuous {
            // continuous sampling, reset counts and keep going
            self.timer_counts = 0;
            vec![Action::Write(Register::Scr, INTERRUPT_SEOC)]
        } else {
            // single sampling, disable interrupt and set inactive
            self.active = false;
            vec![
                Action::Write(Register::Idr, INTERRUPT_SEOC),
                Action::Write(Register::Scr, INTERRUPT_SEOC),
            ]
        }
    }

    /// Clear all status bits using the status clear register.
    fn clear_status() -> (action: Action)
        ensures
            action == Action::Write(Register::Scr, INTERRUPT_ALL),
    {
        Action::Write(Register::Scr, INTERRUPT_ALL)
    }

    /// Disables the ADC so that the chip can return to deep sleep. The status
    /// register is to be read after the action, and handed to `disable_polled`
    /// with the timeout.
    pub fn disable() -> (result: (Action, u32))
        ensures
            result == (Action::Write(Register::Cr, CR_DIS), ENABLE_TIMEOUT),
    {
        (Action::Write(Register::Cr, CR_DIS), ENABLE_TIMEOUT)
    }

    /// Goes on with the disabling of the ADC after the status register was
    /// read. Where it never shows the ADC disabled, nothing else happens.
    pub fn disable_polled(&mut self, timeout: u32, status: u32) -> (result: DisableStep)
        requires
            timeout > 0,
        ensures
            if !bit_set(status, SR_EN) {
                &&& *final(self) == (Adc { enabled: false, ..*old(self) })
                &&& result matches DisableStep::Done(actions)
                &&& actions@ == seq![
                    Action::Write(Register::Cr, (CR_BGREQDIS + CR_REFBUFDIS) as u32),
                    Action::DisableGenericClock,
                    Action::DisableBusClock,
                ]
            } else {
                &&& *final(self) == *old(self)
                &&& match result {
                    DisableStep::Poll(left) => timeout > 1 && left == timeout - 1,
                    DisableStep::Done(actions) => timeout == 1 && actions@.len() == 0,
                }
            },
    {
        if is_set(status, SR_EN) {
            if timeout == 1 {
                // ADC never disabled
                return DisableStep::Done(vec![]);
            }
            return DisableStep::Poll(timeout - 1);
        }
        self.enabled = false;
        DisableStep::Done(
            vec![
                // disable bandgap and reference buffers
                Action::Write(Register::Cr, CR_BGREQDIS + CR_REFBUFDIS),
                Action::DisableGenericClock,
                Action::DisableBusClock,
            ],
        )
    }

    /// The sequencer configuration for a channel and a trigger.
    fn sequencer(channel: &AdcChannel, trigger: u32) -> (value: u32)
        requires
            trigger <= SEQCFG_TRGSEL_CONTINUOUS,
        ensures
            value == sequencer_value(*channel, trigger),
    {
        SEQCFG_MUXNEG_GROUND + (channel.chan_num % 16) * SEQCFG_MUXPOS + (2 + channel.internal % 2)
            * SEQCFG_INTERNAL + trigger + SEQCFG_GAIN_0P5X + SEQCFG_HWLA
    }

    /// The trigger of repeated samples, based on how good our clock is.
    fn trigger(&self) -> (trigger: u32)
        ensures
            trigger == repeated_trigger(*self),
    {
        if self.cpu_clock {
            SEQCFG_TRGSEL_INTERNAL_TIMER
        } else {
            SEQCFG_TRGSEL_CONTINUOUS
        }
    }

    /// Tells whether sampling can start, whatever the request.
    fn check_start(&self, configured: Result<(), ErrorCode>) -> (refused: Option<ErrorCode>)
        ensures
            refused == start_refused(*self, configured),
    {
        match configured {
            Err(e) => Some(e),
            Ok(_) => if !self.enabled {
                Some(ErrorCode::OFF)
            } else if self.active {
                // only one operation at a time
                Some(ErrorCode::BUSY)
            } else {
                None
            },
        }
    }

    /// Capture a single analog sample. The ADC is configured first: always to
    /// 1KHz, to get the slowest clock with single sampling. `sample_configured`
    /// goes on from there.
    pub fn sample(&mut self) -> (result: (Vec<Action>, Result<ConfigStep, ErrorCode>))
        ensures
            (*final(self), result.0@, result.1) == config_begun(
                *old(self),
                SINGLE_SAMPLE_FREQUENCY,
            ),
    {
        self.config_and_enable(SINGLE_SAMPLE_FREQUENCY)
    }

    /// Starts the capture of a single sample, given how the configuration for
    /// it ended. Returns an error if the ADC is already sampling.
    ///
    /// - `channel`: the ADC channel to sample
    pub fn sample_configured(
        &mut self,
        channel: &AdcChannel,
        configured: Result<(), ErrorCode>,
    ) -> (result: Result<Vec<Action>, ErrorCode>)
        ensures
            match start_refused(*old(self), configured) {
                Some(e) => *final(self) == *old(self) && result == Err::<Vec<Action>, ErrorCode>(e),
                None => {
                    &&& *final(self) == single_started(*old(self))
                    &&& result matches Ok(actions)
                    &&& actions@ == seq![
                        Action::Write(
                            Register::Seqcfg,
                            sequencer_value(*channel, SEQCFG_TRGSEL_SOFTWARE) as u32,
                        ),
                        Action::Write(Register::Scr, INTERRUPT_ALL),
                        Action::Write(Register::Ier, INTERRUPT_SEOC),
                        Action::Write(Register::Cr, CR_STRIG),
                    ]
                },
            },
    {
        if let Some(e) = self.check_start(configured) {
            return Err(e);
        }
        self.active = true;
        self.continuous = false;
        self.timer_repeats = 0;
        self.timer_counts = 0;
        let cfg: u32 = Self::sequencer(channel, SEQCFG_TRGSEL_SOFTWARE);
        Ok(
            vec![
                Action::Write(Register::Seqcfg, cfg),
                // clear any current status
                Self::clear_status(),
                // enable end of conversion interrupt
                Action::Write(Register::Ier, INTERRUPT_SEOC),
                // initiate conversion
                Action::Write(Register::Cr, CR_STRIG),
            ],
        )
    }

    /// Request repeated analog samples on a particular channel. The ADC is
    /// configured for the frequency first; `sample_continuous_configured` goes
    /// on from there.
    pub fn sample_continuous(&mut self, frequency: u32) -> (result: (
        Vec<Action>,
        Result<ConfigStep, ErrorCode>,
    ))
        ensures
            (*final(self), result.0@, result.1) == config_begun(*old(self), frequency),
    {
        self.config_and_enable(frequency)
    }

    /// Starts the capture of repeated samples, given how the configuration for
    /// it ended. In order to not unacceptably slow down the system
    /// collecting samples, this interface is limited to one sample every 100
    /// microseconds (10000 samples per second). To sample faster, use the
    /// sample_highspeed function.
    ///
    /// - `channel`: the ADC channel to sample
    /// - `frequency`: the number of samples per second to collect
    pub fn sample_continuous_configured(
        &mut self,
        channel: &AdcChannel,
        frequency: u32,
        configured: Result<(), ErrorCode>,
    ) -> (result: Result<Vec<Action>, ErrorCode>)
        requires
            continuous_timer_ok(*old(self), frequency, configured),
        ensures
            match continuous_refused(*old(self), frequency, configured) {
                Some(e) => *final(self) == *old(self) && result == Err::<Vec<Action>, ErrorCode>(e),
                None => {
                    &&& *final(self) == continuous_started(*old(self), frequency)
                    &&& result matches Ok(actions)
                    &&& actions@ == continuous_actions(*old(self), *channel, frequency)
                },
            },
    {
        if let Some(e) = self.check_continuous(frequency, configured) {
            return Err(e);
        }
        self.active = true;
        self.continuous = true;
        // adc sequencer configuration
        let cfg: u32 = Self::sequencer(channel, self.trigger());
        let mut actions = vec![
            Action::Write(Register::Seqcfg, cfg),
            // stop timer if running
            Action::Write(Register::Cr, CR_TSTOP),
        ];
        self.timer_counts = 0;
        if self.cpu_clock {
            // This logic only applies for sampling off the CPU
            let (repeats, timer_freq): (u8, u32) = Self::timer_settings(frequency);
            self.timer_repeats = repeats;
            let counter: u32 = Self::counter(self.adc_clk_freq, timer_freq);
            actions.push(Action::Write(Register::Itimer, counter));
        } else {
            // we can sample at this frequency directly with the timer
            self.timer_repeats = 0;
        }
        // clear any current status
        actions.push(Self::clear_status());
        // enable end of conversion interrupt
        actions.push(Action::Write(Register::Ier, INTERRUPT_SEOC));
        // start timer
        actions.push(Action::Write(Register::Cr, CR_TSTART));
        assert(actions@ =~= continuous_actions(*old(self), *channel, frequency));
        Ok(actions)
    }

    /// How many timer fires to pass over, and the frequency that the timer is
    /// to run at.
    ///
    /// Setup timer for low-frequency samples. Based on the ADC clock, the
    /// minimum timer frequency is:
    /// 1500000 / (0xFFFF + 1) = 22.888 Hz.
    /// So for any frequency less than 23 Hz, we will keep our own counter in
    /// addition and only actually perform a callback every N timer fires. This
    /// is important to enable low-jitter sampling in the 1-22 Hz range.
    fn timer_settings(frequency: u32) -> (settings: (u8, u32))
        requires
            frequency != 0,
        ensures
            settings.0 == repeats_for(frequency as int),
            settings.1 == timer_frequency(frequency as int),
            settings.1 > 0,
    {
        if frequency < 23 {
            // set a number of timer repeats before the callback is
            // performed. 60 here is an arbitrary number which limits the
            // actual itimer frequency to between 42 and 60 in the desired
            // range of 1-22 Hz, which seems slow enough to keep the system
            // from getting bogged down with interrupts
            let counts: u32 = 60 / frequency;
            assert(0 < counts <= 60 && 0 < counts * frequency <= 60 && frequency * counts == counts
                * frequency) by (nonlinear_arith)
                requires
                    counts == 60u32 / frequency,
                    0 < frequency < 23,
            ;
            ((counts - 1) as u8, frequency * counts)
        } else {
            // we can sample at this frequency directly with the timer
            (0, frequency)
        }
    }

    /// Tells why continuous sampling cannot start, if so.
    fn check_continuous(&self, frequency: u32, configured: Result<(), ErrorCode>) -> (refused:
        Option<ErrorCode>)
        ensures
            refused == continuous_refused(*self, frequency, configured),
    {
        if let Some(e) = self.check_start(configured) {
            return Some(e);
        }
        if frequency == 0 || frequency > MAX_CONTINUOUS_FREQUENCY {
            // limit sampling frequencies to a valid range
            return Some(ErrorCode::INVAL);
        }
        None
    }

    /// Tells whether `sample_continuous_configured` may be called: where a timer
    /// is needed, the clock has to be fast enough for it.
    pub fn continuous_timer_runs(&self, frequency: u32, configured: Result<(), ErrorCode>) -> (
        result: bool)
        ensures
            result == continuous_timer_ok(*self, frequency, configured),
    {
        if self.check_continuous(frequency, configured).is_some() || !self.cpu_clock {
            return true;
        }
        let (_, timer_freq): (u8, u32) = Self::timer_settings(frequency);
        self.adc_clk_freq >= timer_freq
    }

    /// The counter that makes the timer run at a frequency, limited to bounds:
    /// f(timer) = f(adc) / (counter + 1)
    fn counter(adc_clk_freq: u32, frequency: u32) -> (counter: u32)
        requires
            0 < frequency <= adc_clk_freq,
        ensures
            counter == timer_counter(adc_clk_freq as int, frequency as int),
    {
        assert(adc_clk_freq / frequency >= 1) by (nonlinear_arith)
            requires
                0 < frequency <= adc_clk_freq,
        ;
        let counter: u32 = adc_clk_freq / frequency - 1;
        if counter <= ITIMER_MAX {
            counter
        } else {
            ITIMER_MAX
        }
    }

    /// Stop continuously sampling the ADC.
    /// This is expected to be called to stop continuous sampling operations,
    /// but can be called to abort any currently running operation. The buffer,
    /// if any, will be returned via the `samples_ready` callback.
    ///
    /// The ADC is to be disabled after the actions, then the transfer on the DMA
    /// channel, if there is one, aborted and the channel disabled, and the buffer
    /// that came back handed to `sampling_stopped`, which says what the callback
    /// is called with.
    pub fn stop_sampling(&mut self) -> (result: Result<Vec<Action>, ErrorCode>)
        ensures
            if !old(self).enabled {
                *final(self) == *old(self) && result == Err::<Vec<Action>, ErrorCode>(
                    ErrorCode::OFF,
                )
            } else if !old(self).active {
                *final(self) == *old(self) && result == Err::<Vec<Action>, ErrorCode>(
                    ErrorCode::INVAL,
                )
            } else {
                &&& *final(self) == stop_begun(*old(self))
                &&& result matches Ok(actions)
                &&& actions@ == seq![
                    Action::Write(Register::Cr, CR_TSTOP),
                    Action::Write(Register::Idr, INTERRUPT_SEOC),
                    Action::Write(Register::Cr, CR_SWRST),
                ]
            },
    {
        if !self.enabled {
            Err(ErrorCode::OFF)
        } else if !self.active {
            // cannot cancel sampling that isn't running
            Err(ErrorCode::INVAL)
        } else {
            // clean up state
            self.active = false;
            self.continuous = false;
            self.dma_running = false;
            self.configured = None;
            Ok(
                vec![
                    // stop internal timer
                    Action::Write(Register::Cr, CR_TSTOP),
                    // disable sample interrupts
                    Action::Write(Register::Idr, INTERRUPT_SEOC),
                    // reset the ADC peripheral
                    Action::Write(Register::Cr, CR_SWRST),
                ],
            )
        }
    }

    /// Takes over the buffer that the DMA was filling when sampling stopped. If
    /// there is a client for buffers (`client_set`), the result is what its
    /// `samples_ready` callback is to be called with: the buffer, and the number
    /// of samples that the DMA was to receive into it, of which it may have
    /// received fewer. If not, we'll place the buffer here so we can return it to
    /// the higher level later in a `retrieve_buffers` call.
    pub fn sampling_stopped(&mut self, dma_buffer: Option<Vec<u16>>, client_set: bool) -> (report:
        Option<(Vec<u16>, usize)>)
        ensures
            report == stop_report(*old(self), dma_buffer, client_set),
            *final(self) == stop_ended(*old(self), dma_buffer, client_set),
    {
        let length: usize = self.rx_length;
        self.rx_length = 0;
        match dma_buffer {
            Some(buffer) => if client_set {
                Some((buffer, length))
            } else {
                self.stopped_buffer = Some(buffer);
                None
            },
            None => None,
        }
    }

    /// Resolution of the reading.
    pub fn get_resolution_bits(&self) -> (bits: usize)
        ensures
            bits == 12,
    {
        12
    }

    /// Voltage reference is VCC/2, we assume VCC is 3.3 V, and we use a gain
    /// of 0.5.
    pub fn get_voltage_reference_mv(&self) -> (millivolts: Option<usize>)
        ensures
            millivolts == Some(3300usize),
    {
        Some(3300)
    }

    /// Capture buffered samples from the ADC continuously at a given
    /// frequency. The ADC is configured for the frequency first;
    /// `sample_highspeed_configured` goes on from there.
    pub fn sample_highspeed(&mut self, frequency: u32) -> (result: (
        Vec<Action>,
        Result<ConfigStep, ErrorCode>,
    ))
        ensures
            (*final(self), result.0@, result.1) == config_begun(*old(self), frequency),
    {
        self.config_and_enable(frequency)
    }

    /// Starts the capture of buffered samples, given how the configuration for
    /// it ended. The client is called whenever a buffer fills up. It is
    /// then expected to either stop sampling or provide an additional buffer
    /// to sample into. Note that due to hardware constraints the maximum
    /// frequency range of the ADC is from 187 kHz to 23 Hz (although its
    /// precision is limited at higher frequencies due to aliasing).
    ///
    /// - `channel`: the ADC channel to sample
    /// - `frequency`: frequency to sample at
    /// - `buffer1`: first buffer to fill with samples
    /// - `length1`: number of samples to collect (up to buffer length)
    /// - `buffer2`: second buffer to fill once the first is full
    /// - `length2`: number of samples to collect (up to buffer length)
    pub fn sample_highspeed_configured(
        &mut self,
        channel: &AdcChannel,
        frequency: u32,
        buffer1: Vec<u16>,
        length1: usize,
        buffer2: Vec<u16>,
        length2: usize,
        configured: Result<(), ErrorCode>,
    ) -> (result: Result<Vec<Action>, (ErrorCode, Vec<u16>, Vec<u16>)>)
        requires
            highspeed_timer_ok(*old(self), frequency, length1, configured),
        ensures
            match highspeed_refused(*old(self), frequency, length1, configured) {
                Some(e) => {
                    &&& *final(self) == *old(self)
                    &&& result == Err::<Vec<Action>, (ErrorCode, Vec<u16>, Vec<u16>)>(
                        (e, buffer1, buffer2),
                    )
                },
                None => {
                    &&& *final(self) == highspeed_started(
                        *old(self),
                        buffer1,
                        length1,
                        buffer2,
                        length2,
                    )
                    &&& result matches Ok(actions)
                    &&& actions@ == highspeed_actions(
                        *old(self),
                        *channel,
                        frequency,
                        buffer1,
                        length1,
                    )
                },
            },
    {
        if let Some(e) = self.check_highspeed(frequency, length1, configured) {
            return Err((e, buffer1, buffer2));
        }
        self.active = true;
        self.continuous = true;
        // store the second buffer for later use
        self.next_dma_buffer = Some(buffer2);
        self.next_dma_length = length2;
        // adc sequencer configuration
        let cfg: u32 = Self::sequencer(channel, self.trigger());
        let mut actions = vec![
            Action::Write(Register::Seqcfg, cfg),
            // stop timer if running
            Action::Write(Register::Cr, CR_TSTOP),
        ];
        if self.cpu_clock {
            let counter: u32 = Self::counter(self.adc_clk_freq, frequency);
            actions.push(Action::Write(Register::Itimer, counter));
        }
        // clear any current status
        actions.push(Self::clear_status());
        // receive up to the buffer's length samples
        let room: usize = buffer1.len();
        let dma_len: usize = if room <= length1 {
            room
        } else {
            length1
        };
        // set up the DMA
        if let Some(dma) = self.rx_dma {
            self.dma_running = true;
            self.rx_length = dma_len;
            actions.push(
                Action::Transfer {
                    channel: dma,
                    peripheral: self.rx_dma_peripheral,
                    buffer: buffer1,
                    length: dma_len,
                },
            );
        }
        // start timer
        actions.push(Action::Write(Register::Cr, CR_TSTART));
        assert(actions@ =~= highspeed_actions(
            *old(self),
            *channel,
            frequency,
            buffer1,
            length1,
        ));
        Ok(actions)
    }

    /// Tells why sampling into buffers cannot start, if so.
    fn check_highspeed(&self, frequency: u32, length: usize, configured: Result<(), ErrorCode>) -> (
        refused: Option<ErrorCode>)
        ensures
            refused == highspeed_refused(*self, frequency, length, configured),
    {
        if let Some(e) = self.check_start(configured) {
            return Some(e);
        }
        if frequency <= self.adc_clk_freq / (ITIMER_MAX + 1) || frequency
            > MAX_HIGHSPEED_FREQUENCY {
            // can't sample faster than the max sampling frequency or slower
            // than the timer can be set to
            return Some(ErrorCode::INVAL);
        }
        if length == 0 {
            // at least need a valid length for the for the first buffer full of
            // samples. Otherwise, what are we doing here?
            return Some(ErrorCode::INVAL);
        }
        None
    }

    /// Tells whether `sample_highspeed_configured` may be called: where a timer
    /// is needed, the clock has to be fast enough for it.
    pub fn highspeed_timer_runs(
        &self,
        frequency: u32,
        length: usize,
        configured: Result<(), ErrorCode>,
    ) -> (result: bool)
        ensures
            result == highspeed_timer_ok(*self, frequency, length, configured),
    {
        self.check_highspeed(frequency, length, configured).is_some() || !self.cpu_clock
            || self.adc_clk_freq >= frequency
    }

    /// Provide a new buffer to send on-going buffered continuous samples to.
    /// This is expected to be called after the `samples_ready` callback.
    ///
    /// - `buf`: buffer to fill with samples
    /// - `length`: number of samples to collect (up to buffer length)
    pub fn provide_buffer(&mut self, buf: Vec<u16>, length: usize) -> (result: Result<
        (),
        (ErrorCode, Vec<u16>),
    >)
        ensures
            match provide_refused(*old(self)) {
                Some(e) => {
                    &&& *final(self) == *old(self)
                    &&& result == Err::<(), (ErrorCode, Vec<u16>)>((e, buf))
                },
                None => {
                    &&& *final(self) == (Adc {
                        next_dma_buffer: Some(buf),
                        next_dma_length: length,
                        ..*old(self)
                    })
                    &&& result is Ok
                },
            },
    {
        if !self.enabled {
            Err((ErrorCode::OFF, buf))
        } else if !self.active {
            // cannot continue sampling that isn't running
            Err((ErrorCode::INVAL, buf))
        } else if !self.continuous {
            // cannot continue a single sample operation
            Err((ErrorCode::INVAL, buf))
        } else if self.next_dma_buffer.is_some() {
            // we've already got a second buffer, we don't need a third yet
            Err((ErrorCode::BUSY, buf))
        } else {
            // store the buffer for later use
            self.next_dma_buffer = Some(buf);
            self.next_dma_length = length;
            Ok(())
        }
    }

    /// Reclaim buffers after the ADC is stopped.
    /// This is expected to be called after `stop_sampling`.
    pub fn retrieve_buffers(&mut self) -> (result: Result<
        (Option<Vec<u16>>, Option<Vec<u16>>),
        ErrorCode,
    >)
        ensures
            if old(self).active {
                &&& *final(self) == *old(self)
                &&& result == Err::<(Option<Vec<u16>>, Option<Vec<u16>>), ErrorCode>(
                    ErrorCode::INVAL,
                )
            } else {
                &&& *final(self) == (Adc {
                    next_dma_buffer: None,
                    stopped_buffer: None,
                    ..*old(self)
                })
                &&& result == Ok::<(Option<Vec<u16>>, Option<Vec<u16>>), ErrorCode>(
                    (old(self).next_dma_buffer, old(self).stopped_buffer),
                )
            },
    {
        if self.active {
            // cannot return buffers while running
            Err(ErrorCode::INVAL)
        } else {
            // we're not running, so give back whatever we've got
            Ok((self.next_dma_buffer.take(), self.stopped_buffer.take()))
        }
    }

    /// Handler for DMA transfer completion.
    ///
    /// - `pid`: the DMA peripheral that is complete
    pub fn transfer_done(&mut self, pid: DMAPeripheral) -> (result: TransferDone)
        ensures
            if pid != old(self).rx_dma_peripheral {
                *final(self) == *old(self) && result == TransferDone::Ignored
            } else {
                match old(self).rx_dma {
                    Some(channel) => {
                        &&& *final(self) == (Adc { dma_running: false, ..*old(self) })
                        &&& result == TransferDone::Abort(channel)
                    },
                    None => *final(self) == *old(self) && result == TransferDone::NoChannel,
                }
            },
    {
        // check if this was an RX transfer
        if pid.0 != self.rx_dma_peripheral.0 {
            return TransferDone::Ignored;
        }
        match self.rx_dma {
            Some(channel) => {
                self.dma_running = false;
                TransferDone::Abort(channel)
            },
            None => TransferDone::NoChannel,
        }
    }

    /// Takes over the buffer filled with samples from the DMA, and starts a new
    /// transfer with the next buffer. The client is to be alerted after the
    /// actions: the second part of the result is the buffer and the number of
    /// samples to pass up to it.
    pub fn transfer_aborted(&mut self, dma_buffer: Option<Vec<u16>>) -> (result: (
        Vec<Action>,
        Option<(Vec<u16>, usize)>,
    ))
        ensures
            *final(self) == buffer_passed_on(*old(self)),
            result.0@ == pass_on_actions(*old(self)),
            result.1 == (match dma_buffer {
                Some(buffer) => Some((buffer, old(self).rx_length)),
                None => None,
            }),
    {
        // get length of received buffer
        let length: usize = self.rx_length;
        let mut actions = vec![];
        match self.next_dma_buffer.take() {
            Some(buf) => {
                // first determine the buffer's length in samples
                let room: usize = buf.len();
                let dma_len: usize = if room <= self.next_dma_length {
                    room
                } else {
                    self.next_dma_length
                };
                // only continue with a nonzero length. If we were given a
                // zero-length buffer or length field, assume that the user knew
                // what was going on, and just don't use the buffer
                if dma_len > 0 {
                    // set up the DMA
                    if let Some(dma) = self.rx_dma {
                        self.dma_running = true;
                        self.rx_length = dma_len;
                        actions.push(
                            Action::Transfer {
                                channel: dma,
                                peripheral: self.rx_dma_peripheral,
                                buffer: buf,
                                length: dma_len,
                            },
                        );
                    }
                } else {
                    // if length was zero, just keep the buffer so we can
                    // return it after `stop_sampling` is called
                    self.next_dma_buffer = Some(buf);
                }
            },
            None => {},
        }
        assert(actions@ =~= pass_on_actions(*old(self)));
        let report = match dma_buffer {
            Some(buffer) => Some((buffer, length)),
            None => None,
        };
        (actions, report)
    }
}

} // verus!
