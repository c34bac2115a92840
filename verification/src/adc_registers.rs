//! The registers of the analog to digital converter.
//!
//! Each constant is the value of one field of a register, at the place of that
//! field. A register is written as the sum of the values of its fields.
use vstd::prelude::*;

verus! {

/// The registers that are written.
#[derive(Debug, Copy, Clone, PartialEq, Eq, Structural)]
pub enum Register {
    /// Control.
    Cr,
    /// Configuration.
    Cfg,
    /// Status clear.
    Scr,
    /// Sequencer configuration.
    Seqcfg,
    /// Timing configuration.
    Tim,
    /// Internal timer.
    Itimer,
    /// Interrupt enable.
    Ier,
    /// Interrupt disable.
    Idr,
}

/// Control: software reset.
pub const CR_SWRST: u32 = 0x001;

/// Control: internal timer stop bit.
pub const CR_TSTOP: u32 = 0x002;

/// Control: internal timer start bit.
pub const CR_TSTART: u32 = 0x004;

/// Control: sequence trigger.
pub const CR_STRIG: u32 = 0x008;

/// Control: reference buffer enable.
pub const CR_REFBUFEN: u32 = 0x010;

/// Control: reference buffer disable.
pub const CR_REFBUFDIS: u32 = 0x020;

/// Control: ADCIFE enable.
pub const CR_EN: u32 = 0x100;

/// Control: ADCIFE disable.
pub const CR_DIS: u32 = 0x200;

/// Control: bandgap buffer request enable.
pub const CR_BGREQEN: u32 = 0x400;

/// Control: bandgap buffer request disable.
pub const CR_BGREQDIS: u32 = 0x800;

/// Configuration: a speed of 300 ksps.
pub const CFG_SPEED_KSPS300: u32 = 0x000;

/// Configuration: half of VCC as the reference.
pub const CFG_REFSEL_VCC_X0P5: u32 = 0x008;

/// Configuration: the generic clock for the sequencer.
pub const CFG_CLKSEL_GENERIC: u32 = 0x000;

/// Configuration: the APB clock for the sequencer.
pub const CFG_CLKSEL_APB: u32 = 0x040;

/// Configuration: the place of the prescaler rate selection.
pub const CFG_PRESCAL: u32 = 0x100;

/// Status: sequencer end of conversion.
pub const SR_SEOC: u32 = 0x0000_0001;

/// Status: enable status.
pub const SR_EN: u32 = 0x0100_0000;

/// Status: reference buffer status.
pub const SR_REFBUF: u32 = 0x1000_0000;

/// Status: bandgap buffer request status.
pub const SR_BGREQ: u32 = 0x4000_0000;

/// Interrupts: sequencer end of conversion.
pub const INTERRUPT_SEOC: u32 = 0x01;

/// Interrupts: end of conversion, overrun of the last converted value, window
/// monitor, missed trigger event and timer time out.
pub const INTERRUPT_ALL: u32 = 0x2F;

/// Sequencer: half word left adjust.
pub const SEQCFG_HWLA: u32 = 0x0000_0001;

/// Sequencer: a gain of 0.5.
pub const SEQCFG_GAIN_0P5X: u32 = 0x0000_0070;

/// Sequencer: triggered by software.
pub const SEQCFG_TRGSEL_SOFTWARE: u32 = 0x0000_0000;

/// Sequencer: triggered by the internal timer.
pub const SEQCFG_TRGSEL_INTERNAL_TIMER: u32 = 0x0000_0100;

/// Sequencer: triggered all the time.
pub const SEQCFG_TRGSEL_CONTINUOUS: u32 = 0x0000_0300;

/// Sequencer: the place of the internal voltage sources selection.
pub const SEQCFG_INTERNAL: u32 = 0x0000_4000;

/// Sequencer: the place of the positive input channel.
pub const SEQCFG_MUXPOS: u32 = 0x0001_0000;

/// Sequencer: the ground pad as the negative input channel.
pub const SEQCFG_MUXNEG_GROUND: u32 = 0x0070_0000;

/// Timing: startup enabled, and to wait 24 cycles.
pub const TIM_STARTUP_24_CYCLES: u32 = 0x117;

/// Internal timer: the largest counter.
pub const ITIMER_MAX: u32 = 0xFFFF;

/// Whether a bit of a register is set; `mask` has that bit alone.
pub open spec fn bit_set(word: u32, mask: u32) -> bool {
    word / mask % 2 == 1
}

/// Tells whether a bit of a register is set; `mask` has that bit alone.
pub fn is_set(word: u32, mask: u32) -> (set: bool)
    requires
        mask != 0,
    ensures
        set == bit_set(word, mask),
{
    word / mask % 2 == 1
}

} // verus!
