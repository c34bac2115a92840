//! The clock of the analog to digital converter.
//!
//! The converter runs off one of two RC oscillators or off the CPU clock,
//! divided by a power of two that the prescaler selects.
use crate::math::{closest_power_of_two, log_base_two};
use vstd::arithmetic::power2::{
    lemma2_to64, lemma_pow2_pos, lemma_pow2_strictly_increases, lemma_pow2_unfold, pow2,
};
use vstd::prelude::*;

verus! {

/// The highest sampling frequency off the RC32K, which runs at 32 kHz.
pub const RC32K_MAX_FREQUENCY: u32 = 1000;

/// The highest sampling frequency off the RCSYS, which runs at 113.6 kHz.
pub const RCSYS_MAX_FREQUENCY: u32 = 3550;

/// The highest frequency that the clock of the converter may have.
pub const MAX_ADC_CLOCK: u32 = 1500000;

/// The largest value of the prescaler.
pub const MAX_PRESCALER: u32 = 7;

/// Where the generic clock of the converter comes from.
#[derive(Debug, Copy, Clone, PartialEq, Eq, Structural)]
pub enum ClockSource {
    /// The 32 kHz RC oscillator.
    RC32K,
    /// The system RC oscillator.
    RCSYS,
    /// The CPU clock.
    CpuClock,
}

/// What a configuration for some sampling frequency selects.
#[derive(Debug, Copy, Clone, PartialEq, Eq, Structural)]
pub struct ClockSelection {
    /// The source of the clock.
    pub source: ClockSource,
    /// The value of the prescaler.
    pub prescaler: u32,
    /// The frequency that results: of sampling with an RC oscillator, of the
    /// converter's clock with the CPU clock.
    pub frequency: u32,
}

/// The smallest number of halvings, from `from` on and up to the limit of the
/// prescaler, that bring `fast` down to `slow` or below.
pub open spec fn least_shift(fast: int, slow: int, from: nat) -> nat
    decreases MAX_PRESCALER - from,
{
    if from >= MAX_PRESCALER || fast <= slow * pow2(from) {
        from
    } else {
        least_shift(fast, slow, from + 1)
    }
}

/// The largest number of halvings, from `from` on and up to the limit of the
/// prescaler, that leave `fast` at `slow` or above.
pub open spec fn greatest_shift(fast: int, slow: int, from: nat) -> nat
    decreases MAX_PRESCALER - from,
{
    if from >= MAX_PRESCALER || slow * pow2(from + 1) > fast {
        from
    } else {
        greatest_shift(fast, slow, from + 1)
    }
}

/// The source for a sampling frequency: the slowest that reaches it.
pub open spec fn source_for(frequency: int) -> ClockSource {
    if frequency <= RC32K_MAX_FREQUENCY {
        ClockSource::RC32K
    } else if frequency <= RCSYS_MAX_FREQUENCY {
        ClockSource::RCSYS
    } else {
        ClockSource::CpuClock
    }
}

/// The prescaler for a sampling frequency. With an RC oscillator it is the
/// greatest with which sampling still reaches the frequency, with the CPU clock,
/// which is divided by four at least, the least that keeps the converter's clock
/// within its limit.
pub open spec fn prescaler_for(frequency: int, cpu_frequency: int) -> nat {
    match source_for(frequency) {
        ClockSource::RC32K => greatest_shift(RC32K_MAX_FREQUENCY as int, frequency, 0),
        ClockSource::RCSYS => greatest_shift(RCSYS_MAX_FREQUENCY as int, frequency, 0),
        ClockSource::CpuClock => least_shift(cpu_frequency, 4 * MAX_ADC_CLOCK as int, 0),
    }
}

/// The clock for a sampling frequency.
pub open spec fn clock_for(frequency: int, cpu_frequency: int) -> ClockSelection {
    let n = prescaler_for(frequency, cpu_frequency);
    ClockSelection {
        source: source_for(frequency),
        prescaler: n as u32,
        frequency: (match source_for(frequency) {
            ClockSource::RC32K => RC32K_MAX_FREQUENCY as int / pow2(n) as int,
            ClockSource::RCSYS => RCSYS_MAX_FREQUENCY as int / pow2(n) as int,
            ClockSource::CpuClock => cpu_frequency / pow2(n + 2) as int,
        }) as u32,
    }
}

/// `least_shift` in terms of its two neighbours.
proof fn lemma_least_shift(fast: int, slow: int, from: nat, n: nat)
    requires
        slow >= 0,
        from <= n <= MAX_PRESCALER,
        n == MAX_PRESCALER || fast <= slow * pow2(n),
        n > from ==> fast > slow * pow2((n - 1) as nat),
    ensures
        least_shift(fast, slow, from) == n,
    decreases n - from,
{
    if from < n {
        if from < n - 1 {
            lemma_pow2_strictly_increases(from, (n - 1) as nat);
            assert(slow * pow2(from) <= slow * pow2((n - 1) as nat)) by (nonlinear_arith)
                requires
                    slow >= 0,
                    pow2(from) <= pow2((n - 1) as nat),
            ;
        }
        lemma_least_shift(fast, slow, from + 1, n);
    }
}

/// The bounds that `least_shift` keeps.
pub(crate) proof fn lemma_least_shift_bounds(fast: int, slow: int, from: nat)
    requires
        from <= MAX_PRESCALER,
    ensures
        ({
            let n = least_shift(fast, slow, from);
            &&& from <= n <= MAX_PRESCALER
            &&& n == MAX_PRESCALER || fast <= slow * pow2(n)
            &&& n > from ==> fast > slow * pow2((n - 1) as nat)
        }),
    decreases MAX_PRESCALER - from,
{
    if from < MAX_PRESCALER && fast > slow * pow2(from) {
        lemma_least_shift_bounds(fast, slow, from + 1);
    }
}

/// `greatest_shift` in terms of its two neighbours.
proof fn lemma_greatest_shift(fast: int, slow: int, from: nat, n: nat)
    requires
        slow >= 0,
        from <= n <= MAX_PRESCALER,
        slow * pow2(n) <= fast,
        n == MAX_PRESCALER || slow * pow2(n + 1) > fast,
    ensures
        greatest_shift(fast, slow, from) == n,
    decreases n - from,
{
    if from < n {
        if from + 1 < n {
            lemma_pow2_strictly_increases(from + 1, n);
            assert(slow * pow2(from + 1) <= slow * pow2(n)) by (nonlinear_arith)
                requires
                    slow >= 0,
                    pow2(from + 1) <= pow2(n),
            ;
        }
        lemma_greatest_shift(fast, slow, from + 1, n);
    }
}

/// The bounds that `greatest_shift` keeps.
pub(crate) proof fn lemma_greatest_shift_bounds(fast: int, slow: int, from: nat)
    requires
        from <= MAX_PRESCALER,
        slow * pow2(from) <= fast,
    ensures
        ({
            let n = greatest_shift(fast, slow, from);
            &&& from <= n <= MAX_PRESCALER
            &&& slow * pow2(n) <= fast
            &&& n == MAX_PRESCALER || slow * pow2(n + 1) > fast
        }),
    decreases MAX_PRESCALER - from,
{
    if from < MAX_PRESCALER && slow * pow2(from + 1) <= fast {
        lemma_greatest_shift_bounds(fast, slow, from + 1);
    }
}

/// The prescaler with which an RC oscillator is the slowest that still reaches
/// a sampling frequency.
fn slowest_prescaler(max_freq: u32, frequency: u32) -> (prescaler: u32)
    requires
        1 <= frequency <= max_freq,
    ensures
        prescaler <= MAX_PRESCALER,
        prescaler == greatest_shift(max_freq as int, frequency as int, 0),
{
    let ratio: u32 = max_freq / frequency;
    let ghost f = frequency as int;
    let ghost q = ratio as int;
    proof {
        vstd::arithmetic::div_mod::lemma_fundamental_div_mod(max_freq as int, f);
        assert(q >= 1 && f * q <= max_freq < f * (q + 1)) by (nonlinear_arith)
            requires
                max_freq == f * q + max_freq as int % f,
                0 <= max_freq as int % f < f,
                1 <= f <= max_freq,
        ;
    }
    let k: u32 = log_base_two(ratio);
    let prescaler: u32 = if k < MAX_PRESCALER {
        k
    } else {
        MAX_PRESCALER
    };
    proof {
        let p = pow2(prescaler as nat) as int;
        if prescaler < k {
            lemma_pow2_strictly_increases(prescaler as nat, k as nat);
        }
        assert(f * p <= max_freq) by (nonlinear_arith)
            requires
                p <= q,
                f * q <= max_freq,
                f >= 1,
        ;
        if prescaler < MAX_PRESCALER {
            let next = pow2((prescaler + 1) as nat) as int;
            assert(f * next > max_freq) by (nonlinear_arith)
                requires
                    next >= q + 1,
                    f * (q + 1) > max_freq,
                    f >= 1,
            ;
        }
        lemma_greatest_shift(max_freq as int, f, 0, prescaler as nat);
    }
    prescaler
}

/// The number of halvings that bring `fast` down to `slow` or below, without a
/// limit: the ceiling of the base two logarithm of their ratio.
fn halvings(fast: u32, slow: u32) -> (k: u32)
    requires
        1 <= fast,
        1 <= slow,
        fast + slow - 1 <= u32::MAX,
        fast <= 0x8000_0000 || slow >= 2,
    ensures
        k < 32,
        fast <= slow * pow2(k as nat),
        k > 0 ==> fast > slow * pow2((k - 1) as nat),
{
    // ceiling of division
    let divisor: u32 = (fast + (slow - 1)) / slow;
    proof {
        let d = divisor as int;
        let s = slow as int;
        let f = fast as int;
        vstd::arithmetic::div_mod::lemma_fundamental_div_mod(s + f - 1, s);
        assert(f <= s * d && s * (d - 1) < f && d >= 1) by (nonlinear_arith)
            requires
                s + f - 1 == s * d + (s + f - 1) % s,
                0 <= (s + f - 1) % s < s,
                f >= 1,
        ;
        assert(d <= 0x8000_0000) by (nonlinear_arith)
            requires
                s * (d - 1) < f,
                f <= u32::MAX,
                s >= 1,
                s >= 2 || f <= 0x8000_0000,
        ;
    }
    let divisor_pow2: u32 = closest_power_of_two(divisor);
    let k: u32 = log_base_two(divisor_pow2);
    proof {
        let e = choose|e: nat| divisor_pow2 == #[trigger] pow2(e);
        if e < k {
            lemma_pow2_strictly_increases(e, k as nat);
        }
        if k < e {
            if k + 1 < e {
                lemma_pow2_strictly_increases((k + 1) as nat, e);
            }
        }
        assert(e == k);
        let p = pow2(k as nat) as int;
        assert(fast <= slow * p) by (nonlinear_arith)
            requires
                fast <= slow * divisor,
                divisor <= p,
                slow >= 0,
        ;
        if k > 0 {
            lemma_pow2_unfold(k as nat);
            let q = pow2((k - 1) as nat) as int;
            assert(slow * q <= slow * (divisor - 1)) by (nonlinear_arith)
                requires
                    2 * q < 2 * divisor,
                    slow >= 0,
            ;
        }
    }
    k
}

/// Determines the clock for a sampling frequency.
pub fn select_clock(frequency: u32, cpu_frequency: u32) -> (selection: ClockSelection)
    requires
        frequency != 0,
        frequency > RCSYS_MAX_FREQUENCY ==> 1 <= cpu_frequency <= u32::MAX - (MAX_ADC_CLOCK - 1),
    ensures
        selection == clock_for(frequency as int, cpu_frequency as int),
        selection.prescaler <= MAX_PRESCALER,
{
    if frequency <= RCSYS_MAX_FREQUENCY {
        // RC oscillator
        let source = if frequency <= RC32K_MAX_FREQUENCY {
            ClockSource::RC32K
        } else {
            ClockSource::RCSYS
        };
        let max_freq: u32 = if frequency <= RC32K_MAX_FREQUENCY {
            RC32K_MAX_FREQUENCY
        } else {
            RCSYS_MAX_FREQUENCY
        };
        let prescaler: u32 = slowest_prescaler(max_freq, frequency);
        let divided: u32 = halved(max_freq, prescaler);
        ClockSelection { source, prescaler, frequency: divided }
    } else {
        // CPU clock
        // we need the ADC_CLK to be a maximum of 1.5 MHz in frequency, so we
        // need to find the prescaler value N that will make this happen.
        // Formula: f(ADC_CLK) = f(CLK_CPU)/2^(N+2) <= 1.5 MHz
        // and we solve for N
        let k: u32 = halvings(cpu_frequency, MAX_ADC_CLOCK);
        let past_two: u32 = if k < 2 {
            0
        } else {
            k - 2
        };
        let prescaler: u32 = if past_two < MAX_PRESCALER {
            past_two
        } else {
            MAX_PRESCALER
        };
        proof {
            lemma_past_two(cpu_frequency as int, k as nat);
            lemma_capped(cpu_frequency as int, 4 * MAX_ADC_CLOCK as int, past_two as nat);
        }
        let divided: u32 = halved(cpu_frequency, prescaler + 2);
        ClockSelection { source: ClockSource::CpuClock, prescaler, frequency: divided }
    }
}

/// Caps the number of halvings at the limit of the prescaler.
proof fn lemma_capped(fast: int, slow: int, k: nat)
    requires
        slow >= 0,
        fast <= slow * pow2(k),
        k > 0 ==> fast > slow * pow2((k - 1) as nat),
    ensures
        least_shift(fast, slow, 0) == (if k < MAX_PRESCALER {
            k
        } else {
            MAX_PRESCALER as nat
        }),
{
    if k <= MAX_PRESCALER {
        lemma_least_shift(fast, slow, 0, k);
    } else {
        let top = (MAX_PRESCALER - 1) as nat;
        lemma_pow2_strictly_increases(top, (k - 1) as nat);
        assert(slow * pow2(top) <= slow * pow2((k - 1) as nat)) by (nonlinear_arith)
            requires
                slow >= 0,
                pow2(top) <= pow2((k - 1) as nat),
        ;
        lemma_least_shift(fast, slow, 0, MAX_PRESCALER as nat);
    }
}

/// Takes the two halvings that the hardware always makes out of the count.
proof fn lemma_past_two(cpu_frequency: int, k: nat)
    requires
        cpu_frequency <= MAX_ADC_CLOCK * pow2(k),
        k > 0 ==> cpu_frequency > MAX_ADC_CLOCK * pow2((k - 1) as nat),
    ensures
        ({
            let n = if k < 2 {
                0nat
            } else {
                (k - 2) as nat
            };
            let slow = 4 * MAX_ADC_CLOCK as int;
            &&& cpu_frequency <= slow * pow2(n)
            &&& n > 0 ==> cpu_frequency > slow * pow2((n - 1) as nat)
        }),
{
    lemma2_to64();
    if k >= 2 {
        lemma_pow2_unfold(k);
        lemma_pow2_unfold((k - 1) as nat);
        assert(pow2(k) == 4 * pow2((k - 2) as nat));
    } else {
        assert(cpu_frequency <= 4 * MAX_ADC_CLOCK * pow2(0)) by {
            assert(pow2(k) <= 2);
        }
    }
    if k >= 3 {
        lemma_pow2_unfold((k - 2) as nat);
        assert(pow2((k - 1) as nat) == 4 * pow2((k - 3) as nat));
    }
}

/// Halves a frequency a number of times.
fn halved(frequency: u32, times: u32) -> (result: u32)
    requires
        times < 32,
    ensures
        result == frequency as int / pow2(times as nat) as int,
{
    proof {
        vstd::bits::lemma_u32_shr_is_div(frequency, times);
    }
    frequency >> times
}

/// The highest sampling frequency off the source for a frequency, where that is
/// an RC oscillator.
pub open spec fn rc_max(frequency: int) -> int {
    if frequency <= RC32K_MAX_FREQUENCY {
        RC32K_MAX_FREQUENCY as int
    } else {
        RCSYS_MAX_FREQUENCY as int
    }
}

/// With an RC oscillator, the clock is the slowest that can provide the
/// frequency: sampling reaches the frequency, and does not with the next
/// prescaler, if there is one; it is less than twice as fast as asked for then.
pub proof fn law_rc_clock_is_the_slowest(frequency: u32, cpu_frequency: u32)
    requires
        1 <= frequency <= RCSYS_MAX_FREQUENCY,
    ensures
        ({
            let selection = clock_for(frequency as int, cpu_frequency as int);
            let n = selection.prescaler as nat;
            let max = rc_max(frequency as int);
            &&& selection.source != ClockSource::CpuClock
            &&& n <= MAX_PRESCALER
            &&& frequency * pow2(n) <= max
            &&& n == MAX_PRESCALER || frequency * pow2(n + 1) > max
            &&& selection.frequency == max / pow2(n) as int
            &&& selection.frequency >= frequency
            &&& n == MAX_PRESCALER || selection.frequency < 2 * frequency
        }),
{
    let max = rc_max(frequency as int);
    let f = frequency as int;
    lemma2_to64();
    assert(f * pow2(0) <= max);
    lemma_greatest_shift_bounds(max, f, 0);
    let n = greatest_shift(max, f, 0);
    let p = pow2(n) as int;
    let q = max / p;
    lemma_pow2_pos(n);
    vstd::arithmetic::div_mod::lemma_fundamental_div_mod(max, p);
    assert(f <= q <= max) by (nonlinear_arith)
        requires
            max == p * q + max % p,
            0 <= max % p < p,
            f * p <= max,
            f >= 1,
            max >= 0,
    ;
    lemma_pow2_unfold(n + 1);
    if n < MAX_PRESCALER {
        assert(q < 2 * f) by (nonlinear_arith)
            requires
                max == p * q + max % p,
                0 <= max % p,
                f * (2 * p) > max,
                p > 0,
        ;
    }
}

/// With the CPU clock, the clock of the converter keeps within its limit while
/// the CPU runs at 768 MHz at most, and is fast enough for every sampling
/// frequency of up to 250 kHz while the CPU runs at 1 MHz at least.
pub proof fn law_cpu_clock_frequency(frequency: u32, cpu_frequency: u32)
    requires
        frequency > RCSYS_MAX_FREQUENCY,
    ensures
        ({
            let selection = clock_for(frequency as int, cpu_frequency as int);
            &&& selection.source == ClockSource::CpuClock
            &&& selection.prescaler <= MAX_PRESCALER
            &&& cpu_frequency <= 768_000_000 ==> selection.frequency <= MAX_ADC_CLOCK
            &&& cpu_frequency >= 1_000_000 ==> selection.frequency >= 250_000
        }),
{
    let fast = cpu_frequency as int;
    let slow = 4 * MAX_ADC_CLOCK as int;
    let n = least_shift(fast, slow, 0);
    lemma_least_shift_bounds(fast, slow, 0);
    lemma2_to64();
    lemma_pow2_unfold(n + 2);
    lemma_pow2_unfold(n + 1);
    let p = pow2(n) as int;
    let q = fast / (4 * p);
    vstd::arithmetic::div_mod::lemma_fundamental_div_mod(fast, 4 * p);
    lemma_pow2_pos(n);
    assert(0 <= q <= fast) by (nonlinear_arith)
        requires
            fast == (4 * p) * q + fast % (4 * p),
            0 <= fast % (4 * p) < 4 * p,
            fast >= 0,
    ;
    if fast <= 768_000_000 {
        assert(q <= 1_500_000) by (nonlinear_arith)
            requires
                fast <= 6_000_000 * p,
                fast == (4 * p) * q + fast % (4 * p),
                0 <= fast % (4 * p) < 4 * p,
        ;
    }
    if n > 0 {
        lemma_pow2_unfold(n);
        assert(q >= 750_000) by (nonlinear_arith)
            requires
                fast > 3_000_000 * p,
                p > 0,
                fast == (4 * p) * q + fast % (4 * p),
                0 <= fast % (4 * p) < 4 * p,
        ;
    } else {
        assert(fast < 4 * (q + 1)) by (nonlinear_arith)
            requires
                p == 1,
                fast == (4 * p) * q + fast % (4 * p),
                0 <= fast % (4 * p) < 4 * p,
        ;
    }
}

} // verus!
