//! Square-wave timing for the PWM buzzer.

use vstd::prelude::*;

verus! {

/// System clock feeding the PWM slice (Hz).
pub const SYS_CLK_HZ: u32 = 125_000_000;

/// PWM settings for one tone: the counter wraps at `top`, and the output is
/// high while the counter is below `duty`.
#[derive(Clone, Copy, PartialEq, Eq, Structural, Debug)]
pub struct ToneTiming {
    pub top: u16,
    pub duty: u16,
}

/// The wrap value for a tone of `freq_hz`: clock / frequency, capped at the
/// largest value the 16-bit register holds.
pub open spec fn tone_top(freq_hz: u32) -> int {
    let ratio = SYS_CLK_HZ / freq_hz;
    if ratio <= 0xffff {
        ratio as int
    } else {
        0xffff
    }
}

/// Timing for a tone of `freq_hz` (tone freq = clock / top) as a square wave
/// with 50% duty cycle. The duty value never exceeds `top`, so it is always
/// within range of the PWM channel (whose maximum duty is `top + 1`).
pub fn tone_timing(freq_hz: u32) -> (t: ToneTiming)
    requires
        freq_hz > 0,
    ensures
        t.top == tone_top(freq_hz),
        t.duty == t.top / 2,
        t.duty <= t.top,
        2 * t.duty <= t.top <= 2 * t.duty + 1,
        t.top * freq_hz <= SYS_CLK_HZ,
        t.top == 0xffff || SYS_CLK_HZ < (t.top + 1) * freq_hz,
{
    proof {
        lemma_tone_top_period(freq_hz);
    }
    let ratio: u32 = SYS_CLK_HZ / freq_hz;
    let top: u16 = if ratio <= 0xffff {
        ratio as u16
    } else {
        0xffff
    };
    ToneTiming { top, duty: top / 2 }
}

/// The wrap value is the longest period (in clock cycles) that does not make
/// the tone lower than asked, capped at the 16-bit register: `top` cycles at
/// `freq_hz` fit in one second of the clock, and one more cycle would not,
/// unless `top` is already at the cap.
pub proof fn lemma_tone_top_period(freq_hz: u32)
    requires
        freq_hz > 0,
    ensures
        0 <= tone_top(freq_hz) <= 0xffff,
        tone_top(freq_hz) * freq_hz <= SYS_CLK_HZ,
        tone_top(freq_hz) == 0xffff || SYS_CLK_HZ < (tone_top(freq_hz) + 1) * freq_hz,
{
    let c = SYS_CLK_HZ as int;
    let f = freq_hz as int;
    let q = c / f;
    assert(q * f <= c && c < (q + 1) * f) by (nonlinear_arith)
        requires
            f > 0,
            c >= 0,
            q == c / f,
    ;
    if q > 0xffff {
        assert(0xffff * f <= q * f) by (nonlinear_arith)
            requires
                q > 0xffff,
                f > 0,
        ;
    }
}

/// A higher tone never gets a longer period: the wrap value never grows with
/// the frequency, and it sits at the cap for every frequency whose period
/// exceeds the 16-bit register.
pub proof fn lemma_tone_top_monotone(f1: u32, f2: u32)
    requires
        0 < f1 <= f2,
    ensures
        tone_top(f2) <= tone_top(f1),
        SYS_CLK_HZ / f1 > 0xffff ==> tone_top(f1) == 0xffff,
{
    vstd::arithmetic::div_mod::lemma_div_is_ordered_by_denominator(
        SYS_CLK_HZ as int,
        f1 as int,
        f2 as int,
    );
}

} // verus!
