//! Token budget and context pressure levels: pure computations from a
//! budget configuration and an estimated token count.

use vstd::prelude::*;

verus! {

/// Default overall context window size.
pub const DEFAULT_CONTEXT_WINDOW: usize = 100_000;

/// Default tokens reserved for model output.
pub const DEFAULT_RESERVED_OUTPUT: usize = 20_000;

/// Default buffer between the Warning and Compact thresholds.
pub const DEFAULT_WARNING_BUFFER: usize = 20_000;

/// Default buffer between the Compact and Blocking thresholds.
pub const DEFAULT_COMPACT_BUFFER: usize = 13_000;

/// Default buffer between the Blocking threshold and the hard limit.
pub const DEFAULT_BLOCKING_BUFFER: usize = 3_000;

/// Hard floor for the effective context window.
pub const MIN_EFFECTIVE_WINDOW: usize = 1_000;

/// Upper bound of the minimum prompt budget kept for small windows.
pub const MIN_PROMPT_BUDGET: usize = 8_000;

/// Context pressure level, from least to most urgent.
#[derive(Debug, Clone, Copy, PartialEq, Eq, PartialOrd, Ord, Hash)]
pub enum PressureLevel {
    /// Plenty of room.
    Normal,
    /// Approaching the limit.
    Warning,
    /// Above the compact threshold.
    Compact,
    /// At or above the blocking threshold.
    Blocking,
}

/// Position of a pressure level in the urgency order.
pub open spec fn pressure_rank(p: PressureLevel) -> int {
    match p {
        PressureLevel::Normal => 0,
        PressureLevel::Warning => 1,
        PressureLevel::Compact => 2,
        PressureLevel::Blocking => 3,
    }
}

/// Token budget configuration.
#[derive(Debug, Clone, Copy, PartialEq, Eq, Structural)]
pub struct TokenBudget {
    /// Total context window.
    pub context_window: usize,
    /// Tokens reserved for model output.
    pub reserved_output: usize,
    /// Buffer between Warning and Compact.
    pub warning_buffer: usize,
    /// Buffer between Compact and Blocking.
    pub compact_buffer: usize,
    /// Buffer between Blocking and the hard limit.
    pub blocking_buffer: usize,
}

/// Thresholds derived from a budget.
#[derive(Debug, Clone, Copy, PartialEq, Eq, Structural)]
pub struct BudgetThresholds {
    /// Tokens available for the prompt.
    pub effective_window: usize,
    /// Count at which pressure becomes Warning.
    pub warning_threshold: usize,
    /// Count at which pressure becomes Compact.
    pub compact_threshold: usize,
    /// Count at which pressure becomes Blocking.
    pub blocking_threshold: usize,
}

/// Budget state for one token count.
#[derive(Debug, Clone, Copy, PartialEq, Eq)]
pub struct BudgetState {
    /// The estimated token count.
    pub estimated_tokens: usize,
    /// Effective window size.
    pub effective_window: usize,
    /// Warning threshold.
    pub warning_threshold: usize,
    /// Compact threshold.
    pub compact_threshold: usize,
    /// Blocking threshold.
    pub blocking_threshold: usize,
    /// Percentage of the effective window used (0 to 100).
    pub percent_used: u8,
    /// Percentage remaining (0 to 100).
    pub percent_remaining: u8,
    /// Pressure level.
    pub pressure: PressureLevel,
    /// `estimated_tokens >= warning_threshold`.
    pub is_above_warning: bool,
    /// `estimated_tokens >= compact_threshold`.
    pub is_above_compact: bool,
    /// `estimated_tokens >= blocking_threshold`.
    pub is_above_blocking: bool,
}

/// `a - b`, floored at zero.
pub open spec fn sat_sub(a: int, b: int) -> int {
    if a >= b {
        a - b
    } else {
        0
    }
}

/// The smaller of two integers.
pub open spec fn min_int(a: int, b: int) -> int {
    if a <= b {
        a
    } else {
        b
    }
}

/// The larger of two integers.
pub open spec fn max_int(a: int, b: int) -> int {
    if a >= b {
        a
    } else {
        b
    }
}

/// Reserved output, capped so that at least `min(window / 2, 8000)` (and
/// at least one) tokens remain for the prompt.
pub open spec fn spec_reserved_output(context_window: int, reserved_output: int) -> int {
    let cw = max_int(context_window, 1);
    let min_prompt = min_int(max_int(cw / 2, 1), MIN_PROMPT_BUDGET as int);
    min_int(reserved_output, sat_sub(cw, min_prompt))
}

/// Effective window: window minus effective reserve, at least 1000.
pub open spec fn spec_effective_window(context_window: int, reserved_output: int) -> int {
    max_int(
        sat_sub(context_window, spec_reserved_output(context_window, reserved_output)),
        MIN_EFFECTIVE_WINDOW as int,
    )
}

/// Thresholds of a budget. Compact and warning buffers are capped at a
/// third of the effective window, the blocking buffer at a tenth (and at
/// least one).
pub open spec fn spec_thresholds(b: TokenBudget) -> BudgetThresholds {
    let eff = spec_effective_window(b.context_window as int, b.reserved_output as int);
    let auto_buffer = min_int(b.compact_buffer as int, eff / 3);
    let warn_buffer = min_int(b.warning_buffer as int, eff / 3);
    let block_buffer = max_int(min_int(b.blocking_buffer as int, eff / 10), 1);
    let compact = max_int(sat_sub(eff, auto_buffer), 1);
    let warning = min_int(max_int(sat_sub(compact, warn_buffer), 1), compact);
    let blocking = min_int(max_int(sat_sub(eff, block_buffer), compact), eff);
    BudgetThresholds {
        effective_window: eff as usize,
        warning_threshold: warning as usize,
        compact_threshold: compact as usize,
        blocking_threshold: blocking as usize,
    }
}

/// Pressure for a token count given thresholds.
pub open spec fn spec_pressure(t: int, th: BudgetThresholds) -> PressureLevel {
    if t >= th.blocking_threshold {
        PressureLevel::Blocking
    } else if t >= th.compact_threshold {
        PressureLevel::Compact
    } else if t >= th.warning_threshold {
        PressureLevel::Warning
    } else {
        PressureLevel::Normal
    }
}

/// Percentage of the effective window used: `tokens * 100` (saturating at
/// `usize::MAX`) divided by the window, capped at 100.
pub open spec fn spec_percent_used(t: int, eff: int) -> int {
    let prod = min_int(t * 100, usize::MAX as int);
    if eff == 0 {
        100
    } else {
        min_int(prod / eff, 100)
    }
}

/// The full budget state for a token count.
pub open spec fn spec_budget_state(t: usize, b: TokenBudget) -> BudgetState {
    let th = spec_thresholds(b);
    let used = spec_percent_used(t as int, th.effective_window as int);
    BudgetState {
        estimated_tokens: t,
        effective_window: th.effective_window,
        warning_threshold: th.warning_threshold,
        compact_threshold: th.compact_threshold,
        blocking_threshold: th.blocking_threshold,
        percent_used: used as u8,
        percent_remaining: (100 - used) as u8,
        pressure: spec_pressure(t as int, th),
        is_above_warning: t >= th.warning_threshold,
        is_above_compact: t >= th.compact_threshold,
        is_above_blocking: t >= th.blocking_threshold,
    }
}

/// The budget with all default values.
pub open spec fn spec_default_budget() -> TokenBudget {
    TokenBudget {
        context_window: DEFAULT_CONTEXT_WINDOW,
        reserved_output: DEFAULT_RESERVED_OUTPUT,
        warning_buffer: DEFAULT_WARNING_BUFFER,
        compact_buffer: DEFAULT_COMPACT_BUFFER,
        blocking_buffer: DEFAULT_BLOCKING_BUFFER,
    }
}

/// The effective reserved output.
pub fn effective_reserved_output(context_window: usize, reserved_output: usize) -> (r: usize)
    ensures
        r == spec_reserved_output(context_window as int, reserved_output as int),
{
    let cw = if context_window >= 1 {
        context_window
    } else {
        1
    };
    let half = cw / 2;
    let lo = if half >= 1 {
        half
    } else {
        1
    };
    let min_prompt = if lo <= MIN_PROMPT_BUDGET {
        lo
    } else {
        MIN_PROMPT_BUDGET
    };
    let max_reserve = cw.saturating_sub(min_prompt);
    if reserved_output <= max_reserve {
        reserved_output
    } else {
        max_reserve
    }
}

/// The effective context window: window minus effective reserve, at
/// least [`MIN_EFFECTIVE_WINDOW`].
pub fn effective_context_window(context_window: usize, reserved_output: usize) -> (r: usize)
    ensures
        r == spec_effective_window(context_window as int, reserved_output as int),
        r >= MIN_EFFECTIVE_WINDOW,
        r <= max_int(context_window as int, MIN_EFFECTIVE_WINDOW as int),
{
    let reserved = effective_reserved_output(context_window, reserved_output);
    let e = context_window.saturating_sub(reserved);
    if e >= MIN_EFFECTIVE_WINDOW {
        e
    } else {
        MIN_EFFECTIVE_WINDOW
    }
}

/// Thresholds derived from a budget.
pub fn calculate_thresholds(budget: &TokenBudget) -> (r: BudgetThresholds)
    ensures
        r == spec_thresholds(*budget),
{
    let effective = budget.effective_window();
    let third = effective / 3;
    let auto_buffer = if budget.compact_buffer <= third {
        budget.compact_buffer
    } else {
        third
    };
    let warn_buffer = if budget.warning_buffer <= third {
        budget.warning_buffer
    } else {
        third
    };
    let tenth = effective / 10;
    let b0 = if budget.blocking_buffer <= tenth {
        budget.blocking_buffer
    } else {
        tenth
    };
    let block_buffer = if b0 >= 1 {
        b0
    } else {
        1
    };
    let c0 = effective.saturating_sub(auto_buffer);
    let compact_threshold = if c0 >= 1 {
        c0
    } else {
        1
    };
    let w0 = compact_threshold.saturating_sub(warn_buffer);
    let w1 = if w0 >= 1 {
        w0
    } else {
        1
    };
    let warning_threshold = if w1 <= compact_threshold {
        w1
    } else {
        compact_threshold
    };
    let k0 = effective.saturating_sub(block_buffer);
    let k1 = if k0 >= compact_threshold {
        k0
    } else {
        compact_threshold
    };
    let blocking_threshold = if k1 <= effective {
        k1
    } else {
        effective
    };
    BudgetThresholds {
        effective_window: effective,
        warning_threshold,
        compact_threshold,
        blocking_threshold,
    }
}

/// The full budget state for an estimated token count.
pub fn calculate_budget_state(estimated_tokens: usize, budget: &TokenBudget) -> (r: BudgetState)
    ensures
        r == spec_budget_state(estimated_tokens, *budget),
{
    let thresholds = budget.thresholds();
    proof {
        lemma_thresholds_ordered(*budget);
    }
    let prod: usize = if estimated_tokens <= usize::MAX / 100 {
        estimated_tokens * 100
    } else {
        usize::MAX
    };
    let q = prod / thresholds.effective_window;
    let percent_used: u8 = if q <= 100 {
        q as u8
    } else {
        100
    };
    let percent_remaining: u8 = 100u8 - percent_used;
    let is_above_blocking = estimated_tokens >= thresholds.blocking_threshold;
    let is_above_compact = estimated_tokens >= thresholds.compact_threshold;
    let is_above_warning = estimated_tokens >= thresholds.warning_threshold;
    let pressure = if is_above_blocking {
        PressureLevel::Blocking
    } else if is_above_compact {
        PressureLevel::Compact
    } else if is_above_warning {
        PressureLevel::Warning
    } else {
        PressureLevel::Normal
    };
    BudgetState {
        estimated_tokens,
        effective_window: thresholds.effective_window,
        warning_threshold: thresholds.warning_threshold,
        compact_threshold: thresholds.compact_threshold,
        blocking_threshold: thresholds.blocking_threshold,
        percent_used,
        percent_remaining,
        pressure,
        is_above_warning,
        is_above_compact,
        is_above_blocking,
    }
}

impl TokenBudget {
    /// A budget with the given window (floored at 1000) and reserve, and
    /// default buffers.
    pub fn new(context_window: usize, reserved_output: usize) -> (r: Self)
        ensures
            r == (TokenBudget {
                context_window: max_int(context_window as int, MIN_EFFECTIVE_WINDOW as int) as usize,
                reserved_output,
                ..spec_default_budget()
            }),
    {
        let cw = if context_window >= MIN_EFFECTIVE_WINDOW {
            context_window
        } else {
            MIN_EFFECTIVE_WINDOW
        };
        TokenBudget {
            context_window: cw,
            reserved_output,
            warning_buffer: DEFAULT_WARNING_BUFFER,
            compact_buffer: DEFAULT_COMPACT_BUFFER,
            blocking_buffer: DEFAULT_BLOCKING_BUFFER,
        }
    }

    /// A budget with every parameter given.
    pub fn with_buffers(
        context_window: usize,
        reserved_output: usize,
        warning_buffer: usize,
        compact_buffer: usize,
        blocking_buffer: usize,
    ) -> (r: Self)
        ensures
            r == (TokenBudget {
                context_window,
                reserved_output,
                warning_buffer,
                compact_buffer,
                blocking_buffer,
            }),
    {
        TokenBudget { context_window, reserved_output, warning_buffer, compact_buffer, blocking_buffer }
    }

    /// The effective context window.
    pub fn effective_window(&self) -> (r: usize)
        ensures
            r == spec_effective_window(self.context_window as int, self.reserved_output as int),
            r >= MIN_EFFECTIVE_WINDOW,
    {
        effective_context_window(self.context_window, self.reserved_output)
    }

    /// The warning, compact and blocking thresholds.
    pub fn thresholds(&self) -> (r: BudgetThresholds)
        ensures
            r == spec_thresholds(*self),
    {
        calculate_thresholds(self)
    }

    /// The budget state for an estimated token count.
    pub fn state_for(&self, estimated_tokens: usize) -> (r: BudgetState)
        ensures
            r == spec_budget_state(estimated_tokens, *self),
    {
        calculate_budget_state(estimated_tokens, self)
    }

    /// Tokens left before the blocking threshold (zero at or past it).
    pub fn remaining_before_blocking(&self, estimated_tokens: usize) -> (r: usize)
        ensures
            r == sat_sub(spec_thresholds(*self).blocking_threshold as int, estimated_tokens as int),
    {
        let thresholds = self.thresholds();
        thresholds.blocking_threshold.saturating_sub(estimated_tokens)
    }

    /// Tokens left in the effective window (zero at or past it).
    pub fn remaining(&self, estimated_tokens: usize) -> (r: usize)
        ensures
            r == sat_sub(
                spec_effective_window(self.context_window as int, self.reserved_output as int),
                estimated_tokens as int,
            ),
    {
        self.effective_window().saturating_sub(estimated_tokens)
    }
}

impl Default for TokenBudget {
    fn default() -> (r: Self)
        ensures
            r == spec_default_budget(),
    {
        TokenBudget {
            context_window: DEFAULT_CONTEXT_WINDOW,
            reserved_output: DEFAULT_RESERVED_OUTPUT,
            warning_buffer: DEFAULT_WARNING_BUFFER,
            compact_buffer: DEFAULT_COMPACT_BUFFER,
            blocking_buffer: DEFAULT_BLOCKING_BUFFER,
        }
    }
}

/// For every budget the thresholds are ordered:
/// `1 <= warning <= compact <= blocking <= effective window`, and the
/// effective window is at least 1000.
pub proof fn lemma_thresholds_ordered(b: TokenBudget)
    ensures
        ({
            let t = spec_thresholds(b);
            &&& 1 <= t.warning_threshold <= t.compact_threshold
            &&& t.compact_threshold <= t.blocking_threshold <= t.effective_window
            &&& t.effective_window >= MIN_EFFECTIVE_WINDOW
            &&& t.effective_window == spec_effective_window(
                b.context_window as int,
                b.reserved_output as int,
            )
        }),
{
    let eff = spec_effective_window(b.context_window as int, b.reserved_output as int);
    assert(eff >= MIN_EFFECTIVE_WINDOW);
    assert(eff <= max_int(b.context_window as int, MIN_EFFECTIVE_WINDOW as int));
}

/// Pressure rises with the token count: a larger count never has a lower
/// pressure level, and each flag matches its threshold.
pub proof fn lemma_pressure_monotone(b: TokenBudget, t1: usize, t2: usize)
    requires
        t1 <= t2,
    ensures
        pressure_rank(spec_budget_state(t1, b).pressure) <= pressure_rank(
            spec_budget_state(t2, b).pressure,
        ),
        spec_budget_state(t1, b).pressure == PressureLevel::Blocking
            <==> spec_budget_state(t1, b).is_above_blocking,
        spec_budget_state(t1, b).is_above_blocking ==> spec_budget_state(t1, b).is_above_compact,
        spec_budget_state(t1, b).is_above_compact ==> spec_budget_state(t1, b).is_above_warning,
        spec_budget_state(t1, b).percent_used + spec_budget_state(t1, b).percent_remaining == 100,
{
    lemma_thresholds_ordered(b);
}

/// The share of the window used is the token count over the effective
/// window, in whole percent rounded down and capped at 100: `percent_used`
/// percent of the window is covered by the count, one more percent is
/// not (below 100), it reaches 100 exactly when the count fills the
/// window, and with the remainder it makes 100.
pub proof fn lemma_percent_used(b: TokenBudget, t: usize)
    requires
        t * 100 <= usize::MAX,
    ensures
        ({
            let st = spec_budget_state(t, b);
            let w = st.effective_window as int;
            let p = st.percent_used as int;
            &&& p * w <= t * 100
            &&& p < 100 ==> t * 100 < (p + 1) * w
            &&& p == 100 <==> t >= w
            &&& p + st.percent_remaining == 100
        }),
{
    lemma_thresholds_ordered(b);
    let w = spec_thresholds(b).effective_window as int;
    let prod = t * 100;
    assert(prod <= usize::MAX);
    let q = prod / w;
    assert(w > 0);
    assert(q * w <= prod && prod < (q + 1) * w) by (nonlinear_arith)
        requires
            w > 0,
            q == prod / w,
            prod >= 0,
    ;
    if q <= 100 {
        assert(spec_percent_used(t as int, w) == q);
        assert(q == 100 <==> t >= w) by (nonlinear_arith)
            requires
                q * w <= prod,
                prod < (q + 1) * w,
                prod == t * 100,
                w > 0,
                q <= 100,
        ;
    } else {
        assert(spec_percent_used(t as int, w) == 100);
        assert(100 * w <= prod && t >= w) by (nonlinear_arith)
            requires
                q * w <= prod,
                q > 100,
                prod == t * 100,
                w > 0,
        ;
    }
}

/// More tokens never use a smaller share of the window.
pub proof fn lemma_percent_used_monotone(b: TokenBudget, t1: usize, t2: usize)
    requires
        t1 <= t2,
    ensures
        spec_budget_state(t1, b).percent_used <= spec_budget_state(t2, b).percent_used,
{
    lemma_thresholds_ordered(b);
    let w = spec_thresholds(b).effective_window as int;
    let p1 = min_int(t1 * 100, usize::MAX as int);
    let p2 = min_int(t2 * 100, usize::MAX as int);
    assert(p1 <= p2) by (nonlinear_arith)
        requires
            t1 <= t2,
            p1 == min_int(t1 * 100, usize::MAX as int),
            p2 == min_int(t2 * 100, usize::MAX as int),
    ;
    vstd::arithmetic::div_mod::lemma_div_is_ordered(p1, p2, w);
}

/// What the effective window is: never below 1000 tokens; the prompt keeps
/// at least half the window or 8000 tokens, whichever is less; and when the
/// reservation fits (at most half the window, or leaving 8000 tokens) and
/// leaves at least 1000, the window is the context window minus the
/// reservation.
pub proof fn lemma_effective_window(context_window: usize, reserved_output: usize)
    ensures
        spec_effective_window(context_window as int, reserved_output as int) >= 1000,
        spec_effective_window(context_window as int, reserved_output as int) >= min_int(
            (context_window / 2) as int,
            8000,
        ),
        (reserved_output * 2 <= context_window || reserved_output + 8000 <= context_window)
            && context_window - reserved_output >= 1000 ==> spec_effective_window(
            context_window as int,
            reserved_output as int,
        ) == context_window - reserved_output,
{
}

/// How the buffers set the thresholds: a compact buffer of at most a third
/// of the window puts the compact threshold that far below the window; a
/// warning buffer of at most a third puts the warning threshold that far
/// below the compact threshold; a blocking buffer between one and a tenth
/// of the window puts the blocking threshold that far below the window,
/// unless that would fall below the compact threshold.
pub proof fn lemma_thresholds_from_buffers(b: TokenBudget)
    ensures
        ({
            let t = spec_thresholds(b);
            let eff = t.effective_window as int;
            &&& b.compact_buffer <= eff / 3 && b.compact_buffer < eff ==> t.compact_threshold == eff
                - b.compact_buffer
            &&& b.warning_buffer <= eff / 3 && b.warning_buffer < t.compact_threshold
                ==> t.warning_threshold == t.compact_threshold - b.warning_buffer
            &&& 1 <= b.blocking_buffer <= eff / 10 && eff - b.blocking_buffer >= t.compact_threshold
                ==> t.blocking_threshold == eff - b.blocking_buffer
        }),
{
    lemma_thresholds_ordered(b);
}

} // verus!
