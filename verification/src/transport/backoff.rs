//! Delays between attempts to reconnect: they grow by a factor up to a cap, and
//! are spread by a jitter so that many clients do not come back at once.

use vstd::prelude::*;

use crate::time::Duration;

verus! {

/// How delays grow.
#[derive(Debug, Clone, Copy, PartialEq, Eq, Structural)]
pub struct BackoffConfig {
    /// Delay after the first failure.
    pub initial: Duration,
    /// Largest delay.
    pub max: Duration,
    /// Factor from one attempt to the next.
    pub multiplier: u32,
    /// Jitter in percent of the delay.
    pub jitter_pct: u32,
}

impl Default for BackoffConfig {
    fn default() -> (r: Self)
        ensures
            r.initial@ == 500 * 1_000_000,
            r.max@ == 30 * 1_000_000_000,
            r.multiplier == 2,
            r.jitter_pct == 25,
    {
        BackoffConfig {
            initial: Duration::from_millis(500),
            max: Duration::from_secs(30),
            multiplier: 2,
            jitter_pct: 25,
        }
    }
}

impl BackoffConfig {
    /// A fast schedule for tests.
    pub fn accelerated_for_tests() -> (r: Self)
        ensures
            r.initial@ == 1_000_000,
            r.max@ == 20 * 1_000_000,
            r.multiplier == 2,
            r.jitter_pct == 10,
    {
        BackoffConfig {
            initial: Duration::from_millis(1),
            max: Duration::from_millis(20),
            multiplier: 2,
            jitter_pct: 10,
        }
    }

    /// The factor in use: at least one.
    pub open spec fn factor(self) -> int {
        if self.multiplier < 1 {
            1
        } else {
            self.multiplier as int
        }
    }

    /// The delay before jitter, in nanoseconds: `initial` times the factor once per
    /// earlier attempt, in whole milliseconds, and at most `max`.
    pub open spec fn base_nanos(self, attempt: nat) -> int {
        let ms = grown(self.initial.millis(), self.factor(), attempt);
        let held = if ms < u64::MAX {
            ms
        } else {
            u64::MAX as int
        };
        if attempt >= 1 && ms >= self.max.millis() {
            self.max@
        } else if held * 1_000_000 <= self.max@ {
            held * 1_000_000
        } else {
            self.max@
        }
    }
}

/// `start` times `factor`, `n` times over.
pub open spec fn grown(start: int, factor: int, n: nat) -> int
    decreases n,
{
    if n == 0 {
        start
    } else {
        grown(start, factor, (n - 1) as nat) * factor
    }
}

/// What grows by a factor of at least one does not shrink.
pub proof fn lemma_grown(start: int, factor: int, m: nat, n: nat)
    requires
        start >= 0,
        factor >= 1,
        m <= n,
    ensures
        0 <= grown(start, factor, m) <= grown(start, factor, n),
    decreases n,
{
    if n > 0 {
        let p = grown(start, factor, (n - 1) as nat);
        if m < n {
            lemma_grown(start, factor, m, (n - 1) as nat);
        } else {
            lemma_grown(start, factor, (n - 1) as nat, (n - 1) as nat);
        }
        assert(p * factor >= p) by (nonlinear_arith)
            requires
                p >= 0,
                factor >= 1,
        ;
    }
}

/// The delay before jitter.
fn capped_exp(initial: Duration, max: Duration, multiplier: u32, attempt: u32) -> (r: Duration)
    ensures
        r@ == (BackoffConfig { initial, max, multiplier, jitter_pct: 0 }).base_nanos(
            attempt as nat,
        ),
{
    let ghost config = BackoffConfig { initial, max, multiplier, jitter_pct: 0 };
    let mult: u32 = if multiplier < 1 {
        1
    } else {
        multiplier
    };
    let max_ms: u128 = max.as_millis();
    let mut ms: u128 = initial.as_millis();
    proof {
        initial.lemma_length(initial);
    }
    let ghost start = ms as int;
    let mut i: u32 = 0;
    while i < attempt
        invariant
            i <= attempt,
            start >= 0,
            mult >= 1,
            config == (BackoffConfig { initial, max, multiplier, jitter_pct: 0 }),
            config.factor() == mult,
            start == initial.millis(),
            max_ms == max.millis(),
            ms == grown(start, mult as int, i as nat),
            i >= 1 ==> ms < max_ms,
        decreases attempt - i,
    {
        let next = ms.checked_mul(mult as u128);
        proof {
            lemma_grown(start, mult as int, (i + 1) as nat, attempt as nat);
        }
        match next {
            Some(n) => {
                ms = n;
            },
            None => {
                return max;
            },
        }
        if ms >= max_ms {
            return max;
        }
        i = i + 1;
    }
    let held: u64 = if ms < u64::MAX as u128 {
        ms as u64
    } else {
        u64::MAX
    };
    Duration::from_millis(held).min(max)
}

// ---------------------------------------------------------------------------
// Jitter
// ---------------------------------------------------------------------------

/// The milliseconds that jitter works on: the low 64 bits.
pub open spec fn jitter_base(base: Duration) -> int {
    base.millis() % 0x1_0000_0000_0000_0000
}

/// How far jitter may move a delay: a share of it, at least one millisecond.
pub open spec fn jitter_span(base_ms: int, jitter_pct: u32) -> int {
    let product = base_ms * jitter_pct;
    let held = if product < u64::MAX {
        product
    } else {
        u64::MAX as int
    };
    if held / 100 < 1 {
        1
    } else {
        held / 100
    }
}

/// The shortest and the longest delay that jitter may make of a base.
pub open spec fn jitter_low(base_ms: int, jitter_pct: u32) -> int {
    let low = base_ms - jitter_span(base_ms, jitter_pct);
    if low < 0 {
        0
    } else {
        low
    }
}

pub open spec fn jitter_high(base_ms: int, jitter_pct: u32) -> int {
    let high = base_ms + jitter_span(base_ms, jitter_pct);
    if high < u64::MAX {
        high
    } else {
        u64::MAX as int
    }
}

/// Calls `fastrand::u64` on an inclusive range, which must not be empty. The number
/// it returns lies in that range; which one it is depends on chance.
#[verifier::external_body]
fn pick(low: u64, high: u64) -> (r: u64)
    requires
        low <= high,
    ensures
        low <= r <= high,
{
    fastrand::u64(low..=high)
}

/// The range around a delay that jitter picks from, in milliseconds, as long as the
/// cap allows; none for a delay of nothing.
pub fn jitter_range(base: Duration, jitter_pct: u32) -> (r: Option<(u64, u64)>)
    ensures
        match r {
            Some((low, high)) => {
                let ms = jitter_base(base);
                ms != 0 && low == jitter_low(ms, jitter_pct) && high == jitter_high(
                    ms,
                    jitter_pct,
                ) && low <= high
            },
            None => jitter_base(base) == 0,
        },
{
    let base_ms: u64 = (base.as_millis() % 0x1_0000_0000_0000_0000) as u64;
    proof {
        base.lemma_length(base);
    }
    if base_ms == 0 {
        return None;
    }
    let share: u64 = match base_ms.checked_mul(jitter_pct as u64) {
        Some(product) => product / 100,
        None => u64::MAX / 100,
    };
    let span: u64 = if share < 1 {
        1
    } else {
        share
    };
    let low: u64 = base_ms.saturating_sub(span);
    let high: u64 = base_ms.saturating_add(span);
    Some((low, high))
}

/// A delay that jitter may make of a base: one in whole milliseconds around it, and
/// none that is longer than `max`.
pub open spec fn is_jittered(
    base: Duration,
    max: Duration,
    jitter_pct: u32,
    r: Duration,
) -> bool {
    let ms = jitter_base(base);
    if ms == 0 {
        r == base
    } else {
        exists|picked: int|
            jitter_low(ms, jitter_pct) <= picked <= jitter_high(ms, jitter_pct) && picked
                <= max.millis() && r@ == #[trigger] (picked * 1_000_000)
    }
}

/// Spreads a delay evenly around its base, as far as `max` allows.
fn apply_jitter(base: Duration, max: Duration, jitter_pct: u32) -> (r: Duration)
    requires
        base@ <= max@,
    ensures
        is_jittered(base, max, jitter_pct, r),
        r@ <= max@,
{
    match jitter_range(base, jitter_pct) {
        None => base,
        Some((low, high)) => {
            let max_ms: u128 = max.as_millis();
            proof {
                base.lemma_length(base);
                max.lemma_length(max);
                assert(low <= jitter_base(base) <= base.millis() <= max_ms);
            }
            let top: u64 = if (high as u128) < max_ms {
                high
            } else {
                max_ms as u64
            };
            let picked: u64 = pick(low, top);
            let r = Duration::from_millis(picked);
            assert(r@ == picked as int * 1_000_000);
            r
        },
    }
}

// ---------------------------------------------------------------------------
// Attempts
// ---------------------------------------------------------------------------

/// Counts attempts, and tells the delay before the next.
#[derive(Debug)]
pub struct Backoff {
    config: BackoffConfig,
    attempt: u32,
    deterministic: bool,
}

/// The mathematical content of a [`Backoff`].
#[verifier::ext_equal]
pub struct BackoffView {
    pub config: BackoffConfig,
    pub attempt: u32,
    /// No jitter.
    pub deterministic: bool,
}

impl View for Backoff {
    type V = BackoffView;

    closed spec fn view(&self) -> BackoffView {
        BackoffView {
            config: self.config,
            attempt: self.attempt,
            deterministic: self.deterministic,
        }
    }
}

impl BackoffView {
    /// The state after one more delay.
    pub open spec fn advanced(self) -> BackoffView {
        BackoffView {
            attempt: if self.attempt < u32::MAX {
                (self.attempt + 1) as u32
            } else {
                u32::MAX
            },
            ..self
        }
    }

    /// A delay that may come next.
    pub open spec fn allows(self, delay: Duration) -> bool {
        let nanos = self.config.base_nanos(self.attempt as nat);
        if self.deterministic || self.config.jitter_pct == 0 {
            delay@ == nanos
        } else {
            exists|base: Duration|
                base@ == nanos && #[trigger] is_jittered(
                    base,
                    self.config.max,
                    self.config.jitter_pct,
                    delay,
                )
        }
    }
}

impl Clone for Backoff {
    fn clone(&self) -> (r: Self)
        ensures
            r@ == self@,
    {
        Backoff { config: self.config, attempt: self.attempt, deterministic: self.deterministic }
    }
}

impl Backoff {
    /// Delays with jitter.
    pub fn new(config: BackoffConfig) -> (r: Self)
        ensures
            r@ == (BackoffView { config, attempt: 0, deterministic: false }),
    {
        Backoff { config, attempt: 0, deterministic: false }
    }

    /// Delays without jitter.
    pub fn deterministic(config: BackoffConfig) -> (r: Self)
        ensures
            r@ == (BackoffView { config, attempt: 0, deterministic: true }),
    {
        Backoff { config, attempt: 0, deterministic: true }
    }

    /// Starts over after a connection was made.
    pub fn reset(&mut self)
        ensures
            final(self)@ == (BackoffView { attempt: 0, ..old(self)@ }),
    {
        self.attempt = 0;
    }

    /// Delays so far since the last reset.
    pub fn attempt(&self) -> (r: u32)
        ensures
            r == self@.attempt,
    {
        self.attempt
    }

    /// The next delay; counts the attempt.
    pub fn next_delay(&mut self) -> (r: Duration)
        ensures
            old(self)@.allows(r),
            r@ <= old(self)@.config.max@,
            final(self)@ == old(self)@.advanced(),
    {
        let base = capped_exp(
            self.config.initial,
            self.config.max,
            self.config.multiplier,
            self.attempt,
        );
        assert(base@ == self@.config.base_nanos(self@.attempt as nat));
        proof {
            law_base_grows_to_the_cap(self.config, self.attempt as nat);
        }
        self.attempt = self.attempt.saturating_add(1);
        if self.deterministic || self.config.jitter_pct == 0 {
            return base;
        }
        apply_jitter(base, self.config.max, self.config.jitter_pct)
    }
}

// ---------------------------------------------------------------------------
// Laws
// ---------------------------------------------------------------------------

/// Before jitter, a delay is never negative and never longer than the cap, and no
/// delay is shorter than the one before it.
pub proof fn law_base_grows_to_the_cap(config: BackoffConfig, attempt: nat)
    ensures
        0 <= config.base_nanos(attempt) <= config.max@,
        config.base_nanos(attempt) <= config.base_nanos(attempt + 1),
{
    let start = config.initial.millis();
    config.initial.lemma_length(config.initial);
    config.max.lemma_length(config.max);
    lemma_grown(start, config.factor(), attempt, attempt + 1);
    lemma_grown(start, config.factor(), 0, attempt);
}

/// Once the cap is reached, every later delay is the cap.
pub proof fn law_cap_is_kept(config: BackoffConfig, m: nat, n: nat)
    requires
        m <= n,
        config.base_nanos(m) == config.max@,
    ensures
        config.base_nanos(n) == config.max@,
    decreases n,
{
    if m < n {
        law_cap_is_kept(config, m, (n - 1) as nat);
        law_base_grows_to_the_cap(config, (n - 1) as nat);
        law_base_grows_to_the_cap(config, n);
    }
}

/// No delay is longer than the cap, with jitter or without.
pub proof fn law_no_delay_exceeds_the_cap(v: BackoffView, delay: Duration)
    requires
        v.allows(delay),
    ensures
        delay@ <= v.config.max@,
{
    law_base_grows_to_the_cap(v.config, v.attempt as nat);
    v.config.max.lemma_length(v.config.max);
}

/// Jitter moves a delay by no more than its span, and never below nothing.
pub proof fn law_jitter_stays_near(
    base: Duration,
    max: Duration,
    jitter_pct: u32,
    delay: Duration,
)
    requires
        is_jittered(base, max, jitter_pct, delay),
        base.millis() <= u64::MAX,
    ensures
        delay@ >= 0,
        jitter_base(base) != 0 ==> {
            let span = jitter_span(base.millis(), jitter_pct);
            base.millis() - span <= delay.millis() <= base.millis() + span
        },
        jitter_base(base) == 0 ==> delay == base,
{
    base.lemma_length(base);
    delay.lemma_length(delay);
}

/// With jitter of at most a hundred percent a delay is at most twice its base.
pub proof fn law_jitter_at_most_doubles(
    base: Duration,
    max: Duration,
    jitter_pct: u32,
    delay: Duration,
)
    requires
        is_jittered(base, max, jitter_pct, delay),
        base.millis() <= u64::MAX,
        jitter_pct <= 100,
    ensures
        delay.millis() <= 2 * base.millis(),
{
    base.lemma_length(base);
    law_jitter_stays_near(base, max, jitter_pct, delay);
    let ms = base.millis();
    assert(ms * jitter_pct <= ms * 100) by (nonlinear_arith)
        requires
            ms >= 0,
            jitter_pct <= 100,
    ;
}

/// The first delay is the initial one; each later one is the one before it times the
/// factor, until that reaches the cap, and then the cap.
pub proof fn law_delays_multiply(config: BackoffConfig, attempt: nat)
    requires
        config.initial.millis() <= u64::MAX,
        config.max.millis() <= u64::MAX,
        config.initial@ == 1_000_000 * config.initial.millis(),
        config.max@ == 1_000_000 * config.max.millis(),
    ensures
        config.base_nanos(0) == if config.initial@ <= config.max@ {
            config.initial@
        } else {
            config.max@
        },
        ({
            let factor = if config.multiplier < 1 {
                1
            } else {
                config.multiplier as int
            };
            let next = config.base_nanos(attempt) * factor;
            config.base_nanos(attempt + 1) == if next <= config.max@ {
                next
            } else {
                config.max@
            }
        }),
{
    let start = config.initial.millis();
    let factor = config.factor();
    let max_ms = config.max.millis();
    config.initial.lemma_length(config.initial);
    config.max.lemma_length(config.max);
    lemma_grown(start, factor, 0, attempt);
    lemma_grown(start, factor, attempt, attempt + 1);
    let now = grown(start, factor, attempt);
    let later = grown(start, factor, attempt + 1);
    assert(later == now * factor);
    assert((now * 1_000_000) * factor == (now * factor) * 1_000_000) by (nonlinear_arith);
    assert(max_ms * 1_000_000 * factor >= max_ms * 1_000_000) by (nonlinear_arith)
        requires
            max_ms >= 0,
            factor >= 1,
    ;
    if now >= max_ms {
        assert(config.base_nanos(attempt) == config.max@);
        assert(config.base_nanos(attempt + 1) == config.max@);
    } else {
        assert(config.base_nanos(attempt) == now * 1_000_000);
    }
}

/// Jitter takes a delay from as far below its base as above it: the given percentage
/// of the base, and at least a millisecond; below nothing it does not go.
pub proof fn law_jitter_spans(base_ms: int, jitter_pct: u32)
    requires
        0 < base_ms,
        base_ms * jitter_pct <= u64::MAX,
        base_ms + base_ms * jitter_pct <= u64::MAX,
        base_ms < u64::MAX,
    ensures
        ({
            let share = base_ms * jitter_pct / 100;
            let span = if share < 1 {
                1
            } else {
                share
            };
            &&& jitter_high(base_ms, jitter_pct) == base_ms + span
            &&& span <= base_ms ==> jitter_low(base_ms, jitter_pct) == base_ms - span
            &&& span > base_ms ==> jitter_low(base_ms, jitter_pct) == 0
        }),
{
    let p = base_ms * jitter_pct;
    assert(p >= 0) by (nonlinear_arith)
        requires
            p == base_ms * jitter_pct,
            base_ms > 0,
            jitter_pct >= 0,
    ;
}

/// Without jitter the delay is the base itself; with it the delay lies around the base,
/// in whole milliseconds, and a delay of less than a millisecond stays as it is.
pub proof fn law_allowed_delays(v: BackoffView, delay: Duration)
    requires
        v.allows(delay),
        v.config.max.millis() <= u64::MAX,
    ensures
        ({
            let base = v.config.base_nanos(v.attempt as nat);
            let ms = base / 1_000_000;
            &&& v.deterministic || v.config.jitter_pct == 0 || ms == 0 ==> delay@ == base
            &&& !v.deterministic && v.config.jitter_pct > 0 && ms > 0 ==> delay@ % 1_000_000 == 0
                && jitter_low(ms, v.config.jitter_pct) <= delay.millis() <= jitter_high(
                ms,
                v.config.jitter_pct,
            )
        }),
{
    law_base_grows_to_the_cap(v.config, v.attempt as nat);
    v.config.max.lemma_length(v.config.max);
    if !(v.deterministic || v.config.jitter_pct == 0) {
        let nanos = v.config.base_nanos(v.attempt as nat);
        let base = choose|base: Duration|
            base@ == nanos && #[trigger] is_jittered(
                base,
                v.config.max,
                v.config.jitter_pct,
                delay,
            );
        base.lemma_length(base);
        assert(base.millis() <= v.config.max.millis());
    }
}

/// Attempts are counted one by one, and start over at a reset.
pub proof fn law_attempts_are_counted(v: BackoffView)
    ensures
        v.attempt < u32::MAX ==> v.advanced().attempt == v.attempt + 1,
        v.attempt == u32::MAX ==> v.advanced().attempt == u32::MAX,
        v.advanced().config == v.config,
        v.advanced().deterministic == v.deterministic,
{
}

/// A new backoff starts at the first attempt, each delay is within the limit and
/// counts one attempt, and a reset starts over with the same settings.
pub proof fn law_backoff_counts(config: BackoffConfig, delay: Duration)
    ensures
        forall|b: Backoff| #[trigger]
            call_ensures(Backoff::new, (config,), b) ==> b@.config == config && b@.attempt == 0
                && !b@.deterministic,
        forall|b: Backoff| #[trigger]
            call_ensures(Backoff::deterministic, (config,), b) ==> b@.config == config && b@.attempt
                == 0 && b@.deterministic,
        forall|b: &mut Backoff| #[trigger]
            call_ensures(Backoff::next_delay, (b,), delay) ==> delay@ <= (*b)@.config.max@
                && final(b)@.config == (*b)@.config && ((*b)@.attempt < u32::MAX
                ==> final(b)@.attempt == (*b)@.attempt + 1) && ((*b)@.deterministic ==> delay@
                == (*b)@.config.base_nanos((*b)@.attempt as nat)),
        forall|b: &mut Backoff| #[trigger]
            call_ensures(Backoff::reset, (b,), ()) ==> final(b)@.attempt == 0 && final(b)@.config
                == (*b)@.config && final(b)@.deterministic == (*b)@.deterministic,
{
}

} // verus!
