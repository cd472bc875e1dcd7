//! The ladder of averaging intervals that an engine serves.
//!
//! An interval, `tau`, is a positive number of sample periods. A style picks the
//! intervals out of `1..=max_tau`; the ladder lists them in rising order.
use vstd::prelude::*;

verus! {

/// How the intervals are spaced.
#[derive(Clone, Copy, Debug, PartialEq, Eq, Structural)]
pub enum Style {
    /// The one interval given.
    SingleTau(u32),
    /// Every interval: 1, 2, 3, ...
    AllTau,
    /// The powers of ten: 1, 10, 100, ...
    Decade,
    /// One to nine times each power of ten: 1, 2, ..., 9, 10, 20, ..., 90, 100, 200, ...
    DecadeDeci,
}

/// `t` is a power of ten.
pub open spec fn power_of_ten(t: nat) -> bool
    decreases t,
{
    t == 1 || (t >= 10 && t % 10 == 0 && power_of_ten(t / 10))
}

/// `t` is a digit from one to nine followed by zeros only.
pub open spec fn decadic(t: nat) -> bool
    decreases t,
{
    1 <= t <= 9 || (t >= 10 && t % 10 == 0 && decadic(t / 10))
}

impl Style {
    /// The style picks the interval `t`.
    pub open spec fn includes(self, t: u32) -> bool {
        match self {
            Style::SingleTau(only) => t == only,
            Style::AllTau => true,
            Style::Decade => power_of_ten(t as nat),
            Style::DecadeDeci => decadic(t as nat),
        }
    }

    /// The style picks at least one interval up to `max_tau`.
    pub open spec fn serves(self, max_tau: u32) -> bool {
        match self {
            Style::SingleTau(only) => 1 <= only <= max_tau,
            _ => max_tau >= 1,
        }
    }
}

/// The interval `t` is on the ladder of `style` up to `max_tau`.
pub open spec fn on_ladder(style: Style, max_tau: u32, t: u32) -> bool {
    1 <= t <= max_tau && style.includes(t)
}

/// The sequence rises strictly.
pub open spec fn rising(s: Seq<u32>) -> bool {
    forall|i: int, j: int| 0 <= i < j < s.len() ==> s[i] < s[j]
}

/// `s` is the ladder of `style` up to `max_tau`: exactly its intervals, in rising order.
pub open spec fn is_ladder(s: Seq<u32>, style: Style, max_tau: u32) -> bool {
    &&& rising(s)
    &&& forall|t: u32| s.contains(t) <==> on_ladder(style, max_tau, t)
}

/// What a sequence contains after one more element.
pub proof fn lemma_push_contains(s: Seq<u32>, x: u32, t: u32)
    ensures
        s.push(x).contains(t) <==> (s.contains(t) || t == x),
{
    let g = s.push(x);
    if s.contains(t) {
        let k = choose|k: int| 0 <= k < s.len() && s[k] == t;
        assert(g[k] == t);
    }
    if t == x {
        assert(g[s.len() as int] == t);
    }
    if g.contains(t) {
        let k = choose|k: int| 0 <= k < g.len() && g[k] == t;
        if k < s.len() {
            assert(s[k] == t);
        }
    }
}

/// A digit times a power of ten is a digit followed by zeros.
pub proof fn lemma_decadic_multiple(base: nat, digit: nat)
    requires
        power_of_ten(base),
        1 <= digit <= 9,
    ensures
        decadic(digit * base),
    decreases base,
{
    if base == 1 {
        assert(digit * base == digit) by (nonlinear_arith)
            requires
                base == 1,
        ;
    } else {
        let b = base / 10;
        lemma_decadic_multiple(b, digit);
        assert(digit * base == 10 * (digit * b)) by (nonlinear_arith)
            requires
                base == 10 * b,
        ;
        assert(digit * b >= 1) by (nonlinear_arith)
            requires
                digit >= 1,
                b >= 1,
        ;
        assert(power_of_ten(b) ==> b >= 1);
    }
}

/// Between one multiple of a power of ten by a digit and the next lies no other
/// number made of a digit and zeros.
pub proof fn lemma_decadic_gap(base: nat, digit: nat, t: nat)
    requires
        power_of_ten(base),
        1 <= digit <= 9,
        decadic(t),
        digit * base <= t < (digit + 1) * base,
    ensures
        t == digit * base,
    decreases base,
{
    if base == 1 {
        assert(digit * base == digit && (digit + 1) * base == digit + 1) by (nonlinear_arith)
            requires
                base == 1,
        ;
    } else {
        let b = base / 10;
        assert(power_of_ten(b) ==> b >= 1);
        assert(digit * base == 10 * (digit * b) && (digit + 1) * base == 10 * ((digit + 1) * b)
            && digit * b >= 1) by (nonlinear_arith)
            requires
                base == 10 * b,
                digit >= 1,
                b >= 1,
        ;
        assert(t >= 10);
        lemma_decadic_gap(b, digit, t / 10);
    }
}

/// Between one power of ten and the next lies no other.
pub proof fn lemma_power_gap(base: nat, t: nat)
    requires
        power_of_ten(base),
        power_of_ten(t),
        base <= t < 10 * base,
    ensures
        t == base,
    decreases base,
{
    if base != 1 {
        lemma_power_gap(base / 10, t / 10);
    }
}

fn single(only: u32, max_tau: u32) -> (taus: Vec<u32>)
    ensures
        is_ladder(taus@, Style::SingleTau(only), max_tau),
{
    let mut taus: Vec<u32> = Vec::new();
    if 1 <= only && only <= max_tau {
        taus.push(only);
        assert forall|t: u32| taus@.contains(t) <==> on_ladder(
            Style::SingleTau(only),
            max_tau,
            t,
        ) by {
            lemma_push_contains(Seq::empty(), only, t);
            assert(taus@ =~= Seq::<u32>::empty().push(only));
        }
    }
    taus
}

fn every(max_tau: u32) -> (taus: Vec<u32>)
    ensures
        is_ladder(taus@, Style::AllTau, max_tau),
{
    let mut taus: Vec<u32> = Vec::new();
    let mut next: u64 = 1;
    while next <= max_tau as u64
        invariant
            1 <= next <= max_tau + 1,
            rising(taus@),
            forall|i: int| 0 <= i < taus@.len() ==> taus@[i] < next,
            forall|t: u32| taus@.contains(t) <==> 1 <= t < next,
        decreases max_tau + 1 - next,
    {
        let ghost before = taus@;
        taus.push(next as u32);
        assert forall|t: u32| taus@.contains(t) <==> 1 <= t < next + 1 by {
            lemma_push_contains(before, next as u32, t);
        }
        next = next + 1;
    }
    taus
}

fn decades(max_tau: u32) -> (taus: Vec<u32>)
    ensures
        is_ladder(taus@, Style::Decade, max_tau),
{
    let mut taus: Vec<u32> = Vec::new();
    let mut base: u64 = 1;
    while base <= max_tau as u64
        invariant
            power_of_ten(base as nat),
            base <= 10 * u32::MAX,
            rising(taus@),
            forall|i: int| 0 <= i < taus@.len() ==> taus@[i] < base,
            forall|t: u32| taus@.contains(t) <==> on_ladder(Style::Decade, max_tau, t) && t < base,
        decreases 10 * u32::MAX - base,
    {
        let ghost before = taus@;
        taus.push(base as u32);
        assert forall|t: u32|
            taus@.contains(t) <==> on_ladder(Style::Decade, max_tau, t) && t < 10 * base by {
            lemma_push_contains(before, base as u32, t);
            if power_of_ten(t as nat) && base <= t < 10 * base {
                lemma_power_gap(base as nat, t as nat);
            }
        }
        base = base * 10;
    }
    taus
}

fn deciles(max_tau: u32) -> (taus: Vec<u32>)
    ensures
        is_ladder(taus@, Style::DecadeDeci, max_tau),
{
    let mut taus: Vec<u32> = Vec::new();
    let mut base: u64 = 1;
    let mut digit: u64 = 1;
    let mut tau: u64 = 1;
    while tau <= max_tau as u64
        invariant
            power_of_ten(base as nat),
            1 <= digit <= 9,
            tau == base * digit,
            base <= tau <= 2 * u32::MAX,
            rising(taus@),
            forall|i: int| 0 <= i < taus@.len() ==> taus@[i] < tau,
            forall|t: u32|
                taus@.contains(t) <==> on_ladder(Style::DecadeDeci, max_tau, t) && t < tau,
        decreases 2 * u32::MAX - tau,
    {
        let ghost before = taus@;
        taus.push(tau as u32);
        assert forall|t: u32|
            taus@.contains(t) <==> on_ladder(Style::DecadeDeci, max_tau, t) && t < tau
                + base by {
            lemma_push_contains(before, tau as u32, t);
            lemma_decadic_multiple(base as nat, digit as nat);
            assert(digit as nat * base as nat == tau && (digit as nat + 1) * base as nat == tau
                + base) by (nonlinear_arith)
                requires
                    tau == base * digit,
            ;
            if decadic(t as nat) && tau <= t < tau + base {
                lemma_decadic_gap(base as nat, digit as nat, t as nat);
            }
        }
        let ghost step = base;
        tau = tau + base;
        if digit == 9 {
            base = base * 10;
            digit = 1;
        } else {
            digit = digit + 1;
        }
        assert(tau == base * digit) by (nonlinear_arith)
            requires
                (base == 10 * step && digit == 1 && tau == step * 9 + step) || (base == step
                    && tau == step * (digit - 1) + step),
        ;
    }
    taus
}

/// The ladder of `style` up to `max_tau`.
pub fn ladder(style: Style, max_tau: u32) -> (taus: Vec<u32>)
    ensures
        is_ladder(taus@, style, max_tau),
        taus@.len() >= 1 <==> style.serves(max_tau),
{
    let taus = match style {
        Style::SingleTau(only) => single(only, max_tau),
        Style::AllTau => every(max_tau),
        Style::Decade => decades(max_tau),
        Style::DecadeDeci => deciles(max_tau),
    };
    proof {
        if taus@.len() >= 1 {
            assert(taus@.contains(taus@[0]));
        }
        if style.serves(max_tau) {
            let first: u32 = match style {
                Style::SingleTau(only) => only,
                _ => 1,
            };
            assert(on_ladder(style, max_tau, first));
            assert(taus@.contains(first));
        }
    }
    taus
}

} // verus!
