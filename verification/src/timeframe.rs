//! Candle timeframes.

use vstd::prelude::*;

use crate::candle::{spec_bucket_start, trunc_div};
use crate::text::str_eq;

verus! {

/// The aggregation periods a candle can span.
#[derive(Clone, Copy, Debug, PartialEq, Eq, Structural, Hash)]
pub enum Timeframe {
    S5,
    S15,
    M1,
    M5,
    M15,
    M30,
    H1,
}

/// Length of a timeframe in milliseconds.
pub open spec fn spec_duration_ms(tf: Timeframe) -> int {
    match tf {
        Timeframe::S5 => 5_000,
        Timeframe::S15 => 15_000,
        Timeframe::M1 => 60_000,
        Timeframe::M5 => 300_000,
        Timeframe::M15 => 900_000,
        Timeframe::M30 => 1_800_000,
        Timeframe::H1 => 3_600_000,
    }
}

/// The name under which a timeframe is shown, stored and parsed.
pub open spec fn spec_label(tf: Timeframe) -> Seq<char> {
    match tf {
        Timeframe::S5 => "S5"@,
        Timeframe::S15 => "S15"@,
        Timeframe::M1 => "M1"@,
        Timeframe::M5 => "M5"@,
        Timeframe::M15 => "M15"@,
        Timeframe::M30 => "M30"@,
        Timeframe::H1 => "H1"@,
    }
}

/// The timeframe whose label is `s`, if any.
pub open spec fn spec_from_str(s: Seq<char>) -> Option<Timeframe> {
    if s == "S5"@ {
        Some(Timeframe::S5)
    } else if s == "S15"@ {
        Some(Timeframe::S15)
    } else if s == "M1"@ {
        Some(Timeframe::M1)
    } else if s == "M5"@ {
        Some(Timeframe::M5)
    } else if s == "M15"@ {
        Some(Timeframe::M15)
    } else if s == "M30"@ {
        Some(Timeframe::M30)
    } else if s == "H1"@ {
        Some(Timeframe::H1)
    } else {
        None
    }
}

impl Timeframe {
    pub fn duration_ms(self) -> (r: i64)
        ensures
            r == spec_duration_ms(self),
            r > 0,
    {
        match self {
            Timeframe::S5 => 5_000,
            Timeframe::S15 => 15_000,
            Timeframe::M1 => 60_000,
            Timeframe::M5 => 300_000,
            Timeframe::M15 => 900_000,
            Timeframe::M30 => 1_800_000,
            Timeframe::H1 => 3_600_000,
        }
    }

    pub fn label(self) -> (r: &'static str)
        ensures
            r@ == spec_label(self),
    {
        match self {
            Timeframe::S5 => "S5",
            Timeframe::S15 => "S15",
            Timeframe::M1 => "M1",
            Timeframe::M5 => "M5",
            Timeframe::M15 => "M15",
            Timeframe::M30 => "M30",
            Timeframe::H1 => "H1",
        }
    }

    pub fn from_str(s: &str) -> (r: Option<Self>)
        ensures
            r == spec_from_str(s@),
            forall|t: Timeframe| s@ == #[trigger] spec_label(t) ==> r == Some(t),
            r matches Some(t) ==> s@ == spec_label(t),
    {
        proof {
            assert forall|t: Timeframe| s@ == spec_label(t) implies spec_from_str(s@) == Some(t) by {
                lemma_label_round_trip(t);
            }
            if spec_from_str(s@) is Some {
                lemma_from_str_is_label(s@, spec_from_str(s@)->0);
            }
        }
        if str_eq(s, "S5") {
            Some(Timeframe::S5)
        } else if str_eq(s, "S15") {
            Some(Timeframe::S15)
        } else if str_eq(s, "M1") {
            Some(Timeframe::M1)
        } else if str_eq(s, "M5") {
            Some(Timeframe::M5)
        } else if str_eq(s, "M15") {
            Some(Timeframe::M15)
        } else if str_eq(s, "M30") {
            Some(Timeframe::M30)
        } else if str_eq(s, "H1") {
            Some(Timeframe::H1)
        } else {
            None
        }
    }
}

/// Parsing a timeframe's label gives the timeframe back.
pub proof fn lemma_label_round_trip(tf: Timeframe)
    ensures
        spec_from_str(spec_label(tf)) == Some(tf),
{
    reveal_strlit("S5");
    reveal_strlit("S15");
    reveal_strlit("M1");
    reveal_strlit("M5");
    reveal_strlit("M15");
    reveal_strlit("M30");
    reveal_strlit("H1");
    assert("S5"@.len() == 2 && "M1"@.len() == 2 && "M5"@.len() == 2 && "H1"@.len() == 2);
    assert("S15"@.len() == 3 && "M15"@.len() == 3 && "M30"@.len() == 3);
    assert("S5"@[0] != "M1"@[0] && "S5"@[0] != "H1"@[0] && "M1"@[0] != "H1"@[0]);
    assert("M1"@[1] != "M5"@[1] && "S5"@[0] != "M5"@[0] && "M5"@[0] != "H1"@[0]);
    assert("S15"@[0] != "M15"@[0] && "M15"@[1] != "M30"@[1] && "S15"@[0] != "M30"@[0]);
}

/// Only a timeframe's own label parses to it.
pub proof fn lemma_from_str_is_label(s: Seq<char>, tf: Timeframe)
    requires
        spec_from_str(s) == Some(tf),
    ensures
        s == spec_label(tf),
{
    reveal_strlit("S5");
    reveal_strlit("S15");
    reveal_strlit("M1");
    reveal_strlit("M5");
    reveal_strlit("M15");
    reveal_strlit("M30");
    reveal_strlit("H1");
}

/// Every timeframe's duration is a whole multiple of every shorter one.
pub proof fn lemma_durations_nest(small: Timeframe, large: Timeframe)
    requires
        spec_duration_ms(small) <= spec_duration_ms(large),
    ensures
        spec_duration_ms(large) % spec_duration_ms(small) == 0,
{
    match small {
        Timeframe::S5 => {},
        Timeframe::S15 => {},
        Timeframe::M1 => {},
        Timeframe::M5 => {},
        Timeframe::M15 => {},
        Timeframe::M30 => {},
        Timeframe::H1 => {},
    }
}

/// `trunc_div(trunc_div(a, s) * s, l) == trunc_div(a, l)` for a
/// non-negative `a` and `l` a multiple of `s`.
proof fn lemma_nested_floor(a: int, s: int, k: int)
    requires
        a >= 0,
        s > 0,
        k > 0,
    ensures
        ((a / s) * s) / (s * k) == a / (s * k),
{
    let q = a / s;
    vstd::arithmetic::div_mod::lemma_div_pos_is_pos(a, s);
    vstd::arithmetic::div_mod::lemma_div_denominator(a, s, k);
    vstd::arithmetic::div_mod::lemma_div_denominator(q * s, s, k);
    vstd::arithmetic::mul::lemma_mul_is_commutative(q, s);
    vstd::arithmetic::div_mod::lemma_div_multiples_vanish(q, s);
    vstd::arithmetic::mul::lemma_mul_nonnegative(q, s);
}

/// Bucket nesting: the bucket of a longer timeframe that a tick falls into
/// is the one that the tick's bucket of any shorter timeframe falls into.
/// Two ticks that share a short bucket share every longer one.
pub proof fn lemma_bucket_nesting(ts_ms: int, small: Timeframe, large: Timeframe)
    requires
        spec_duration_ms(small) <= spec_duration_ms(large),
    ensures
        spec_bucket_start(spec_bucket_start(ts_ms, spec_duration_ms(small)), spec_duration_ms(large))
            == spec_bucket_start(ts_ms, spec_duration_ms(large)),
{
    let s = spec_duration_ms(small);
    let l = spec_duration_ms(large);
    lemma_durations_nest(small, large);
    let k = l / s;
    vstd::arithmetic::div_mod::lemma_fundamental_div_mod(l, s);
    assert(l == s * k);
    assert(k > 0) by (nonlinear_arith)
        requires
            l == s * k,
            s > 0,
            l > 0,
    ;
    if ts_ms >= 0 {
        lemma_nested_floor(ts_ms, s, k);
        vstd::arithmetic::div_mod::lemma_div_pos_is_pos(ts_ms, s);
        vstd::arithmetic::mul::lemma_mul_nonnegative(ts_ms / s, s);
        assert(trunc_div((ts_ms / s) * s, l) == (ts_ms / s) * s / l);
    } else {
        let a = -ts_ms;
        lemma_nested_floor(a, s, k);
        vstd::arithmetic::div_mod::lemma_div_pos_is_pos(a, s);
        vstd::arithmetic::mul::lemma_mul_nonnegative(a / s, s);
        let q = a / s;
        assert((-q) * s == -(q * s)) by (nonlinear_arith);
        let b = (-q) * s;
        if q * s == 0 {
            assert(trunc_div(b, l) == 0);
            assert(0int / l == 0);
        } else {
            assert(trunc_div(b, l) == -((q * s) / l));
        }
    }
}

} // verus!
