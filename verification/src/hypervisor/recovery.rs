//! What a recovery policy proposes.

use vstd::prelude::*;

verus! {

/// Which policy proposed an action.
#[derive(Debug, Clone, Copy, PartialEq, Eq, Structural)]
pub enum RecoverySource {
    Static,
    Instinct,
    Llm,
}

/// A fraction.
#[derive(Debug, Clone, Copy, PartialEq, Eq, Structural)]
pub struct Ratio {
    pub num: u128,
    pub den: u128,
}

impl Ratio {
    /// The denominator is positive.
    pub open spec fn valid(self) -> bool {
        self.den > 0
    }

    /// Whether one fraction is less than another.
    pub open spec fn less(self, other: Ratio) -> bool {
        fraction_less(self.num as int, self.den as int, other.num as int, other.den as int)
    }

    /// Whether this fraction is less than the other.
    pub fn is_less(&self, other: &Ratio) -> (r: bool)
        ensures
            r == self.less(*other),
    {
        if self.den == 0 {
            proof {
                assert(self.num * other.den >= 0) by (nonlinear_arith);
                assert(other.num * self.den == 0) by (nonlinear_arith)
                    requires
                        self.den == 0,
                ;
            }
            return false;
        }
        if other.den == 0 {
            proof {
                assert(self.num * other.den == 0) by (nonlinear_arith)
                    requires
                        other.den == 0,
                ;
                assert(other.num * self.den > 0 <==> other.num > 0) by (nonlinear_arith)
                    requires
                        self.den > 0,
                ;
            }
            return other.num > 0;
        }
        compare_fractions(self.num, self.den, other.num, other.den)
    }

    /// A fraction that is not less than a second, which is not less than a
    /// third, is not less than the third.
    pub proof fn lemma_not_less_transitive(a: Ratio, b: Ratio, c: Ratio)
        requires
            a.valid(),
            b.valid(),
            c.valid(),
            !a.less(b),
            !b.less(c),
        ensures
            !a.less(c),
    {
        let (an, ad) = (a.num as int, a.den as int);
        let (bn, bd) = (b.num as int, b.den as int);
        let (cn, cd) = (c.num as int, c.den as int);
        assert(an * cd >= cn * ad) by (nonlinear_arith)
            requires
                an * bd >= bn * ad,
                bn * cd >= cn * bd,
                ad > 0,
                bd > 0,
                cd > 0,
                an >= 0,
                bn >= 0,
                cn >= 0,
        {
            assert((an * bd) * cd >= (bn * ad) * cd);
            assert((bn * cd) * ad >= (cn * bd) * ad);
            assert((an * cd) * bd >= (cn * ad) * bd);
        }
    }

    /// Of two fractions, at most one is less than the other.
    pub proof fn lemma_less_is_one_way(a: Ratio, b: Ratio)
        requires
            a.less(b),
        ensures
            !b.less(a),
    {
    }
}

/// Whether `a / b` is less than `c / d`.
pub open spec fn fraction_less(a: int, b: int, c: int, d: int) -> bool {
    a * d < c * b
}

/// One step of comparing two fractions: their reciprocals have whole parts `p`
/// and `q` and remainders `r` and `s`.
proof fn lemma_reciprocals(a: int, b: int, c: int, d: int, p: int, r: int, q: int, s: int)
    requires
        a > 0,
        c > 0,
        b == p * a + r,
        d == q * c + s,
        0 <= r < a,
        0 <= s < c,
    ensures
        p == q ==> fraction_less(a, b, c, d) == fraction_less(s, c, r, a),
        p > q ==> fraction_less(a, b, c, d),
        p < q ==> !fraction_less(a, b, c, d),
{
    assert(a * d == q * (a * c) + a * s) by (nonlinear_arith)
        requires
            d == q * c + s,
    ;
    assert(c * b == p * (a * c) + c * r) by (nonlinear_arith)
        requires
            b == p * a + r,
    ;
    assert(s * a == a * s) by (nonlinear_arith);
    assert(r * c == c * r) by (nonlinear_arith);
    assert(a * c > 0) by (nonlinear_arith)
        requires
            a > 0,
            c > 0,
    ;
    if p > q {
        assert(p * (a * c) >= q * (a * c) + a * c) by (nonlinear_arith)
            requires
                p >= q + 1,
                a * c > 0,
        ;
        assert(a * s < a * c) by (nonlinear_arith)
            requires
                a > 0,
                s < c,
        ;
        assert(c * r >= 0) by (nonlinear_arith)
            requires
                c > 0,
                r >= 0,
        ;
    }
    if p < q {
        assert(q * (a * c) >= p * (a * c) + a * c) by (nonlinear_arith)
            requires
                q >= p + 1,
                a * c > 0,
        ;
        assert(c * r < a * c) by (nonlinear_arith)
            requires
                c > 0,
                r < a,
        ;
        assert(a * s >= 0) by (nonlinear_arith)
            requires
                a > 0,
                s >= 0,
        ;
    }
}

/// Compares `a / b` with `c / d` without multiplying, by their continued
/// fractions.
fn compare_fractions(a: u128, b: u128, c: u128, d: u128) -> (r: bool)
    requires
        b > 0,
        d > 0,
    ensures
        r == fraction_less(a as int, b as int, c as int, d as int),
    decreases a + c, b + d,
{
    if c == 0 {
        proof {
            assert(a * d >= 0) by (nonlinear_arith)
                requires
                    a >= 0,
                    d > 0,
            ;
            assert(c * b == 0) by (nonlinear_arith)
                requires
                    c == 0,
            ;
        }
        return false;
    }
    if a == 0 {
        proof {
            assert(a * d == 0) by (nonlinear_arith)
                requires
                    a == 0,
            ;
            assert(c * b > 0) by (nonlinear_arith)
                requires
                    c > 0,
                    b > 0,
            ;
        }
        return true;
    }
    let p: u128 = b / a;
    let r: u128 = b % a;
    let q: u128 = d / c;
    let s: u128 = d % c;
    proof {
        vstd::arithmetic::div_mod::lemma_fundamental_div_mod(b as int, a as int);
        vstd::arithmetic::div_mod::lemma_fundamental_div_mod(d as int, c as int);
        vstd::arithmetic::mul::lemma_mul_is_commutative(a as int, p as int);
        vstd::arithmetic::mul::lemma_mul_is_commutative(c as int, q as int);
        lemma_reciprocals(
            a as int,
            b as int,
            c as int,
            d as int,
            p as int,
            r as int,
            q as int,
            s as int,
        );
    }
    if p > q {
        true
    } else if p < q {
        false
    } else {
        compare_fractions(s, c, r, a)
    }
}

/// Something to try after a failure.
#[derive(Debug, Clone, PartialEq, Eq)]
pub struct RecoveryAction {
    pub description: String,
    pub confidence: Ratio,
    pub source: RecoverySource,
    pub non_retryable: bool,
    pub instinct_id: Option<String>,
}

impl RecoverySource {
    /// The source's name.
    pub open spec fn name_spec(self) -> Seq<char> {
        match self {
            RecoverySource::Static => "Static"@,
            RecoverySource::Instinct => "Instinct"@,
            RecoverySource::Llm => "Llm"@,
        }
    }

    /// The source's name.
    pub fn name(&self) -> (r: &'static str)
        ensures
            r@ == self.name_spec(),
    {
        match self {
            RecoverySource::Static => "Static",
            RecoverySource::Instinct => "Instinct",
            RecoverySource::Llm => "Llm",
        }
    }
}

/// Sources have names of their own.
pub proof fn lemma_source_names_differ(a: RecoverySource, b: RecoverySource)
    ensures
        a.name_spec() == b.name_spec() ==> a == b,
{
    reveal_strlit("Static");
    reveal_strlit("Instinct");
    reveal_strlit("Llm");
    if a.name_spec() == b.name_spec() {
        assert(a.name_spec()[0] == b.name_spec()[0]);
    }
}

} // verus!
