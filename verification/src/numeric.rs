//! Exact division of machine integers, for recovering a crossing point from
//! its homogeneous (numerator, denominator) form.

use vstd::prelude::*;
use vstd::arithmetic::div_mod::{lemma_fundamental_div_mod, lemma_fundamental_div_mod_converse};

verus! {

/// A nonzero factor determines its cofactor.
pub proof fn lemma_factor_unique(d: int, q1: int, q2: int)
    requires
        d != 0,
        d * q1 == d * q2,
    ensures
        q1 == q2,
{
    assert(q1 == q2) by (nonlinear_arith)
        requires
            d != 0,
            d * q1 == d * q2,
    ;
}

/// The quotient of `n` by `d` when `d` divides `n` exactly, and nothing
/// otherwise. The bounds keep every intermediate negation in range.
pub fn exact_div(n: i128, d: i128) -> (r: Option<i128>)
    requires
        d != 0,
        -0x1_0000_0000_0000_0000_0000_0000_0000 <= n <= 0x1_0000_0000_0000_0000_0000_0000_0000,
        -0x1_0000_0000_0000_0000_0000_0000_0000 <= d <= 0x1_0000_0000_0000_0000_0000_0000_0000,
    ensures
        (r is Some) <==> (exists|q: int| n == #[trigger] (d * q)),
        (r matches Some(q) ==> n == d * (q as int)),
{
    let na: i128 = if n < 0 {
        -n
    } else {
        n
    };
    let da: i128 = if d < 0 {
        -d
    } else {
        d
    };
    proof {
        lemma_fundamental_div_mod(na as int, da as int);
    }
    let rem = na.checked_rem(da).unwrap();
    if rem != 0 {
        proof {
            assert forall|q: int| n != #[trigger] (d * q) by {
                if n == d * q {
                    let aq: int = if (n < 0) != (d < 0) {
                        -q
                    } else {
                        q
                    };
                    assert(na as int == (da as int) * aq) by (nonlinear_arith)
                        requires
                            n == d * q,
                            na == (if n < 0 { -(n as int) } else { n as int }),
                            da == (if d < 0 { -(d as int) } else { d as int }),
                            aq == (if (n < 0) != (d < 0) { -q } else { q }),
                    ;
                    assert(aq * (da as int) + 0 == na as int) by (nonlinear_arith)
                        requires
                            na as int == (da as int) * aq,
                    ;
                    lemma_fundamental_div_mod_converse(na as int, da as int, aq, 0);
                }
            }
        }
        None
    } else {
        let quo = na.checked_div(da).unwrap();
        let rq: i128 = if (n < 0) != (d < 0) {
            -quo
        } else {
            quo
        };
        proof {
            assert(n == d * (rq as int)) by (nonlinear_arith)
                requires
                    na as int == (da as int) * (quo as int),
                    na == (if n < 0 { -(n as int) } else { n as int }),
                    da == (if d < 0 { -(d as int) } else { d as int }),
                    rq == (if (n < 0) != (d < 0) { -(quo as int) } else { quo as int }),
            ;
        }
        Some(rq)
    }
}

} // verus!
