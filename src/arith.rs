//! Arithmetic modulo a word-sized modulus, carried out in 128-bit integers so
//! that no intermediate value wraps.
use vstd::prelude::*;

verus! {

/// `(a + b) mod p`.
pub fn mod_add(a: u64, b: u64, p: u64) -> (r: u64)
    requires
        p > 0,
    ensures
        r as int == (a as int + b as int) % (p as int),
        r < p,
{
    ((a as u128 + b as u128) % p as u128) as u64
}

/// `a - b`, taken modulo `p` only when it would be negative.
///
/// For reduced operands (`a, b < p`) this is exactly `(a - b) mod p`.
pub fn mod_sub(a: u64, b: u64, p: u64) -> (r: u64)
    requires
        p > 0,
        b <= a + p,
    ensures
        a >= b ==> r == a - b,
        a < b ==> r as int == (a as int + p as int - b as int) % (p as int),
        a < p && b < p ==> r as int == (a as int - b as int) % (p as int),
{
    if a >= b {
        let r = a - b;
        proof {
            if a < p {
                assert(r as int == (a as int - b as int) % (p as int)) by (nonlinear_arith)
                    requires
                        r as int == a as int - b as int,
                        0 <= r < p,
                ;
            }
        }
        r
    } else {
        let r = ((a as u128 + p as u128 - b as u128) % p as u128) as u64;
        proof {
            let s = a as int + p as int - b as int;
            assert(0 <= s < p);
            assert(s % (p as int) == s) by (nonlinear_arith)
                requires
                    0 <= s < p,
            ;
            assert((a as int - b as int) % (p as int) == s) by (nonlinear_arith)
                requires
                    s == a as int + p as int - b as int,
                    0 <= s < p,
            ;
        }
        r
    }
}

/// `(a * b) mod p`.
pub fn mod_mul(a: u64, b: u64, p: u64) -> (r: u64)
    requires
        p > 0,
    ensures
        r as int == (a as int * b as int) % (p as int),
        r < p,
{
    proof {
        assert(a as int * b as int <= u64::MAX as int * u64::MAX as int) by (nonlinear_arith);
    }
    ((a as u128 * b as u128) % p as u128) as u64
}

} // verus!
