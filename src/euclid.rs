use vstd::prelude::*;

verus! {

/// Remainder of `a` by `b` as Euclid defines it: `a` modulo `|b|`, always
/// in `[0, |b|)`.
pub open spec fn modulo_spec(a: int, b: int) -> int {
    if b < 0 {
        a % (-b)
    } else {
        a % b
    }
}

/// Euclid's algorithm, step by step: `(a, 0)` ends with `a`, any other pair
/// continues with `(b, a mod b)`.
pub open spec fn euclid_spec(a: int, b: int) -> int
    decreases (if b < 0 { -b } else { b }),
{
    if b == 0 {
        a
    } else {
        euclid_spec(b, modulo_spec(a, b))
    }
}

proof fn lemma_mod_of_negated_divisor(x: int, b: int)
    requires
        b != 0,
    ensures
        x % b == x % (if b < 0 { -b } else { b }),
{
    if b < 0 {
        let q = x / b;
        let r = x % b;
        vstd::arithmetic::div_mod::lemma_fundamental_div_mod(x, b);
        assert(x == (-q) * (-b) + r) by (nonlinear_arith)
            requires
                x == b * q + r,
        ;
        vstd::arithmetic::div_mod::lemma_fundamental_div_mod_converse(x, -b, -q, r);
    }
}

proof fn lemma_mod_of_negation(x: int, d: int)
    requires
        d > 0,
    ensures
        x % d == 0 ==> (-x) % d == 0,
        x % d != 0 ==> (-x) % d == d - x % d,
{
    let q = x / d;
    let k = x % d;
    vstd::arithmetic::div_mod::lemma_fundamental_div_mod(x, d);
    if k == 0 {
        assert(-x == (-q) * d + 0) by (nonlinear_arith)
            requires
                x == d * q + k,
                k == 0,
        ;
        vstd::arithmetic::div_mod::lemma_fundamental_div_mod_converse(-x, d, -q, 0);
    } else {
        assert(-x == (-q - 1) * d + (d - k)) by (nonlinear_arith)
            requires
                x == d * q + k,
        ;
        vstd::arithmetic::div_mod::lemma_fundamental_div_mod_converse(-x, d, -q - 1, d - k);
    }
}

/// The remainder of `a` by `b`, never negative whatever the signs.
pub fn modulo(a: i32, b: i32) -> (r: i32)
    requires
        b != 0,
        !(a == i32::MIN && b == -1),
    ensures
        r == modulo_spec(a as int, b as int),
        0 <= r,
        b > 0 ==> r < b,
        b < 0 ==> r < -b,
{
    let m = a % b;
    proof {
        let d: int = if b < 0 { -b } else { b as int };
        assert((a as int) % (b as int) == (a as int) % d) by {
            lemma_mod_of_negated_divisor(a as int, b as int);
        }
        if a < 0 {
            lemma_mod_of_negated_divisor(-(a as int), b as int);
            lemma_mod_of_negation(-(a as int), d);
        }
    }
    if m < 0 {
        if b < 0 {
            m - b
        } else {
            m + b
        }
    } else {
        m
    }
}

/// Euclid's algorithm: the greatest common divisor of `a` and `b`, up to
/// sign (`euclid(a, 0)` is `a` itself).
pub fn euclid(a: i32, b: i32) -> (r: i32)
    requires
        !(a == i32::MIN && b == -1),
    ensures
        r == euclid_spec(a as int, b as int),
    decreases (if b < 0 { -(b as int) } else { b as int }),
{
    if b == 0 {
        a
    } else {
        euclid(b, modulo(a, b))
    }
}

} // verus!
