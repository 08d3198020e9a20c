//! The triangle that three latencies span, from which a peer's bearing is
//! derived by the law of cosines.

use vstd::prelude::*;

verus! {

/// The sides of a latency triangle, in milliseconds: `a` between the source
/// peer and this node, `b` between this node and the target, `c` between the
/// source and the target. No side is zero.
#[derive(Clone, Copy, Debug, PartialEq, Eq, Structural)]
pub struct Triangle {
    pub a: u16,
    pub b: u16,
    pub c: u16,
}

/// A side of no length counts as a side of length one.
pub open spec fn spec_floor_side(x: u16) -> u16 {
    if x == 0 {
        1
    } else {
        x
    }
}

/// The triangle of three measured latencies.
pub open spec fn spec_sss_triangle(a: u16, b: u16, c: u16) -> Triangle {
    Triangle { a: spec_floor_side(a), b: spec_floor_side(b), c: spec_floor_side(c) }
}

impl Triangle {
    /// No side is zero.
    pub open spec fn wf(self) -> bool {
        self.a >= 1 && self.b >= 1 && self.c >= 1
    }

    /// `c² + a² − b²`: the cosine of the angle between `a` and `c`, times
    /// the denominator.
    pub open spec fn spec_cos_numerator(self) -> int {
        self.c * self.c + self.a * self.a - self.b * self.b
    }

    /// `2·c·a`.
    pub open spec fn spec_cos_denominator(self) -> int {
        2 * self.c * self.a
    }

    /// The numerator of the cosine of the angle between sides `a` and `c`.
    pub fn cos_numerator(&self) -> (r: i64)
        ensures
            r == self.spec_cos_numerator(),
    {
        let a = self.a as i64;
        let b = self.b as i64;
        let c = self.c as i64;
        assert(0 <= c * c <= 65535 * 65535) by (nonlinear_arith)
            requires
                0 <= c <= 65535,
        ;
        assert(0 <= a * a <= 65535 * 65535) by (nonlinear_arith)
            requires
                0 <= a <= 65535,
        ;
        assert(0 <= b * b <= 65535 * 65535) by (nonlinear_arith)
            requires
                0 <= b <= 65535,
        ;
        c * c + a * a - b * b
    }

    /// The denominator of that cosine. It is not zero where no side is.
    pub fn cos_denominator(&self) -> (r: i64)
        ensures
            r == self.spec_cos_denominator(),
            self.wf() ==> r >= 2,
    {
        let a = self.a as i64;
        let c = self.c as i64;
        assert(0 <= c * a <= 65535 * 65535 && (c >= 1 && a >= 1 ==> c * a >= 1))
            by (nonlinear_arith)
            requires
                0 <= c <= 65535,
                0 <= a <= 65535,
        ;
        assert(2 * self.c * self.a == 2 * (c * a)) by (nonlinear_arith)
            requires
                c == self.c,
                a == self.a,
        ;
        2 * (c * a)
    }
}

/// The triangle of three measured latencies, with every side of no length
/// taken as one millisecond, so that the cosine has a denominator.
pub fn sss_triangle(a: u16, b: u16, c: u16) -> (r: Triangle)
    ensures
        r == spec_sss_triangle(a, b, c),
        r.wf(),
{
    Triangle {
        a: if a == 0 {
            1
        } else {
            a
        },
        b: if b == 0 {
            1
        } else {
            b
        },
        c: if c == 0 {
            1
        } else {
            c
        },
    }
}

/// Whatever is measured, the cosine of the triangle has a denominator that
/// is not zero.
pub proof fn lemma_denominator_positive(a: u16, b: u16, c: u16)
    ensures
        spec_sss_triangle(a, b, c).wf(),
        spec_sss_triangle(a, b, c).spec_cos_denominator() >= 2,
{
    let t = spec_sss_triangle(a, b, c);
    assert(2 * t.c * t.a >= 2) by (nonlinear_arith)
        requires
            t.c >= 1,
            t.a >= 1,
    ;
}

} // verus!
