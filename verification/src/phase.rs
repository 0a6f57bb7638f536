//! The four-element phase group {1, -1, i, -i}.

use num_complex::Complex;
use vstd::prelude::*;

verus! {

/// Product of two Gaussian integers, each given as (real part, imaginary part).
pub open spec fn gaussian_mul(a: (int, int), b: (int, int)) -> (int, int) {
    (a.0 * b.0 - a.1 * b.1, a.0 * b.1 + a.1 * b.0)
}

/// A Gaussian integer is a unit when it is one of 1, -1, i, -i.
pub open spec fn is_unit(g: (int, int)) -> bool {
    g == (1int, 0int) || g == (-1int, 0int) || g == (0int, 1int) || g == (0int, -1int)
}

/// A phase for Pauli operators: one of 1, -1, i and -i.
///
/// The phase is held as a Gaussian integer; a well-formed phase is a unit.
#[derive(Clone, Copy, PartialEq, Eq, Hash, Debug, Structural)]
pub struct Phase {
    re: i8,
    im: i8,
}

impl View for Phase {
    type V = (int, int);

    /// The phase as (real part, imaginary part).
    closed spec fn view(&self) -> (int, int) {
        (self.re as int, self.im as int)
    }
}

/// The product of two `num_complex::Complex<i8>` values, through the crate's
/// `Mul` impl: the real part is `a_re * b_re - a_im * b_im`, the imaginary part
/// `a_re * b_im + a_im * b_re`. The inputs on which an intermediate value
/// leaves the range of `i8` are left out.
#[verifier::external_body]
fn complex_product(a_re: i8, a_im: i8, b_re: i8, b_im: i8) -> (r: (i8, i8))
    requires
        -128 <= a_re * b_re <= 127,
        -128 <= a_im * b_im <= 127,
        -128 <= a_re * b_im <= 127,
        -128 <= a_im * b_re <= 127,
        -128 <= a_re * b_re - a_im * b_im <= 127,
        -128 <= a_re * b_im + a_im * b_re <= 127,
    ensures
        r.0 == a_re * b_re - a_im * b_im,
        r.1 == a_re * b_im + a_im * b_re,
{
    let c = Complex::new(a_re, a_im) * Complex::new(b_re, b_im);
    (c.re, c.im)
}

impl Phase {
    /// A phase is well formed when it is one of the four units.
    pub open spec fn wf(&self) -> bool {
        is_unit(self@)
    }

    /// Two phases with the same view are the same phase.
    pub proof fn lemma_view_injective(a: Phase, b: Phase)
        requires
            a@ == b@,
        ensures
            a == b,
    {
    }

    /// The product of two well-formed phases is well formed, and its view is
    /// the product of their views.
    pub proof fn lemma_times_view(a: Phase, b: Phase)
        requires
            a.wf(),
            b.wf(),
        ensures
            a.times(b)@ == gaussian_mul(a@, b@),
            a.times(b).wf(),
    {
        lemma_units_closed(a@, b@);
        let g = gaussian_mul(a@, b@);
        let witness = Phase { re: g.0 as i8, im: g.1 as i8 };
        assert(witness@ == g);
    }

    /// Create a new phase of 1.
    pub fn one() -> (r: Phase)
        ensures
            r@ == (1int, 0int),
            r.wf(),
    {
        Phase { re: 1, im: 0 }
    }

    /// Create a new phase of -1.
    pub fn minus_one() -> (r: Phase)
        ensures
            r@ == (-1int, 0int),
            r.wf(),
    {
        Phase { re: -1, im: 0 }
    }

    /// Create a new phase of i.
    pub fn i() -> (r: Phase)
        ensures
            r@ == (0int, 1int),
            r.wf(),
    {
        Phase { re: 0, im: 1 }
    }

    /// Create a new phase of -i.
    pub fn minus_i() -> (r: Phase)
        ensures
            r@ == (0int, -1int),
            r.wf(),
    {
        Phase { re: 0, im: -1 }
    }

    /// The product of two phases as a phase: the phase whose view is the
    /// product of the two views.
    pub open spec fn times(self, other: Phase) -> Phase {
        choose|p: Phase| p@ == gaussian_mul(self@, other@)
    }

    /// The product of two phases, which is again one of the four units.
    pub fn multiply(self, other: Phase) -> (r: Phase)
        requires
            self.wf(),
            other.wf(),
        ensures
            r == self.times(other),
            r@ == gaussian_mul(self@, other@),
            r.wf(),
    {
        let (re, im) = complex_product(self.re, self.im, other.re, other.im);
        let r = Phase { re, im };
        proof {
            lemma_units_closed(self@, other@);
            Self::lemma_view_injective(r, self.times(other));
        }
        r
    }
}

impl std::ops::Mul<Phase> for Phase {
    type Output = Phase;

    /// The product of two phases.
    fn mul(self, other: Phase) -> (r: Phase) {
        self.multiply(other)
    }
}

impl vstd::std_specs::ops::MulSpecImpl<Phase> for Phase {
    open spec fn obeys_mul_spec() -> bool {
        true
    }

    open spec fn mul_req(self, other: Phase) -> bool {
        self.wf() && other.wf()
    }

    open spec fn mul_spec(self, other: Phase) -> Phase {
        self.times(other)
    }
}

impl std::ops::MulAssign<Phase> for Phase {
    /// Replaces a phase by its product with another.
    fn mul_assign(&mut self, other: Phase)
        requires
            old(self).wf(),
            other.wf(),
        ensures
            final(self)@ == gaussian_mul(old(self)@, other@),
            final(self).wf(),
    {
        *self = self.multiply(other);
    }
}

/// What multiplication by each of the four units does to a Gaussian integer:
/// 1 keeps it, -1 negates it, i and -i turn it by a quarter.
pub proof fn lemma_unit_times(a: (int, int), b: (int, int))
    requires
        is_unit(a),
    ensures
        a == (1int, 0int) ==> gaussian_mul(a, b) == b,
        a == (-1int, 0int) ==> gaussian_mul(a, b) == (-b.0, -b.1),
        a == (0int, 1int) ==> gaussian_mul(a, b) == (-b.1, b.0),
        a == (0int, -1int) ==> gaussian_mul(a, b) == (b.1, -b.0),
{
    if a == (1int, 0int) {
        assert(gaussian_mul(a, b) == (1 * b.0 - 0 * b.1, 1 * b.1 + 0 * b.0));
    } else if a == (-1int, 0int) {
        assert(gaussian_mul(a, b) == ((-1) * b.0 - 0 * b.1, (-1) * b.1 + 0 * b.0));
    } else if a == (0int, 1int) {
        assert(gaussian_mul(a, b) == (0 * b.0 - 1 * b.1, 0 * b.1 + 1 * b.0));
    } else {
        assert(gaussian_mul(a, b) == (0 * b.0 - (-1) * b.1, 0 * b.1 + (-1) * b.0));
    }
}

/// The units are closed under multiplication.
pub proof fn lemma_units_closed(a: (int, int), b: (int, int))
    requires
        is_unit(a),
        is_unit(b),
    ensures
        is_unit(gaussian_mul(a, b)),
{
    lemma_unit_times(a, b);
}

/// Multiplication of units is commutative and associative, and 1 is neutral.
pub proof fn lemma_units_group(a: (int, int), b: (int, int), c: (int, int))
    requires
        is_unit(a),
        is_unit(b),
        is_unit(c),
    ensures
        gaussian_mul(a, b) == gaussian_mul(b, a),
        gaussian_mul(gaussian_mul(a, b), c) == gaussian_mul(a, gaussian_mul(b, c)),
        gaussian_mul(a, (1int, 0int)) == a,
        gaussian_mul((1int, 0int), a) == a,
{
    lemma_unit_times(a, b);
    lemma_unit_times(b, a);
    lemma_unit_times(b, c);
    lemma_unit_times(gaussian_mul(a, b), c);
    lemma_unit_times(a, gaussian_mul(b, c));
    lemma_unit_times(a, (1int, 0int));
    lemma_unit_times((1int, 0int), a);
}

} // verus!
