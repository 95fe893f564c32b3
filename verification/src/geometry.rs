//! Affine transforms and rectangles over fixed-point coordinates.

use vstd::prelude::*;
use crate::fixed::Fixed;

verus! {

/// A 2D affine map. A point `(x, y)` is sent to
/// `(sx*x + kx*y + tx, ky*x + sy*y + ty)`.
#[derive(Clone, Copy, Debug, PartialEq, Eq, Structural)]
pub struct Transform {
    pub sx: Fixed,
    pub kx: Fixed,
    pub ky: Fixed,
    pub sy: Fixed,
    pub tx: Fixed,
    pub ty: Fixed,
}

impl Transform {
    /// The map that leaves every point where it is.
    pub open spec fn spec_identity() -> Transform {
        Transform {
            sx: Fixed::spec_one(),
            kx: Fixed::spec_zero(),
            ky: Fixed::spec_zero(),
            sy: Fixed::spec_one(),
            tx: Fixed::spec_zero(),
            ty: Fixed::spec_zero(),
        }
    }

    /// The rotation whose angle has the given cosine and sine.
    pub open spec fn spec_rotation(cos: Fixed, sin: Fixed) -> Transform {
        Transform {
            sx: cos,
            kx: sin.spec_negated(),
            ky: sin,
            sy: cos,
            tx: Fixed::spec_zero(),
            ty: Fixed::spec_zero(),
        }
    }

    /// `self` followed by a scaling of both axes.
    pub open spec fn spec_post_scale(self, sx: Fixed, sy: Fixed) -> Transform {
        Transform {
            sx: sx.spec_times(self.sx),
            kx: sx.spec_times(self.kx),
            ky: sy.spec_times(self.ky),
            sy: sy.spec_times(self.sy),
            tx: sx.spec_times(self.tx),
            ty: sy.spec_times(self.ty),
        }
    }

    /// `self` followed by a shift.
    pub open spec fn spec_post_translate(self, tx: Fixed, ty: Fixed) -> Transform {
        Transform { tx: self.tx.spec_plus(tx), ty: self.ty.spec_plus(ty), ..self }
    }

    /// `self` followed by `after`: the matrix product `after * self`.
    pub open spec fn spec_post_concat(self, after: Transform) -> Transform {
        Transform {
            sx: after.sx.spec_times(self.sx).spec_plus(after.kx.spec_times(self.ky)),
            kx: after.sx.spec_times(self.kx).spec_plus(after.kx.spec_times(self.sy)),
            ky: after.ky.spec_times(self.sx).spec_plus(after.sy.spec_times(self.ky)),
            sy: after.ky.spec_times(self.kx).spec_plus(after.sy.spec_times(self.sy)),
            tx: after.sx.spec_times(self.tx).spec_plus(after.kx.spec_times(self.ty)).spec_plus(
                after.tx,
            ),
            ty: after.ky.spec_times(self.tx).spec_plus(after.sy.spec_times(self.ty)).spec_plus(
                after.ty,
            ),
        }
    }

    /// The scaling of both axes about the origin.
    pub open spec fn spec_scaling(sx: Fixed, sy: Fixed) -> Transform {
        Transform {
            sx: sx,
            kx: Fixed::spec_zero(),
            ky: Fixed::spec_zero(),
            sy: sy,
            tx: Fixed::spec_zero(),
            ty: Fixed::spec_zero(),
        }
    }

    /// The shift by `(tx, ty)`.
    pub open spec fn spec_translation(tx: Fixed, ty: Fixed) -> Transform {
        Transform {
            sx: Fixed::spec_one(),
            kx: Fixed::spec_zero(),
            ky: Fixed::spec_zero(),
            sy: Fixed::spec_one(),
            tx: tx,
            ty: ty,
        }
    }

    /// The transform with the given coefficients, in the order
    /// `sx, kx, ky, sy, tx, ty`.
    pub open spec fn spec_from_coefficients(c: Seq<Fixed>) -> Transform
        recommends
            c.len() >= 6,
    {
        Transform { sx: c[0], kx: c[1], ky: c[2], sy: c[3], tx: c[4], ty: c[5] }
    }

    /// The six coefficients in the order `sx, kx, ky, sy, tx, ty`.
    pub open spec fn spec_coefficients(self) -> Seq<Fixed> {
        seq![self.sx, self.kx, self.ky, self.sy, self.tx, self.ty]
    }

    /// The map that leaves every point where it is.
    pub fn identity() -> (t: Transform)
        ensures
            t == Transform::spec_identity(),
    {
        Transform {
            sx: Fixed::one(),
            kx: Fixed::zero(),
            ky: Fixed::zero(),
            sy: Fixed::one(),
            tx: Fixed::zero(),
            ty: Fixed::zero(),
        }
    }

    /// The rotation whose angle has the given cosine and sine.
    pub fn rotation(cos: Fixed, sin: Fixed) -> (t: Transform)
        ensures
            t == Transform::spec_rotation(cos, sin),
    {
        Transform {
            sx: cos,
            kx: sin.negated(),
            ky: sin,
            sy: cos,
            tx: Fixed::zero(),
            ty: Fixed::zero(),
        }
    }

    /// Builds a transform from its coefficients, given in the order
    /// `sx, kx, ky, sy, tx, ty`. Coefficients past the sixth are ignored.
    pub fn from_coefficients(c: &Vec<Fixed>) -> (t: Transform)
        requires
            c.len() >= 6,
        ensures
            t == Transform::spec_from_coefficients(c@),
            t.spec_coefficients() == c@.take(6),
    {
        let t = Transform { sx: c[0], kx: c[1], ky: c[2], sy: c[3], tx: c[4], ty: c[5] };
        assert(t.spec_coefficients() =~= c@.take(6));
        t
    }

    /// The six coefficients in the order `sx, kx, ky, sy, tx, ty`.
    pub fn coefficients(&self) -> (c: Vec<Fixed>)
        ensures
            c@ == self.spec_coefficients(),
    {
        let c = vec![self.sx, self.kx, self.ky, self.sy, self.tx, self.ty];
        assert(c@ =~= self.spec_coefficients());
        c
    }

    /// `self` followed by a scaling of both axes.
    pub fn post_scale(&self, sx: Fixed, sy: Fixed) -> (t: Transform)
        ensures
            t == self.spec_post_scale(sx, sy),
    {
        Transform {
            sx: sx.times(self.sx),
            kx: sx.times(self.kx),
            ky: sy.times(self.ky),
            sy: sy.times(self.sy),
            tx: sx.times(self.tx),
            ty: sy.times(self.ty),
        }
    }

    /// `self` followed by a shift.
    pub fn post_translate(&self, tx: Fixed, ty: Fixed) -> (t: Transform)
        ensures
            t == self.spec_post_translate(tx, ty),
    {
        Transform {
            sx: self.sx,
            kx: self.kx,
            ky: self.ky,
            sy: self.sy,
            tx: self.tx.plus(tx),
            ty: self.ty.plus(ty),
        }
    }

    /// `self` followed by `after`.
    pub fn post_concat(&self, after: &Transform) -> (t: Transform)
        ensures
            t == self.spec_post_concat(*after),
    {
        Transform {
            sx: after.sx.times(self.sx).plus(after.kx.times(self.ky)),
            kx: after.sx.times(self.kx).plus(after.kx.times(self.sy)),
            ky: after.ky.times(self.sx).plus(after.sy.times(self.ky)),
            sy: after.ky.times(self.kx).plus(after.sy.times(self.sy)),
            tx: after.sx.times(self.tx).plus(after.kx.times(self.ty)).plus(after.tx),
            ty: after.ky.times(self.tx).plus(after.sy.times(self.ty)).plus(after.ty),
        }
    }
}

/// One times a number is that number, and zero times a number is zero.
pub proof fn lemma_times_one_and_zero(v: Fixed)
    ensures
        Fixed::spec_one().spec_times(v) == v,
        v.spec_times(Fixed::spec_one()) == v,
        Fixed::spec_zero().spec_times(v) == Fixed::spec_zero(),
        v.spec_times(Fixed::spec_zero()) == Fixed::spec_zero(),
{
    let r: int = v.raw as int;
    assert((1_000_000_000 * r) / 1_000_000_000 == r);
    assert((r * 1_000_000_000) / 1_000_000_000 == r);
    assert(0 * r == 0 && r * 0 == 0);
    assert(0int / 1_000_000_000 == 0);
}

/// Following a transform by a scaling is composing it with the scaling.
pub proof fn lemma_post_scale_is_composition(t: Transform, sx: Fixed, sy: Fixed)
    ensures
        t.spec_post_scale(sx, sy) == t.spec_post_concat(Transform::spec_scaling(sx, sy)),
{
    lemma_times_one_and_zero(t.sx);
    lemma_times_one_and_zero(t.kx);
    lemma_times_one_and_zero(t.ky);
    lemma_times_one_and_zero(t.sy);
    lemma_times_one_and_zero(t.tx);
    lemma_times_one_and_zero(t.ty);
}

/// Following a transform by a shift is composing it with the shift.
pub proof fn lemma_post_translate_is_composition(t: Transform, tx: Fixed, ty: Fixed)
    ensures
        t.spec_post_translate(tx, ty) == t.spec_post_concat(Transform::spec_translation(tx, ty)),
{
    lemma_times_one_and_zero(t.sx);
    lemma_times_one_and_zero(t.kx);
    lemma_times_one_and_zero(t.ky);
    lemma_times_one_and_zero(t.sy);
    lemma_times_one_and_zero(t.tx);
    lemma_times_one_and_zero(t.ty);
}

/// Composing with the identity, before or after, changes nothing.
pub proof fn lemma_identity_is_neutral(t: Transform)
    ensures
        t.spec_post_concat(Transform::spec_identity()) == t,
        Transform::spec_identity().spec_post_concat(t) == t,
{
    lemma_times_one_and_zero(t.sx);
    lemma_times_one_and_zero(t.kx);
    lemma_times_one_and_zero(t.ky);
    lemma_times_one_and_zero(t.sy);
    lemma_times_one_and_zero(t.tx);
    lemma_times_one_and_zero(t.ty);
}

/// An axis-aligned rectangle anchored at its top-left corner.
#[derive(Clone, Copy, Debug, PartialEq, Eq, Structural)]
pub struct Rect {
    pub x: Fixed,
    pub y: Fixed,
    pub width: Fixed,
    pub height: Fixed,
}

/// The rectangle covering the same area as `(x, y, width, height)` but with
/// extents that are not negative: a negative extent moves the anchor back by
/// that extent.
pub open spec fn spec_normalized_rect(x: Fixed, y: Fixed, width: Fixed, height: Fixed) -> Rect {
    Rect {
        x: if width.raw < 0 {
            x.spec_plus(width)
        } else {
            x
        },
        y: if height.raw < 0 {
            y.spec_plus(height)
        } else {
            y
        },
        width: width.spec_magnitude(),
        height: height.spec_magnitude(),
    }
}

/// The rectangle `(x, y, width, height)` with extents that are not negative.
pub fn normalized_rect(x: Fixed, y: Fixed, width: Fixed, height: Fixed) -> (r: Rect)
    ensures
        r == spec_normalized_rect(x, y, width, height),
        r.width.raw >= 0,
        r.height.raw >= 0,
{
    let xx = if width.raw < 0 {
        x.plus(width)
    } else {
        x
    };
    let yy = if height.raw < 0 {
        y.plus(height)
    } else {
        y
    };
    Rect { x: xx, y: yy, width: width.magnitude(), height: height.magnitude() }
}

/// Mirroring both extents of a rectangle with positive extents, while moving
/// the anchor to the opposite corner, names the same rectangle.
pub proof fn lemma_mirrored_rect_is_same(x: Fixed, y: Fixed, width: Fixed, height: Fixed)
    requires
        width.raw > 0,
        height.raw > 0,
    ensures
        spec_normalized_rect(x, y, width.spec_negated(), height.spec_negated())
            == spec_normalized_rect(x.spec_minus(width), y.spec_minus(height), width, height),
{
}

} // verus!
