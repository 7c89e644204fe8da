//! The capability of a position: reading and writing three coordinates, and
//! the vector arithmetic that is built on these six operations alone.
//!
//! The arithmetic of the scalar type itself is the caller's: each operation
//! takes the scalar operations it needs as functions, and its contract says
//! how it combines them.

use vstd::prelude::*;
use crate::base::Id;
use crate::vertex::Vertex;

verus! {

/// A triple of coordinates of scalar type `S` that can be read and written
/// one coordinate at a time. Writing one coordinate leaves the other two as
/// they are.
pub trait Vector<S> {
    spec fn x_spec(&self) -> S;

    spec fn y_spec(&self) -> S;

    spec fn z_spec(&self) -> S;

    fn get_x(&self) -> (x: S)
        ensures
            x == self.x_spec(),
    ;

    fn get_y(&self) -> (y: S)
        ensures
            y == self.y_spec(),
    ;

    fn get_z(&self) -> (z: S)
        ensures
            z == self.z_spec(),
    ;

    fn set_x(&mut self, x: S)
        ensures
            final(self).x_spec() == x,
            final(self).y_spec() == old(self).y_spec(),
            final(self).z_spec() == old(self).z_spec(),
    ;

    fn set_y(&mut self, y: S)
        ensures
            final(self).x_spec() == old(self).x_spec(),
            final(self).y_spec() == y,
            final(self).z_spec() == old(self).z_spec(),
    ;

    fn set_z(&mut self, z: S)
        ensures
            final(self).x_spec() == old(self).x_spec(),
            final(self).y_spec() == old(self).y_spec(),
            final(self).z_spec() == z,
    ;
}

/// The three coordinates of `v`.
pub open spec fn coordinates<S, A: Vector<S>>(v: A) -> (S, S, S) {
    (v.x_spec(), v.y_spec(), v.z_spec())
}

/// `r` is `a + b`, coordinate by coordinate, computed by `plus`.
pub open spec fn is_sum<S, P: Fn(S, S) -> S>(plus: P, a: (S, S, S), b: (S, S, S), r: (S, S, S)) -> bool {
    &&& plus.ensures((a.0, b.0), r.0)
    &&& plus.ensures((a.1, b.1), r.1)
    &&& plus.ensures((a.2, b.2), r.2)
}

/// `r` is `a - b`, coordinate by coordinate, computed by `minus`.
pub open spec fn is_difference<S, M: Fn(S, S) -> S>(
    minus: M,
    a: (S, S, S),
    b: (S, S, S),
    r: (S, S, S),
) -> bool {
    &&& minus.ensures((a.0, b.0), r.0)
    &&& minus.ensures((a.1, b.1), r.1)
    &&& minus.ensures((a.2, b.2), r.2)
}

/// `r` is `a` with each coordinate multiplied by `factor`, computed by
/// `times`.
pub open spec fn is_scaled<S, T: Fn(S, S) -> S>(
    times: T,
    a: (S, S, S),
    factor: S,
    r: (S, S, S),
) -> bool {
    &&& times.ensures((a.0, factor), r.0)
    &&& times.ensures((a.1, factor), r.1)
    &&& times.ensures((a.2, factor), r.2)
}

/// `r` is `a b - c d`, computed by `times` and `minus`.
pub open spec fn difference_of_products<S, T: Fn(S, S) -> S, M: Fn(S, S) -> S>(
    times: T,
    minus: M,
    a: S,
    b: S,
    c: S,
    d: S,
    r: S,
) -> bool {
    exists|p: S, q: S|
        #![trigger times.ensures((a, b), p), times.ensures((c, d), q)]
        times.ensures((a, b), p) && times.ensures((c, d), q) && minus.ensures((p, q), r)
}

/// `r` is the root of `(x x + y y) + z z`, computed by `times`, `plus` and
/// `root`.
pub open spec fn root_of_squares<S, T: Fn(S, S) -> S, P: Fn(S, S) -> S, R: Fn(S) -> S>(
    times: T,
    plus: P,
    root: R,
    x: S,
    y: S,
    z: S,
    r: S,
) -> bool {
    exists|xx: S, yy: S, zz: S, s: S, t: S|
        #![trigger times.ensures((x, x), xx), times.ensures((y, y), yy), times.ensures((z, z), zz), plus.ensures((xx, yy), s), plus.ensures((s, zz), t)]
        times.ensures((x, x), xx) && times.ensures((y, y), yy) && times.ensures((z, z), zz)
            && plus.ensures((xx, yy), s) && plus.ensures((s, zz), t) && root.ensures((t,), r)
}

/// A position that belongs to no mesh.
#[derive(Debug)]
pub struct VectorImpl<S> {
    pub x: S,
    pub y: S,
    pub z: S,
}

impl<S> VectorImpl<S> {
    pub fn new(x: S, y: S, z: S) -> (v: VectorImpl<S>)
        ensures
            v == (VectorImpl { x: x, y: y, z: z }),
    {
        VectorImpl { x: x, y: y, z: z }
    }
}

impl<S: Copy> Vector<S> for VectorImpl<S> {
    open spec fn x_spec(&self) -> S {
        self.x
    }

    open spec fn y_spec(&self) -> S {
        self.y
    }

    open spec fn z_spec(&self) -> S {
        self.z
    }

    fn get_x(&self) -> (x: S) {
        self.x
    }

    fn get_y(&self) -> (y: S) {
        self.y
    }

    fn get_z(&self) -> (z: S) {
        self.z
    }

    fn set_x(&mut self, x: S) {
        self.x = x;
    }

    fn set_y(&mut self, y: S) {
        self.y = y;
    }

    fn set_z(&mut self, z: S) {
        self.z = z;
    }
}

impl<S: Copy> Vector<S> for Vertex<S> {
    open(crate) spec fn x_spec(&self) -> S {
        self.x
    }

    open(crate) spec fn y_spec(&self) -> S {
        self.y
    }

    open(crate) spec fn z_spec(&self) -> S {
        self.z
    }

    fn get_x(&self) -> (x: S) {
        self.x
    }

    fn get_y(&self) -> (y: S) {
        self.y
    }

    fn get_z(&self) -> (z: S) {
        self.z
    }

    fn set_x(&mut self, x: S)
        ensures
            final(self).id_spec() == old(self).id_spec(),
    {
        self.x = x;
    }

    fn set_y(&mut self, y: S)
        ensures
            final(self).id_spec() == old(self).id_spec(),
    {
        self.y = y;
    }

    fn set_z(&mut self, z: S)
        ensures
            final(self).id_spec() == old(self).id_spec(),
    {
        self.z = z;
    }
}

/// `r` is the cross product of `a` and `b`:
/// `(a.1 b.2 - b.1 a.2, a.2 b.0 - b.2 a.0, a.0 b.1 - b.0 a.1)`, computed by
/// `times` and `minus`.
pub open spec fn is_cross_product<S, T: Fn(S, S) -> S, M: Fn(S, S) -> S>(
    times: T,
    minus: M,
    a: (S, S, S),
    b: (S, S, S),
    r: (S, S, S),
) -> bool {
    &&& difference_of_products(times, minus, a.1, b.2, b.1, a.2, r.0)
    &&& difference_of_products(times, minus, a.2, b.0, b.2, a.0, r.1)
    &&& difference_of_products(times, minus, a.0, b.1, b.0, a.1, r.2)
}

/// `r` is `a` with each coordinate divided by the length of `a`, computed by
/// `times`, `plus`, `root` and `over`.
pub open spec fn is_normalized<
    S,
    T: Fn(S, S) -> S,
    P: Fn(S, S) -> S,
    R: Fn(S) -> S,
    D: Fn(S, S) -> S,
>(times: T, plus: P, root: R, over: D, a: (S, S, S), r: (S, S, S)) -> bool {
    exists|length: S|
        {
            &&& #[trigger] root_of_squares(times, plus, root, a.0, a.1, a.2, length)
            &&& over.ensures((a.0, length), r.0)
            &&& over.ensures((a.1, length), r.1)
            &&& over.ensures((a.2, length), r.2)
        }
}

/// Adds `v` to the vector `this`, coordinate by coordinate.
pub fn add_to<S, A: Vector<S>, V: Vector<S>, P: Fn(S, S) -> S>(this: &mut A, v: &V, plus: &P)
    requires
        forall|a: S, b: S| plus.requires((a, b)),
    ensures
        is_sum(*plus, coordinates(*old(this)), coordinates(*v), coordinates(*final(this))),
{
    let x = this.get_x();
    let y = this.get_y();
    let z = this.get_z();
    this.set_x(plus(x, v.get_x()));
    this.set_y(plus(y, v.get_y()));
    this.set_z(plus(z, v.get_z()));
}

/// Subtracts `v` from the vector `this`, coordinate by coordinate.
pub fn sub_from<S, A: Vector<S>, V: Vector<S>, M: Fn(S, S) -> S>(this: &mut A, v: &V, minus: &M)
    requires
        forall|a: S, b: S| minus.requires((a, b)),
    ensures
        is_difference(*minus, coordinates(*old(this)), coordinates(*v), coordinates(*final(this))),
{
    let x = this.get_x();
    let y = this.get_y();
    let z = this.get_z();
    this.set_x(minus(x, v.get_x()));
    this.set_y(minus(y, v.get_y()));
    this.set_z(minus(z, v.get_z()));
}

/// Multiplies each coordinate of `this` by `factor`.
pub fn mult_scalar_to<S: Copy, A: Vector<S>, T: Fn(S, S) -> S>(this: &mut A, factor: S, times: &T)
    requires
        forall|a: S, b: S| times.requires((a, b)),
    ensures
        is_scaled(*times, coordinates(*old(this)), factor, coordinates(*final(this))),
{
    let x = this.get_x();
    let y = this.get_y();
    let z = this.get_z();
    this.set_x(times(x, factor));
    this.set_y(times(y, factor));
    this.set_z(times(z, factor));
}

/// Replaces the vector `this` by its cross product with `v`:
/// `(y1 z2 - y2 z1, z1 x2 - z2 x1, x1 y2 - x2 y1)`, with the coordinates
/// of `this` numbered 1 and those of `v` numbered 2.
pub fn cross_prod_to<S: Copy, A: Vector<S>, V: Vector<S>, T: Fn(S, S) -> S, M: Fn(S, S) -> S>(
    this: &mut A,
    v: &V,
    times: &T,
    minus: &M,
)
    requires
        forall|a: S, b: S| times.requires((a, b)),
        forall|a: S, b: S| minus.requires((a, b)),
    ensures
        is_cross_product(
            *times,
            *minus,
            coordinates(*old(this)),
            coordinates(*v),
            coordinates(*final(this)),
        ),
{
    let x = minus(times(this.get_y(), v.get_z()), times(v.get_y(), this.get_z()));
    let y = minus(times(this.get_z(), v.get_x()), times(v.get_z(), this.get_x()));
    let z = minus(times(this.get_x(), v.get_y()), times(v.get_x(), this.get_y()));
    this.set_x(x);
    this.set_y(y);
    this.set_z(z);
}

/// The Euclidean norm: the root of `(x x + y y) + z z`.
pub fn length<S: Copy, A: Vector<S>, T: Fn(S, S) -> S, P: Fn(S, S) -> S, R: Fn(S) -> S>(
    this: &A,
    times: &T,
    plus: &P,
    root: &R,
) -> (length: S)
    requires
        forall|a: S, b: S| times.requires((a, b)),
        forall|a: S, b: S| plus.requires((a, b)),
        forall|a: S| root.requires((a,)),
    ensures
        root_of_squares(
            *times,
            *plus,
            *root,
            this.x_spec(),
            this.y_spec(),
            this.z_spec(),
            length,
        ),
{
    let xx = times(this.get_x(), this.get_x());
    let yy = times(this.get_y(), this.get_y());
    let zz = times(this.get_z(), this.get_z());
    let sum = plus(plus(xx, yy), zz);
    root(sum)
}

/// Divides each coordinate by the length. A vector of length zero is not
/// guarded against: each coordinate becomes what `over` gives for a zero
/// divisor.
pub fn normalize<
    S: Copy,
    A: Vector<S>,
    T: Fn(S, S) -> S,
    P: Fn(S, S) -> S,
    R: Fn(S) -> S,
    D: Fn(S, S) -> S,
>(this: &mut A, times: &T, plus: &P, root: &R, over: &D)
    requires
        forall|a: S, b: S| times.requires((a, b)),
        forall|a: S, b: S| plus.requires((a, b)),
        forall|a: S| root.requires((a,)),
        forall|a: S, b: S| over.requires((a, b)),
    ensures
        is_normalized(*times, *plus, *root, *over, coordinates(*old(this)), coordinates(*final(this))),
{
    let len = length(this, times, plus, root);
    let x = this.get_x();
    let y = this.get_y();
    let z = this.get_z();
    this.set_x(over(x, len));
    this.set_y(over(y, len));
    this.set_z(over(z, len));
    proof {
        let a = coordinates(*old(this));
        assert(root_of_squares(*times, *plus, *root, a.0, a.1, a.2, len));
    }
}

} // verus!
