//! Homogeneous transforms: 4 by 4 matrices, stored column after column.

use vstd::prelude::*;
use crate::vector::{Vector, VectorImpl, length, root_of_squares};

verus! {

/// A 4 by 4 matrix. The entry of column `m` and row `i` is `values[4 m + i]`.
#[derive(Clone, Debug, PartialEq)]
pub struct Matrix<S> {
    pub values: [S; 16],
}

/// A vector of four coordinates.
#[derive(Clone, Debug, PartialEq)]
pub struct Vector4<S> {
    pub values: [S; 4],
}

/// `r` is `sum + a b`, computed by `times` and `plus`.
pub open spec fn is_sum_with_product<S, T: Fn(S, S) -> S, P: Fn(S, S) -> S>(
    times: T,
    plus: P,
    sum: S,
    a: S,
    b: S,
    r: S,
) -> bool {
    exists|product: S| #[trigger] times.ensures((a, b), product) && plus.ensures((sum, product), r)
}

/// `r` is the row `i` of the matrix `m` times the vector `v`, summed up from
/// `zero`:
/// `(((zero + v[0] m[i]) + v[1] m[4 + i]) + v[2] m[8 + i]) + v[3] m[12 + i]`,
/// computed by `times` and `plus`.
pub open spec fn is_row_product<S, T: Fn(S, S) -> S, P: Fn(S, S) -> S>(
    times: T,
    plus: P,
    zero: S,
    v: Seq<S>,
    m: Seq<S>,
    i: int,
    r: S,
) -> bool {
    exists|s1: S, s2: S, s3: S|
        #![trigger is_sum_with_product(times, plus, zero, v[0], m[i], s1), is_sum_with_product(times, plus, s1, v[1], m[4 + i], s2), is_sum_with_product(times, plus, s2, v[2], m[8 + i], s3)]
        {
            &&& is_sum_with_product(times, plus, zero, v[0], m[i], s1)
            &&& is_sum_with_product(times, plus, s1, v[1], m[4 + i], s2)
            &&& is_sum_with_product(times, plus, s2, v[2], m[8 + i], s3)
            &&& is_sum_with_product(times, plus, s3, v[3], m[12 + i], r)
        }
}

/// `r` is `p + (one - p) q`, computed by `plus`, `minus` and `times`.
pub open spec fn is_blend<S, P: Fn(S, S) -> S, M: Fn(S, S) -> S, T: Fn(S, S) -> S>(
    plus: P,
    minus: M,
    times: T,
    one: S,
    p: S,
    q: S,
    r: S,
) -> bool {
    exists|d: S, e: S|
        #![trigger minus.ensures((one, p), d), times.ensures((d, q), e)]
        minus.ensures((one, p), d) && times.ensures((d, q), e) && plus.ensures((p, e), r)
}

/// `r` is `p (one - c) op (w s)`, where `op` adds or subtracts, computed by
/// `minus`, `times` and `op`.
pub open spec fn is_skewed<S, M: Fn(S, S) -> S, T: Fn(S, S) -> S, O: Fn(S, S) -> S>(
    minus: M,
    times: T,
    op: O,
    one: S,
    p: S,
    c: S,
    s: S,
    w: S,
    r: S,
) -> bool {
    exists|d: S, e: S, t: S|
        #![trigger minus.ensures((one, c), d), times.ensures((p, d), e), times.ensures((w, s), t)]
        minus.ensures((one, c), d) && times.ensures((p, d), e) && times.ensures((w, s), t)
            && op.ensures((e, t), r)
}

/// What a rotation matrix is computed from: the length of the axis, the axis
/// divided by its length, the products of its coordinates, and the sine and
/// cosine of the angle.
pub struct RotationParts<S> {
    pub length: S,
    pub x: S,
    pub y: S,
    pub z: S,
    pub xx: S,
    pub yy: S,
    pub zz: S,
    pub xy: S,
    pub xz: S,
    pub yz: S,
    pub sin: S,
    pub cos: S,
}

/// `m` holds the entries of the rotation by the angle `a` about the axis
/// `(x_vec, y_vec, z_vec)`, with the intermediate values `k`. With `(x, y, z)`
/// the axis divided by its length, `s` the sine and `c` the cosine of `a`:
/// the entry on the diagonal for a coordinate `p` is `p p + (one - p p) c`,
/// and the entry off the diagonal for the coordinates `p` and `q`, with `w`
/// the third, is `p q (one - c)` plus or minus `w s`. The last row and the
/// last column are `(zero, zero, zero, one)`.
pub open spec fn is_rotation<
    S,
    P: Fn(S, S) -> S,
    M: Fn(S, S) -> S,
    T: Fn(S, S) -> S,
    D: Fn(S, S) -> S,
    R: Fn(S) -> S,
    A: Fn(S) -> S,
    C: Fn(S) -> S,
>(
    plus: P,
    minus: M,
    times: T,
    over: D,
    root: R,
    sin: A,
    cos: C,
    zero: S,
    one: S,
    a: S,
    x_vec: S,
    y_vec: S,
    z_vec: S,
    k: RotationParts<S>,
    m: Seq<S>,
) -> bool {
    &&& root_of_squares(times, plus, root, x_vec, y_vec, z_vec, k.length)
    &&& over.ensures((x_vec, k.length), k.x)
    &&& over.ensures((y_vec, k.length), k.y)
    &&& over.ensures((z_vec, k.length), k.z)
    &&& times.ensures((k.x, k.x), k.xx)
    &&& times.ensures((k.y, k.y), k.yy)
    &&& times.ensures((k.z, k.z), k.zz)
    &&& times.ensures((k.x, k.y), k.xy)
    &&& times.ensures((k.x, k.z), k.xz)
    &&& times.ensures((k.y, k.z), k.yz)
    &&& sin.ensures((a,), k.sin)
    &&& cos.ensures((a,), k.cos)
    &&& m.len() == 16
    &&& is_blend(plus, minus, times, one, k.xx, k.cos, m[0])
    &&& is_skewed(minus, times, plus, one, k.xy, k.cos, k.sin, k.z, m[1])
    &&& is_skewed(minus, times, minus, one, k.xz, k.cos, k.sin, k.y, m[2])
    &&& m[3] == zero
    &&& is_skewed(minus, times, minus, one, k.xy, k.cos, k.sin, k.z, m[4])
    &&& is_blend(plus, minus, times, one, k.yy, k.cos, m[5])
    &&& is_skewed(minus, times, plus, one, k.yz, k.cos, k.sin, k.x, m[6])
    &&& m[7] == zero
    &&& is_skewed(minus, times, plus, one, k.xz, k.cos, k.sin, k.y, m[8])
    &&& is_skewed(minus, times, minus, one, k.yz, k.cos, k.sin, k.x, m[9])
    &&& is_blend(plus, minus, times, one, k.zz, k.cos, m[10])
    &&& m[11] == zero
    &&& m[12] == zero
    &&& m[13] == zero
    &&& m[14] == zero
    &&& m[15] == one
}

/// `p + (one - p) q`.
fn blend<S: Copy, P: Fn(S, S) -> S, M: Fn(S, S) -> S, T: Fn(S, S) -> S>(
    p: S,
    q: S,
    one: S,
    plus: &P,
    minus: &M,
    times: &T,
) -> (r: S)
    requires
        forall|a: S, b: S| plus.requires((a, b)),
        forall|a: S, b: S| minus.requires((a, b)),
        forall|a: S, b: S| times.requires((a, b)),
    ensures
        is_blend(*plus, *minus, *times, one, p, q, r),
{
    plus(p, times(minus(one, p), q))
}

/// `p (one - c) op (w s)`.
fn skew<S: Copy, M: Fn(S, S) -> S, T: Fn(S, S) -> S, O: Fn(S, S) -> S>(
    p: S,
    c: S,
    s: S,
    w: S,
    one: S,
    minus: &M,
    times: &T,
    op: &O,
) -> (r: S)
    requires
        forall|a: S, b: S| minus.requires((a, b)),
        forall|a: S, b: S| times.requires((a, b)),
        forall|a: S, b: S| op.requires((a, b)),
    ensures
        is_skewed(*minus, *times, *op, one, p, c, s, w, r),
{
    let e = times(p, minus(one, c));
    let t = times(w, s);
    op(e, t)
}

impl<S: Copy> Matrix<S> {
    /// The identity, built from the scalars zero and one.
    pub fn identity(zero: S, one: S) -> (m: Matrix<S>)
        ensures
            m.values@ == seq![
                one, zero, zero, zero,
                zero, one, zero, zero,
                zero, zero, one, zero,
                zero, zero, zero, one,
            ],
    {
        let m = Matrix {
            values: [
                one, zero, zero, zero,
                zero, one, zero, zero,
                zero, zero, one, zero,
                zero, zero, zero, one,
            ],
        };
        assert(m.values@ =~= seq![
            one, zero, zero, zero,
            zero, one, zero, zero,
            zero, zero, one, zero,
            zero, zero, zero, one,
        ]);
        m
    }

    /// The translation by `(x, y, z)`.
    pub fn translate(x: S, y: S, z: S, zero: S, one: S) -> (m: Matrix<S>)
        ensures
            m.values@ == seq![
                one, zero, zero, zero,
                zero, one, zero, zero,
                zero, zero, one, zero,
                x, y, z, one,
            ],
    {
        let m = Matrix {
            values: [
                one, zero, zero, zero,
                zero, one, zero, zero,
                zero, zero, one, zero,
                x, y, z, one,
            ],
        };
        assert(m.values@ =~= seq![
            one, zero, zero, zero,
            zero, one, zero, zero,
            zero, zero, one, zero,
            x, y, z, one,
        ]);
        m
    }

    /// The scaling by `x`, `y` and `z` along the three axes.
    pub fn scale(x: S, y: S, z: S, zero: S, one: S) -> (m: Matrix<S>)
        ensures
            m.values@ == seq![
                x, zero, zero, zero,
                zero, y, zero, zero,
                zero, zero, z, zero,
                zero, zero, zero, one,
            ],
    {
        let m = Matrix {
            values: [
                x, zero, zero, zero,
                zero, y, zero, zero,
                zero, zero, z, zero,
                zero, zero, zero, one,
            ],
        };
        assert(m.values@ =~= seq![
            x, zero, zero, zero,
            zero, y, zero, zero,
            zero, zero, z, zero,
            zero, zero, zero, one,
        ]);
        m
    }

    /// The rotation by the angle `a` about the axis `(x_vec, y_vec, z_vec)`,
    /// which is divided by its length first. An axis of length zero is not
    /// guarded against.
    pub fn rot<
        P: Fn(S, S) -> S,
        M: Fn(S, S) -> S,
        T: Fn(S, S) -> S,
        D: Fn(S, S) -> S,
        R: Fn(S) -> S,
        A: Fn(S) -> S,
        C: Fn(S) -> S,
    >(
        a: S,
        x_vec: S,
        y_vec: S,
        z_vec: S,
        zero: S,
        one: S,
        plus: &P,
        minus: &M,
        times: &T,
        over: &D,
        root: &R,
        sin: &A,
        cos: &C,
    ) -> (m: Matrix<S>)
        requires
            forall|a: S, b: S| plus.requires((a, b)),
            forall|a: S, b: S| minus.requires((a, b)),
            forall|a: S, b: S| times.requires((a, b)),
            forall|a: S, b: S| over.requires((a, b)),
            forall|a: S| root.requires((a,)),
            forall|a: S| sin.requires((a,)),
            forall|a: S| cos.requires((a,)),
        ensures
            exists|k: RotationParts<S>| #[trigger]
                is_rotation(
                    *plus,
                    *minus,
                    *times,
                    *over,
                    *root,
                    *sin,
                    *cos,
                    zero,
                    one,
                    a,
                    x_vec,
                    y_vec,
                    z_vec,
                    k,
                    m.values@,
                ),
    {
        let axis = VectorImpl::new(x_vec, y_vec, z_vec);
        let len = length(&axis, times, plus, root);
        let x = over(x_vec, len);
        let y = over(y_vec, len);
        let z = over(z_vec, len);
        let xx = times(x, x);
        let yy = times(y, y);
        let zz = times(z, z);
        let xy = times(x, y);
        let xz = times(x, z);
        let yz = times(y, z);
        let asin = sin(a);
        let acos = cos(a);
        let m = Matrix {
            values: [
                blend(xx, acos, one, plus, minus, times),
                skew(xy, acos, asin, z, one, minus, times, plus),
                skew(xz, acos, asin, y, one, minus, times, minus),
                zero,
                skew(xy, acos, asin, z, one, minus, times, minus),
                blend(yy, acos, one, plus, minus, times),
                skew(yz, acos, asin, x, one, minus, times, plus),
                zero,
                skew(xz, acos, asin, y, one, minus, times, plus),
                skew(yz, acos, asin, x, one, minus, times, minus),
                blend(zz, acos, one, plus, minus, times),
                zero,
                zero,
                zero,
                zero,
                one,
            ],
        };
        proof {
            let k = RotationParts {
                length: len,
                x: x,
                y: y,
                z: z,
                xx: xx,
                yy: yy,
                zz: zz,
                xy: xy,
                xz: xz,
                yz: yz,
                sin: asin,
                cos: acos,
            };
            assert(is_rotation(
                *plus,
                *minus,
                *times,
                *over,
                *root,
                *sin,
                *cos,
                zero,
                one,
                a,
                x_vec,
                y_vec,
                z_vec,
                k,
                m.values@,
            ));
        }
        m
    }

    /// The row `i` of this matrix times `v`.
    fn row_product<T: Fn(S, S) -> S, P: Fn(S, S) -> S>(
        &self,
        v: &Vector4<S>,
        i: usize,
        zero: S,
        times: &T,
        plus: &P,
    ) -> (r: S)
        requires
            i < 4,
            forall|a: S, b: S| times.requires((a, b)),
            forall|a: S, b: S| plus.requires((a, b)),
        ensures
            is_row_product(*times, *plus, zero, v.values@, self.values@, i as int, r),
    {
        let p0 = times(v.values[0], self.values[i]);
        let s1 = plus(zero, p0);
        let p1 = times(v.values[1], self.values[4 + i]);
        let s2 = plus(s1, p1);
        let p2 = times(v.values[2], self.values[8 + i]);
        let s3 = plus(s2, p2);
        let p3 = times(v.values[3], self.values[12 + i]);
        let s4 = plus(s3, p3);
        proof {
            assert(is_sum_with_product(*times, *plus, zero, v.values@[0], self.values@[i as int], s1));
            assert(is_sum_with_product(*times, *plus, s1, v.values@[1], self.values@[4 + i], s2));
            assert(is_sum_with_product(*times, *plus, s2, v.values@[2], self.values@[8 + i], s3));
            assert(is_sum_with_product(*times, *plus, s3, v.values@[3], self.values@[12 + i], s4));
        }
        s4
    }

    /// This matrix times the vector `v`.
    pub fn mult_vector4<T: Fn(S, S) -> S, P: Fn(S, S) -> S>(
        &self,
        v: &Vector4<S>,
        zero: S,
        times: &T,
        plus: &P,
    ) -> (res: Vector4<S>)
        requires
            forall|a: S, b: S| times.requires((a, b)),
            forall|a: S, b: S| plus.requires((a, b)),
        ensures
            forall|i: int|
                0 <= i < 4 ==> is_row_product(
                    *times,
                    *plus,
                    zero,
                    v.values@,
                    self.values@,
                    i,
                    #[trigger] res.values@[i],
                ),
    {
        let r0 = self.row_product(v, 0, zero, times, plus);
        let r1 = self.row_product(v, 1, zero, times, plus);
        let r2 = self.row_product(v, 2, zero, times, plus);
        let r3 = self.row_product(v, 3, zero, times, plus);
        Vector4 { values: [r0, r1, r2, r3] }
    }

    /// This matrix times the point `v`, taken with a fourth coordinate
    /// `one`; the fourth coordinate of the product is dropped.
    pub fn mult_vector<V: Vector<S>, T: Fn(S, S) -> S, P: Fn(S, S) -> S>(
        &self,
        v: &V,
        zero: S,
        one: S,
        times: &T,
        plus: &P,
    ) -> (res: VectorImpl<S>)
        requires
            forall|a: S, b: S| times.requires((a, b)),
            forall|a: S, b: S| plus.requires((a, b)),
        ensures
            ({
                let point = seq![v.x_spec(), v.y_spec(), v.z_spec(), one];
                &&& is_row_product(*times, *plus, zero, point, self.values@, 0, res.x)
                &&& is_row_product(*times, *plus, zero, point, self.values@, 1, res.y)
                &&& is_row_product(*times, *plus, zero, point, self.values@, 2, res.z)
            }),
    {
        let attr = Vector4 { values: [v.get_x(), v.get_y(), v.get_z(), one] };
        proof {
            assert(attr.values@ =~= seq![v.x_spec(), v.y_spec(), v.z_spec(), one]);
        }
        let res = self.mult_vector4(&attr, zero, times, plus);
        VectorImpl::new(res.values[0], res.values[1], res.values[2])
    }

    /// This matrix times the matrix `m`: column `k` of the product is this
    /// matrix times column `k` of `m`.
    pub fn mult_matrix<T: Fn(S, S) -> S, P: Fn(S, S) -> S>(
        &self,
        m: &Matrix<S>,
        zero: S,
        times: &T,
        plus: &P,
    ) -> (res: Matrix<S>)
        requires
            forall|a: S, b: S| times.requires((a, b)),
            forall|a: S, b: S| plus.requires((a, b)),
        ensures
            forall|k: int, i: int|
                0 <= k < 4 && 0 <= i < 4 ==> is_row_product(
                    *times,
                    *plus,
                    zero,
                    m.values@.subrange(4 * k, 4 * k + 4),
                    self.values@,
                    i,
                    #[trigger] res.values@[4 * k + i],
                ),
    {
        let v1 = self.mult_vector4(&m.get_vec(0), zero, times, plus);
        let v2 = self.mult_vector4(&m.get_vec(1), zero, times, plus);
        let v3 = self.mult_vector4(&m.get_vec(2), zero, times, plus);
        let v4 = self.mult_vector4(&m.get_vec(3), zero, times, plus);
        let res = Matrix {
            values: [
                v1.values[0], v1.values[1], v1.values[2], v1.values[3],
                v2.values[0], v2.values[1], v2.values[2], v2.values[3],
                v3.values[0], v3.values[1], v3.values[2], v3.values[3],
                v4.values[0], v4.values[1], v4.values[2], v4.values[3],
            ],
        };
        proof {
            assert forall|k: int, i: int| 0 <= k < 4 && 0 <= i < 4 implies is_row_product(
                *times,
                *plus,
                zero,
                m.values@.subrange(4 * k, 4 * k + 4),
                self.values@,
                i,
                #[trigger] res.values@[4 * k + i],
            ) by {
                if k == 0 {
                    assert(res.values@[4 * k + i] == v1.values@[i]);
                } else if k == 1 {
                    assert(res.values@[4 * k + i] == v2.values@[i]);
                } else if k == 2 {
                    assert(res.values@[4 * k + i] == v3.values@[i]);
                } else {
                    assert(res.values@[4 * k + i] == v4.values@[i]);
                }
            }
        }
        res
    }

    /// The column `m` of this matrix.
    pub fn get_vec(&self, m: usize) -> (column: Vector4<S>)
        requires
            m < 4,
        ensures
            column.values@ == self.values@.subrange(4 * m, 4 * m + 4),
    {
        let column = Vector4 {
            values: [
                self.values[m * 4],
                self.values[1 + m * 4],
                self.values[2 + m * 4],
                self.values[3 + m * 4],
            ],
        };
        assert(column.values@ =~= self.values@.subrange(4 * m, 4 * m + 4));
        column
    }
}

} // verus!
