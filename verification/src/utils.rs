//! Coordinate arithmetic shared by every lattice: resolving a single
//! out-of-range coordinate against one axis extent, and converting between
//! flat (row-major) cell indices and multi-dimensional points.

use vstd::prelude::*;

use crate::types::BoundaryHandling;
use crate::universal_point::UniversalLatticePoint;
use crate::universal_point::UniversalLatticeSize;
use crate::universal_point::UniversalPoint;

verus! {

broadcast use crate::universal_point::lemma_universal_point_len;

/// The number of cells in a box with the given axis extents: the product
/// of all extents. An empty extent list has exactly one (zero-dimensional)
/// cell.
pub open spec fn product_of(dims: Seq<usize>) -> nat
    decreases dims.len(),
{
    if dims.len() == 0 {
        1
    } else {
        (dims[0] * product_of(dims.skip(1))) as nat
    }
}

/// The coordinates of the cell at row-major position `index`, axis 0
/// varying fastest: each axis takes the remainder by its extent and passes
/// the quotient on to the next axis.
pub open spec fn point_at(index: int, dims: Seq<usize>) -> Seq<i128>
    decreases dims.len(),
{
    if dims.len() == 0 {
        Seq::empty()
    } else {
        seq![(index % (dims[0] as int)) as i128] + point_at(
            index / (dims[0] as int),
            dims.skip(1),
        )
    }
}

/// The row-major position of the cell with coordinates `p`, axis 0 varying
/// fastest: the inverse of `point_at` on the box `[0, dims)`.
pub open spec fn flat_of(p: Seq<i128>, dims: Seq<usize>) -> int
    decreases dims.len(),
{
    if dims.len() == 0 {
        0
    } else {
        p[0] + dims[0] * flat_of(p.skip(1), dims.skip(1))
    }
}

/// A box has cells exactly when every axis has a positive extent.
pub proof fn lemma_product_positive(dims: Seq<usize>)
    ensures
        (product_of(dims) > 0) <==> (forall|i: int| 0 <= i < dims.len() ==> #[trigger] dims[i] > 0),
    decreases dims.len(),
{
    if dims.len() > 0 {
        lemma_product_positive(dims.skip(1));
        assert(forall|i: int| 1 <= i < dims.len() ==> #[trigger] dims[i] == dims.skip(1)[i - 1]);
        let d0 = dims[0] as int;
        let rest = product_of(dims.skip(1)) as int;
        vstd::arithmetic::mul::lemma_mul_nonnegative(d0, rest);
        assert(product_of(dims) == d0 * rest);
        if d0 > 0 && rest > 0 {
            assert(d0 * rest > 0) by (nonlinear_arith)
                requires
                    d0 > 0,
                    rest > 0,
            ;
            assert(forall|i: int| 0 <= i < dims.len() ==> #[trigger] dims[i] > 0);
        } else {
            assert(d0 * rest <= 0) by (nonlinear_arith)
                requires
                    d0 >= 0,
                    rest >= 0,
                    !(d0 > 0 && rest > 0),
            ;
            assert(product_of(dims) == 0);
            if d0 == 0 {
                assert(dims[0] == 0);
            } else {
                assert(!(forall|i: int| 0 <= i < dims.skip(1).len() ==> #[trigger] dims.skip(1)[i]
                    > 0));
                let j = choose|i: int|
                    0 <= i < dims.skip(1).len() && !(#[trigger] dims.skip(1)[i] > 0);
                assert(dims[j + 1] == 0);
            }
        }
    }
}

/// Peeling one axis off the front of a box divides its cell count by that
/// axis's extent.
pub proof fn lemma_product_skip_unfold(dims: Seq<usize>, i: int)
    requires
        0 <= i < dims.len(),
    ensures
        product_of(dims.skip(i)) == dims[i] * product_of(dims.skip(i + 1)),
{
    assert(dims.skip(i).skip(1) =~= dims.skip(i + 1));
    assert(dims.skip(i)[0] == dims[i]);
    assert(product_of(dims.skip(i)) == dims.skip(i)[0] * product_of(dims.skip(i).skip(1)));
}

/// Every row-major position inside the box corresponds to in-range
/// coordinates, and flattening those coordinates gives the position back.
pub proof fn lemma_point_at_inverse(index: int, dims: Seq<usize>)
    requires
        0 <= index < product_of(dims),
    ensures
        in_box(point_at(index, dims), dims),
        flat_of(point_at(index, dims), dims) == index,
    decreases dims.len(),
{
    if dims.len() == 0 {
        assert(point_at(index, dims) =~= Seq::<i128>::empty());
    } else {
        let d0 = dims[0] as int;
        let rest = product_of(dims.skip(1));
        assert(product_of(dims) == d0 * rest);
        assert(d0 > 0 && rest > 0) by (nonlinear_arith)
            requires
                d0 * rest > index >= 0,
                d0 >= 0,
                rest >= 0,
        ;
        let digit = index % d0;
        let q = index / d0;
        vstd::arithmetic::div_mod::lemma_fundamental_div_mod(index, d0);
        assert(0 <= digit < d0);
        assert(0 <= q);
        assert(q < rest) by (nonlinear_arith)
            requires
                index == d0 * q + digit,
                index < d0 * rest,
                0 <= digit < d0,
                0 <= q,
                rest > 0,
        ;
        lemma_point_at_inverse(q, dims.skip(1));
        let tail = point_at(q, dims.skip(1));
        let p = point_at(index, dims);
        assert(p == seq![digit as i128] + tail);
        assert(p.skip(1) =~= tail);
        assert(p[0] == digit as i128);
        assert(forall|i: int| 1 <= i < p.len() ==> p[i] == #[trigger] tail[i - 1]);
        assert(forall|i: int| 1 <= i < dims.len() ==> dims[i] == #[trigger] dims.skip(1)[i - 1]);
        assert(in_box(p, dims));
        assert(flat_of(p, dims) == digit + d0 * flat_of(tail, dims.skip(1)));
        assert(flat_of(p, dims) == index);
    }
}

/// Flattening in-range coordinates gives a position inside the box, and
/// reading the coordinates back at that position reproduces them.
pub proof fn lemma_flat_of_inverse(p: Seq<i128>, dims: Seq<usize>)
    requires
        in_box(p, dims),
    ensures
        0 <= flat_of(p, dims) < product_of(dims),
        point_at(flat_of(p, dims), dims) == p,
    decreases dims.len(),
{
    if dims.len() == 0 {
        assert(point_at(0, dims) =~= p);
    } else {
        let d0 = dims[0] as int;
        let p0 = p[0] as int;
        assert(0 <= p0 < d0);
        assert(forall|i: int| 1 <= i < p.len() ==> p[i] == #[trigger] p.skip(1)[i - 1]);
        assert(forall|i: int| 1 <= i < dims.len() ==> dims[i] == #[trigger] dims.skip(1)[i - 1]);
        assert(in_box(p.skip(1), dims.skip(1)));
        lemma_flat_of_inverse(p.skip(1), dims.skip(1));
        let rest_flat = flat_of(p.skip(1), dims.skip(1));
        let rest = product_of(dims.skip(1));
        let flat = flat_of(p, dims);
        assert(flat == p0 + d0 * rest_flat);
        assert(0 <= flat < d0 * rest) by (nonlinear_arith)
            requires
                flat == p0 + d0 * rest_flat,
                0 <= p0 < d0,
                0 <= rest_flat < rest,
        ;
        assert(product_of(dims) == d0 * rest);
        assert(flat == rest_flat * d0 + p0) by (nonlinear_arith)
            requires
                flat == p0 + d0 * rest_flat,
        ;
        vstd::arithmetic::div_mod::lemma_fundamental_div_mod_converse_mod(flat, d0, rest_flat, p0);
        vstd::arithmetic::div_mod::lemma_fundamental_div_mod_converse_div(flat, d0, rest_flat, p0);
        assert(flat % d0 == p0);
        assert(flat / d0 == rest_flat);
        assert(point_at(flat, dims) == seq![p[0]] + point_at(rest_flat, dims.skip(1)));
        assert(point_at(flat, dims) =~= p);
    }
}

/// Whether coordinates `p` lie inside the box `[0, dims)` on every axis.
pub open spec fn in_box(p: Seq<i128>, dims: Seq<usize>) -> bool {
    &&& p.len() == dims.len()
    &&& forall|i: int| 0 <= i < p.len() ==> 0 <= #[trigger] p[i] < dims[i]
}

/// A coordinate reduced modulo an axis extent, with floored semantics so
/// that negative inputs wrap to the high end of the axis (`%` on `int` is
/// the Euclidean remainder, which agrees with flooring for a positive
/// extent). An extent of zero has no cells at all; the result is pinned to
/// zero there.
pub open spec fn wrap_spec(coord: int, extent: int) -> int {
    if extent <= 0 {
        0
    } else {
        coord % extent
    }
}

/// A coordinate pinned into `[0, extent)`; zero when the axis is empty.
pub open spec fn clamp_spec(coord: int, extent: int) -> int {
    if extent <= 0 {
        0
    } else if coord < 0 {
        0
    } else if coord >= extent {
        extent - 1
    } else {
        coord
    }
}

/// Reduces `coord` modulo `size` so the result lies in `[0, size)`,
/// wrapping negative coordinates to the high end of the axis (a torus).
pub fn wrap_coordinate(coord: i128, size: usize) -> (r: i128)
    ensures
        r == wrap_spec(coord as int, size as int),
        size > 0 ==> 0 <= r < size,
{
    if size == 0 {
        return 0;
    }
    let size_i128 = size as i128;
    match coord.checked_rem_euclid(size_i128) {
        Some(r) => r,
        // unreachable: the divisor is positive, and a Euclidean remainder
        // by a positive divisor always fits the type
        None => 0,
    }
}

/// Pins `coord` into `[0, size)`; in-range coordinates are unchanged.
pub fn clamp_coordinate(coord: i128, size: usize) -> (r: i128)
    ensures
        r == clamp_spec(coord as int, size as int),
        size > 0 ==> 0 <= r < size,
{
    if size == 0 {
        return 0;
    }
    let max = size as i128 - 1;
    if coord < 0 {
        0
    } else if coord > max {
        max
    } else {
        coord
    }
}

/// One coordinate resolved against one axis under a boundary mode.
pub open spec fn axis_transform(mode: BoundaryHandling, c: i128, n: usize) -> i128 {
    match mode {
        BoundaryHandling::Unbounded => c,
        BoundaryHandling::Wrap => wrap_spec(c as int, n as int) as i128,
        BoundaryHandling::Clamp => clamp_spec(c as int, n as int) as i128,
    }
}

/// A whole point resolved against a box under a boundary mode, axis by
/// axis.
pub open spec fn transform_coords(mode: BoundaryHandling, p: Seq<i128>, dims: Seq<usize>) -> Seq<
    i128,
> {
    Seq::new(p.len(), |i: int| axis_transform(mode, p[i], dims[i]))
}

/// A point already inside the box is returned unchanged by every boundary
/// mode.
pub proof fn lemma_transform_in_box(mode: BoundaryHandling, p: Seq<i128>, dims: Seq<usize>)
    requires
        in_box(p, dims),
    ensures
        transform_coords(mode, p, dims) == p,
{
    assert forall|i: int| 0 <= i < p.len() implies transform_coords(mode, p, dims)[i] == p[i] by {
        assert(0 <= p[i] < dims[i]);
        if mode is Wrap {
            vstd::arithmetic::div_mod::lemma_small_mod(p[i] as nat, dims[i] as nat);
        }
    }
    assert(transform_coords(mode, p, dims) =~= p);
}

/// The number of addressable cells of a box, the product of its extents.
pub fn size_product<const D: usize>(size: &UniversalLatticeSize<D>) -> (n: usize)
    requires
        product_of(size@) <= usize::MAX,
    ensures
        n == product_of(size@),
{
    let dims = size.sizes();
    let mut i: usize = 0;
    while i < D
        invariant
            dims@ == size@,
            i <= D,
            forall|j: int| 0 <= j < i ==> #[trigger] dims@[j] > 0,
        decreases D - i,
    {
        if *vstd::array::array_index_get(&dims, i) == 0 {
            proof {
                lemma_product_positive(size@);
                assert(size@[i as int] == 0);
                assert(product_of(size@) == 0);
            }
            return 0;
        }
        i += 1;
    }
    proof {
        lemma_product_positive(size@);
        assert(size@.skip(0) =~= size@);
    }
    let mut prod: usize = 1;
    let mut k: usize = 0;
    while k < D
        invariant
            dims@ == size@,
            k <= D,
            prod >= 1,
            product_of(size@) <= usize::MAX,
            forall|j: int| 0 <= j < D ==> #[trigger] dims@[j] > 0,
            prod * product_of(size@.skip(k as int)) == product_of(size@),
        decreases D - k,
    {
        let d = *vstd::array::array_index_get(&dims, k);
        proof {
            lemma_product_skip_unfold(size@, k as int);
            let rest = product_of(size@.skip(k as int + 1)) as int;
            assert(forall|j: int| 0 <= j < size@.skip(k as int + 1).len() ==> #[trigger] size@.skip(
                k as int + 1,
            )[j] > 0);
            lemma_product_positive(size@.skip(k as int + 1));
            assert(rest >= 1);
            assert((prod * d) * rest == product_of(size@)) by (nonlinear_arith)
                requires
                    prod * product_of(size@.skip(k as int)) == product_of(size@),
                    product_of(size@.skip(k as int)) == d * rest,
            ;
            assert(prod * d <= product_of(size@) && prod * d >= 1) by (nonlinear_arith)
                requires
                    (prod * d) * rest == product_of(size@),
                    rest >= 1,
                    prod >= 1,
                    d >= 1,
            ;
        }
        prod = prod * d;
        k += 1;
    }
    proof {
        assert(size@.skip(D as int) =~= Seq::<usize>::empty());
        assert(product_of(Seq::<usize>::empty()) == 1);
        assert(prod * product_of(size@.skip(D as int)) == product_of(size@));
        assert(prod == product_of(size@));
    }
    prod
}

/// The point addressing the cell at row-major position `index` of the box
/// `[0, size)`, axis 0 varying fastest.
pub fn point_from_flat_index<const D: usize>(index: usize, size: UniversalLatticeSize<D>) -> (p:
    UniversalLatticePoint<D>)
    requires
        index < product_of(size@),
    ensures
        p@ == point_at(index as int, size@),
        in_box(p@, size@),
        flat_of(p@, size@) == index,
{
    let dims = size.sizes();
    let mut coords: [i128; D] = [0; D];
    let mut remaining: usize = index;
    proof {
        lemma_product_positive(size@);
        assert(size@.skip(0) =~= size@);
        assert(coords@.take(0) + point_at(index as int, size@) =~= point_at(index as int, size@));
    }
    let mut i: usize = 0;
    while i < D
        invariant
            dims@ == size@,
            i <= D,
            coords@.len() == D,
            forall|j: int| 0 <= j < D ==> #[trigger] dims@[j] > 0,
            remaining < product_of(size@.skip(i as int)),
            point_at(index as int, size@) == coords@.take(i as int) + point_at(
                remaining as int,
                size@.skip(i as int),
            ),
        decreases D - i,
    {
        let d = *vstd::array::array_index_get(&dims, i);
        let digit = remaining % d;
        let next = remaining / d;
        proof {
            let ii = i as int;
            lemma_product_skip_unfold(size@, ii);
            let rest = product_of(size@.skip(ii + 1)) as int;
            assert(forall|j: int| 0 <= j < size@.skip(ii + 1).len() ==> #[trigger] size@.skip(
                ii + 1,
            )[j] > 0);
            lemma_product_positive(size@.skip(ii + 1));
            assert(rest >= 1);
            vstd::arithmetic::div_mod::lemma_fundamental_div_mod(remaining as int, d as int);
            assert(next < rest) by (nonlinear_arith)
                requires
                    remaining == d * next + digit,
                    remaining < d * rest,
                    0 <= digit < d,
                    0 <= next,
                    rest > 0,
            ;
            assert(size@.skip(ii).skip(1) =~= size@.skip(ii + 1));
            assert(point_at(remaining as int, size@.skip(ii)) == seq![digit as i128] + point_at(
                next as int,
                size@.skip(ii + 1),
            ));
        }
        coords[i] = digit as i128;
        remaining = next;
        proof {
            let ii = i as int;
            assert(coords@.take(ii + 1) =~= coords@.take(ii).push(digit as i128));
            assert(coords@.take(ii).push(digit as i128) + point_at(
                remaining as int,
                size@.skip(ii + 1),
            ) =~= (coords@.take(ii) + (seq![digit as i128] + point_at(
                remaining as int,
                size@.skip(ii + 1),
            ))));
        }
        i += 1;
    }
    proof {
        assert(size@.skip(D as int) =~= Seq::<usize>::empty());
        assert(point_at(remaining as int, size@.skip(D as int)) =~= Seq::<i128>::empty());
        assert(coords@.take(D as int) =~= coords@);
        assert(coords@ + Seq::<i128>::empty() =~= coords@);
        lemma_point_at_inverse(index as int, size@);
    }
    UniversalPoint::new(coords)
}

/// The number of addressable cells of a box, or `None` when it exceeds
/// the machine's addressable range.
pub fn checked_size_product<const D: usize>(size: &UniversalLatticeSize<D>) -> (r: Option<usize>)
    ensures
        r matches Some(n) ==> n == product_of(size@),
        r is None ==> product_of(size@) > usize::MAX,
{
    let dims = size.sizes();
    let mut i: usize = 0;
    while i < D
        invariant
            dims@ == size@,
            i <= D,
            forall|j: int| 0 <= j < i ==> #[trigger] dims@[j] > 0,
        decreases D - i,
    {
        if *vstd::array::array_index_get(&dims, i) == 0 {
            proof {
                lemma_product_positive(size@);
                assert(size@[i as int] == 0);
                assert(product_of(size@) == 0);
            }
            return Some(0);
        }
        i += 1;
    }
    proof {
        lemma_product_positive(size@);
        assert(size@.skip(0) =~= size@);
    }
    let mut prod: usize = 1;
    let mut k: usize = 0;
    while k < D
        invariant
            dims@ == size@,
            k <= D,
            prod >= 1,
            forall|j: int| 0 <= j < D ==> #[trigger] dims@[j] > 0,
            prod * product_of(size@.skip(k as int)) == product_of(size@),
        decreases D - k,
    {
        let d = *vstd::array::array_index_get(&dims, k);
        proof {
            lemma_product_skip_unfold(size@, k as int);
            let rest = product_of(size@.skip(k as int + 1)) as int;
            assert(forall|j: int| 0 <= j < size@.skip(k as int + 1).len() ==> #[trigger] size@.skip(
                k as int + 1,
            )[j] > 0);
            lemma_product_positive(size@.skip(k as int + 1));
            assert(rest >= 1);
            assert((prod * d) * rest == product_of(size@) && prod * d <= product_of(size@) && prod
                * d >= 1) by (nonlinear_arith)
                requires
                    prod * product_of(size@.skip(k as int)) == product_of(size@),
                    product_of(size@.skip(k as int)) == d * rest,
                    rest >= 1,
                    prod >= 1,
                    d >= 1,
            ;
        }
        prod = match prod.checked_mul(d) {
            Some(p) => p,
            None => {
                return None;
            },
        };
        k += 1;
    }
    proof {
        assert(size@.skip(D as int) =~= Seq::<usize>::empty());
        assert(product_of(Seq::<usize>::empty()) == 1);
        assert(prod * product_of(size@.skip(D as int)) == product_of(size@));
        assert(prod == product_of(size@));
    }
    Some(prod)
}

/// The row-major position of an in-range point, the exec counterpart of
/// `flat_of`.
pub fn flat_index_of<const D: usize>(
    point: &UniversalLatticePoint<D>,
    size: &UniversalLatticeSize<D>,
) -> (r: usize)
    requires
        in_box(point@, size@),
        product_of(size@) <= usize::MAX,
    ensures
        r == flat_of(point@, size@),
{
    let coords = point.coords();
    let dims = size.sizes();
    proof {
        lemma_flat_of_inverse(point@, size@);
        assert(point@.skip(D as int) =~= Seq::<i128>::empty());
        assert(size@.skip(D as int) =~= Seq::<usize>::empty());
        assert(product_of(size@.skip(D as int)) == 1);
        assert forall|j: int| 0 <= j < size@.len() implies #[trigger] size@[j] > 0 by {
            assert(0 <= point@[j] < size@[j]);
        }
        lemma_product_positive(size@);
    }
    let mut acc: usize = 0;
    let mut i: usize = D;
    while i > 0
        invariant
            coords@ == point@,
            dims@ == size@,
            in_box(point@, size@),
            product_of(size@) <= usize::MAX,
            i <= D,
            acc == flat_of(point@.skip(i as int), size@.skip(i as int)),
            acc < product_of(size@.skip(i as int)),
        decreases i,
    {
        i -= 1;
        let ghost ii = i as int;
        proof {
            assert(forall|j: int|
                0 <= j < point@.skip(ii).len() ==> #[trigger] point@.skip(ii)[j] == point@[j + ii]);
            assert(forall|j: int|
                0 <= j < size@.skip(ii).len() ==> #[trigger] size@.skip(ii)[j] == size@[j + ii]);
            assert(point@.skip(ii).skip(1) =~= point@.skip(ii + 1));
            assert(size@.skip(ii).skip(1) =~= size@.skip(ii + 1));
            lemma_product_skip_unfold(size@, ii);
            assert(flat_of(point@.skip(ii), size@.skip(ii)) == point@[ii] + size@[ii] * flat_of(
                point@.skip(ii + 1),
                size@.skip(ii + 1),
            ));
            assert(in_box(point@.skip(ii), size@.skip(ii)));
            lemma_flat_of_inverse(point@.skip(ii), size@.skip(ii));
            assert forall|j: int| 0 <= j < size@.len() implies #[trigger] size@[j] > 0 by {
                assert(0 <= point@[j] < size@[j]);
            }
            lemma_product_positive(size@);
            lemma_product_prefix_bound(size@, ii);
            assert(product_of(size@.skip(ii)) <= product_of(size@));
            assert(flat_of(point@.skip(ii), size@.skip(ii)) < product_of(size@.skip(ii)));
        }
        let c = *vstd::array::array_index_get(&coords, i) as usize;
        let d = *vstd::array::array_index_get(&dims, i);
        acc = c + d * acc;
    }
    proof {
        assert(point@.skip(0) =~= point@);
        assert(size@.skip(0) =~= size@);
    }
    acc
}

/// A suffix of a box never has more cells than the whole box.
pub proof fn lemma_product_prefix_bound(dims: Seq<usize>, i: int)
    requires
        0 <= i <= dims.len(),
    ensures
        product_of(dims.skip(i)) <= product_of(dims) || product_of(dims) == 0,
    decreases i,
{
    if i > 0 {
        lemma_product_prefix_bound(dims, i - 1);
        lemma_product_skip_unfold(dims, i - 1);
        let a = dims[i - 1] as int;
        let rest = product_of(dims.skip(i)) as int;
        assert(product_of(dims.skip(i - 1)) == a * rest);
        if a == 0 {
            lemma_product_positive(dims);
            assert(dims[i - 1] == 0);
            assert(product_of(dims) == 0);
        } else {
            assert(rest <= a * rest) by (nonlinear_arith)
                requires
                    a >= 1,
                    rest >= 0,
            ;
            assert(product_of(dims.skip(i)) <= product_of(dims.skip(i - 1)));
            assert(product_of(dims.skip(i - 1)) <= product_of(dims) || product_of(dims) == 0);
        }
    } else {
        assert(dims.skip(0) =~= dims);
    }
}

/// Every point of the box `[0, size)` exactly once, in row-major order
/// with axis 0 varying fastest: the canonical enumeration a step walks.
pub fn generate_points_until<const D: usize>(size: UniversalLatticeSize<D>) -> (r: Vec<
    UniversalLatticePoint<D>,
>)
    requires
        product_of(size@) <= usize::MAX,
    ensures
        r@.len() == product_of(size@),
        forall|i: int| 0 <= i < r@.len() ==> #[trigger] r@[i]@ == point_at(i, size@),
{
    let total = size_product(&size);
    let mut points: Vec<UniversalLatticePoint<D>> = Vec::new();
    let mut i: usize = 0;
    while i < total
        invariant
            total == product_of(size@),
            i <= total,
            points@.len() == i,
            forall|j: int| 0 <= j < i ==> #[trigger] points@[j]@ == point_at(j, size@),
        decreases total - i,
    {
        let p = point_from_flat_index(i, size);
        points.push(p);
        i += 1;
    }
    points
}

} // verus!
