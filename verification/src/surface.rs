//! The lattice of sticker positions on the surface of a cube.
//!
//! A cube of side `n` is centred on the origin and each of its pieces is two units long.
//! Its faces lie at `-n` and `n` on each axis, and the stickers of a face sit at the
//! coordinates `-(n - 1), -(n - 3), ..., n - 1` along the two other axes.

use crate::facelet_model::Face;
use crate::vec3::{Axis, IntVec3};
use vstd::arithmetic::div_mod::{
    lemma_div_pos_is_pos,
    lemma_fundamental_div_mod,
    lemma_fundamental_div_mod_converse,
    lemma_mod_pos_bound,
};
use vstd::prelude::*;

verus! {

/// The coordinate of the sticker centres in line `i` of a face, counted from 0 at the
/// lowest coordinate.
pub open spec fn grid_coordinate(n: int, i: int) -> int {
    2 * i - (n - 1)
}

/// Whether `c` is the coordinate of a line of sticker centres of a cube of side `n`.
pub open spec fn on_grid(c: int, n: int) -> bool {
    -n < c < n && (c + n - 1) % 2 == 0
}

/// The line whose sticker centres have the coordinate `c`.
pub open spec fn grid_index(n: int, c: int) -> int {
    (c + n - 1) / 2
}

/// Whether `p` is the position of a sticker on a cube of side `n`: one coordinate lies on
/// a face, the two others on the grid.
pub open spec fn on_surface(p: IntVec3, n: int) -> bool {
    ||| (p.x == n || p.x == -n) && on_grid(p.y, n) && on_grid(p.z, n)
    ||| (p.y == n || p.y == -n) && on_grid(p.x, n) && on_grid(p.z, n)
    ||| (p.z == n || p.z == -n) && on_grid(p.x, n) && on_grid(p.y, n)
}

/// The face of a cube of side `n` that `p` lies on, or `Face::X` for a point that lies on
/// none.
pub open spec fn face_of(p: IntVec3, n: int) -> Face {
    if p.x == n {
        Face::R
    } else if p.x == -n {
        Face::L
    } else if p.y == n {
        Face::U
    } else if p.y == -n {
        Face::D
    } else if p.z == n {
        Face::F
    } else if p.z == -n {
        Face::B
    } else {
        Face::X
    }
}

/// The sticker position on the face at `-n` (for `side` 0) or `n` (for `side` 1) of the
/// axis numbered `t` (0 for x, 1 for y, 2 for z), in the lines `a` and `b` of the two
/// other axes, taken in the order x, y, z.
pub open spec fn surface_point(n: int, side: int, a: int, b: int, t: int) -> IntVec3 {
    let face = if side == 0 {
        -n
    } else {
        n
    };
    let c1 = grid_coordinate(n, a);
    let c2 = grid_coordinate(n, b);
    if t == 0 {
        IntVec3 { x: face, y: c1, z: c2 }
    } else if t == 1 {
        IntVec3 { x: c1, y: face, z: c2 }
    } else {
        IntVec3 { x: c1, y: c2, z: face }
    }
}

/// The place in a solved cube of the sticker that [`surface_point`] gives for the same
/// arguments.
pub open spec fn place_index(n: int, side: int, a: int, b: int, t: int) -> int {
    ((side * n + a) * n + b) * 3 + t
}

/// The side of the sticker at place `k`: 0 for the faces at `-n`, 1 for those at `n`.
pub open spec fn place_side(n: int, k: int) -> int {
    ((k / 3) / n) / n
}

/// The first grid line of the sticker at place `k`.
pub open spec fn place_first(n: int, k: int) -> int {
    ((k / 3) / n) % n
}

/// The second grid line of the sticker at place `k`.
pub open spec fn place_second(n: int, k: int) -> int {
    (k / 3) % n
}

/// The position of the sticker at place `k` of a solved cube of side `n`. The stickers
/// are laid down side by side, line by line, and three at a time: one for each axis.
pub open spec fn solved_position(n: int, k: int) -> IntVec3 {
    surface_point(n, place_side(n, k), place_first(n, k), place_second(n, k), k % 3)
}

/// The number of stickers of a cube of side `n`.
pub open spec fn sticker_count(n: int) -> int {
    6 * n * n
}

/// A place is made of its side, its two lines and its axis, and is made of them in one
/// way only.
pub proof fn lemma_place_of_index(n: int, side: int, a: int, b: int, t: int)
    requires
        0 < n,
        0 <= side <= 1,
        0 <= a < n,
        0 <= b < n,
        0 <= t < 3,
    ensures
        0 <= place_index(n, side, a, b, t) < sticker_count(n),
        place_side(n, place_index(n, side, a, b, t)) == side,
        place_first(n, place_index(n, side, a, b, t)) == a,
        place_second(n, place_index(n, side, a, b, t)) == b,
        place_index(n, side, a, b, t) % 3 == t,
        solved_position(n, place_index(n, side, a, b, t)) == surface_point(n, side, a, b, t),
{
    let line = side * n + a;
    let cell = line * n + b;
    let k = cell * 3 + t;
    assert(0 <= line < 2 * n) by (nonlinear_arith)
        requires
            line == side * n + a,
            0 <= side <= 1,
            0 <= a < n,
    ;
    assert(0 <= cell < 2 * (n * n)) by (nonlinear_arith)
        requires
            cell == line * n + b,
            0 <= line < 2 * n,
            0 <= b < n,
    ;
    assert(6 * n * n == 6 * (n * n)) by (nonlinear_arith);
    assert(k / 3 == cell && k % 3 == t);
    lemma_fundamental_div_mod_converse(cell, n, line, b);
    lemma_fundamental_div_mod_converse(line, n, side, a);
}

/// Every place below the number of stickers has a side, two lines and an axis.
pub proof fn lemma_index_of_place(n: int, k: int)
    requires
        0 < n,
        0 <= k < sticker_count(n),
    ensures
        0 <= place_side(n, k) <= 1,
        0 <= place_first(n, k) < n,
        0 <= place_second(n, k) < n,
        k == place_index(n, place_side(n, k), place_first(n, k), place_second(n, k), k % 3),
{
    let cell = k / 3;
    let line = cell / n;
    let side = line / n;
    assert(6 * n * n == 6 * (n * n)) by (nonlinear_arith);
    assert(0 <= cell < 2 * (n * n));
    lemma_fundamental_div_mod(cell, n);
    lemma_mod_pos_bound(cell, n);
    lemma_div_pos_is_pos(cell, n);
    lemma_fundamental_div_mod(line, n);
    lemma_mod_pos_bound(line, n);
    lemma_div_pos_is_pos(line, n);
    assert(line < 2 * n) by (nonlinear_arith)
        requires
            cell == n * line + cell % n,
            0 <= cell % n,
            cell < 2 * (n * n),
            0 < n,
    ;
    assert(side <= 1) by (nonlinear_arith)
        requires
            line == n * side + line % n,
            0 <= line % n,
            line < 2 * n,
            0 < n,
    ;
    assert(n * line == line * n && n * side == side * n) by (nonlinear_arith);
}

/// The stickers of a solved cube lie on its surface.
pub proof fn lemma_solved_on_surface(n: int, k: int)
    requires
        0 < n,
        0 <= k < sticker_count(n),
    ensures
        on_surface(solved_position(n, k), n),
{
    lemma_index_of_place(n, k);
}

/// No two stickers of a solved cube lie at one position.
pub proof fn lemma_solved_injective(n: int, k1: int, k2: int)
    requires
        0 < n,
        0 <= k1 < sticker_count(n),
        0 <= k2 < sticker_count(n),
        solved_position(n, k1) == solved_position(n, k2),
    ensures
        k1 == k2,
{
    lemma_index_of_place(n, k1);
    lemma_index_of_place(n, k2);
}

/// Every position on the surface holds a sticker of the solved cube.
pub proof fn lemma_solved_covers(n: int, p: IntVec3) -> (k: int)
    requires
        0 < n,
        on_surface(p, n),
    ensures
        0 <= k < sticker_count(n),
        solved_position(n, k) == p,
{
    let t: int = if p.x == n || p.x == -n {
        0
    } else if p.y == n || p.y == -n {
        1
    } else {
        2
    };
    let side: int = if p.along(axis_of(t)) == n {
        1
    } else {
        0
    };
    let (c1, c2) = if t == 0 {
        (p.y, p.z)
    } else if t == 1 {
        (p.x, p.z)
    } else {
        (p.x, p.y)
    };
    let a = grid_index(n, c1);
    let b = grid_index(n, c2);
    lemma_place_of_index(n, side, a, b, t);
    place_index(n, side, a, b, t)
}

/// The axis numbered `t`: 0 for x, 1 for y, anything else for z.
pub open spec fn axis_of(t: int) -> Axis {
    if t == 0 {
        Axis::X
    } else if t == 1 {
        Axis::Y
    } else {
        Axis::Z
    }
}

/// A quarter turn about any axis takes the surface to itself.
pub proof fn lemma_quarter_turn_on_surface(p: IntVec3, n: int, axis: Axis)
    requires
        on_surface(p, n),
    ensures
        on_surface(p.quarter_turn(axis), n),
{
    lemma_on_grid_neg(p.x, n);
    lemma_on_grid_neg(p.y, n);
    lemma_on_grid_neg(p.z, n);
}

/// The grid is the same on both sides of the origin.
pub proof fn lemma_on_grid_neg(c: int, n: int)
    ensures
        on_grid(c, n) ==> on_grid(-c, n),
{
}

/// Any number of quarter turns about any axis takes the surface to itself.
pub proof fn lemma_rotate_on_surface(p: IntVec3, n: int, axis: Axis, turns: int)
    requires
        on_surface(p, n),
    ensures
        on_surface(p.rotate(axis, turns), n),
{
    let q1 = p.quarter_turn(axis);
    let q2 = q1.quarter_turn(axis);
    lemma_quarter_turn_on_surface(p, n, axis);
    lemma_quarter_turn_on_surface(q1, n, axis);
    lemma_quarter_turn_on_surface(q2, n, axis);
}

} // verus!
