//! Reading a cube off as a flat layout, face by face.
//!
//! A face is read by turning the whole cube so that the face comes to the front, and
//! then reading the front row by row from the top, each row from the left. A facelet
//! shows the face on which its sticker lay when the cube was solved.

use crate::facelet_model::{lemma_block_of, ordered_face, Face, FaceletModel, ORDERED_FACES};
use crate::geometry_model::{
    lemma_apply_gmove_wf,
    lemma_moved_sticker_fits,
    lemma_wf_covered,
    lemma_wf_distinct,
    lemma_wf_size,
    lemma_wf_sticker,
    CubeModel,
    GCube,
    GMove,
    Sticker,
    StickerModel,
    MAX_SIZE,
};
use crate::laws::lemma_facelets_are_faces;
use crate::notation::{Move, Movement, Turn};
use crate::surface::{face_of, grid_coordinate, grid_index, on_surface, sticker_count};
use crate::vec3::IntVec3;
use crate::Point3;
use vstd::arithmetic::div_mod::{
    lemma_div_pos_is_pos,
    lemma_fundamental_div_mod,
    lemma_fundamental_div_mod_converse,
    lemma_mod_pos_bound,
};
use vstd::prelude::*;

verus! {

/// The turn of the whole cube that brings `face` to the front, if one is needed.
pub open spec fn front_turn(face: Face) -> Option<Movement> {
    match face {
        Face::U => Some(Movement(Move::X, Turn::Inverse)),
        Face::R => Some(Movement(Move::Y, Turn::Single)),
        Face::L => Some(Movement(Move::Y, Turn::Inverse)),
        Face::B => Some(Movement(Move::Y, Turn::Double)),
        Face::D => Some(Movement(Move::X, Turn::Single)),
        _ => None,
    }
}

/// The position on the front face, in row `row` from the top and column `col` from the
/// left, of a cube of side `n`.
pub open spec fn front_point(n: int, row: int, col: int) -> IntVec3 {
    IntVec3 { x: grid_coordinate(n, col), y: grid_coordinate(n, n - 1 - row), z: n }
}

/// The row, counted from the top, of a position on the front face.
pub open spec fn front_row(n: int, p: IntVec3) -> int {
    n - 1 - grid_index(n, p.y)
}

/// The column, counted from the left, of a position on the front face.
pub open spec fn front_col(n: int, p: IntVec3) -> int {
    grid_index(n, p.x)
}

/// The place within its block of the facelet at a position on the front face.
pub open spec fn front_slot(n: int, p: IntVec3) -> int {
    front_row(n, p) * n + front_col(n, p)
}

impl CubeModel {
    /// The cube turned as a whole so that `face` is at the front.
    pub open spec fn facing(self, face: Face) -> CubeModel {
        match front_turn(face) {
            Some(movement) => self.apply_movement(movement),
            None => self,
        }
    }

    /// The sticker that is at position `p` now. On a well-formed cube there is exactly
    /// one for every position on the surface.
    pub open spec fn sticker_at(self, p: IntVec3) -> StickerModel {
        let i = choose|i: int| 0 <= i < self.stickers.len() && (#[trigger] self.stickers[i]).current == p;
        self.stickers[i]
    }

    /// The facelet in row `row` and column `col` of the face that a layout lists at
    /// place `f`: the face on which the sticker that is there now lay when the cube was
    /// solved.
    pub open spec fn facelet(self, f: int, row: int, col: int) -> Face {
        let there = front_point(self.size, row, col);
        face_of(self.facing(ordered_face(f)).sticker_at(there).initial, self.size)
    }

    /// The layout of the cube.
    pub open spec fn facelets(self) -> Seq<Face> {
        let n = self.size;
        Seq::new(
            sticker_count(n) as nat,
            |k: int| self.facelet(k / (n * n), (k % (n * n)) / n, (k % (n * n)) % n),
        )
    }
}

/// A row and a column of the front face give a position on the surface that lies on the
/// front, and the position gives them back.
pub proof fn lemma_front_point(n: int, row: int, col: int)
    requires
        0 < n,
        0 <= row < n,
        0 <= col < n,
    ensures
        on_surface(front_point(n, row, col), n),
        face_of(front_point(n, row, col), n) == Face::F,
        front_row(n, front_point(n, row, col)) == row,
        front_col(n, front_point(n, row, col)) == col,
{
}

/// A position on the surface that lies on the front has a row and a column, and they
/// give the position back.
pub proof fn lemma_front_slot(n: int, p: IntVec3)
    requires
        0 < n,
        on_surface(p, n),
        face_of(p, n) == Face::F,
    ensures
        0 <= front_row(n, p) < n,
        0 <= front_col(n, p) < n,
        0 <= front_slot(n, p) < n * n,
        front_point(n, front_row(n, p), front_col(n, p)) == p,
{
    let r = front_row(n, p);
    let c = front_col(n, p);
    assert(0 <= r * n + c < n * n) by (nonlinear_arith)
        requires
            0 <= r < n,
            0 <= c < n,
    ;
}

/// The front face is read from the top row down, and each row from the left: of two
/// places in a block, the earlier is higher up, or as high and further left.
pub proof fn lemma_reading_order(n: int, r1: int, r2: int)
    requires
        0 < n,
        0 <= r1 < r2 < n * n,
    ensures
        ({
            let p = front_point(n, r1 / n, r1 % n);
            let q = front_point(n, r2 / n, r2 % n);
            p.y > q.y || (p.y == q.y && p.x < q.x)
        }),
{
    lemma_slot_of(n, r1);
    lemma_slot_of(n, r2);
    if r1 / n > r2 / n {
        assert((r1 / n) * n >= (r2 / n) * n + n) by (nonlinear_arith)
            requires
                r1 / n >= r2 / n + 1,
                n > 0,
        ;
    }
}

/// A place within a block is a row and a column, in one way only.
pub proof fn lemma_slot_of(n: int, r: int)
    requires
        0 < n,
        0 <= r < n * n,
    ensures
        0 <= r / n < n,
        0 <= r % n < n,
        r == (r / n) * n + r % n,
{
    lemma_fundamental_div_mod(r, n);
    lemma_mod_pos_bound(r, n);
    lemma_div_pos_is_pos(r, n);
    let q = r / n;
    assert(q < n) by (nonlinear_arith)
        requires
            r == n * q + r % n,
            0 <= r % n,
            r < n * n,
            0 < n,
    ;
    assert(n * q == q * n) by (nonlinear_arith);
}

/// On a well-formed cube, the sticker at a position is the only one there.
pub proof fn lemma_sticker_at(c: CubeModel, i: int)
    requires
        c.wf(),
        0 <= i < c.stickers.len(),
    ensures
        c.sticker_at(c.stickers[i].current) == c.stickers[i],
{
    let p = c.stickers[i].current;
    let j = choose|j: int| 0 <= j < c.stickers.len() && (#[trigger] c.stickers[j]).current == p;
    if j != i {
        lemma_wf_distinct(c, i, j);
    }
}

/// Turning a well-formed cube to bring a face to the front leaves it well formed.
pub proof fn lemma_facing_wf(c: CubeModel, face: Face)
    requires
        c.wf(),
    ensures
        c.facing(face).wf(),
        c.facing(face).size == c.size,
        c.facing(face).stickers.len() == c.stickers.len(),
{
    match front_turn(face) {
        Some(movement) => {
            lemma_apply_gmove_wf(c, GMove::of(movement));
        },
        None => {},
    }
    lemma_wf_size(c);
    lemma_wf_size(c.facing(face));
}

impl GCube {
    /// The turn of the whole cube that brings `face` to the front, if one is needed.
    pub fn turn_to_front(face: Face) -> (turn: Option<Movement>)
        ensures
            turn == front_turn(face),
    {
        match face {
            Face::U => Some(Movement(Move::X, Turn::Inverse)),
            Face::R => Some(Movement(Move::Y, Turn::Single)),
            Face::L => Some(Movement(Move::Y, Turn::Inverse)),
            Face::B => Some(Movement(Move::Y, Turn::Double)),
            Face::D => Some(Movement(Move::X, Turn::Single)),
            _ => None,
        }
    }

    /// The place within its block of the facelet of a sticker that is at `p`, on the
    /// front of a cube of side `n`.
    pub fn front_place(n: usize, p: Point3) -> (slot: usize)
        requires
            1 <= n <= MAX_SIZE,
            on_surface(p@, n as int),
            face_of(p@, n as int) == Face::F,
        ensures
            slot == front_slot(n as int, p@),
            slot < n * n,
    {
        proof {
            lemma_front_slot(n as int, p@);
        }
        let line: i32 = (p.y as i32 + (n as i32 - 1)) / 2;
        let row: usize = (n as i32 - 1 - line) as usize;
        let col: usize = ((p.x as i32 + (n as i32 - 1)) / 2) as usize;
        assert(row * n + col == front_slot(n as int, p@));
        assert(n * n <= 0x3fff_0001) by (nonlinear_arith)
            requires
                1 <= n <= 0x7fff,
        ;
        assert(0 <= row * n <= row * n + col) by (nonlinear_arith)
            requires
                0 <= row,
                0 <= col,
                0 < n,
        ;
        row * n + col
    }

    /// The layout of the cube: for each face in the order of the layout, the stickers
    /// that are on it now, row by row from the top and each row from the left, each
    /// shown as the face on which it lay when the cube was solved.
    ///
    /// Every sticker that is on the face is written at the place that its position
    /// gives. The stickers of a face then stand as if sorted by falling `y` and, within
    /// one `y`, by rising `x`, as seen with the face at the front.
    pub fn to_facelet_model(&self) -> (model: FaceletModel)
        requires
            self.wf(),
        ensures
            model.0@ == self@.facelets(),
            model.0@.len() == sticker_count(self@.size),
            forall|k: int| 0 <= k < model.0@.len() ==> #[trigger] model.0@[k] != Face::X,
    {
        let n: usize = self.size();
        let stickers = self.stickers();
        let total: usize = stickers.len();
        let ghost per_face = n as int * n as int;
        proof {
            lemma_wf_size(self@);
            assert(sticker_count(n as int) == 6 * per_face && 0 <= per_face <= 6 * per_face)
                by (nonlinear_arith)
                requires
                    per_face == n as int * n as int,
                    sticker_count(n as int) == 6 * n as int * n as int,
            ;
        }
        let count: usize = n * n;
        let mut facelets: Vec<Face> = Vec::new();
        for k in 0..total
            invariant
                facelets@.len() == k,
        {
            facelets.push(Face::X);
        }
        assert(0 * per_face == 0);
        for f in 0..6usize
            invariant
                self.wf(),
                n == self@.size,
                per_face == n as int * n as int,
                count == per_face,
                total == stickers@.len() == 6 * per_face,
                total == self@.stickers.len(),
                forall|i: int| 0 <= i < total ==> (#[trigger] stickers@[i])@ == self@.stickers[i],
                facelets@.len() == total,
                blocks_read(self@, facelets@, f as int),
        {
            let face = ORDERED_FACES[f];
            let turn = Self::turn_to_front(face);
            let ghost turned = self@.facing(ordered_face(f as int));
            proof {
                lemma_facing_wf(self@, ordered_face(f as int));
                assert(0 <= f * per_face && f * per_face + per_face <= 6 * per_face)
                    by (nonlinear_arith)
                    requires
                        0 <= f < 6,
                        per_face >= 0,
                ;
            }
            let base: usize = f * count;
            let ghost start = facelets@;
            for j in 0..total
                invariant
                    self.wf(),
                    turned.wf(),
                    turned == self@.facing(ordered_face(f as int)),
                    turn == front_turn(ordered_face(f as int)),
                    n == self@.size == turned.size,
                    0 <= f < 6,
                    per_face == n as int * n as int,
                    base == f * per_face,
                    base + per_face <= 6 * per_face,
                    total == stickers@.len() == turned.stickers.len() == 6 * per_face,
                    total == self@.stickers.len(),
                    forall|i: int| 0 <= i < total ==> (#[trigger] stickers@[i])@ == self@.stickers[i],
                    facelets@.len() == total,
                    start.len() == total,
                    blocks_read(self@, start, f as int),
                    forall|k: int| 0 <= k < base ==> facelets@[k] == start[k],
                    block_read(turned, facelets@, base as int, j as int),
            {
                let sticker = stickers[j];
                let moved = match turn {
                    Some(movement) => {
                        proof {
                            lemma_moved_sticker_fits(self@, GMove::of(movement), j as int);
                        }
                        Sticker::apply_gmove(sticker, Self::create_gmove(movement))
                    },
                    None => sticker,
                };
                assert(moved@ == turned.stickers[j as int]);
                let ghost earlier = facelets@;
                proof {
                    lemma_wf_size(turned);
                    lemma_wf_sticker(turned, j as int);
                }
                if self.get_face(moved.current) == Face::F {
                    let slot = Self::front_place(n, moved.current);
                    let shown = self.get_face(moved.initial);
                    facelets[base + slot] = shown;
                }
                proof {
                    lemma_block_step(turned, earlier, facelets@, base as int, j as int);
                }
            }
            proof {
                lemma_block_done(self@, facelets@, f as int);
                let side = self@.size;
                assert(per_face == side * side);
                assert((f + 1) * (side * side) == f * (side * side) + side * side)
                    by (nonlinear_arith);
                assert forall|k: int| 0 <= k < (f + 1) * (side * side) implies facelets@[k]
                    == self@.facelets()[k] by {
                    if k < base {
                        assert(facelets@[k] == start[k]);
                    }
                }
            }
        }
        proof {
            assert(facelets@ =~= self@.facelets());
            lemma_facelets_are_faces(self@);
        }
        FaceletModel(facelets)
    }
}

/// Whether `facelets` holds, in the block that starts at `base`, the facelet of each of
/// the first `j` stickers of `turned` that are on the front.
pub open spec fn block_read(turned: CubeModel, facelets: Seq<Face>, base: int, j: int) -> bool {
    forall|i: int|
        0 <= i < j && face_of((#[trigger] turned.stickers[i]).current, turned.size) == Face::F
            ==> facelets[base + front_slot(turned.size, turned.stickers[i].current)] == face_of(
            turned.stickers[i].initial,
            turned.size,
        )
}

/// Whether `facelets` holds the first `f` blocks of the layout of `c`.
pub open spec fn blocks_read(c: CubeModel, facelets: Seq<Face>, f: int) -> bool {
    forall|k: int| 0 <= k < f * (c.size * c.size) ==> facelets[k] == c.facelets()[k]
}

/// Writing the facelet of sticker `j`, if it is on the front, keeps what was written for
/// the stickers before it: no two stickers share a place.
pub proof fn lemma_block_step(
    turned: CubeModel,
    earlier: Seq<Face>,
    later: Seq<Face>,
    base: int,
    j: int,
)
    requires
        turned.wf(),
        0 <= j < turned.stickers.len(),
        0 <= base,
        base + turned.size * turned.size <= earlier.len(),
        block_read(turned, earlier, base, j),
        later == (if face_of(turned.stickers[j].current, turned.size) == Face::F {
            earlier.update(
                base + front_slot(turned.size, turned.stickers[j].current),
                face_of(turned.stickers[j].initial, turned.size),
            )
        } else {
            earlier
        }),
    ensures
        block_read(turned, later, base, j + 1),
        forall|k: int| 0 <= k < base ==> later[k] == earlier[k],
{
    let n = turned.size;
    lemma_wf_size(turned);
    lemma_wf_sticker(turned, j);
    if face_of(turned.stickers[j].current, n) == Face::F {
        lemma_front_slot(n, turned.stickers[j].current);
    }
    assert forall|i: int|
        0 <= i < j + 1 && face_of((#[trigger] turned.stickers[i]).current, n)
            == Face::F implies later[base + front_slot(n, turned.stickers[i].current)] == face_of(
        turned.stickers[i].initial,
        n,
    ) by {
        lemma_wf_sticker(turned, i);
        lemma_front_slot(n, turned.stickers[i].current);
        if i < j && face_of(turned.stickers[j].current, n) == Face::F {
            lemma_wf_distinct(turned, i, j);
            lemma_front_slots_differ(n, turned.stickers[i].current, turned.stickers[j].current);
        }
    }
}

/// Once the facelet of every sticker on the front is written, block `f` of the layout
/// is complete.
pub proof fn lemma_block_done(c: CubeModel, facelets: Seq<Face>, f: int)
    requires
        c.wf(),
        0 <= f < 6,
        facelets.len() == c.stickers.len(),
        block_read(
            c.facing(ordered_face(f)),
            facelets,
            f * (c.size * c.size),
            c.stickers.len() as int,
        ),
    ensures
        forall|k: int|
            f * (c.size * c.size) <= k < f * (c.size * c.size) + c.size * c.size ==> facelets[k]
                == c.facelets()[k],
{
    let n = c.size;
    let per_face = n * n;
    let turned = c.facing(ordered_face(f));
    lemma_wf_size(c);
    lemma_facing_wf(c, ordered_face(f));
    assert(sticker_count(n) == 6 * per_face && per_face > 0) by (nonlinear_arith)
        requires
            per_face == n * n,
            sticker_count(n) == 6 * n * n,
            n >= 1,
    ;
    assert(f * per_face + per_face <= 6 * per_face) by (nonlinear_arith)
        requires
            0 <= f < 6,
            per_face > 0,
    ;
    assert forall|k: int| f * per_face <= k < f * per_face + per_face implies facelets[k]
        == c.facelets()[k] by {
        let r = k - f * per_face;
        lemma_block_of(per_face, f, r);
        lemma_slot_of(n, r);
        let row = r / n;
        let col = r % n;
        let there = front_point(n, row, col);
        lemma_front_point(n, row, col);
        let i = lemma_wf_covered(turned, there);
        lemma_sticker_at(turned, i);
        assert(front_slot(n, there) == r);
        assert(facelets[f * per_face + front_slot(n, turned.stickers[i].current)] == face_of(
            turned.stickers[i].initial,
            n,
        ));
        assert(k == f * per_face + r);
        assert(c.facelets()[k] == c.facelet(f, row, col));
    }
}

/// Two positions on the front face that share their place in the block are one.
pub proof fn lemma_front_slots_differ(n: int, p: IntVec3, q: IntVec3)
    requires
        0 < n,
        on_surface(p, n),
        on_surface(q, n),
        face_of(p, n) == Face::F,
        face_of(q, n) == Face::F,
        p != q,
    ensures
        front_slot(n, p) != front_slot(n, q),
{
    lemma_front_slot(n, p);
    lemma_front_slot(n, q);
    if front_slot(n, p) == front_slot(n, q) {
        lemma_fundamental_div_mod_converse(front_slot(n, p), n, front_row(n, p), front_col(n, p));
        lemma_fundamental_div_mod_converse(front_slot(n, q), n, front_row(n, q), front_col(n, q));
    }
}

} // verus!
