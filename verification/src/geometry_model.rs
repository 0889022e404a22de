//! Stickers in space, the geometric moves that turn them, and the cube that owns them.

use crate::facelet_model::{solved_layout, Face};
use crate::laws::{lemma_positions_permuted, lemma_solved_facelets};
use crate::notation::{Move, Movement, Turn};
use crate::surface::{
    face_of,
    grid_coordinate,
    lemma_place_of_index,
    lemma_rotate_on_surface,
    lemma_solved_covers,
    lemma_solved_injective,
    lemma_solved_on_surface,
    on_surface,
    place_index,
    solved_position,
    sticker_count,
    surface_point,
};
use crate::vec3::{lemma_rotate_inverse, lemma_rotate_keeps_axis, Axis, IntVec3, Vec3};
use crate::Point3;
use vstd::prelude::*;

verus! {

/// The largest side of a cube whose face coordinates can be held in an `i16`.
pub const MAX_SIZE: usize = 32767;

/// One sticker of a cube of side `size`: where it was when the cube was solved, and
/// where it is now.
#[derive(Copy, Clone, Debug, PartialEq, Eq, Structural)]
pub struct Sticker {
    pub initial: Point3,
    pub current: Point3,
    pub size: usize,
}

/// The mathematical value of a [`Sticker`].
pub struct StickerModel {
    pub initial: IntVec3,
    pub current: IntVec3,
    pub size: int,
}

impl View for Sticker {
    type V = StickerModel;

    open spec fn view(&self) -> StickerModel {
        StickerModel { initial: self.initial@, current: self.current@, size: self.size as int }
    }
}

/// Which stickers a geometric move takes along, by their coordinate on the axis of the
/// move. `inset` is counted from the face of the cube inwards.
#[derive(Copy, Clone, Debug, PartialEq, Eq, Structural)]
pub enum Selector {
    /// Those at `size - inset` or above.
    Upper { inset: i16 },
    /// Those at `inset - size` or below.
    Lower { inset: i16 },
    /// Those at 0.
    Centre,
    /// All of them.
    Whole,
}

impl Selector {
    /// Whether a sticker at `coord` on the axis of the move, on a cube of side `size`, is
    /// taken along.
    pub open spec fn selects(self, coord: int, size: int) -> bool {
        match self {
            Selector::Upper { inset } => coord >= size - inset,
            Selector::Lower { inset } => coord <= inset - size,
            Selector::Centre => coord == 0,
            Selector::Whole => true,
        }
    }

    /// Whether a sticker at `coord` on the axis of the move, on a cube of side `size`, is
    /// taken along.
    pub fn test(self, coord: i16, size: usize) -> (r: bool)
        ensures
            r == self.selects(coord as int, size as int),
    {
        match self {
            Selector::Upper { inset } => coord as i128 >= size as i128 - inset as i128,
            Selector::Lower { inset } => coord as i128 <= inset as i128 - size as i128,
            Selector::Centre => coord == 0,
            Selector::Whole => true,
        }
    }
}

/// A geometric move: a turn about `axis`, in the direction `is_clockwise` and by the
/// amount of `movement`, of the stickers that `selector` picks.
#[derive(Copy, Clone, Debug, PartialEq, Eq, Structural)]
pub struct GMove {
    pub movement: Movement,
    pub axis: Axis,
    pub is_clockwise: bool,
    pub selector: Selector,
}

impl Move {
    /// The axis about which the move turns.
    pub open spec fn axis(self) -> Axis {
        match self {
            Move::R | Move::Rw | Move::L | Move::Lw | Move::M | Move::X => Axis::X,
            Move::U | Move::Uw | Move::D | Move::Dw | Move::E | Move::Y => Axis::Y,
            Move::F | Move::Fw | Move::B | Move::Bw | Move::S | Move::Z => Axis::Z,
        }
    }

    /// Whether a single turn of the move is clockwise as seen from the positive end of
    /// its axis.
    pub open spec fn is_clockwise(self) -> bool {
        match self {
            Move::L | Move::Lw | Move::D | Move::Dw | Move::B | Move::Bw | Move::E | Move::M => false,
            _ => true,
        }
    }

    /// The stickers that the move takes along.
    pub open spec fn selector(self) -> Selector {
        match self {
            Move::U | Move::R | Move::F => Selector::Upper { inset: 2 },
            Move::Uw | Move::Rw | Move::Fw => Selector::Upper { inset: 4 },
            Move::D | Move::L | Move::B => Selector::Lower { inset: 2 },
            Move::Dw | Move::Lw | Move::Bw => Selector::Lower { inset: 4 },
            Move::E | Move::M | Move::S => Selector::Centre,
            Move::X | Move::Y | Move::Z => Selector::Whole,
        }
    }
}

impl GMove {
    /// The geometric move that carries out `movement`.
    pub open spec fn of(movement: Movement) -> GMove {
        GMove {
            movement,
            axis: movement.0.axis(),
            is_clockwise: movement.0.is_clockwise(),
            selector: movement.0.selector(),
        }
    }

    /// The number of clockwise quarter turns that the move makes; negative for a move
    /// that turns counter-clockwise.
    pub open spec fn turns(self) -> int {
        if self.is_clockwise {
            self.movement.1.quarter_turns() as int
        } else {
            -(self.movement.1.quarter_turns() as int)
        }
    }

    /// Whether the move takes `sticker` along.
    pub open spec fn affects(self, sticker: StickerModel) -> bool {
        self.selector.selects(sticker.current.along(self.axis), sticker.size)
    }

    pub fn new(movement: Movement, axis: Axis, is_clockwise: bool, selector: Selector) -> (g: GMove)
        ensures
            g == (GMove { movement, axis, is_clockwise, selector }),
    {
        GMove { movement, axis, is_clockwise, selector }
    }

    /// Whether the move takes `sticker` along.
    pub fn takes(&self, sticker: Sticker) -> (r: bool)
        ensures
            r == self.affects(sticker@),
    {
        self.selector.test(sticker.current.along(self.axis), sticker.size)
    }
}

impl StickerModel {
    /// The sticker after the move `g`: turned if the move takes it along, else as it was.
    pub open spec fn apply(self, g: GMove) -> StickerModel {
        if g.affects(self) {
            StickerModel { current: self.current.rotate(g.axis, g.turns()), ..self }
        } else {
            self
        }
    }
}

impl Sticker {
    pub fn new(size: usize, initial: Point3, current: Point3) -> (s: Sticker)
        ensures
            s == (Sticker { initial, current, size }),
    {
        Sticker { size, initial, current }
    }

    /// A sticker that is where it was when the cube was solved.
    pub fn from_point(size: usize, point: Point3) -> (s: Sticker)
        ensures
            s == (Sticker { initial: point, current: point, size }),
    {
        Self::new(size, point, point)
    }

    /// The sticker after the move `gmove`: turned if the move takes it along, else as it
    /// was. Where it was when the cube was solved is kept.
    pub fn apply_gmove(sticker: Sticker, gmove: GMove) -> (s: Sticker)
        requires
            sticker@.apply(gmove).current.fits(),
        ensures
            s@ == sticker@.apply(gmove),
    {
        if gmove.takes(sticker) {
            let Movement(_, turn) = gmove.movement;
            let turns = if gmove.is_clockwise {
                turn.quarter_turns()
            } else {
                -turn.quarter_turns()
            };
            Sticker {
                current: Point3::rotate_around_axis(sticker.current, gmove.axis, turns),
                ..sticker
            }
        } else {
            sticker
        }
    }
}

/// A cube with its stickers: six to each square of a face. The fields are kept from
/// other crates, so that a cube is only ever made solved and changed by moves.
#[derive(Clone, Debug, PartialEq, Eq)]
pub struct GCube {
    pub(crate) size: usize,
    pub(crate) stickers: Vec<Sticker>,
}

/// The mathematical value of a [`GCube`].
#[verifier::ext_equal]
pub struct CubeModel {
    pub size: int,
    pub stickers: Seq<StickerModel>,
}

impl View for GCube {
    type V = CubeModel;

    closed spec fn view(&self) -> CubeModel {
        CubeModel {
            size: self.size as int,
            stickers: self.stickers@.map_values(|s: Sticker| s@),
        }
    }
}

impl CubeModel {
    /// The sticker at place `k` of a solved cube of side `n`.
    pub open spec fn solved_sticker(n: int, k: int) -> StickerModel {
        StickerModel { initial: solved_position(n, k), current: solved_position(n, k), size: n }
    }

    /// The solved cube of side `n`.
    pub open spec fn solved(n: int) -> CubeModel {
        CubeModel {
            size: n,
            stickers: Seq::new(sticker_count(n) as nat, |k: int| Self::solved_sticker(n, k)),
        }
    }

    /// Where the stickers are now, in the order of the stickers.
    pub open spec fn positions(self) -> Seq<IntVec3> {
        self.stickers.map_values(|s: StickerModel| s.current)
    }

    /// The cube after the geometric move `g`: every sticker after that move.
    pub open spec fn apply_gmove(self, g: GMove) -> CubeModel {
        CubeModel { size: self.size, stickers: self.stickers.map_values(|s: StickerModel| s.apply(g)) }
    }

    /// The cube after the geometric moves `gs`, made one after the other from the first.
    pub open spec fn apply_gmoves(self, gs: Seq<GMove>) -> CubeModel
        decreases gs.len(),
    {
        if gs.len() == 0 {
            self
        } else {
            self.apply_gmoves(gs.drop_last()).apply_gmove(gs.last())
        }
    }

    /// The cube after `movement`.
    pub open spec fn apply_movement(self, movement: Movement) -> CubeModel {
        self.apply_gmove(GMove::of(movement))
    }

    /// The cube after `movements`, made one after the other from the first.
    pub open spec fn apply_movements(self, movements: Seq<Movement>) -> CubeModel {
        self.apply_gmoves(movements.map_values(|m: Movement| GMove::of(m)))
    }

    /// Whether the cube is one that moves can reach from a solved cube: the stickers are
    /// those of the solved cube of its side, in their order, and they stand one to a
    /// position on the whole surface.
    #[verifier::opaque]
    pub open spec fn wf(self) -> bool {
        &&& 1 <= self.size <= MAX_SIZE
        &&& self.stickers.len() == sticker_count(self.size)
        &&& forall|i: int|
            0 <= i < self.stickers.len() ==> {
                &&& (#[trigger] self.stickers[i]).size == self.size
                &&& self.stickers[i].initial == solved_position(self.size, i)
                &&& on_surface(self.stickers[i].current, self.size)
            }
        &&& forall|i: int, j: int|
            0 <= i < j < self.stickers.len() ==> (#[trigger] self.stickers[i]).current != (
            #[trigger] self.stickers[j]).current
        &&& forall|p: IntVec3| #[trigger]
            on_surface(p, self.size) ==> exists|i: int|
                0 <= i < self.stickers.len() && (#[trigger] self.stickers[i]).current == p
    }
}

/// A solved cube is well formed.
pub proof fn lemma_solved_wf(n: int)
    requires
        1 <= n <= MAX_SIZE,
    ensures
        CubeModel::solved(n).wf(),
{
    reveal(CubeModel::wf);
    let c = CubeModel::solved(n);
    assert(sticker_count(n) >= 0) by (nonlinear_arith)
        requires
            sticker_count(n) == 6 * n * n,
    ;
    assert forall|i: int| 0 <= i < c.stickers.len() implies on_surface(
        (#[trigger] c.stickers[i]).current,
        n,
    ) by {
        lemma_solved_on_surface(n, i);
    }
    assert forall|i: int, j: int| 0 <= i < j < c.stickers.len() implies (#[trigger] c.stickers[i]).current
        != (#[trigger] c.stickers[j]).current by {
        if c.stickers[i].current == c.stickers[j].current {
            lemma_solved_injective(n, i, j);
        }
    }
    assert forall|p: IntVec3| #[trigger] on_surface(p, n) implies exists|i: int|
        0 <= i < c.stickers.len() && (#[trigger] c.stickers[i]).current == p by {
        let k = lemma_solved_covers(n, p);
        assert(c.stickers[k].current == p);
    }
}

/// A well-formed cube has a side of at least 1 and six stickers to each square of a face.
pub proof fn lemma_wf_size(c: CubeModel)
    requires
        c.wf(),
    ensures
        1 <= c.size <= MAX_SIZE,
        c.stickers.len() == sticker_count(c.size),
{
    reveal(CubeModel::wf);
}

/// On a well-formed cube, the sticker at place `i` is the one that the solved cube has
/// there, and it is on the surface.
pub proof fn lemma_wf_sticker(c: CubeModel, i: int)
    requires
        c.wf(),
        0 <= i < c.stickers.len(),
    ensures
        c.stickers[i].size == c.size,
        c.stickers[i].initial == solved_position(c.size, i),
        on_surface(c.stickers[i].initial, c.size),
        on_surface(c.stickers[i].current, c.size),
{
    reveal(CubeModel::wf);
    lemma_solved_on_surface(c.size, i);
}

/// On a well-formed cube, no two stickers are at one position.
pub proof fn lemma_wf_distinct(c: CubeModel, i: int, j: int)
    requires
        c.wf(),
        0 <= i < c.stickers.len(),
        0 <= j < c.stickers.len(),
        i != j,
    ensures
        c.stickers[i].current != c.stickers[j].current,
{
    reveal(CubeModel::wf);
    if i < j {
        assert(c.stickers[i].current != c.stickers[j].current);
    } else {
        assert(c.stickers[j].current != c.stickers[i].current);
    }
}

/// On a well-formed cube, every position on the surface holds a sticker.
pub proof fn lemma_wf_covered(c: CubeModel, p: IntVec3) -> (i: int)
    requires
        c.wf(),
        on_surface(p, c.size),
    ensures
        0 <= i < c.stickers.len(),
        c.stickers[i].current == p,
{
    reveal(CubeModel::wf);
    choose|i: int| 0 <= i < c.stickers.len() && (#[trigger] c.stickers[i]).current == p
}

/// On a well-formed cube, no move takes a sticker off the surface or out of the range of
/// its coordinates.
pub proof fn lemma_moved_sticker_fits(c: CubeModel, g: GMove, i: int)
    requires
        c.wf(),
        0 <= i < c.stickers.len(),
    ensures
        on_surface(c.stickers[i].apply(g).current, c.size),
        c.stickers[i].apply(g).current.fits(),
{
    lemma_wf_size(c);
    lemma_wf_sticker(c, i);
    lemma_rotate_on_surface(c.stickers[i].current, c.size, g.axis, g.turns());
}

/// A geometric move takes a well-formed cube to a well-formed cube: it only permutes the
/// positions of the stickers.
pub proof fn lemma_apply_gmove_wf(c: CubeModel, g: GMove)
    requires
        c.wf(),
    ensures
        c.apply_gmove(g).wf(),
{
    reveal(CubeModel::wf);
    let d = c.apply_gmove(g);
    let n = c.size;
    assert forall|i: int| 0 <= i < d.stickers.len() implies {
        &&& (#[trigger] d.stickers[i]).size == n
        &&& d.stickers[i].initial == solved_position(n, i)
        &&& on_surface(d.stickers[i].current, n)
    } by {
        lemma_moved_sticker_fits(c, g, i);
    }
    assert forall|i: int, j: int| 0 <= i < j < d.stickers.len() implies (#[trigger] d.stickers[i]).current
        != (#[trigger] d.stickers[j]).current by {
        let si = c.stickers[i];
        let sj = c.stickers[j];
        assert(si.current != sj.current);
        lemma_rotate_keeps_axis(si.current, g.axis, g.turns());
        lemma_rotate_keeps_axis(sj.current, g.axis, g.turns());
        lemma_rotate_inverse(si.current, g.axis, g.turns());
        lemma_rotate_inverse(sj.current, g.axis, g.turns());
    }
    assert forall|p: IntVec3| #[trigger] on_surface(p, n) implies exists|i: int|
        0 <= i < d.stickers.len() && (#[trigger] d.stickers[i]).current == p by {
        let q = if g.selector.selects(p.along(g.axis), n) {
            p.rotate(g.axis, -g.turns())
        } else {
            p
        };
        lemma_rotate_on_surface(p, n, g.axis, -g.turns());
        assert(on_surface(q, n));
        let i = choose|i: int| 0 <= i < c.stickers.len() && (#[trigger] c.stickers[i]).current == q;
        lemma_rotate_keeps_axis(p, g.axis, -g.turns());
        lemma_rotate_inverse(p, g.axis, g.turns());
        assert(d.stickers[i].current == p);
    }
}

/// Any number of geometric moves take a well-formed cube to a well-formed cube.
pub proof fn lemma_apply_gmoves_wf(c: CubeModel, gs: Seq<GMove>)
    requires
        c.wf(),
    ensures
        c.apply_gmoves(gs).wf(),
        c.apply_gmoves(gs).size == c.size,
    decreases gs.len(),
{
    if gs.len() > 0 {
        lemma_apply_gmoves_wf(c, gs.drop_last());
        lemma_apply_gmove_wf(c.apply_gmoves(gs.drop_last()), gs.last());
    }
}

impl GCube {
    /// Whether the cube is one that moves can reach from a solved cube.
    pub open spec fn wf(&self) -> bool {
        self@.wf()
    }

    /// The side of the cube.
    pub fn size(&self) -> (n: usize)
        ensures
            n == self@.size,
    {
        self.size
    }

    /// The stickers of the cube, in the order in which a solved cube lays them down.
    pub fn stickers(&self) -> (stickers: &Vec<Sticker>)
        ensures
            stickers@.len() == self@.stickers.len(),
            forall|i: int| 0 <= i < stickers@.len() ==> (#[trigger] stickers@[i])@ == self@.stickers[i],
    {
        &self.stickers
    }

    /// The coordinates at which sticker centres lie along an axis of a cube of side
    /// `size`, from the lowest up.
    pub fn range(size: usize) -> (r: Vec<i16>)
        requires
            size <= MAX_SIZE,
        ensures
            r@.len() == size,
            forall|i: int| 0 <= i < size ==> #[trigger] r@[i] == grid_coordinate(size as int, i),
    {
        let n: i16 = size as i16;
        let mut r: Vec<i16> = Vec::new();
        let mut c: i16 = -n + 1;
        while c <= n - 1
            invariant_except_break
                c == grid_coordinate(size as int, r@.len() as int),
            invariant
                n == size,
                size <= MAX_SIZE,
                r@.len() <= size,
                forall|i: int| 0 <= i < r@.len() ==> r@[i] == grid_coordinate(size as int, i),
            ensures
                r@.len() == size,
            decreases n - c,
        {
            r.push(c);
            // stop at the last line: a step beyond the widest cube would overflow
            if c >= n - 2 {
                break ;
            }
            c += 2;
        }
        r
    }

    /// A solved cube of side `size`, or of side 1 where `size` is 0.
    pub fn new(size: usize) -> (cube: GCube)
        requires
            size <= MAX_SIZE,
        ensures
            cube@ == CubeModel::solved(if size == 0 { 1 } else { size as int }),
            cube@.facelets() == solved_layout(cube@.size),
            cube.wf(),
    {
        let size: usize = if size == 0 {
            1
        } else {
            size
        };
        let ghost m = size as int;
        let mut stickers: Vec<Sticker> = Vec::new();
        // each sticker is on a face
        let n: i16 = size as i16;
        let faces: [i16; 2] = [-n, n];
        let range = Self::range(size);
        assert(place_index(m, 0, 0, 0, 0) == 0) by (nonlinear_arith);
        for side in 0..2usize
            invariant
                m == size,
                n == size,
                1 <= size <= MAX_SIZE,
                faces[0] == -n,
                faces[1] == n,
                range@.len() == size,
                forall|i: int| 0 <= i < size ==> range@[i] == grid_coordinate(m, i),
                stickers@.len() == place_index(m, side as int, 0, 0, 0),
                forall|k: int|
                    0 <= k < stickers@.len() ==> (#[trigger] stickers@[k])@
                        == CubeModel::solved_sticker(m, k),
        {
            let face = faces[side];
            // and the other two coordinates say where on that face it is
            for a in 0..size
                invariant
                    m == size,
                    0 <= side < 2,
                    face == (if side == 0 { -m } else { m }),
                    1 <= size <= MAX_SIZE,
                    range@.len() == size,
                    forall|i: int| 0 <= i < size ==> range@[i] == grid_coordinate(m, i),
                    stickers@.len() == place_index(m, side as int, a as int, 0, 0),
                    forall|k: int|
                        0 <= k < stickers@.len() ==> (#[trigger] stickers@[k])@
                            == CubeModel::solved_sticker(m, k),
            {
                let coord1 = range[a];
                for b in 0..size
                    invariant
                        m == size,
                        0 <= side < 2,
                        0 <= a < size,
                        face == (if side == 0 { -m } else { m }),
                        coord1 == grid_coordinate(m, a as int),
                        1 <= size <= MAX_SIZE,
                        range@.len() == size,
                        forall|i: int| 0 <= i < size ==> range@[i] == grid_coordinate(m, i),
                        stickers@.len() == place_index(m, side as int, a as int, b as int, 0),
                        forall|k: int|
                            0 <= k < stickers@.len() ==> (#[trigger] stickers@[k])@
                                == CubeModel::solved_sticker(m, k),
                {
                    let coord2 = range[b];
                    proof {
                        lemma_place_of_index(m, side as int, a as int, b as int, 0);
                        lemma_place_of_index(m, side as int, a as int, b as int, 1);
                        lemma_place_of_index(m, side as int, a as int, b as int, 2);
                        assert(place_index(m, side as int, a as int, b as int + 1, 0)
                            == place_index(m, side as int, a as int, b as int, 0) + 3)
                            by (nonlinear_arith);
                    }
                    stickers.push(Sticker::from_point(size, Point3::new(face, coord1, coord2)));
                    stickers.push(Sticker::from_point(size, Point3::new(coord1, face, coord2)));
                    stickers.push(Sticker::from_point(size, Point3::new(coord1, coord2, face)));
                }
                assert(place_index(m, side as int, a as int, m, 0) == place_index(
                    m,
                    side as int,
                    a as int + 1,
                    0,
                    0,
                )) by (nonlinear_arith);
            }
            assert(place_index(m, side as int, m, 0, 0) == place_index(m, side as int + 1, 0, 0, 0))
                by (nonlinear_arith);
        }
        assert(place_index(m, 2, 0, 0, 0) == sticker_count(m)) by (nonlinear_arith);
        let cube = GCube { size, stickers };
        proof {
            assert(cube@.stickers =~= CubeModel::solved(m).stickers);
            lemma_solved_wf(m);
            lemma_solved_facelets(m);
        }
        cube
    }

    /// Makes the cube a solved cube of side `size`, unless `size` is 0 or the side that
    /// the cube has already: then the cube stays as it is.
    pub fn change_size(&mut self, size: usize)
        requires
            size <= MAX_SIZE,
        ensures
            size != old(self)@.size && size > 0 ==> final(self)@ == CubeModel::solved(size as int),
            size != old(self)@.size && size > 0 ==> final(self)@.facelets() == solved_layout(
                size as int,
            ),
            size == old(self)@.size || size == 0 ==> *final(self) == *old(self),
            old(self).wf() ==> final(self).wf(),
    {
        if size != self.size && size > 0 {
            *self = Self::new(size);
        }
    }

    /// Makes the cube a solved cube one larger.
    pub fn grow(&mut self)
        requires
            old(self)@.size < MAX_SIZE,
        ensures
            final(self)@ == CubeModel::solved(old(self)@.size + 1),
            final(self)@.facelets() == solved_layout(old(self)@.size + 1),
            final(self).wf(),
    {
        self.change_size(self.size + 1);
        proof {
            lemma_solved_wf(self.size as int);
        }
    }

    /// Makes the cube a solved cube one smaller, and a cube of side 1 a solved cube of
    /// side 1: the side never falls below 1, and the moves made so far are forgotten
    /// either way.
    pub fn shrink(&mut self)
        requires
            old(self)@.size - 1 <= MAX_SIZE,
        ensures
            final(self)@ == CubeModel::solved(
                if old(self)@.size > 1 {
                    old(self)@.size - 1
                } else {
                    1
                },
            ),
            final(self)@.facelets() == solved_layout(final(self)@.size),
            final(self).wf(),
    {
        if self.size > 1 {
            self.change_size(self.size - 1);
            proof {
                lemma_solved_wf(self.size as int);
            }
        } else {
            *self = Self::new(1);
        }
    }

    /// The geometric move that carries out `movement`.
    pub fn create_gmove(movement: Movement) -> (g: GMove)
        ensures
            g == GMove::of(movement),
    {
        let Movement(m, _) = movement;
        match m {
            // outer layers and their wide variants
            Move::U => GMove::new(movement, Axis::Y, true, Selector::Upper { inset: 2 }),
            Move::Uw => GMove::new(movement, Axis::Y, true, Selector::Upper { inset: 2 * 2 }),
            Move::L => GMove::new(movement, Axis::X, false, Selector::Lower { inset: 2 }),
            Move::Lw => GMove::new(movement, Axis::X, false, Selector::Lower { inset: 2 * 2 }),
            Move::F => GMove::new(movement, Axis::Z, true, Selector::Upper { inset: 2 }),
            Move::Fw => GMove::new(movement, Axis::Z, true, Selector::Upper { inset: 2 * 2 }),
            Move::R => GMove::new(movement, Axis::X, true, Selector::Upper { inset: 2 }),
            Move::Rw => GMove::new(movement, Axis::X, true, Selector::Upper { inset: 2 * 2 }),
            Move::B => GMove::new(movement, Axis::Z, false, Selector::Lower { inset: 2 }),
            Move::Bw => GMove::new(movement, Axis::Z, false, Selector::Lower { inset: 2 * 2 }),
            Move::D => GMove::new(movement, Axis::Y, false, Selector::Lower { inset: 2 }),
            Move::Dw => GMove::new(movement, Axis::Y, false, Selector::Lower { inset: 2 * 2 }),
            // middle slices
            Move::E => GMove::new(movement, Axis::Y, false, Selector::Centre),
            Move::M => GMove::new(movement, Axis::X, false, Selector::Centre),
            Move::S => GMove::new(movement, Axis::Z, true, Selector::Centre),
            // rotations of the whole cube
            Move::X => GMove::new(movement, Axis::X, true, Selector::Whole),
            Move::Y => GMove::new(movement, Axis::Y, true, Selector::Whole),
            Move::Z => GMove::new(movement, Axis::Z, true, Selector::Whole),
        }
    }

    /// The geometric moves that carry out `movements`, in their order.
    pub fn create_gmoves(movements: &[Movement]) -> (gmoves: Vec<GMove>)
        ensures
            gmoves@ == movements@.map_values(|m: Movement| GMove::of(m)),
    {
        let mut gmoves: Vec<GMove> = Vec::new();
        for i in 0..movements.len()
            invariant
                gmoves@ == movements@.take(i as int).map_values(|m: Movement| GMove::of(m)),
        {
            gmoves.push(Self::create_gmove(movements[i]));
            assert(movements@.take(i + 1).map_values(|m: Movement| GMove::of(m))
                =~= movements@.take(i as int).map_values(|m: Movement| GMove::of(m)).push(
                GMove::of(movements@[i as int]),
            ));
        }
        assert(movements@.take(movements@.len() as int) =~= movements@);
        gmoves
    }

    /// Makes the geometric move `gmove` on every sticker.
    pub fn apply_gmove(&mut self, gmove: GMove)
        requires
            old(self).wf(),
        ensures
            final(self)@ == old(self)@.apply_gmove(gmove),
            final(self).wf(),
            final(self)@.positions().to_multiset() == old(self)@.positions().to_multiset(),
    {
        let ghost before = self@;
        let count = self.stickers.len();
        for i in 0..count
            invariant
                before.wf(),
                self.size == before.size,
                count == self.stickers@.len() == before.stickers.len(),
                forall|j: int| 0 <= j < i ==> (#[trigger] self.stickers@[j])@ == before.stickers[j].apply(gmove),
                forall|j: int| i <= j < count ==> (#[trigger] self.stickers@[j])@ == before.stickers[j],
        {
            proof {
                lemma_moved_sticker_fits(before, gmove, i as int);
            }
            let sticker = self.stickers[i];
            self.stickers[i] = Sticker::apply_gmove(sticker, gmove);
        }
        proof {
            assert(self@.stickers =~= before.apply_gmove(gmove).stickers);
            lemma_apply_gmove_wf(before, gmove);
            lemma_positions_permuted(before);
            lemma_positions_permuted(self@);
        }
    }

    /// Makes the geometric moves `gmoves`, one after the other from the first.
    pub fn apply_gmoves(&mut self, gmoves: &[GMove])
        requires
            old(self).wf(),
        ensures
            final(self)@ == old(self)@.apply_gmoves(gmoves@),
            final(self).wf(),
            final(self)@.positions().to_multiset() == old(self)@.positions().to_multiset(),
    {
        let ghost before = self@;
        for i in 0..gmoves.len()
            invariant
                self.wf(),
                self@ == before.apply_gmoves(gmoves@.take(i as int)),
                self@.positions().to_multiset() == before.positions().to_multiset(),
        {
            self.apply_gmove(gmoves[i]);
            assert(gmoves@.take(i + 1).drop_last() =~= gmoves@.take(i as int));
        }
        assert(gmoves@.take(gmoves@.len() as int) =~= gmoves@);
    }

    /// Makes `movement`.
    pub fn apply_movement(&mut self, movement: &Movement)
        requires
            old(self).wf(),
        ensures
            final(self)@ == old(self)@.apply_movement(*movement),
            final(self).wf(),
            final(self)@.positions().to_multiset() == old(self)@.positions().to_multiset(),
    {
        self.apply_gmove(Self::create_gmove(*movement));
    }

    /// Makes `movements`, one after the other from the first.
    pub fn apply_movements(&mut self, movements: &[Movement])
        requires
            old(self).wf(),
        ensures
            final(self)@ == old(self)@.apply_movements(movements@),
            final(self).wf(),
            final(self)@.positions().to_multiset() == old(self)@.positions().to_multiset(),
    {
        let gmoves = Self::create_gmoves(movements);
        self.apply_gmoves(gmoves.as_slice());
    }

    /// The face of this cube that `pos` lies on, or `Face::X` for a point that lies on
    /// none.
    pub fn get_face(&self, pos: Point3) -> (face: Face)
        ensures
            face == face_of(pos@, self@.size),
    {
        let n: i128 = self.size as i128;
        if pos.x as i128 == n {
            Face::R
        } else if pos.x as i128 == -n {
            Face::L
        } else if pos.y as i128 == n {
            Face::U
        } else if pos.y as i128 == -n {
            Face::D
        } else if pos.z as i128 == n {
            Face::F
        } else if pos.z as i128 == -n {
            Face::B
        } else {
            Face::X
        }
    }

    /// The face that `sticker` is on now.
    pub fn get_curr_face(&self, sticker: Sticker) -> (face: Face)
        ensures
            face == face_of(sticker@.current, self@.size),
    {
        self.get_face(sticker.current)
    }

    /// The face that `sticker` was on when the cube was solved.
    pub fn get_initial_face(&self, sticker: Sticker) -> (face: Face)
        ensures
            face == face_of(sticker@.initial, self@.size),
    {
        self.get_face(sticker.initial)
    }
}

} // verus!
