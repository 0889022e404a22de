//! What holds of moves on every cube.

use crate::facelet_model::{lemma_block_of, ordered_face, solved_layout, Face};
use crate::geometry_model::{
    lemma_apply_gmoves_wf,
    lemma_solved_wf,
    lemma_wf_covered,
    lemma_wf_distinct,
    lemma_wf_size,
    lemma_wf_sticker,
    CubeModel,
    GMove,
    StickerModel,
    MAX_SIZE,
};
use crate::notation::{Move, Movement, Turn};
use crate::projection::{
    front_point,
    front_turn,
    lemma_facing_wf,
    lemma_front_point,
    lemma_slot_of,
    lemma_sticker_at,
};
use crate::surface::{face_of, on_surface, sticker_count};
use crate::vec3::{lemma_rotate_compose, lemma_rotate_keeps_axis, IntVec3};
use vstd::prelude::*;

verus! {

/// Two moves about one axis that take the same stickers along, and whose quarter turns
/// add up to full turns, leave a sticker where it was.
pub proof fn lemma_sticker_turns_cancel(s: StickerModel, g1: GMove, g2: GMove)
    requires
        g1.axis == g2.axis,
        g1.selector == g2.selector,
        (g1.turns() + g2.turns()) % 4 == 0,
    ensures
        s.apply(g1).apply(g2) == s,
{
    lemma_rotate_keeps_axis(s.current, g1.axis, g1.turns());
    lemma_rotate_compose(s.current, g1.axis, g1.turns(), g2.turns());
}

/// Two moves about one axis that take the same stickers along, and whose quarter turns
/// add up to full turns, leave every cube as it was.
pub proof fn lemma_turns_cancel(c: CubeModel, g1: GMove, g2: GMove)
    requires
        g1.axis == g2.axis,
        g1.selector == g2.selector,
        (g1.turns() + g2.turns()) % 4 == 0,
    ensures
        c.apply_gmove(g1).apply_gmove(g2) == c,
{
    let d = c.apply_gmove(g1).apply_gmove(g2);
    assert forall|i: int| 0 <= i < c.stickers.len() implies d.stickers[i] == c.stickers[i] by {
        lemma_sticker_turns_cancel(c.stickers[i], g1, g2);
    }
    assert(d =~= c);
}

/// Two moves about one axis that take the same stickers along are together one move by
/// the sum of their quarter turns.
pub proof fn lemma_turns_add(c: CubeModel, g1: GMove, g2: GMove, g: GMove)
    requires
        g1.axis == g2.axis,
        g2.axis == g.axis,
        g1.selector == g2.selector,
        g2.selector == g.selector,
        (g1.turns() + g2.turns()) % 4 == g.turns() % 4,
    ensures
        c.apply_gmove(g1).apply_gmove(g2) == c.apply_gmove(g),
{
    let d = c.apply_gmove(g1).apply_gmove(g2);
    let e = c.apply_gmove(g);
    assert forall|i: int| 0 <= i < c.stickers.len() implies d.stickers[i] == e.stickers[i] by {
        let s = c.stickers[i];
        lemma_rotate_keeps_axis(s.current, g1.axis, g1.turns());
        lemma_rotate_compose(s.current, g1.axis, g1.turns(), g2.turns());
    }
    assert(d =~= e);
}

/// A single turn of any move, followed by its inverse, leaves every cube as it was; so
/// does the inverse followed by the single turn.
pub proof fn lemma_single_then_inverse(c: CubeModel, m: Move)
    ensures
        c.apply_movement(Movement(m, Turn::Single)).apply_movement(Movement(m, Turn::Inverse)) == c,
        c.apply_movement(Movement(m, Turn::Inverse)).apply_movement(Movement(m, Turn::Single)) == c,
{
    let single = GMove::of(Movement(m, Turn::Single));
    let inverse = GMove::of(Movement(m, Turn::Inverse));
    lemma_turns_cancel(c, single, inverse);
    lemma_turns_cancel(c, inverse, single);
}

/// A double turn of any move, made twice, leaves every cube as it was.
pub proof fn lemma_double_twice(c: CubeModel, m: Move)
    ensures
        c.apply_movement(Movement(m, Turn::Double)).apply_movement(Movement(m, Turn::Double)) == c,
{
    let double = GMove::of(Movement(m, Turn::Double));
    lemma_turns_cancel(c, double, double);
}

/// A single turn of any move, made four times, leaves every cube as it was.
pub proof fn lemma_single_four_times(c: CubeModel, m: Move)
    ensures
        c.apply_movement(Movement(m, Turn::Single)).apply_movement(
            Movement(m, Turn::Single),
        ).apply_movement(Movement(m, Turn::Single)).apply_movement(Movement(m, Turn::Single)) == c,
{
    let single = GMove::of(Movement(m, Turn::Single));
    let double = GMove::of(Movement(m, Turn::Double));
    lemma_turns_add(c, single, single, double);
    lemma_turns_add(c.apply_gmove(double), single, single, double);
    lemma_turns_cancel(c, double, double);
}

/// The stickers of a well-formed cube stand at the positions at which those of the solved
/// cube of its side stand, each position taken as often: no position is gained or lost.
pub proof fn lemma_positions_permuted(c: CubeModel)
    requires
        c.wf(),
    ensures
        c.positions().to_multiset() == CubeModel::solved(c.size).positions().to_multiset(),
{
    lemma_wf_size(c);
    let solved = CubeModel::solved(c.size);
    lemma_solved_wf(c.size);
    lemma_positions_counted(c);
    lemma_positions_counted(solved);
    assert(c.positions().to_multiset() =~= solved.positions().to_multiset());
}

/// Among the positions of the stickers of a well-formed cube, every position on the
/// surface occurs once and no other position occurs.
pub proof fn lemma_positions_counted(c: CubeModel)
    requires
        c.wf(),
    ensures
        forall|p: IntVec3|
            #[trigger] c.positions().to_multiset().count(p) == (if on_surface(p, c.size) {
                1nat
            } else {
                0nat
            }),
{
    broadcast use vstd::seq_lib::group_to_multiset_ensures;

    let ps = c.positions();
    assert forall|i: int, j: int| 0 <= i < ps.len() && 0 <= j < ps.len() && i != j implies ps[i]
        != ps[j] by {
        lemma_wf_distinct(c, i, j);
    }
    assert(ps.no_duplicates());
    ps.lemma_multiset_has_no_duplicates();
    assert forall|p: IntVec3|
        #[trigger] ps.to_multiset().count(p) == (if on_surface(p, c.size) {
            1nat
        } else {
            0nat
        }) by {
        if on_surface(p, c.size) {
            let i = lemma_wf_covered(c, p);
            assert(ps[i] == p);
            assert(ps.contains(p));
        } else {
            if ps.contains(p) {
                let i = choose|i: int| 0 <= i < ps.len() && ps[i] == p;
                lemma_wf_sticker(c, i);
            }
        }
    }
}

/// After any sequence of movements from a solved cube, the stickers stand at the
/// positions at which those of the solved cube stand, each position taken as often.
pub proof fn lemma_movements_permute_positions(n: int, movements: Seq<Movement>)
    requires
        1 <= n <= MAX_SIZE,
    ensures
        CubeModel::solved(n).apply_movements(movements).wf(),
        CubeModel::solved(n).apply_movements(movements).positions().to_multiset()
            == CubeModel::solved(n).positions().to_multiset(),
{
    lemma_solved_wf(n);
    lemma_apply_gmoves_wf(CubeModel::solved(n), movements.map_values(|m: Movement| GMove::of(m)));
    lemma_positions_permuted(CubeModel::solved(n).apply_movements(movements));
}

/// The layout of a well-formed cube has a facelet for every sticker, and none of them
/// shows the inside of the cube.
pub proof fn lemma_facelets_are_faces(c: CubeModel)
    requires
        c.wf(),
    ensures
        c.facelets().len() == sticker_count(c.size),
        forall|k: int| 0 <= k < c.facelets().len() ==> #[trigger] c.facelets()[k] != Face::X,
{
    lemma_wf_size(c);
    let n = c.size;
    let per_face = n * n;
    assert(sticker_count(n) == 6 * per_face && per_face > 0) by (nonlinear_arith)
        requires
            per_face == n * n,
            sticker_count(n) == 6 * n * n,
            n >= 1,
    ;
    assert forall|k: int| 0 <= k < c.facelets().len() implies #[trigger] c.facelets()[k]
        != Face::X by {
        let f = k / per_face;
        let r = k % per_face;
        vstd::arithmetic::div_mod::lemma_fundamental_div_mod(k, per_face);
        vstd::arithmetic::div_mod::lemma_mod_pos_bound(k, per_face);
        lemma_slot_of(n, r);
        let there = front_point(n, r / n, r % n);
        lemma_front_point(n, r / n, r % n);
        let turned = c.facing(ordered_face(f));
        lemma_facing_wf(c, ordered_face(f));
        let i = lemma_wf_covered(turned, there);
        lemma_sticker_at(turned, i);
        lemma_wf_sticker(turned, i);
    }
}

/// The layout of a solved cube is the solved layout of its side.
pub proof fn lemma_solved_facelets(n: int)
    requires
        1 <= n <= MAX_SIZE,
    ensures
        CubeModel::solved(n).facelets() == solved_layout(n),
{
    let c = CubeModel::solved(n);
    lemma_solved_wf(n);
    let per_face = n * n;
    assert(sticker_count(n) == 6 * per_face && per_face > 0) by (nonlinear_arith)
        requires
            per_face == n * n,
            sticker_count(n) == 6 * n * n,
            n >= 1,
    ;
    assert forall|k: int| 0 <= k < sticker_count(n) implies c.facelets()[k] == solved_layout(n)[k] by {
        let f = k / per_face;
        let r = k % per_face;
        vstd::arithmetic::div_mod::lemma_fundamental_div_mod(k, per_face);
        vstd::arithmetic::div_mod::lemma_mod_pos_bound(k, per_face);
        assert(0 <= f < 6) by (nonlinear_arith)
            requires
                k == per_face * f + r,
                0 <= r < per_face,
                0 <= k < 6 * per_face,
        ;
        lemma_slot_of(n, r);
        let there = front_point(n, r / n, r % n);
        lemma_front_point(n, r / n, r % n);
        let face = ordered_face(f);
        let turned = c.facing(face);
        lemma_facing_wf(c, face);
        let i = lemma_wf_covered(turned, there);
        lemma_sticker_at(turned, i);
        lemma_wf_sticker(c, i);
        let s = c.stickers[i];
        assert(s.initial == s.current);
        match front_turn(face) {
            Some(movement) => {
                let g = GMove::of(movement);
                assert(turned.stickers[i] == s.apply(g));
                assert(face_of(s.initial, n) == face);
            },
            None => {
                assert(turned.stickers[i] == s);
            },
        }
    }
    assert(c.facelets() =~= solved_layout(n));
}

} // verus!
