//! The flat layout of a cube: one face value per facelet, face after face.

use std::ops::Index;
use vstd::prelude::*;

verus! {

/// A face of the cube. `X` stands for no face: it is what a point inside the cube lies on.
#[derive(Copy, Clone, Debug, PartialEq, Eq, Structural)]
pub enum Face {
    U,
    L,
    F,
    R,
    B,
    D,
    X,
}

/// The six faces in the order in which a layout lists them.
pub const ORDERED_FACES: [Face; 6] = [Face::U, Face::R, Face::F, Face::D, Face::L, Face::B];

/// The face that a layout lists at place `i`, counted from 0.
pub open spec fn ordered_face(i: int) -> Face {
    if i == 0 {
        Face::U
    } else if i == 1 {
        Face::R
    } else if i == 2 {
        Face::F
    } else if i == 3 {
        Face::D
    } else if i == 4 {
        Face::L
    } else {
        Face::B
    }
}

/// The layout of a solved cube of side `n`: for each face in turn, `n * n` facelets of
/// that face.
pub open spec fn solved_layout(n: int) -> Seq<Face> {
    Seq::new((6 * n * n) as nat, |k: int| ordered_face(k / (n * n)))
}

/// The facelets of a cube of side `n`: six blocks of `n * n`, one for each face in the
/// order of [`ORDERED_FACES`], each block row by row from the top, each row from the left,
/// as seen from outside that face.
#[derive(Clone, Debug, PartialEq, Eq)]
pub struct FaceletModel(pub Vec<Face>);

impl FaceletModel {
    /// The layout of a solved cube of side 3.
    pub fn new() -> (model: FaceletModel)
        ensures
            model.0@ == solved_layout(3),
    {
        Self::solved(3)
    }

    /// The layout of a solved cube of side `size`.
    pub fn solved(size: usize) -> (model: FaceletModel)
        requires
            6 * size * size <= usize::MAX,
        ensures
            model.0@ == solved_layout(size as int),
    {
        let ghost per_face = size as int * size as int;
        assert(per_face <= 6 * size * size) by (nonlinear_arith)
            requires
                per_face == size as int * size as int,
        ;
        let count: usize = size * size;
        let mut facelets: Vec<Face> = Vec::new();
        assert(0 * per_face == 0);
        for f in 0..6usize
            invariant
                count == per_face,
                per_face == size as int * size as int,
                facelets@.len() == f * per_face,
                forall|k: int| 0 <= k < facelets@.len() ==> facelets@[k] == ordered_face(k / per_face),
        {
            let face = ORDERED_FACES[f];
            for r in 0..count
                invariant
                    0 <= f < 6,
                    face == ordered_face(f as int),
                    count == per_face,
                    per_face == size as int * size as int,
                    facelets@.len() == f * per_face + r,
                    forall|k: int|
                        0 <= k < facelets@.len() ==> facelets@[k] == ordered_face(k / per_face),
            {
                proof {
                    lemma_block_of(per_face, f as int, r as int);
                }
                facelets.push(face);
            }
            assert((f + 1) * per_face == f * per_face + per_face) by (nonlinear_arith);
        }
        assert(6 * per_face == 6 * size * size) by (nonlinear_arith)
            requires
                per_face == size as int * size as int,
        ;
        assert(facelets@ =~= solved_layout(size as int));
        FaceletModel(facelets)
    }

    /// Puts `face` at place `index`.
    pub fn set(&mut self, index: usize, face: Face)
        requires
            index < old(self).0@.len(),
        ensures
            final(self).0@ == old(self).0@.update(index as int, face),
    {
        self.0[index] = face;
    }
}

/// In a layout with `per_face` facelets to a face, the place `f * per_face + r` with `r`
/// below `per_face` lies in block `f`, at place `r` of it.
pub proof fn lemma_block_of(per_face: int, f: int, r: int)
    requires
        0 <= f,
        0 <= r < per_face,
    ensures
        (f * per_face + r) / per_face == f,
        (f * per_face + r) % per_face == r,
{
    vstd::arithmetic::div_mod::lemma_fundamental_div_mod_converse(
        f * per_face + r,
        per_face,
        f,
        r,
    );
}

impl Default for FaceletModel {
    fn default() -> (model: FaceletModel)
        ensures
            model.0@ == solved_layout(3),
    {
        Self::new()
    }
}

impl vstd::std_specs::core::IndexSpecImpl<usize> for FaceletModel {
    open spec fn index_req(&self, index: &usize) -> bool {
        *index < self.0@.len()
    }
}

impl Index<usize> for FaceletModel {
    type Output = Face;

    fn index(&self, index: usize) -> (face: &Face)
        ensures
            *face == self.0@[index as int],
    {
        &self.0[index]
    }
}

} // verus!
