use cubedesu::geometry_model::MAX_SIZE;
use cubedesu::{
    scramble_to_movements, Axis, Face, FaceletModel, GCube, GMove, Move, Movement, Point3, Selector,
    Sticker, Turn,
};

#[test]
fn gcube_test_with_my_epic_roux_solutions() {
    let mut gcube = GCube::new(3);
    let scramble = "
    L2 U L' F2 R F2 D2 B U B R2 D2 B2 R2 F' D2 B' U2 B2 L2
    
    x
    U' F' R D r' D U2 F2
    r2 U' F' U' F R'
    U R U2 R2 F R F' R U2 R'
    U M U2 M U' F2 M2 F2

    x2
    ";
    gcube.apply_movements(&scramble_to_movements(scramble).unwrap());
    assert_eq!(gcube, GCube::new(3));

    let mut gcube = GCube::new(3); // 9.46
    let scramble = "
    F2 R' U' B2 L2 D' L2 F2 U B2 U' L2 R2 D2 F' L2 R D' L2 D U
    
    y' x
    D' r' D U2 F2 U' F
    r' U' M' R' U' R
    U r U' r2 D' r U r' D r2 U r'
    U2 M U M' U2 M U' M U' M2 U' M' U2 M U2 M2

    y z2
    ";
    gcube.apply_movements(&scramble_to_movements(scramble).unwrap());
    assert_eq!(gcube, GCube::new(3));

    let mut gcube = GCube::new(3);
    let scramble = "
    R L' U B2 R D2 B' D2 B2 R2 L2 U' L2 U F2 R2 D2 R2 D' L

    y2
    D B' M B'
    r U' R F' U' F
    r2 U M2 U' R
    U' r U' r2 D' r U' r' D r2 U r'
    M' U2 M' U M' U' M2 U M2 U2 M U2 M2

    y2
    ";
    gcube.apply_movements(&scramble_to_movements(scramble).unwrap());
    assert_eq!(gcube, GCube::new(3));

    let mut gcube = GCube::new(3);
    let scramble = "
    R L' U B2 R D2 B' D2 B2 R2 L2 U' L2 U F2 R2 D2 R2 D' L
    
    y2
    D B' M B'
    r U' R F' U' F
    r2 U M2 U' R
    U' r U' r2 D' r U' r' D r2 U r'
    M' U2 M' U M' U' M2 U M2 U2 M U2 M2

    y2
    ";
    gcube.apply_movements(&scramble_to_movements(scramble).unwrap());
    assert_eq!(gcube, GCube::new(3));
}

#[test]
fn gcube_test() {
    let mut gcube = GCube::new(3);
    for m in Move::all() {
        // apply normal move
        let turn = Turn::Single;
        gcube.apply_movement(&Movement(m, turn));
        // apply inverse
        let turn = Turn::Inverse;
        gcube.apply_movement(&Movement(m, turn));
        // apply double twice
        let turn = Turn::Double;
        gcube.apply_movement(&Movement(m, turn));
        gcube.apply_movement(&Movement(m, turn));
    }
    assert_eq!(gcube, GCube::new(3));
}

#[test]
fn scramble_and_solution_give_the_solved_layout() {
    let mut gcube = GCube::new(3);
    let scramble = "L2 U L' F2 R F2 D2 B U B R2 D2 B2 R2 F' D2 B' U2 B2 L2";
    gcube.apply_movements(&scramble_to_movements(scramble).unwrap());
    assert_ne!(gcube, GCube::new(3));
    assert_ne!(gcube.to_facelet_model(), FaceletModel::new());
    let solution = "x U' F' R D r' D U2 F2 r2 U' F' U' F R' U R U2 R2 F R F' R U2 R'
        U M U2 M U' F2 M2 F2 x2";
    gcube.apply_movements(&scramble_to_movements(solution).unwrap());
    assert_eq!(gcube.to_facelet_model(), FaceletModel::new());
}

#[test]
fn range_of_each_side() {
    assert_eq!(GCube::range(0), Vec::<i16>::new());
    assert_eq!(GCube::range(1), vec![0]);
    assert_eq!(GCube::range(2), vec![-1, 1]);
    assert_eq!(GCube::range(3), vec![-2, 0, 2]);
    assert_eq!(GCube::range(4), vec![-3, -1, 1, 3]);
    let widest = GCube::range(MAX_SIZE);
    assert_eq!(widest.len(), 32767);
    assert_eq!(widest[0], -32766);
    assert_eq!(widest[32766], 32766);
}

#[test]
fn new_cube_has_its_stickers_in_order() {
    let cube = GCube::new(1);
    assert_eq!(cube.size(), 1);
    let at = |x: i16, y: i16, z: i16| Sticker::from_point(1, Point3::new(x, y, z));
    assert_eq!(
        *cube.stickers(),
        vec![at(-1, 0, 0), at(0, -1, 0), at(0, 0, -1), at(1, 0, 0), at(0, 1, 0), at(0, 0, 1)]
    );
    let cube = GCube::new(2);
    let at = |x: i16, y: i16, z: i16| Sticker::from_point(2, Point3::new(x, y, z));
    assert_eq!(cube.stickers().len(), 24);
    assert_eq!(cube.stickers()[0], at(-2, -1, -1));
    assert_eq!(cube.stickers()[1], at(-1, -2, -1));
    assert_eq!(cube.stickers()[2], at(-1, -1, -2));
    assert_eq!(cube.stickers()[3], at(-2, -1, 1));
    assert_eq!(cube.stickers()[6], at(-2, 1, -1));
    assert_eq!(cube.stickers()[12], at(2, -1, -1));
    assert_eq!(cube.stickers()[23], at(1, 1, 2));
    // a cube of side 0 is made a cube of side 1
    assert_eq!(GCube::new(0), GCube::new(1));
    for size in 1..=7usize {
        let cube = GCube::new(size);
        assert_eq!(cube.size(), size);
        assert_eq!(cube.stickers().len(), 6 * size * size);
        for s in cube.stickers().iter() {
            assert_eq!(s.initial, s.current);
            assert_eq!(s.size, size);
            assert_ne!(cube.get_curr_face(*s), Face::X);
        }
    }
}

fn sorted_positions(cube: &GCube) -> Vec<(i16, i16, i16)> {
    let mut positions: Vec<(i16, i16, i16)> =
        cube.stickers().iter().map(|s| (s.current.x, s.current.y, s.current.z)).collect();
    positions.sort();
    positions
}

#[test]
fn moves_only_permute_the_positions() {
    for size in 1..=5usize {
        let solved = sorted_positions(&GCube::new(size));
        for i in 1..solved.len() {
            assert_ne!(solved[i - 1], solved[i]);
        }
        let mut cube = GCube::new(size);
        for m in Move::all() {
            for t in Turn::all() {
                cube.apply_movement(&Movement(m, t));
                assert_eq!(sorted_positions(&cube), solved);
                assert_eq!(cube.size(), size);
            }
        }
        let fresh = GCube::new(size);
        for i in 0..cube.stickers().len() {
            assert_eq!(cube.stickers()[i].initial, fresh.stickers()[i].initial);
        }
    }
}

#[test]
fn single_then_inverse_and_repeated_turns_on_any_state() {
    for size in 1..=5usize {
        let mut cube = GCube::new(size);
        cube.apply_movements(&scramble_to_movements("R U2 f' M z D l2 E' S b").unwrap());
        for m in Move::all() {
            let before = cube.clone();
            cube.apply_movement(&Movement(m, Turn::Single));
            cube.apply_movement(&Movement(m, Turn::Inverse));
            assert_eq!(cube, before);
            cube.apply_movement(&Movement(m, Turn::Inverse));
            cube.apply_movement(&Movement(m, Turn::Single));
            assert_eq!(cube, before);
            cube.apply_movement(&Movement(m, Turn::Double));
            cube.apply_movement(&Movement(m, Turn::Double));
            assert_eq!(cube, before);
            for _ in 0..4 {
                cube.apply_movement(&Movement(m, Turn::Single));
            }
            assert_eq!(cube, before);
            // two single turns are a double turn, three are an inverse
            let mut twice = before.clone();
            twice.apply_movements(&[Movement(m, Turn::Single), Movement(m, Turn::Single)]);
            let mut double = before.clone();
            double.apply_movement(&Movement(m, Turn::Double));
            assert_eq!(twice, double);
            twice.apply_movement(&Movement(m, Turn::Single));
            let mut inverse = before.clone();
            inverse.apply_movement(&Movement(m, Turn::Inverse));
            assert_eq!(twice, inverse);
        }
    }
}

#[test]
fn create_gmove_of_each_move() {
    let table = [
        (Move::U, Axis::Y, true, Selector::Upper { inset: 2 }),
        (Move::Uw, Axis::Y, true, Selector::Upper { inset: 4 }),
        (Move::D, Axis::Y, false, Selector::Lower { inset: 2 }),
        (Move::Dw, Axis::Y, false, Selector::Lower { inset: 4 }),
        (Move::R, Axis::X, true, Selector::Upper { inset: 2 }),
        (Move::Rw, Axis::X, true, Selector::Upper { inset: 4 }),
        (Move::L, Axis::X, false, Selector::Lower { inset: 2 }),
        (Move::Lw, Axis::X, false, Selector::Lower { inset: 4 }),
        (Move::F, Axis::Z, true, Selector::Upper { inset: 2 }),
        (Move::Fw, Axis::Z, true, Selector::Upper { inset: 4 }),
        (Move::B, Axis::Z, false, Selector::Lower { inset: 2 }),
        (Move::Bw, Axis::Z, false, Selector::Lower { inset: 4 }),
        (Move::E, Axis::Y, false, Selector::Centre),
        (Move::M, Axis::X, false, Selector::Centre),
        (Move::S, Axis::Z, true, Selector::Centre),
        (Move::X, Axis::X, true, Selector::Whole),
        (Move::Y, Axis::Y, true, Selector::Whole),
        (Move::Z, Axis::Z, true, Selector::Whole),
    ];
    for (m, axis, is_clockwise, selector) in table {
        for t in Turn::all() {
            let movement = Movement(m, t);
            let g = GCube::create_gmove(movement);
            assert_eq!(g, GMove::new(movement, axis, is_clockwise, selector));
            assert_eq!(g.movement, movement);
            assert_eq!(g.axis, axis);
            assert_eq!(g.is_clockwise, is_clockwise);
            assert_eq!(g.selector, selector);
        }
    }
    let movements = [Movement(Move::R, Turn::Double), Movement(Move::E, Turn::Inverse)];
    assert_eq!(
        GCube::create_gmoves(&movements),
        vec![GCube::create_gmove(movements[0]), GCube::create_gmove(movements[1])]
    );
    assert_eq!(GCube::create_gmoves(&[]), Vec::<GMove>::new());
}

#[test]
fn selector_thresholds() {
    // side 3: the outer layer is at 2 and 3, the wide layer adds 0
    let upper = Selector::Upper { inset: 2 };
    assert!(upper.test(3, 3));
    assert!(upper.test(2, 3));
    assert!(upper.test(1, 3));
    assert!(!upper.test(0, 3));
    let wide = Selector::Upper { inset: 4 };
    assert!(wide.test(0, 3));
    assert!(wide.test(-1, 3));
    assert!(!wide.test(-2, 3));
    let lower = Selector::Lower { inset: 2 };
    assert!(lower.test(-3, 3));
    assert!(lower.test(-1, 3));
    assert!(!lower.test(0, 3));
    let wide = Selector::Lower { inset: 4 };
    assert!(wide.test(1, 3));
    assert!(!wide.test(2, 3));
    assert!(Selector::Centre.test(0, 3));
    assert!(!Selector::Centre.test(1, 3));
    assert!(!Selector::Centre.test(-1, 4));
    assert!(Selector::Whole.test(-7, 3));
    // sides beyond the range of a coordinate are compared as they are
    assert!(!upper.test(i16::MAX, usize::MAX));
    assert!(!lower.test(i16::MIN, usize::MAX));
    assert!(!Selector::Upper { inset: i16::MIN }.test(i16::MAX, usize::MAX));
}

#[test]
fn sticker_is_turned_only_where_the_move_takes_it() {
    let top = Sticker::from_point(3, Point3::new(2, 3, -2));
    let side = Sticker::from_point(3, Point3::new(3, 0, 2));
    let u = GCube::create_gmove(Movement(Move::U, Turn::Single));
    assert!(u.takes(top));
    assert!(!u.takes(side));
    let turned = Sticker::apply_gmove(top, u);
    assert_eq!(turned, Sticker::new(3, Point3::new(2, 3, -2), Point3::new(2, 3, 2)));
    assert_eq!(turned.initial, top.initial);
    assert_eq!(Sticker::apply_gmove(side, u), side);
    // a move that turns counter-clockwise counts its turns the other way
    let d = GCube::create_gmove(Movement(Move::D, Turn::Single));
    let bottom = Sticker::from_point(3, Point3::new(2, -3, -2));
    assert_eq!(Sticker::apply_gmove(bottom, d).current, Point3::new(-2, -3, -2));
    let d2 = GCube::create_gmove(Movement(Move::D, Turn::Double));
    assert_eq!(Sticker::apply_gmove(bottom, d2).current, Point3::new(-2, -3, 2));
    let di = GCube::create_gmove(Movement(Move::D, Turn::Inverse));
    assert_eq!(Sticker::apply_gmove(bottom, di).current, Point3::new(2, -3, 2));
    let ui = GCube::create_gmove(Movement(Move::U, Turn::Inverse));
    assert_eq!(Sticker::apply_gmove(top, ui).current, Point3::new(-2, 3, -2));
}

#[test]
fn slice_moves_on_even_cubes_move_nothing() {
    for size in [2usize, 4] {
        for m in [Move::E, Move::M, Move::S] {
            for t in Turn::all() {
                let mut cube = GCube::new(size);
                cube.apply_movement(&Movement(m, t));
                assert_eq!(cube, GCube::new(size));
            }
        }
    }
    let mut cube = GCube::new(3);
    cube.apply_movement(&Movement(Move::M, Turn::Single));
    assert_ne!(cube, GCube::new(3));
}

#[test]
fn wide_moves_take_the_next_layer_along() {
    let count_moved = |m: Move, size: usize| {
        let mut cube = GCube::new(size);
        cube.apply_movement(&Movement(m, Turn::Single));
        let fresh = GCube::new(size);
        (0..cube.stickers().len()).filter(|&i| cube.stickers()[i] != fresh.stickers()[i]).count()
    };
    // the face keeps its centre sticker in place on odd cubes
    assert_eq!(count_moved(Move::U, 3), 8 + 12);
    assert_eq!(count_moved(Move::Uw, 3), 8 + 12 + 12);
    assert_eq!(count_moved(Move::U, 4), 16 + 16);
    assert_eq!(count_moved(Move::Uw, 4), 16 + 16 + 16);
    assert_eq!(count_moved(Move::M, 3), 12);
    assert_eq!(count_moved(Move::Y, 3), 54 - 2);
    assert_eq!(count_moved(Move::U, 1), 4);
}

#[test]
fn moves_are_made_in_order() {
    let mut one = GCube::new(3);
    one.apply_movements(&[Movement(Move::R, Turn::Single), Movement(Move::U, Turn::Single)]);
    let mut other = GCube::new(3);
    other.apply_movements(&[Movement(Move::U, Turn::Single), Movement(Move::R, Turn::Single)]);
    assert_ne!(one, other);
    let mut step = GCube::new(3);
    step.apply_movement(&Movement(Move::R, Turn::Single));
    step.apply_movement(&Movement(Move::U, Turn::Single));
    assert_eq!(one, step);
    let mut by_gmoves = GCube::new(3);
    by_gmoves.apply_gmoves(&[
        GCube::create_gmove(Movement(Move::R, Turn::Single)),
        GCube::create_gmove(Movement(Move::U, Turn::Single)),
    ]);
    assert_eq!(one, by_gmoves);
    let mut none = GCube::new(3);
    none.apply_movements(&[]);
    none.apply_gmoves(&[]);
    assert_eq!(none, GCube::new(3));
}

#[test]
fn resizing_gives_a_solved_cube() {
    let scramble = scramble_to_movements("R U2 f' M z D l2 E' S b").unwrap();
    let mut cube = GCube::new(3);
    cube.apply_movements(&scramble);
    cube.grow();
    assert_eq!(cube, GCube::new(4));
    assert_eq!(cube.to_facelet_model(), FaceletModel::solved(4));
    cube.apply_movements(&scramble);
    cube.shrink();
    assert_eq!(cube, GCube::new(3));
    assert_eq!(cube.to_facelet_model(), FaceletModel::new());
    cube.apply_movements(&scramble);
    cube.change_size(5);
    assert_eq!(cube, GCube::new(5));
    // the same side or side 0 changes nothing
    cube.apply_movements(&scramble);
    let scrambled = cube.clone();
    cube.change_size(5);
    assert_eq!(cube, scrambled);
    cube.change_size(0);
    assert_eq!(cube, scrambled);
}

#[test]
fn shrinking_stops_at_side_one() {
    let mut cube = GCube::new(2);
    cube.shrink();
    assert_eq!(cube, GCube::new(1));
    cube.shrink();
    assert_eq!(cube, GCube::new(1));
    // a cube of side 1 that was turned is solved again, at side 1
    cube.apply_movement(&Movement(Move::X, Turn::Single));
    assert_ne!(cube, GCube::new(1));
    assert_ne!(cube.to_facelet_model(), FaceletModel::solved(1));
    cube.shrink();
    assert_eq!(cube.size(), 1);
    assert_eq!(cube, GCube::new(1));
    assert_eq!(cube.to_facelet_model(), FaceletModel::solved(1));
    cube.grow();
    assert_eq!(cube, GCube::new(2));
}

#[test]
fn face_of_a_position() {
    let cube = GCube::new(3);
    assert_eq!(cube.get_face(Point3::new(3, 0, 0)), Face::R);
    assert_eq!(cube.get_face(Point3::new(-3, 0, 0)), Face::L);
    assert_eq!(cube.get_face(Point3::new(0, 3, 0)), Face::U);
    assert_eq!(cube.get_face(Point3::new(0, -3, 0)), Face::D);
    assert_eq!(cube.get_face(Point3::new(0, 0, 3)), Face::F);
    assert_eq!(cube.get_face(Point3::new(0, 0, -3)), Face::B);
    assert_eq!(cube.get_face(Point3::new(2, 2, 2)), Face::X);
    assert_eq!(cube.get_face(Point3::new(0, 0, 0)), Face::X);
    // x is looked at before y, y before z
    assert_eq!(cube.get_face(Point3::new(-3, 3, 3)), Face::L);
    assert_eq!(cube.get_face(Point3::new(0, -3, 3)), Face::D);
    let mut turned = GCube::new(3);
    turned.apply_movement(&Movement(Move::X, Turn::Single));
    let s = turned.stickers()[0];
    assert_eq!(turned.get_initial_face(s), Face::L);
    assert_eq!(turned.get_curr_face(s), Face::L);
    let s = turned.stickers()[1];
    assert_eq!(s.initial, Point3::new(-2, -3, -2));
    assert_eq!(turned.get_initial_face(s), Face::D);
    assert_eq!(turned.get_curr_face(s), Face::F);
}

#[test]
fn place_of_a_position_on_the_front() {
    // side 3: rows from the top, columns from the left
    assert_eq!(GCube::front_place(3, Point3::new(-2, 2, 3)), 0);
    assert_eq!(GCube::front_place(3, Point3::new(0, 2, 3)), 1);
    assert_eq!(GCube::front_place(3, Point3::new(2, 2, 3)), 2);
    assert_eq!(GCube::front_place(3, Point3::new(-2, 0, 3)), 3);
    assert_eq!(GCube::front_place(3, Point3::new(0, 0, 3)), 4);
    assert_eq!(GCube::front_place(3, Point3::new(2, -2, 3)), 8);
    assert_eq!(GCube::front_place(1, Point3::new(0, 0, 1)), 0);
    assert_eq!(GCube::front_place(2, Point3::new(1, -1, 2)), 3);
    assert_eq!(GCube::front_place(MAX_SIZE, Point3::new(32766, -32766, 32767)), 32767 * 32767 - 1);
}

#[test]
fn turn_that_brings_each_face_to_the_front() {
    assert_eq!(GCube::turn_to_front(Face::U), Some(Movement(Move::X, Turn::Inverse)));
    assert_eq!(GCube::turn_to_front(Face::R), Some(Movement(Move::Y, Turn::Single)));
    assert_eq!(GCube::turn_to_front(Face::L), Some(Movement(Move::Y, Turn::Inverse)));
    assert_eq!(GCube::turn_to_front(Face::B), Some(Movement(Move::Y, Turn::Double)));
    assert_eq!(GCube::turn_to_front(Face::D), Some(Movement(Move::X, Turn::Single)));
    assert_eq!(GCube::turn_to_front(Face::F), None);
    assert_eq!(GCube::turn_to_front(Face::X), None);
}
