use rye::bivector::{cell, upper_pair, Cell, Plane4};

/// The text of a cell, as a host writes it from the six components.
fn cell_text(b: [f32; 6], row: usize, col: usize) -> String {
    match cell(row, col) {
        Cell::Zero => "0".to_string(),
        Cell::Component { plane, negated } => {
            let i = match plane {
                Plane4::Xy => 0,
                Plane4::Xz => 1,
                Plane4::Xw => 2,
                Plane4::Yz => 3,
                Plane4::Yw => 4,
                Plane4::Zw => 5,
            };
            let degrees = b[i].to_degrees();
            format!("{:>+5.1}", if negated { -degrees } else { degrees })
        }
    }
}

const ZERO: [f32; 6] = [0.0; 6];

fn pure(i: usize) -> [f32; 6] {
    let mut b = ZERO;
    b[i] = 1.0;
    b
}

#[test]
fn cell_text_diagonal_is_zero() {
    for i in 0..4 {
        assert_eq!(cell_text(ZERO, i, i), "0");
    }
}

#[test]
fn cell_text_zero_bivector_off_diagonal_is_signed_zero() {
    assert_eq!(cell_text(ZERO, 0, 1), " +0.0");
    assert_eq!(cell_text(ZERO, 1, 0), " -0.0");
}

#[test]
fn cell_text_pure_xy_plane() {
    let b = pure(0);
    assert_eq!(cell_text(b, 0, 1), "+57.3");
    assert_eq!(cell_text(b, 1, 0), "-57.3");
    assert_eq!(cell_text(b, 0, 2), " +0.0");
    assert_eq!(cell_text(b, 2, 3), " +0.0");
}

#[test]
fn cell_text_each_basis_plane_lights_correct_cell() {
    let cases = [
        (Plane4::Xy, (0, 1)),
        (Plane4::Xz, (0, 2)),
        (Plane4::Xw, (0, 3)),
        (Plane4::Yz, (1, 2)),
        (Plane4::Yw, (1, 3)),
        (Plane4::Zw, (2, 3)),
    ];
    for (i, (plane, (row, col))) in cases.into_iter().enumerate() {
        assert_eq!(upper_pair(row, col), plane);
        let b = pure(i);
        assert_eq!(cell_text(b, row, col), "+57.3", "plane {plane:?} should populate ({row}, {col})");
        assert_eq!(
            cell_text(b, col, row),
            "-57.3",
            "plane {plane:?} mirror ({col}, {row}) should be negated"
        );
    }
}

#[test]
fn cell_text_small_angle_rounds_to_zero_at_one_decimal() {
    let mut b = ZERO;
    b[0] = 0.001;
    assert_eq!(cell_text(b, 0, 1), " +0.1");
}

#[test]
fn mirrored_cells_differ_in_sign() {
    for row in 0..4 {
        for col in 0..4 {
            match (cell(row, col), cell(col, row)) {
                (Cell::Zero, Cell::Zero) => assert_eq!(row, col),
                (
                    Cell::Component { plane: p, negated: n },
                    Cell::Component { plane: q, negated: m },
                ) => {
                    assert_eq!(p, q);
                    assert_ne!(n, m);
                }
                _ => panic!("a mirrored cell without its counterpart"),
            }
        }
    }
}
