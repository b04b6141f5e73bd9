use randomart::canvas::{Canvas, Position};
use randomart::render::{render, symbol, ALPHABET};
use randomart::walk::{move_code, start_position, step, walk};
use randomart::{art_from_digest, check_size, ZERO_HEIGHT, ZERO_WIDTH};

fn counts(canvas: &Canvas) -> Vec<Vec<u128>> {
    let mut rows = Vec::new();
    for y in 0..canvas.height() {
        let mut row = Vec::new();
        for x in 0..canvas.width() {
            row.push(canvas.count(x, y));
        }
        rows.push(row);
    }
    rows
}

#[test]
fn start_is_the_middle_rounded_down() {
    assert_eq!(start_position(1, 1), Position { x: 0, y: 0 });
    assert_eq!(start_position(2, 2), Position { x: 0, y: 0 });
    assert_eq!(start_position(3, 3), Position { x: 1, y: 1 });
    assert_eq!(start_position(20, 20), Position { x: 9, y: 9 });
    assert_eq!(start_position(17, 9), Position { x: 8, y: 4 });
    assert_eq!(start_position(4, 7), Position { x: 1, y: 3 });
}

#[test]
fn codes_are_read_from_the_low_bits_up() {
    let byte = 0b11_10_01_00u8;
    assert_eq!(move_code(byte, 0), 0);
    assert_eq!(move_code(byte, 1), 1);
    assert_eq!(move_code(byte, 2), 2);
    assert_eq!(move_code(byte, 3), 3);
    assert_eq!(move_code(0x1b, 0), 3);
    assert_eq!(move_code(0x1b, 3), 0);
    assert_eq!(move_code(0xff, 2), 3);
    assert_eq!(move_code(0x00, 1), 0);
}

#[test]
fn each_code_moves_diagonally() {
    let middle = Position { x: 5, y: 5 };
    assert_eq!(step(middle, 0, 11, 11), Position { x: 4, y: 4 });
    assert_eq!(step(middle, 1, 11, 11), Position { x: 6, y: 4 });
    assert_eq!(step(middle, 2, 11, 11), Position { x: 4, y: 6 });
    assert_eq!(step(middle, 3, 11, 11), Position { x: 6, y: 6 });
}

#[test]
fn the_cursor_sticks_to_edges_and_corners() {
    let top_left = Position { x: 0, y: 0 };
    assert_eq!(step(top_left, 0, 3, 3), Position { x: 0, y: 0 });
    assert_eq!(step(top_left, 1, 3, 3), Position { x: 1, y: 0 });
    assert_eq!(step(top_left, 2, 3, 3), Position { x: 0, y: 1 });
    let bottom_right = Position { x: 2, y: 2 };
    assert_eq!(step(bottom_right, 3, 3, 3), Position { x: 2, y: 2 });
    assert_eq!(step(bottom_right, 1, 3, 3), Position { x: 2, y: 1 });
    assert_eq!(step(bottom_right, 2, 3, 3), Position { x: 1, y: 2 });
    let right_edge = Position { x: 2, y: 1 };
    assert_eq!(step(right_edge, 3, 3, 3), Position { x: 2, y: 2 });
    let only_cell = Position { x: 0, y: 0 };
    for code in 0..4 {
        assert_eq!(step(only_cell, code, 1, 1), only_cell);
    }
}

#[test]
fn only_the_two_low_bits_of_a_code_are_read() {
    let middle = Position { x: 5, y: 5 };
    for code in 0..4u8 {
        assert_eq!(step(middle, code + 4, 11, 11), step(middle, code, 11, 11));
        assert_eq!(step(middle, code + 252, 11, 11), step(middle, code, 11, 11));
    }
}

#[test]
fn a_cursor_beyond_the_edge_is_brought_back() {
    assert_eq!(step(Position { x: 9, y: 9 }, 0, 3, 3), Position { x: 2, y: 2 });
    assert_eq!(step(Position { x: 9, y: 0 }, 3, 3, 3), Position { x: 2, y: 1 });
}

#[test]
fn the_cursor_stays_on_the_canvas() {
    let (width, height) = (4, 3);
    let mut cursor = start_position(width, height);
    for round in 0..200usize {
        let code = ((round * 7 + round / 3) % 4) as u8;
        cursor = step(cursor, code, width, height);
        assert!(cursor.x < width);
        assert!(cursor.y < height);
    }
}

#[test]
fn a_new_canvas_is_blank() {
    let canvas = Canvas::new(3, 2);
    assert_eq!(canvas.width(), 3);
    assert_eq!(canvas.height(), 2);
    assert_eq!(counts(&canvas), vec![vec![0, 0, 0], vec![0, 0, 0]]);
}

#[test]
fn a_visit_raises_one_counter() {
    let mut canvas = Canvas::new(3, 2);
    canvas.visit(2, 1);
    canvas.visit(2, 1);
    canvas.visit(0, 0);
    assert_eq!(counts(&canvas), vec![vec![1, 0, 0], vec![0, 0, 2]]);
}

#[test]
fn walking_one_byte_visits_four_cells() {
    let (canvas, start) = walk(&[0x1b], 3, 3);
    assert_eq!(start, Position { x: 1, y: 1 });
    assert_eq!(counts(&canvas), vec![vec![0, 1, 0], vec![0, 0, 1], vec![0, 1, 1]]);
    let (canvas, _) = walk(&[0xe4], 3, 3);
    assert_eq!(counts(&canvas), vec![vec![1, 1, 0], vec![1, 0, 0], vec![0, 1, 0]]);
}

#[test]
fn walking_goes_through_the_bytes_in_order() {
    let (canvas, start) = walk(&[0xe4, 0x1b], 4, 3);
    assert_eq!(start, Position { x: 1, y: 1 });
    assert_eq!(counts(&canvas), vec![vec![1, 2, 0, 0], vec![1, 0, 1, 0], vec![0, 2, 1, 0]]);
}

#[test]
fn walking_nothing_leaves_the_canvas_blank() {
    let (canvas, start) = walk(&[], 2, 2);
    assert_eq!(start, Position { x: 0, y: 0 });
    assert_eq!(counts(&canvas), vec![vec![0, 0], vec![0, 0]]);
}

#[test]
fn a_corner_collects_every_blocked_move() {
    let (canvas, _) = walk(&[0xff, 0xff, 0xff, 0xff], 2, 2);
    assert_eq!(counts(&canvas), vec![vec![0, 0], vec![0, 16]]);
    let (canvas, _) = walk(&[0x00; 8], 3, 3);
    assert_eq!(counts(&canvas), vec![vec![32, 0, 0], vec![0, 0, 0], vec![0, 0, 0]]);
}

#[test]
fn every_code_raises_exactly_one_counter() {
    let digest: Vec<u8> = (0..64).collect();
    let (canvas, _) = walk(&digest, 5, 4);
    assert_eq!(
        counts(&canvas),
        vec![
            vec![67, 29, 16, 13, 6],
            vec![27, 27, 6, 1, 8],
            vec![16, 4, 4, 5, 1],
            vec![9, 8, 3, 1, 5],
        ]
    );
    let total: u128 = counts(&canvas).iter().flatten().sum();
    assert_eq!(total, 4 * 64);
}

#[test]
fn the_alphabet_has_fifteen_symbols() {
    assert_eq!(ALPHABET, " .o+=*B0X@%&#/^");
    assert_eq!(ALPHABET.chars().count(), 15);
}

#[test]
fn symbols_follow_the_alphabet() {
    let expected = [" ", ".", "o", "+", "=", "*", "B", "0", "X", "@", "%", "&", "#", "/", "^"];
    for (count, symbol_text) in expected.iter().enumerate() {
        assert_eq!(symbol(count as u128), *symbol_text);
    }
}

#[test]
fn symbols_wrap_around_after_the_last() {
    assert_eq!(symbol(14), "^");
    assert_eq!(symbol(15), " ");
    assert_eq!(symbol(16), ".");
    assert_eq!(symbol(29), "^");
    assert_eq!(symbol(30), " ");
    assert_eq!(symbol(67), "0");
    assert_eq!(symbol(u128::MAX), symbol(u128::MAX % 15));
}

#[test]
fn rendering_a_blank_canvas() {
    let canvas = Canvas::new(3, 2);
    assert_eq!(render(&canvas, Position { x: 1, y: 0 }), " S \n   \n");
    assert_eq!(render(&canvas, Position { x: 2, y: 1 }), "   \n  S\n");
}

#[test]
fn rendering_counts_as_symbols() {
    let mut canvas = Canvas::new(3, 2);
    canvas.visit(0, 0);
    for _ in 0..5 {
        canvas.visit(2, 0);
    }
    for _ in 0..3 {
        canvas.visit(1, 1);
    }
    for _ in 0..14 {
        canvas.visit(2, 1);
    }
    assert_eq!(render(&canvas, Position { x: 0, y: 1 }), ". *\nS+^\n");
}

#[test]
fn rendering_marks_the_start_whatever_its_count() {
    let mut canvas = Canvas::new(2, 1);
    for _ in 0..7 {
        canvas.visit(0, 0);
    }
    assert_eq!(render(&canvas, Position { x: 0, y: 0 }), "S \n");
    assert_eq!(render(&canvas, Position { x: 1, y: 0 }), "0S\n");
}

#[test]
fn rendering_without_a_start_on_the_canvas_draws_no_marker() {
    let canvas = Canvas::new(2, 2);
    assert_eq!(render(&canvas, Position { x: 2, y: 0 }), "  \n  \n");
}

#[test]
fn drawing_a_digest_of_one_byte() {
    assert_eq!(art_from_digest(&[0x1b], 3, 3), Ok(String::from(" . \n S.\n ..\n")));
    assert_eq!(art_from_digest(&[0xe4], 3, 3), Ok(String::from(".. \n.S \n . \n")));
    assert_eq!(art_from_digest(&[0xe4, 0x1b], 4, 3), Ok(String::from(".o  \n.S. \n o. \n")));
}

#[test]
fn drawing_a_longer_digest() {
    let digest: Vec<u8> = (0..64).collect();
    assert_eq!(art_from_digest(&digest, 5, 4), Ok(String::from("0^./B\n##S.X\n.==*.\n@X+.*\n")));
}

#[test]
fn the_fifteenth_visit_wraps_to_the_first_symbol() {
    assert_eq!(art_from_digest(&[0x50, 0x55, 0x55, 0x55], 2, 1), Ok(String::from("S^\n")));
    assert_eq!(art_from_digest(&[0x54, 0x55, 0x55, 0x55], 2, 1), Ok(String::from("S \n")));
    assert_eq!(art_from_digest(&[0xff, 0xff, 0xff, 0xff], 2, 2), Ok(String::from("S \n .\n")));
}

#[test]
fn drawing_an_empty_digest() {
    assert_eq!(art_from_digest(&[], 3, 2), Ok(String::from(" S \n   \n")));
}

#[test]
fn sizes_with_a_cell_are_accepted() {
    assert_eq!(check_size(1, 1), Ok(()));
    assert_eq!(check_size(20, 20), Ok(()));
    assert_eq!(check_size(usize::MAX, 1), Ok(()));
}

#[test]
fn sizes_without_a_cell_are_refused() {
    assert_eq!(check_size(0, 5), Err(ZERO_WIDTH));
    assert_eq!(check_size(5, 0), Err(ZERO_HEIGHT));
    assert_eq!(check_size(0, 0), Err(ZERO_WIDTH));
}

#[test]
fn drawing_refuses_a_canvas_without_cells() {
    assert_eq!(art_from_digest(&[0x1b], 0, 3), Err(ZERO_WIDTH));
    assert_eq!(art_from_digest(&[0x1b], 3, 0), Err(ZERO_HEIGHT));
    assert_eq!(art_from_digest(&[], 0, 3), Err("width is 0"));
    assert_eq!(art_from_digest(&[], 3, 0), Err("height is 0"));
}
