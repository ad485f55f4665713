use picross::board::CellState;
use picross::error::PuzzleError;
use picross::game::{Action, Game, Key};
use picross::parsing::{parse_clues, parse_file, split_lines};

const SAMPLE: &str = "v(2):\n1 2\n\n\nh(1):\n3\n";

fn lines_of(frame: Vec<Vec<char>>) -> Vec<String> {
    frame.into_iter().map(|l| l.into_iter().collect()).collect()
}

#[test]
fn sample_file_loads() {
    let (v, h) = parse_file(SAMPLE.as_bytes()).unwrap();
    assert_eq!(v.get_size(), 2);
    assert_eq!(v.get(0), Ok(vec![1, 2]));
    assert_eq!(v.get(1), Ok(vec![]));
    assert_eq!(h.get_size(), 1);
    assert_eq!(h.get(0), Ok(vec![3]));
    let g = Game::from_file(SAMPLE.as_bytes()).unwrap();
    assert_eq!(g.board().get_size(), (1, 2));
    assert_eq!(g.board().get(0, 0), CellState::BLANK);
    assert_eq!(g.board().get(1, 0), CellState::BLANK);
    assert_eq!(g.cursor().position(), (0, 0));
    assert_eq!(g.columns().get(0), Ok(vec![1, 2]));
    assert_eq!(g.rows().get(0), Ok(vec![3]));
}

#[test]
fn crlf_lines_and_missing_final_newline() {
    let text = "v(1):\r\n5 6\r\n\r\nh(2):\r\n7\r\n 8  9 ";
    let (v, h) = parse_file(text.as_bytes()).unwrap();
    assert_eq!(v.get(0), Ok(vec![5, 6]));
    assert_eq!(h.get(0), Ok(vec![7]));
    assert_eq!(h.get(1), Ok(vec![8, 9]));
}

#[test]
fn first_line_not_v_header_fails() {
    for text in ["h(1):\n1\n\nv(1):\n1\n", "", "v2:\n1\n\nh(1):\n1\n", "v():\n\nh(0):\n", "x(1):\n1\n\nh(1):\n1\n"] {
        assert_eq!(parse_file(text.as_bytes()).err(), Some(PuzzleError::Format));
        assert_eq!(Game::from_file(text.as_bytes()).err(), Some(PuzzleError::Format));
    }
}

#[test]
fn declared_counts_must_match() {
    let texts = [
        "v(3):\n1\n2\n\nh(1):\n1\n",
        "v(1):\n1\n2\n\nh(1):\n1\n",
        "v(1):\n1\n\nh(2):\n1\n",
        "v(1):\n1\n\nh(1):\n1\n2\n",
        "v(1):\n1\nh(1):\n1\n",
    ];
    for text in texts {
        assert_eq!(parse_file(text.as_bytes()).err(), Some(PuzzleError::Format));
        assert_eq!(Game::from_file(text.as_bytes()).err(), Some(PuzzleError::Format));
    }
}

#[test]
fn non_numeric_clue_fails() {
    assert_eq!(parse_file(b"v(1):\n1 a\n\nh(1):\n1\n").err(), Some(PuzzleError::Format));
    assert_eq!(parse_file(b"v(1):\n1\n\nh(1):\n4294967296\n").err(), Some(PuzzleError::Format));
    assert!(parse_file(b"v(1):\n1\n\nh(1):\n4294967295\n").is_ok());
}

#[test]
fn empty_dimensions_give_no_game() {
    assert!(parse_file(b"v(0):\n\nh(1):\n2\n").is_ok());
    assert_eq!(Game::from_file(b"v(0):\n\nh(1):\n2\n").err(), Some(PuzzleError::Format));
}

#[test]
fn clue_words() {
    assert_eq!(parse_clues(&b"  12\t3 ".to_vec()), Some(vec![12, 3]));
    assert_eq!(parse_clues(&b"".to_vec()), Some(vec![]));
    assert_eq!(parse_clues(&b"1-2".to_vec()), None);
}

#[test]
fn splitting_lines() {
    let l = split_lines(b"a\r\nb\n\nc");
    assert_eq!(l, vec![b"a".to_vec(), b"b".to_vec(), vec![], b"c".to_vec()]);
    assert_eq!(split_lines(b"x\n"), vec![b"x".to_vec()]);
    assert!(split_lines(b"").is_empty());
}

#[test]
fn keys_fill_then_cross_on_blank_three_by_three() {
    let text = "v(3):\n\n\n\n\nh(3):\n\n\n\n";
    let mut g = Game::from_file(text.as_bytes()).unwrap();
    assert_eq!(g.handle_key(Key::Right), Action::Redraw);
    assert_eq!(g.handle_key(Key::Down), Action::Redraw);
    assert_eq!(g.cursor().position(), (1, 1));
    assert_eq!(g.handle_key(Key::Fill), Action::Redraw);
    assert_eq!(g.board().get(1, 1), CellState::FILLED);
    assert_eq!(g.handle_key(Key::Cross), Action::Redraw);
    for c in 0..3 {
        for r in 0..3 {
            let expected = if c == 1 && r == 1 { CellState::CROSSED } else { CellState::BLANK };
            assert_eq!(g.board().get(c, r), expected);
        }
    }
    assert_eq!(g.handle_key(Key::Other), Action::Ignore);
    assert_eq!(g.handle_key(Key::Quit), Action::Quit);
    assert_eq!(g.handle_key(Key::Up), Action::Redraw);
    assert_eq!(g.handle_key(Key::Left), Action::Redraw);
    assert_eq!(g.cursor().position(), (0, 0));
}

#[test]
fn sample_layout_numbers() {
    let g = Game::from_file(SAMPLE.as_bytes()).unwrap();
    assert_eq!(g.clue_field_width(), 2);
    assert_eq!(g.clue_header_height(), 2);
    assert_eq!(g.frame_size(), (10, 6));
    assert_eq!(g.cursor_origin(6), Some((2, 2)));
    assert_eq!(g.cursor_origin(9), Some((2, 5)));
    assert_eq!(g.cursor_origin(3), None);
}

#[test]
fn cursor_origin_follows_cursor() {
    let mut g = Game::from_file(SAMPLE.as_bytes()).unwrap();
    g.handle_key(Key::Right);
    assert_eq!(g.cursor_origin(6), Some((5, 2)));
}

#[test]
fn sample_frame() {
    let g = Game::from_file(SAMPLE.as_bytes()).unwrap();
    let expected = vec![
        "  │ 1│  │",
        "  │ 2│  │",
        "──╆━━┿━━┪",
        " 3┃  │  ┃",
        "──┺━━┷━━┛",
    ];
    assert_eq!(lines_of(g.frame()), expected);
}

#[test]
fn frame_marks_and_heavy_rules() {
    let text = "v(6):\n\n\n\n\n\n10\n\nh(6):\n1\n\n\n\n\n1 1\n";
    let mut g = Game::from_file(text.as_bytes()).unwrap();
    g.handle_key(Key::Fill);
    g.handle_key(Key::Right);
    g.handle_key(Key::Cross);
    let lines = lines_of(g.frame());
    assert_eq!(lines.len(), 1 + 1 + 6 + 5 + 1);
    assert_eq!(lines[0], "    │  │  │  │  │  │10│");
    assert_eq!(lines[1], "────╆━━┿━━┿━━┿━━┿━━╈━━┪");
    assert_eq!(lines[2], "   1┃██│╳╳│  │  │  ┇  ┃");
    assert_eq!(lines[3], "────╂──┼──┼──┼──┼──╂──┨");
    assert_eq!(lines[11], "────╊┅┅┿┅┅┿┅┅┿┅┅┿┅┅╋┅┅┫");
    assert_eq!(lines[12], " 1 1┃  │  │  │  │  ┇  ┃");
    assert_eq!(lines[13], "────┺━━┷━━┷━━┷━━┷━━┻━━┛");
}
