use nixpkgs_eval::render::can_format;

const PIECES: [&str; 40] = [
    "(", ")", "[", "]", "{", "}", "=", ";", ".", "a", "1", "\"s\"", " ", "\n", "+", "-", "!", "/",
    ",", "?", "<", ">", "~", "*", "&", "|", "'", "\\", "...", "//", "++", "==", "->", "1.5", "a/b",
    "<a>", "-1", "b", "\"", "\u{a0}",
];

const CORE: [&str; 14] =
    ["(", ")", "[", "]", "{", "}", "=", ";", ".", "a", "1", "\"s\"", " ", "\n"];

/// Formats `text` if it is handed to the formatter, and says whether it was.
fn try_format(text: &str) -> bool {
    let handed = can_format(text);
    let out = nixpkgs_eval::render::format(text.to_string());
    if !handed {
        assert_eq!(out, text);
    }
    handed
}

fn all_of_length(pieces: &[&str], length: usize) -> usize {
    let mut handed = 0;
    let mut index = vec![0usize; length];
    loop {
        let text: String = index.iter().map(|i| pieces[*i]).collect();
        if try_format(&text) {
            handed += 1;
        }
        let mut place = 0;
        loop {
            if place == length {
                return handed;
            }
            index[place] += 1;
            if index[place] < pieces.len() {
                break;
            }
            index[place] = 0;
            place += 1;
        }
    }
}

#[test]
fn every_text_of_up_to_three_pieces_comes_back() {
    let mut handed = 0;
    for length in 0..=3 {
        handed += all_of_length(&PIECES, length);
    }
    assert!(handed > 10000);
}

#[test]
fn every_text_of_four_core_pieces_comes_back() {
    assert!(all_of_length(&CORE, 4) > 10000);
}

fn five_that_start_with(first: usize) {
    let mut handed = 0;
    let mut index = vec![0usize; 4];
    loop {
        let mut text = String::from(CORE[first]);
        for i in &index {
            text.push_str(CORE[*i]);
        }
        if try_format(&text) {
            handed += 1;
        }
        let mut place = 0;
        loop {
            if place == 4 {
                assert!(handed > 1000);
                return;
            }
            index[place] += 1;
            if index[place] < CORE.len() {
                break;
            }
            index[place] = 0;
            place += 1;
        }
    }
}

#[test]
fn every_text_of_five_core_pieces_after_a_paren_comes_back() {
    five_that_start_with(0);
}

#[test]
fn every_text_of_five_core_pieces_after_a_paren_close_comes_back() {
    five_that_start_with(1);
}

#[test]
fn every_text_of_five_core_pieces_after_a_square_comes_back() {
    five_that_start_with(2);
}

#[test]
fn every_text_of_five_core_pieces_after_a_square_close_comes_back() {
    five_that_start_with(3);
}

#[test]
fn every_text_of_five_core_pieces_after_a_curly_comes_back() {
    five_that_start_with(4);
}

#[test]
fn every_text_of_five_core_pieces_after_a_curly_close_comes_back() {
    five_that_start_with(5);
}

#[test]
fn every_text_of_five_core_pieces_after_a_equals_comes_back() {
    five_that_start_with(6);
}

#[test]
fn every_text_of_five_core_pieces_after_a_semicolon_comes_back() {
    five_that_start_with(7);
}

#[test]
fn every_text_of_five_core_pieces_after_a_dot_comes_back() {
    five_that_start_with(8);
}

#[test]
fn every_text_of_five_core_pieces_after_a_name_comes_back() {
    five_that_start_with(9);
}

#[test]
fn every_text_of_five_core_pieces_after_a_number_comes_back() {
    five_that_start_with(10);
}

#[test]
fn every_text_of_five_core_pieces_after_a_string_comes_back() {
    five_that_start_with(11);
}

#[test]
fn every_text_of_five_core_pieces_after_a_space_comes_back() {
    five_that_start_with(12);
}

#[test]
fn every_text_of_five_core_pieces_after_a_line_comes_back() {
    five_that_start_with(13);
}

fn scattered(seed: u64, rounds: usize, pieces: &[&str]) -> usize {
    let mut state = seed;
    let mut handed = 0;
    for _ in 0..rounds {
        let mut text = String::new();
        state = state.wrapping_mul(6364136223846793005).wrapping_add(1442695040888963407);
        let length = 5 + (state >> 33) as usize % 10;
        for _ in 0..length {
            state = state.wrapping_mul(6364136223846793005).wrapping_add(1442695040888963407);
            text.push_str(pieces[(state >> 33) as usize % pieces.len()]);
        }
        if try_format(&text) {
            handed += 1;
        }
    }
    handed
}

#[test]
fn scattered_texts_come_back() {
    assert!(scattered(1, 60000, &PIECES) > 1000);
}

#[test]
fn scattered_texts_of_core_pieces_come_back() {
    assert!(scattered(2, 60000, &CORE) > 1000);
}

#[test]
fn scattered_texts_that_lean_on_brackets_come_back() {
    let pieces = ["{", "}", "a", "=", "1", ";", " ", "[", "]", "\n", "a", "=", "\"s\"", ";"];
    assert!(scattered(3, 60000, &pieces) > 1000);
}

#[test]
fn scattered_sets_of_scattered_bindings_come_back() {
    let values = ["1", "\"s\"", "[ 1 2 ]", "{ b = 1; }", "f a", "(1 + 2)", "a.b", "-1", "f\na\na", "!a"];
    let mut state: u64 = 4;
    let mut handed = 0;
    for _ in 0..3000 {
        let mut text = String::from("{\n");
        state = state.wrapping_mul(6364136223846793005).wrapping_add(1442695040888963407);
        let bindings = (state >> 33) as usize % 30;
        for _ in 0..bindings {
            state = state.wrapping_mul(6364136223846793005).wrapping_add(1442695040888963407);
            let value = values[(state >> 33) as usize % values.len()];
            text.push_str(&format!("  a = {value};\n"));
        }
        text.push('}');
        if try_format(&text) {
            handed += 1;
        }
    }
    assert!(handed > 1000);
}
