use nixpkgs_eval::splitter::{
    char_index_of, find_markers, split, split_at_markers, Assignment, EvaluationUnit, Marker,
};

fn binding(name: &str, value: &str) -> Assignment {
    Assignment { name: name.to_string(), value: value.to_string() }
}

fn marker(start: usize, name_end: usize, end: usize) -> Marker {
    Marker { start, name_end, end }
}

#[test]
fn input_without_marker_is_one_expression() {
    for text in ["1 + 1", "", "builtins.nonexistent", "  a = 1;\n", "let a = 1; in a", "a == b", "a =1"] {
        assert_eq!(find_markers(text), Vec::new(), "{text:?}");
        assert_eq!(split(text), EvaluationUnit::Expression(text.to_string()));
        assert_eq!(
            split_at_markers(text, &Vec::new()),
            EvaluationUnit::Expression(text.to_string())
        );
    }
}

#[test]
fn two_bindings_are_split_in_source_order() {
    let text = "a = 1;\nb = 2;\n";
    assert_eq!(find_markers(text), vec![marker(0, 1, 4), marker(7, 8, 11)]);
    assert_eq!(
        split(text),
        EvaluationUnit::Assignment(vec![binding("a", "1"), binding("b", "2")])
    );
}

#[test]
fn split_at_markers_cuts_where_it_is_told() {
    let text = "a = 1;\nb = 2;\n";
    let markers = vec![marker(0, 1, 4), marker(7, 8, 11)];
    assert_eq!(
        split_at_markers(text, &markers),
        EvaluationUnit::Assignment(vec![binding("a", "1"), binding("b", "2")])
    );
}

#[test]
fn a_binding_may_use_another() {
    assert_eq!(
        split("x = 5;\ny = x + 1;\n"),
        EvaluationUnit::Assignment(vec![binding("x", "5"), binding("y", "x + 1")])
    );
}

#[test]
fn an_expression_may_span_lines() {
    let text = "set = {\n  a = 1;\n};\nlist = [ 1 2 ];\n";
    assert_eq!(
        split(text),
        EvaluationUnit::Assignment(vec![
            binding("set", "{\n  a = 1;\n}"),
            binding("list", "[ 1 2 ]"),
        ])
    );
}

#[test]
fn white_space_before_the_equals_sign_is_no_part_of_the_name() {
    let text = "name   = 1;\n";
    assert_eq!(find_markers(text), vec![marker(0, 4, 9)]);
    assert_eq!(split(text), EvaluationUnit::Assignment(vec![binding("name", "1")]));
}

#[test]
fn a_name_may_hold_dots_and_other_signs() {
    assert_eq!(
        split("a.b-c' = 1;\n"),
        EvaluationUnit::Assignment(vec![binding("a.b-c'", "1")])
    );
}

#[test]
fn offsets_are_bytes_and_cuts_are_characters() {
    let text = "é = \"ß\";\nb = 2;\n";
    let markers = find_markers(text);
    assert_eq!(markers, vec![marker(0, 2, 5), marker(11, 12, 15)]);
    assert_eq!(
        split(text),
        EvaluationUnit::Assignment(vec![binding("é", "\"ß\""), binding("b", "2")])
    );
}

#[test]
fn two_characters_are_dropped_whatever_they_are() {
    assert_eq!(
        split("a = 1 + 1ßß"),
        EvaluationUnit::Assignment(vec![binding("a", "1 + 1")])
    );
    assert_eq!(split("a = 12"), EvaluationUnit::Assignment(vec![binding("a", "")]));
    assert_eq!(split("a = 123"), EvaluationUnit::Assignment(vec![binding("a", "1")]));
}

#[test]
fn a_binding_cut_short_has_an_empty_expression() {
    assert_eq!(split("a = "), EvaluationUnit::Assignment(vec![binding("a", "")]));
    assert_eq!(split("a = 1"), EvaluationUnit::Assignment(vec![binding("a", "")]));
    assert_eq!(
        split("a = \nb = 2;\n"),
        EvaluationUnit::Assignment(vec![binding("a", ""), binding("b", "2")])
    );
}

#[test]
fn markers_out_of_range_are_clipped() {
    let text = "abc";
    assert_eq!(
        split_at_markers(text, &vec![marker(10, 20, 30)]),
        EvaluationUnit::Assignment(vec![binding("", "")])
    );
    assert_eq!(
        split_at_markers(text, &vec![marker(1, 0, 0)]),
        EvaluationUnit::Assignment(vec![binding("", "a")])
    );
    assert_eq!(
        split_at_markers("a = 1;\nb = 2;\n", &vec![marker(7, 8, 11), marker(0, 1, 4)]),
        EvaluationUnit::Assignment(vec![binding("b", ""), binding("a", "1;\nb = 2")])
    );
}

#[test]
fn char_index_counts_the_characters_that_start_before_an_offset() {
    let list: Vec<char> = "aé𝒙b".chars().collect();
    let expected = [0, 1, 2, 2, 3, 3, 3, 3, 4, 4, 4];
    for (offset, index) in expected.iter().enumerate() {
        assert_eq!(char_index_of(&list, offset), *index, "offset {offset}");
    }
    assert_eq!(char_index_of(&list, usize::MAX), 4);
    assert_eq!(char_index_of(&Vec::new(), 3), 0);
}
