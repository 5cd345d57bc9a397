use hecto::view::line::Line;

#[test]
fn get_partial_string_ascii() {
    let line = Line::from("Nailed it");

    let part = line.get(0..6);

    assert_eq!(part, "Nailed");
}

#[test]
fn get_partial_string_other() {
    let line = Line::from("ＡＡＡＡＡ");

    let get_one_char = line.get(0..2);
    let get_partial_start = line.get(1..2);
    let get_partial_end = line.get(6..7);

    assert_eq!(get_one_char, "Ａ");
    assert_eq!(get_partial_start, "⋯");
    assert_eq!(get_partial_end, "⋯");
}

#[test]
fn check_line_with_multiple_widths() {
    let line = Line::from("AaBb\u{200b}Ａ");

    let length = line.text_fragments().len();
    let first_char = &line.text_fragments()[0];
    let last_char = &line.text_fragments()[length - 1];

    assert_eq!(length, 6);
    assert_eq!(first_char.get_character(), "A");
    assert_eq!(last_char.get_character(), "Ａ");
}

#[test]
fn line_length() {
    let line = Line::from("AaBb\u{200b}Ａ");
    let len = line.len();

    assert_eq!(len, 7);
}

#[test]
fn plain_line_width_to_index() {
    let line = Line::from("aＡb");
    assert_eq!(line.fragments_len(), 3);
    assert_eq!(line.get_width_to(0), 0);
    assert_eq!(line.get_width_to(2), 3);
    assert_eq!(line.get_width_to(10), 4);
}

#[test]
fn plain_line_zero_width_shows_dot() {
    let line = Line::from("a\u{200b}b");
    assert_eq!(line.get(0..3), "a·b");
}
