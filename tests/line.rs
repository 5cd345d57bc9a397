use hecto::annotatedstring::AnnotationType;
use hecto::line::Line;

fn text_of(line: &Line) -> String {
    line.get_visible_graphemes(0..usize::MAX)
}

#[test]
fn from_strips_zero_width_joiners() {
    let line = Line::from("a\u{200D}b");
    assert_eq!(line.grapheme_count(), 2);
    assert_eq!(text_of(&line), "ab");
}

#[test]
fn split_then_append_restores_text() {
    for at in 0..=5 {
        let whole = Line::from("héllo");
        let mut left = whole.clone();
        let right = left.split(at);
        left.append(&right);
        assert_eq!(text_of(&left), "héllo");
        assert_eq!(left.grapheme_count(), whole.grapheme_count());
    }
}

#[test]
fn split_cuts_at_grapheme() {
    let mut line = Line::from("abcd");
    let right = line.split(1);
    assert_eq!(text_of(&line), "a");
    assert_eq!(text_of(&right), "bcd");
    let past_end = line.split(7);
    assert_eq!(text_of(&line), "a");
    assert_eq!(past_end.grapheme_count(), 0);
}

#[test]
fn insert_then_delete_restores_text() {
    for at in 0..=3 {
        let mut line = Line::from("abc");
        line.insert_char('x', at);
        assert_eq!(line.grapheme_count(), 4);
        line.delete(at);
        assert_eq!(text_of(&line), "abc");
        assert_eq!(line.grapheme_count(), 3);
    }
}

#[test]
fn insert_char_positions() {
    let mut line = Line::from("ac");
    line.insert_char('b', 1);
    assert_eq!(text_of(&line), "abc");
    line.insert_char('d', 10);
    assert_eq!(text_of(&line), "abcd");
    line.append_char('e');
    assert_eq!(text_of(&line), "abcde");
    line.insert_char('\u{200D}', 0);
    assert_eq!(text_of(&line), "abcde");
}

#[test]
fn delete_and_delete_last() {
    let mut line = Line::from("abc");
    line.delete(5);
    assert_eq!(text_of(&line), "abc");
    line.delete(0);
    assert_eq!(text_of(&line), "bc");
    line.delete_last();
    assert_eq!(text_of(&line), "b");
    line.delete_last();
    line.delete_last();
    assert_eq!(line.grapheme_count(), 0);
}

#[test]
fn combining_mark_is_one_grapheme() {
    let line = Line::from("e\u{301}x");
    assert_eq!(line.grapheme_count(), 2);
    assert_eq!(line.width(), 2);
}

#[test]
fn widths_of_full_width_text() {
    let line = Line::from("aＡb");
    assert_eq!(line.width_until(0), 0);
    assert_eq!(line.width_until(1), 1);
    assert_eq!(line.width_until(2), 3);
    assert_eq!(line.width_until(9), 4);
    assert_eq!(line.width(), 4);
}

#[test]
fn visible_graphemes_clip_and_replace() {
    let line = Line::from("ab\tc");
    assert_eq!(line.get_visible_graphemes(0..4), "ab c");
    assert_eq!(line.get_visible_graphemes(1..3), "b ");
    assert_eq!(line.get_visible_graphemes(3..3), "");
    assert_eq!(line.get_visible_graphemes(5..2), "");
}

#[test]
fn control_and_blank_replacements() {
    let line = Line::from("\u{1}\u{200b}\u{3000}");
    assert_eq!(line.get_visible_graphemes(0..10), "▯·␣");
}

#[test]
fn visible_width_never_exceeds_range() {
    let line = Line::from("ＡＢＣ");
    let shown = line.get_visible_graphemes(1..4);
    assert_eq!(shown, "⋯Ｂ");
    let again = Line::from(&shown).get_visible_graphemes(0..3);
    assert_eq!(again, shown);
}

#[test]
fn full_width_straddling_right_edge_is_one_ellipsis() {
    let line = Line::from("aＡ");
    assert_eq!(line.get_visible_graphemes(0..2), "a⋯");
}

#[test]
fn full_width_straddling_left_edge_is_one_ellipsis() {
    let line = Line::from("Ａb");
    assert_eq!(line.get_visible_graphemes(1..3), "⋯b");
}

#[test]
fn search_finds_matches() {
    let line = Line::from("hello world");
    assert_eq!(line.search("lo"), vec![3]);
    assert_eq!(line.search("o"), vec![4, 7]);
    assert_eq!(line.search("xyz"), Vec::<usize>::new());
    assert_eq!(line.search_backward("lo", 11), Some(3));
    assert_eq!(line.search_backward("o", 11), Some(7));
    assert_eq!(line.search_backward("o", 7), Some(4));
    assert_eq!(line.search_backward("o", 0), None);
    assert_eq!(line.search_forward("o", 0), Some(4));
    assert_eq!(line.search_forward("o", 4), Some(7));
    assert_eq!(line.search_forward("o", 7), None);
    assert_eq!(line.search_forward("o", 11), None);
}

#[test]
fn search_counts_graphemes_not_bytes() {
    let line = Line::from("äbä");
    assert_eq!(line.search("ä"), vec![0, 2]);
    assert_eq!(line.search("b"), vec![1]);
}

#[test]
fn search_matches_do_not_overlap() {
    let line = Line::from("aaaa");
    assert_eq!(line.search("aa"), vec![0, 2]);
}

#[test]
fn annotated_substring_covers_the_text() {
    let line = Line::from("hello lo");
    let annotated = line.get_annotated_visible_substr(0..8, "lo");
    assert_eq!(annotated.get_display_string(), "hello lo");
    let fragments = annotated.get_annotated_fragments();
    let texts: Vec<String> = fragments.iter().map(|f| f.string.clone()).collect();
    assert_eq!(texts, vec!["hel", "lo", " ", "lo"]);
    assert!(matches!(fragments[0].annotation_type, AnnotationType::Plain));
    assert!(matches!(fragments[1].annotation_type, AnnotationType::Highlight));
    assert!(matches!(fragments[2].annotation_type, AnnotationType::Plain));
    assert!(matches!(fragments[3].annotation_type, AnnotationType::Highlight));
}

#[test]
fn annotated_substring_with_multibyte_text() {
    let line = Line::from("äxä");
    let annotated = line.get_annotated_visible_substr(0..3, "x");
    let fragments = annotated.get_annotated_fragments();
    let texts: Vec<String> = fragments.iter().map(|f| f.string.clone()).collect();
    assert_eq!(texts, vec!["ä", "x", "ä"]);
}

#[test]
fn annotated_substring_without_matches_is_plain() {
    let line = Line::from("abc");
    let annotated = line.get_annotated_visible_substr(0..3, "");
    let fragments = annotated.get_annotated_fragments();
    assert_eq!(fragments.len(), 1);
    assert_eq!(fragments[0].string, "abc");
    assert!(matches!(fragments[0].annotation_type, AnnotationType::Plain));
}
