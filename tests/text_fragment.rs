use hecto::view::textfragment::{GraphemeWidth, TextFragment};

#[test]
fn normal_character() {
    let text_fragment = TextFragment::new(String::from("A"));

    let character = text_fragment.grapheme.clone();
    let width = text_fragment.rendered_width;

    assert_eq!(character, "A");
    assert_eq!(width, GraphemeWidth::Half);
    assert_eq!(text_fragment.replacement, None);
}

#[test]
fn zero_width_character() {
    let text_fragment = TextFragment::new(String::from("\u{200b}"));

    println!("{:?}", text_fragment);
    println!("{:?}", text_fragment.replacement);

    assert_eq!(text_fragment.grapheme, "\u{200b}");
    assert_eq!(text_fragment.rendered_width, GraphemeWidth::Half);
    assert_eq!(text_fragment.replacement, Some('·'));
}

#[test]
fn full_width_character() {
    let text_fragment = TextFragment::new(String::from("Ａ"));

    assert_eq!(text_fragment.grapheme, "Ａ");
    assert_eq!(text_fragment.rendered_width, GraphemeWidth::Full);
    assert_eq!(text_fragment.replacement, None);
}

#[test]
fn fragment_len_and_character() {
    let wide = TextFragment::new(String::from("Ａ"));
    let blank = TextFragment::new(String::from("\u{200b}"));
    assert_eq!(wide.len(), 2);
    assert_eq!(blank.len(), 1);
    assert_eq!(blank.get_character(), "·");
}
