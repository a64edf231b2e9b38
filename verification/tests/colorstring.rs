use sarge_launcher::colorstring::{parse_colorstring, parse_q3_colorstring, split_colors};

fn span(color: &str, text: &str) -> String {
    format!("<span class=\"q3c-{}\">{}</span>", color, text)
}

#[test]
fn two_colors_give_two_runs() {
    let (plain, styled) = parse_colorstring(String::from("^1Red^7White"));
    assert_eq!(plain, "RedWhite");
    assert_eq!(styled, format!("{}{}", span("1", "Red"), span("7", "White")));
    assert_eq!(styled, "<span class=\"q3c-1\">Red</span><span class=\"q3c-7\">White</span>");
}

#[test]
fn angle_brackets_are_escaped_in_markup_only() {
    let (plain, styled) = parse_colorstring(String::from("<script>"));
    assert_eq!(plain, "<script>");
    assert!(styled.contains("&lt;script&gt;"));
    assert_eq!(styled, span("7", "&lt;script&gt;"));
}

#[test]
fn both_parsers_escape_angle_brackets() {
    let (plain, styled) = parse_q3_colorstring(String::from("<script>"));
    assert_eq!(plain, "<script>");
    assert_eq!(styled, span("7", "&lt;script&gt;"));
    assert!(!styled.contains("<script>"));
    let (plain, styled) = parse_q3_colorstring(String::from("<b>^2x"));
    assert_eq!(plain, "<b>x");
    assert_eq!(styled, format!("{}{}", span("7", "&lt;b&gt;"), span("2", "x")));
    let (plain, styled) = parse_q3_colorstring(String::from("^1Red^7White"));
    assert_eq!(plain, "RedWhite");
    assert_eq!(styled, format!("{}{}", span("1", "Red"), span("7", "White")));
}

#[test]
fn runs_without_text_give_no_element() {
    let (plain, styled) = parse_colorstring(String::from("^1^2^3x^4^5"));
    assert_eq!(plain, "x");
    assert_eq!(styled, span("3", "x"));
    assert_eq!(parse_colorstring(String::from("^1")), (String::new(), String::new()));
    assert_eq!(parse_colorstring(String::from("^1^2")), (String::new(), String::new()));
    let (plain, styled) = parse_colorstring(String::from("a^1^2b"));
    assert_eq!(plain, "ab");
    assert_eq!(styled, format!("{}{}", span("7", "a"), span("2", "b")));
}

#[test]
fn empty_and_blank_input_give_empty_strings() {
    assert_eq!(parse_colorstring(String::new()), (String::new(), String::new()));
    assert_eq!(parse_colorstring(String::from("  \t\n ")), (String::new(), String::new()));
    assert_eq!(parse_q3_colorstring(String::from(" ")), (String::new(), String::new()));
}

#[test]
fn surrounding_white_space_is_dropped() {
    let (plain, styled) = parse_colorstring(String::from("  hi there \u{a0}"));
    assert_eq!(plain, "hi there");
    assert_eq!(styled, span("7", "hi there"));
}

#[test]
fn caret_at_the_end_is_literal() {
    let (plain, styled) = parse_colorstring(String::from("abc^"));
    assert_eq!(plain, "abc^");
    assert_eq!(styled, span("7", "abc^"));
    let (plain, styled) = parse_colorstring(String::from("^"));
    assert_eq!(plain, "^");
    assert_eq!(styled, span("7", "^"));
}

#[test]
fn escape_at_the_end_closes_the_run() {
    let (plain, styled) = parse_colorstring(String::from("abc^1"));
    assert_eq!(plain, "abc");
    assert_eq!(styled, span("7", "abc"));
}

#[test]
fn caret_before_other_characters_is_literal() {
    let (plain, styled) = parse_colorstring(String::from("a^!b^^-c"));
    assert_eq!(plain, "a^!b^^-c");
    assert_eq!(styled, span("7", "a^!b^^-c"));
}

#[test]
fn color_letters_are_lowered() {
    let (plain, styled) = parse_colorstring(String::from("^Ax^zy^Qw"));
    assert_eq!(plain, "xyw");
    assert_eq!(
        styled,
        format!("{}{}{}", span("a", "x"), span("z", "y"), span("q", "w"))
    );
}

#[test]
fn bytes_stand_for_their_code_points() {
    let (plain, styled) = split_colors(&[0x41, 0xe9, 0x5e, 0x33, 0x42], true);
    assert_eq!(plain, "A\u{e9}B");
    assert_eq!(styled, format!("{}{}", span("7", "A\u{e9}"), span("3", "B")));
}

#[test]
fn text_beyond_ascii_is_taken_byte_by_byte() {
    let (plain, _) = parse_colorstring(String::from("\u{e9}"));
    assert_eq!(plain, "\u{c3}\u{a9}");
}

#[test]
fn white_space_is_what_the_standard_library_trims() {
    let listed = |c: char| {
        let n = c as u32;
        (0x09..=0x0d).contains(&n)
            || n == 0x20
            || n == 0x85
            || n == 0xa0
            || n == 0x1680
            || (0x2000..=0x200a).contains(&n)
            || n == 0x2028
            || n == 0x2029
            || n == 0x202f
            || n == 0x205f
            || n == 0x3000
    };
    for n in 0..=0x10ffffu32 {
        if let Some(c) = char::from_u32(n) {
            assert_eq!(c.is_whitespace(), listed(c), "{:x}", n);
            let padded = format!("{}a{}", c, c);
            assert_eq!(padded.trim() == "a", listed(c), "{:x}", n);
        }
    }
}

#[test]
fn every_kind_of_white_space_is_dropped() {
    let (plain, _) = parse_colorstring(String::from("\u{3000}\u{2003}\t^1x\u{2028}\u{85}\r\n"));
    assert_eq!(plain, "x");
    let (plain, _) = parse_colorstring(String::from("\u{200b}x"));
    assert_eq!(plain, "\u{e2}\u{80}\u{8b}x");
}
