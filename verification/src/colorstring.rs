//! The engine's inline colour markup: `^` followed by one letter or digit
//! switches the colour of the text that follows.

use crate::text::trimmed;
use vstd::prelude::*;
use vstd::string::*;
use vstd::utf8::*;

verus! {

/// The byte that opens a colour escape, `^`.
pub const CARET: u8 = 0x5e;

/// The colour in force at the start of a text: `7`, white.
pub const DEFAULT_COLOR: u8 = 0x37;

/// Whether `b` can follow a caret as a colour code: an ASCII digit or letter.
pub open spec fn is_color_code(b: u8) -> bool {
    ||| 0x30 <= b <= 0x39
    ||| 0x41 <= b <= 0x5a
    ||| 0x61 <= b <= 0x7a
}

/// The colour that a colour code selects: the code itself, letters in lower
/// case.
pub open spec fn color_id(b: u8) -> u8 {
    if 0x41 <= b <= 0x5a {
        (b + 0x20) as u8
    } else {
        b
    }
}

/// Whether a colour escape starts at byte `i` of `b`: a caret, then a colour
/// code.
pub open spec fn escape_at(b: Seq<u8>, i: int) -> bool {
    0 <= i && i + 1 < b.len() && b[i] == CARET && is_color_code(b[i + 1])
}

/// How one byte of the text is written in the markup. With `escaping`, the
/// angle brackets are written as entities.
pub open spec fn shown(b: u8, escaping: bool) -> Seq<char> {
    if escaping && b == 0x3c {
        "&lt;"@
    } else if escaping && b == 0x3e {
        "&gt;"@
    } else {
        seq![b as char]
    }
}

/// One run of the markup: `text` inside an element whose class names the
/// colour.
pub open spec fn span_markup(color: u8, text: Seq<char>) -> Seq<char> {
    "<span class=\"q3c-"@ + seq![color as char] + "\">"@ + text + "</span>"@
}

/// What a run that an escape closes adds to the markup: its element, or
/// nothing if the run holds no text.
pub open spec fn closed_run(color: u8, run: Seq<char>) -> Seq<char> {
    if run.len() > 0 {
        span_markup(color, run)
    } else {
        Seq::empty()
    }
}

/// The plain text of `b` from byte `i` on: every byte but those of the colour
/// escapes.
pub open spec fn plain_from(b: Seq<u8>, i: int) -> Seq<char>
    decreases b.len() - i,
{
    if i < 0 || i >= b.len() {
        Seq::empty()
    } else if escape_at(b, i) {
        plain_from(b, i + 2)
    } else {
        seq![b[i] as char] + plain_from(b, i + 1)
    }
}

/// The markup of `b` from byte `i` on, where `color` is in force and `run`
/// is what the current run holds so far. An escape closes the run, and the
/// last byte of the text closes the last run. A run without text gives no
/// element, and an escape that ends the text opens no further run.
pub open spec fn styled_from(b: Seq<u8>, i: int, color: u8, run: Seq<char>, escaping: bool) -> Seq<
    char,
>
    decreases b.len() - i,
{
    if i < 0 || i >= b.len() {
        Seq::empty()
    } else if escape_at(b, i) {
        closed_run(color, run) + styled_from(
            b,
            i + 2,
            color_id(b[i + 1]),
            Seq::empty(),
            escaping,
        )
    } else if i == b.len() - 1 {
        span_markup(color, run + shown(b[i], escaping))
    } else {
        styled_from(b, i + 1, color, run + shown(b[i], escaping), escaping)
    }
}

/// The plain text of a piece of marked-up text.
pub open spec fn plain_text(b: Seq<u8>) -> Seq<char> {
    plain_from(b, 0)
}

/// The markup of a piece of marked-up text.
pub open spec fn styled_text(b: Seq<u8>, escaping: bool) -> Seq<char> {
    styled_from(b, 0, DEFAULT_COLOR, Seq::empty(), escaping)
}

/// The plain text of a text with colour escapes, white space around it
/// dropped.
pub open spec fn colored_plain(text: Seq<char>) -> Seq<char> {
    plain_text(encode_utf8(trimmed(text)))
}

/// The markup of a text with colour escapes, white space around it dropped
/// and angle brackets written as entities.
pub open spec fn colored_markup(text: Seq<char>) -> Seq<char> {
    styled_text(encode_utf8(trimmed(text)), true)
}

fn color_code(b: u8) -> (r: bool)
    ensures
        r == is_color_code(b),
{
    (0x30 <= b && b <= 0x39) || (0x41 <= b && b <= 0x5a) || (0x61 <= b && b <= 0x7a)
}

fn lower_color(b: u8) -> (r: u8)
    ensures
        r == color_id(b),
{
    if 0x41 <= b && b <= 0x5a {
        b + 0x20
    } else {
        b
    }
}

fn push_shown(run: &mut String, b: u8, escaping: bool)
    ensures
        final(run)@ == old(run)@ + shown(b, escaping),
{
    if escaping && b == 0x3c {
        run.append("&lt;");
    } else if escaping && b == 0x3e {
        run.append("&gt;");
    } else {
        run.push(b as char);
        assert(run@ =~= old(run)@ + seq![b as char]);
    }
}

fn push_span(styled: &mut String, color: u8, run: &String)
    ensures
        final(styled)@ == old(styled)@ + span_markup(color, run@),
{
    styled.append("<span class=\"q3c-");
    styled.push(color as char);
    styled.append("\">");
    styled.append(run.as_str());
    styled.append("</span>");
    assert(styled@ =~= old(styled)@ + span_markup(color, run@));
}

/// Splits marked-up text, given as bytes, into its plain text and its markup.
/// Each byte stands for the character with its code point.
pub fn split_colors(bytes: &[u8], escaping: bool) -> (r: (String, String))
    ensures
        r.0@ == plain_text(bytes@),
        r.1@ == styled_text(bytes@, escaping),
{
    let n = bytes.len();
    let mut pos: usize = 0;
    let mut color: u8 = DEFAULT_COLOR;
    let mut run = String::new();
    let mut plain = String::new();
    let mut styled = String::new();
    while pos < n
        invariant
            pos <= n,
            n == bytes.len(),
            plain_text(bytes@) == plain@ + plain_from(bytes@, pos as int),
            styled_text(bytes@, escaping) == styled@ + styled_from(
                bytes@,
                pos as int,
                color,
                run@,
                escaping,
            ),
        decreases n - pos,
    {
        let b = bytes[pos];
        if pos + 1 < n && b == CARET && color_code(bytes[pos + 1]) {
            let ghost before = styled@;
            if !run.as_str().is_empty() {
                push_span(&mut styled, color, &run);
            }
            assert(before + (closed_run(color, run@) + styled_from(
                bytes@,
                pos + 2,
                color_id(bytes[pos + 1]),
                Seq::empty(),
                escaping,
            )) =~= styled@ + styled_from(
                bytes@,
                pos + 2,
                color_id(bytes[pos + 1]),
                Seq::empty(),
                escaping,
            ));
            color = lower_color(bytes[pos + 1]);
            run = String::new();
            pos += 2;
        } else {
            let ghost before = plain@;
            plain.push(b as char);
            assert(before + (seq![b as char] + plain_from(bytes@, pos + 1)) =~= plain@
                + plain_from(bytes@, pos + 1));
            push_shown(&mut run, b, escaping);
            pos += 1;
            if pos == n {
                push_span(&mut styled, color, &run);
            }
        }
    }
    assert(plain@ + Seq::<char>::empty() =~= plain@);
    assert(styled@ + Seq::<char>::empty() =~= styled@);
    (plain, styled)
}

/// Splits a text with colour escapes into its plain text and its markup, in
/// which `<` and `>` of the text stand as entities. White space around the
/// text is dropped first; a text of white space alone gives two empty
/// strings.
pub fn parse_colorstring(q3_string: String) -> (r: (String, String))
    ensures
        r.0@ == colored_plain(q3_string@),
        r.1@ == colored_markup(q3_string@),
{
    let inner = q3_string.as_str().trim();
    split_colors(inner.as_bytes(), true)
}

/// Splits a text with colour escapes into its plain text and its markup, as
/// `parse_colorstring` does.
pub fn parse_q3_colorstring(q3_string: String) -> (r: (String, String))
    ensures
        r.0@ == colored_plain(q3_string@),
        r.1@ == colored_markup(q3_string@),
{
    let inner = q3_string.as_str().trim();
    split_colors(inner.as_bytes(), true)
}

} // verus!
