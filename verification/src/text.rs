//! Text helpers shared by the parsers: what the standard library's string
//! functions are taken to do, and the small conversions between bytes and text.

use vstd::prelude::*;
use vstd::utf8::*;

verus! {

/// The error of `String::from_utf8`; only its presence is looked at.
#[verifier::external_type_specification]
#[verifier::external_body]
pub struct ExFromUtf8Error(std::string::FromUtf8Error);

/// `String::from_utf8` succeeds exactly on well-formed UTF-8 and then holds
/// the characters that the bytes encode.
pub assume_specification[ String::from_utf8 ](vec: Vec<u8>) -> (r: Result<
    String,
    std::string::FromUtf8Error,
>)
    ensures
        r is Ok <==> valid_utf8(vec@),
        r matches Ok(s) ==> s@ == decode_utf8(vec@),
;

/// `String::push` appends one character.
pub assume_specification[ String::push ](s: &mut String, ch: char)
    ensures
        final(s)@ == old(s)@.push(ch),
;

/// The characters with the Unicode property `White_Space`, which is what the
/// standard library's `trim` strips.
pub open spec fn is_white_space(c: char) -> bool {
    let n = c as u32;
    ||| 0x09 <= n <= 0x0D
    ||| n == 0x20
    ||| n == 0x85
    ||| n == 0xA0
    ||| n == 0x1680
    ||| 0x2000 <= n <= 0x200A
    ||| n == 0x2028
    ||| n == 0x2029
    ||| n == 0x202F
    ||| n == 0x205F
    ||| n == 0x3000
}

/// `s` without its leading white space.
pub open spec fn trim_start_of(s: Seq<char>) -> Seq<char>
    decreases s.len(),
{
    if s.len() > 0 && is_white_space(s.first()) {
        trim_start_of(s.drop_first())
    } else {
        s
    }
}

/// `s` without its trailing white space.
pub open spec fn trim_end_of(s: Seq<char>) -> Seq<char>
    decreases s.len(),
{
    if s.len() > 0 && is_white_space(s.last()) {
        trim_end_of(s.drop_last())
    } else {
        s
    }
}

/// `s` without leading and trailing white space.
pub open spec fn trimmed(s: Seq<char>) -> Seq<char> {
    trim_end_of(trim_start_of(s))
}

/// `str::trim` returns the text between the first and the last character that
/// is not white space.
pub assume_specification<'a>[ str::trim ](s: &'a str) -> (r: &'a str)
    ensures
        r@ == trimmed(s@),
;

/// What `str::to_lowercase` makes of a text: each character replaced by its
/// lower-case form as Unicode defines it.
pub uninterp spec fn lowercase_of(text: Seq<char>) -> Seq<char>;

/// `str::to_lowercase` returns the lower-case form of the text, which
/// depends on the text alone.
pub assume_specification[ str::to_lowercase ](s: &str) -> (r: String)
    ensures
        r@ == lowercase_of(s@),
;

/// What `String::from_utf8_lossy` makes of a byte string: its text, with
/// the replacement character in the place of every malformed sequence.
pub uninterp spec fn lossy_text(bytes: Seq<u8>) -> Seq<char>;

/// Decodes a byte string as UTF-8, with the replacement character in the
/// place of every malformed sequence. The call is `String::from_utf8_lossy`,
/// whose result depends on the bytes alone.
#[verifier::external_body]
pub(crate) fn lossy(bytes: &[u8]) -> (s: String)
    ensures
        s@ == lossy_text(bytes@),
{
    String::from_utf8_lossy(bytes).into_owned()
}

/// The text that a byte string stands for: its characters if it is
/// well-formed UTF-8, and nothing otherwise.
pub open spec fn text_of(bytes: Seq<u8>) -> Seq<char> {
    if valid_utf8(bytes) {
        decode_utf8(bytes)
    } else {
        Seq::empty()
    }
}

/// Decodes a byte string as UTF-8; a malformed one gives the empty text.
pub fn bytes_to_text(bytes: Vec<u8>) -> (s: String)
    ensures
        s@ == text_of(bytes@),
{
    match String::from_utf8(bytes) {
        Ok(s) => s,
        Err(_) => String::new(),
    }
}

/// The first place at or after `from` where `bytes` holds `mark`, or the
/// length of `bytes` if there is none.
pub open spec fn next_mark(bytes: Seq<u8>, mark: u8, from: int) -> int
    decreases bytes.len() - from,
{
    if from < 0 || from >= bytes.len() {
        bytes.len() as int
    } else if bytes[from] == mark {
        from
    } else {
        next_mark(bytes, mark, from + 1)
    }
}

/// The pieces of `bytes` from `from` on that `mark` separates. There is one
/// piece more than there are marks; a piece may be empty.
pub open spec fn pieces_from(bytes: Seq<u8>, mark: u8, from: int) -> Seq<Seq<u8>>
    decreases bytes.len() - from,
{
    let end = next_mark(bytes, mark, from);
    if from < 0 || from > bytes.len() {
        Seq::empty()
    } else if from <= end < bytes.len() {
        seq![bytes.subrange(from, end)] + pieces_from(bytes, mark, end + 1)
    } else {
        seq![bytes.subrange(from, bytes.len() as int)]
    }
}

/// The pieces of `bytes` that `mark` separates.
pub open spec fn pieces(bytes: Seq<u8>, mark: u8) -> Seq<Seq<u8>> {
    pieces_from(bytes, mark, 0)
}

/// The next mark is not before the place the search starts at.
pub proof fn lemma_next_mark(bytes: Seq<u8>, mark: u8, from: int)
    requires
        0 <= from <= bytes.len(),
    ensures
        from <= next_mark(bytes, mark, from) <= bytes.len(),
        next_mark(bytes, mark, from) < bytes.len() ==> bytes[next_mark(bytes, mark, from)] == mark,
        forall|i: int| from <= i < next_mark(bytes, mark, from) ==> bytes[i] != mark,
    decreases bytes.len() - from,
{
    if from < bytes.len() && bytes[from] != mark {
        lemma_next_mark(bytes, mark, from + 1);
    }
}

/// The last place where `bytes` holds `mark` before place `before`, or -1
/// if there is none.
pub open spec fn last_mark(bytes: Seq<u8>, mark: u8, before: int) -> int
    decreases before,
{
    if before <= 0 || before > bytes.len() {
        -1
    } else if bytes[before - 1] == mark {
        before - 1
    } else {
        last_mark(bytes, mark, before - 1)
    }
}

/// A mark at place `at` is not behind the last mark.
pub proof fn lemma_last_is_behind(bytes: Seq<u8>, mark: u8, at: int)
    requires
        0 <= at < bytes.len(),
        bytes[at] == mark,
    ensures
        at <= last_mark(bytes, mark, bytes.len() as int),
{
    lemma_last_from(bytes, mark, at, bytes.len() as int);
}

proof fn lemma_last_from(bytes: Seq<u8>, mark: u8, at: int, before: int)
    requires
        0 <= at < before <= bytes.len(),
        bytes[at] == mark,
    ensures
        at <= last_mark(bytes, mark, before),
    decreases before,
{
    if bytes[before - 1] != mark {
        lemma_last_from(bytes, mark, at, before - 1);
    }
}

/// Finds the last place where `bytes` holds `mark`.
pub fn find_last(bytes: &[u8], mark: u8) -> (r: Option<usize>)
    ensures
        match r {
            Some(at) => at == last_mark(bytes@, mark, bytes@.len() as int) && at < bytes@.len()
                && bytes@[at as int] == mark,
            None => last_mark(bytes@, mark, bytes@.len() as int) == -1,
        },
{
    let mut i: usize = bytes.len();
    while i > 0
        invariant
            i <= bytes@.len(),
            last_mark(bytes@, mark, bytes@.len() as int) == last_mark(bytes@, mark, i as int),
        decreases i,
    {
        if bytes[i - 1] == mark {
            return Some(i - 1);
        }
        i -= 1;
    }
    None
}

/// Finds the first place at or after `from` where `bytes` holds `mark`.
pub fn find_next(bytes: &[u8], mark: u8, from: usize) -> (r: Option<usize>)
    requires
        from <= bytes@.len(),
    ensures
        match r {
            Some(at) => at == next_mark(bytes@, mark, from as int) && from <= at < bytes@.len()
                && bytes@[at as int] == mark,
            None => next_mark(bytes@, mark, from as int) == bytes@.len(),
        },
{
    let mut i: usize = from;
    while i < bytes.len()
        invariant
            from <= i <= bytes@.len(),
            next_mark(bytes@, mark, from as int) == next_mark(bytes@, mark, i as int),
        decreases bytes@.len() - i,
    {
        if bytes[i] == mark {
            return Some(i);
        }
        i += 1;
    }
    None
}

/// Copies the bytes of `bytes` from `from` up to `to`.
pub fn copy_range(bytes: &[u8], from: usize, to: usize) -> (out: Vec<u8>)
    requires
        from <= to <= bytes@.len(),
    ensures
        out@ == bytes@.subrange(from as int, to as int),
{
    let mut out: Vec<u8> = Vec::new();
    let mut i: usize = from;
    while i < to
        invariant
            from <= i <= to <= bytes@.len(),
            out@ == bytes@.subrange(from as int, i as int),
        decreases to - i,
    {
        out.push(bytes[i]);
        assert(out@ =~= bytes@.subrange(from as int, i + 1));
        i += 1;
    }
    out
}

/// What a list of byte strings holds.
pub open spec fn byte_views(list: Seq<Vec<u8>>) -> Seq<Seq<u8>> {
    Seq::new(list.len(), |i: int| list[i]@)
}

/// Cuts `bytes` at every `mark`.
pub fn split_bytes(bytes: &[u8], mark: u8) -> (out: Vec<Vec<u8>>)
    ensures
        byte_views(out@) == pieces(bytes@, mark),
        out@.len() >= 1,
{
    let mut out: Vec<Vec<u8>> = Vec::new();
    let mut from: usize = 0;
    let mut i: usize = 0;
    while i < bytes.len()
        invariant
            from <= i <= bytes@.len(),
            next_mark(bytes@, mark, from as int) == next_mark(bytes@, mark, i as int),
            pieces(bytes@, mark) == byte_views(out@) + pieces_from(bytes@, mark, from as int),
        decreases bytes@.len() - i,
    {
        if bytes[i] == mark {
            let piece = copy_range(bytes, from, i);
            let ghost before = byte_views(out@);
            out.push(piece);
            assert(byte_views(out@) =~= before.push(piece@));
            proof {
                lemma_next_mark(bytes@, mark, from as int);
                lemma_next_mark(bytes@, mark, i as int);
            }
            assert(before + (seq![piece@] + pieces_from(bytes@, mark, i + 1)) =~= byte_views(out@)
                + pieces_from(bytes@, mark, i + 1));
            from = i + 1;
        }
        i += 1;
    }
    let piece = copy_range(bytes, from, bytes.len());
    let ghost before = byte_views(out@);
    out.push(piece);
    assert(byte_views(out@) =~= before.push(piece@));
    assert(before + seq![piece@] =~= byte_views(out@));
    out
}

/// The texts of a list of strings.
pub open spec fn string_views(list: Seq<String>) -> Seq<Seq<char>> {
    Seq::new(list.len(), |i: int| list[i]@)
}

/// The first `upto` bytes of `bytes` without those that equal `mark`.
pub open spec fn without_mark(bytes: Seq<u8>, mark: u8, upto: int) -> Seq<u8>
    decreases upto,
{
    if upto <= 0 {
        Seq::empty()
    } else if bytes[upto - 1] == mark {
        without_mark(bytes, mark, upto - 1)
    } else {
        without_mark(bytes, mark, upto - 1).push(bytes[upto - 1])
    }
}

/// Copies `bytes` without the bytes that equal `mark`.
pub fn remove_mark(bytes: &[u8], mark: u8) -> (out: Vec<u8>)
    ensures
        out@ == without_mark(bytes@, mark, bytes@.len() as int),
{
    let mut out: Vec<u8> = Vec::new();
    let mut i: usize = 0;
    while i < bytes.len()
        invariant
            i <= bytes@.len(),
            out@ == without_mark(bytes@, mark, i as int),
        decreases bytes@.len() - i,
    {
        if bytes[i] != mark {
            out.push(bytes[i]);
        }
        i += 1;
    }
    out
}

/// A line without the carriage return that may end it.
pub open spec fn without_return(line: Seq<u8>) -> Seq<u8> {
    if line.len() > 0 && line.last() == 0x0d {
        line.drop_last()
    } else {
        line
    }
}

/// The lines of a text. A line ends at a line feed, and a carriage return
/// just before that line feed is no part of it. What follows the last line
/// feed is a line as it stands, unless it is empty.
pub open spec fn lines_of(bytes: Seq<u8>) -> Seq<Seq<u8>> {
    let cut = pieces(bytes, 0x0a);
    let ended = Seq::new((cut.len() - 1) as nat, |i: int| without_return(cut[i]));
    if cut.len() > 0 && cut.last().len() > 0 {
        ended.push(cut.last())
    } else {
        ended
    }
}

/// Cuts a text into its lines.
pub fn split_lines(bytes: &[u8]) -> (out: Vec<Vec<u8>>)
    ensures
        byte_views(out@) == lines_of(bytes@),
{
    let mut cut = split_bytes(bytes, 0x0a);
    let ghost whole = byte_views(cut@);
    let last = cut.pop().unwrap();
    assert(last@ == whole.last());
    assert(byte_views(cut@) =~= whole.drop_last());
    let mut out: Vec<Vec<u8>> = Vec::new();
    let mut i: usize = 0;
    while i < cut.len()
        invariant
            i <= cut@.len(),
            cut@.len() == whole.len() - 1,
            byte_views(cut@) == whole.drop_last(),
            out@.len() == i,
            forall|j: int| 0 <= j < i ==> (#[trigger] out@[j])@ == without_return(whole[j]),
        decreases cut@.len() - i,
    {
        let line = cut[i].as_slice();
        assert(byte_views(cut@)[i as int] == cut@[i as int]@);
        assert(whole.drop_last()[i as int] == whole[i as int]);
        let end: usize = if line.len() > 0 && line[line.len() - 1] == 0x0d {
            line.len() - 1
        } else {
            line.len()
        };
        let copy = copy_range(line, 0, end);
        assert(copy@ =~= without_return(whole[i as int]));
        out.push(copy);
        i += 1;
    }
    if last.len() > 0 {
        out.push(last);
    }
    assert(byte_views(out@) =~= lines_of(bytes@));
    out
}

/// Whether `bytes` ends with `end`.
pub fn ends_with(bytes: &[u8], end: &[u8]) -> (r: bool)
    ensures
        r == end@.is_suffix_of(bytes@),
{
    if end.len() > bytes.len() {
        return false;
    }
    let offset: usize = bytes.len() - end.len();
    let mut i: usize = 0;
    while i < end.len()
        invariant
            i <= end@.len() <= bytes@.len() <= usize::MAX,
            offset == bytes@.len() - end@.len(),
            forall|j: int| 0 <= j < i ==> end@[j] == bytes@[offset + j],
        decreases end@.len() - i,
    {
        if end[i] != bytes[offset + i] {
            assert(bytes@.subrange(offset as int, bytes@.len() as int)[i as int] != end@[i as int]);
            return false;
        }
        i += 1;
    }
    assert(end@ =~= bytes@.subrange(offset as int, bytes@.len() as int));
    true
}

/// Whether `needle` stands somewhere in `bytes`.
pub open spec fn holds(bytes: Seq<u8>, needle: Seq<u8>) -> bool {
    exists|at: int|
        0 <= at && at + needle.len() <= bytes.len() && #[trigger] bytes.subrange(
            at,
            at + needle.len(),
        ) == needle
}

/// Whether `needle` stands somewhere in `bytes`.
pub fn contains_bytes(bytes: &[u8], needle: &[u8]) -> (r: bool)
    ensures
        r == holds(bytes@, needle@),
{
    if needle.len() > bytes.len() {
        return false;
    }
    let last: usize = bytes.len() - needle.len();
    let mut at: usize = 0;
    while at <= last
        invariant
            at <= last + 1,
            last == bytes@.len() - needle@.len(),
            forall|k: int|
                0 <= k < at ==> #[trigger] bytes@.subrange(k, k + needle@.len()) != needle@,
        decreases last + 1 - at,
    {
        let rest = vstd::slice::slice_subrange(bytes, at, bytes.len());
        if begins_with(rest, needle) {
            assert(rest@.subrange(0, needle@.len() as int) =~= bytes@.subrange(
                at as int,
                at + needle@.len(),
            ));
            return true;
        }
        assert(rest@.subrange(0, needle@.len() as int) =~= bytes@.subrange(
            at as int,
            at + needle@.len(),
        ));
        at += 1;
    }
    false
}

/// Whether two byte strings are equal.
pub fn same_bytes(a: &[u8], b: &[u8]) -> (r: bool)
    ensures
        r == (a@ == b@),
{
    if a.len() != b.len() {
        return false;
    }
    let r = begins_with(a, b);
    assert(b@.is_prefix_of(a@) && a@.len() == b@.len() ==> a@ =~= b@);
    r
}

/// Whether `bytes` begins with `start`.
pub fn begins_with(bytes: &[u8], start: &[u8]) -> (r: bool)
    ensures
        r == start@.is_prefix_of(bytes@),
{
    if start.len() > bytes.len() {
        return false;
    }
    let mut i: usize = 0;
    while i < start.len()
        invariant
            i <= start@.len() <= bytes@.len(),
            forall|j: int| 0 <= j < i ==> start@[j] == bytes@[j],
        decreases start@.len() - i,
    {
        if start[i] != bytes[i] {
            assert(!(start@ =~= bytes@.subrange(0, start@.len() as int)));
            return false;
        }
        i += 1;
    }
    assert(start@ =~= bytes@.subrange(0, start@.len() as int));
    true
}

} // verus!
