//! The levels that the game archives hold, and what their arena files say
//! of them.

use crate::colorstring::{colored_markup, colored_plain, parse_colorstring};
use crate::gamestate::first_wins;
use crate::info_map::{str_eq, InfoMap};
use crate::text::{
    begins_with, byte_views, bytes_to_text, contains_bytes, copy_range, ends_with, holds, lines_of,
    lowercase_of, pieces, remove_mark, same_bytes, split_bytes, split_lines, string_views,
    text_of, trimmed, without_mark,
};
use vstd::prelude::*;
use vstd::string::*;
use vstd::utf8::*;

verus! {

/// The tab, which counts for nothing in an arena file.
pub const TAB: u8 = 0x09;

/// The quote that encloses the values of an arena file.
pub const QUOTE: u8 = 0x22;

/// The maps that a list of arenas stands for.
pub open spec fn arena_views(arenas: Seq<InfoMap>) -> Seq<Map<Seq<char>, Seq<char>>> {
    Seq::new(arenas.len(), |i: int| arenas[i]@)
}

/// The value of a line of an arena file: what stands between the first two
/// quotes, without white space around it.
pub open spec fn arena_value(piece: Seq<u8>) -> Seq<char> {
    trimmed(text_of(piece))
}

/// The arena after a line that is neither blank nor a comment nor a closing
/// brace. An opening brace starts a new arena. A line with a quote sets the
/// value of its key, unless the arena has that value already: `map` in
/// lower case, `type` as the game types, `longname` as markup, `author` as
/// plain text and as markup. Other keys count for nothing.
pub open spec fn with_arena_line(current: Map<Seq<char>, Seq<char>>, line: Seq<u8>) -> Map<
    Seq<char>,
    Seq<char>,
> {
    let start = if line == encode_utf8("{"@) {
        Map::empty()
    } else {
        current
    };
    let parts = pieces(line, QUOTE);
    if parts.len() > 1 {
        with_arena_entry(
            start,
            lowercase_of(text_of(parts[0])),
            arena_value(parts[1]),
            lowercase_of(arena_value(parts[1])),
        )
    } else {
        start
    }
}

/// The arena after one entry. `lowered_key` is what stands before the
/// quote, in lower case; `value` is the entry's value and `lowered_value`
/// the same in lower case. The key counts without the white space around
/// it.
pub open spec fn with_arena_entry(
    arena: Map<Seq<char>, Seq<char>>,
    lowered_key: Seq<char>,
    value: Seq<char>,
    lowered_value: Seq<char>,
) -> Map<Seq<char>, Seq<char>> {
    let key = trimmed(lowered_key);
    if key == "map"@ {
        first_wins(arena, "map"@, lowered_value)
    } else if key == "type"@ {
        first_wins(arena, "gametype"@, value)
    } else if key == "longname"@ {
        first_wins(arena, "longname"@, colored_markup(value))
    } else if key == "author"@ {
        first_wins(
            first_wins(arena, "author"@, colored_plain(value)),
            "author_vhtml"@,
            colored_markup(value),
        )
    } else {
        arena
    }
}

/// The arenas that the lines from place `i` on add to `found`, where
/// `current` is the arena being read. Tabs count for nothing; blank lines
/// and lines that begin with `//` are passed over; a closing brace ends the
/// arena, which is kept if it names a map.
pub open spec fn arenas_from(
    lines: Seq<Seq<u8>>,
    i: int,
    current: Map<Seq<char>, Seq<char>>,
    found: Seq<Map<Seq<char>, Seq<char>>>,
) -> Seq<Map<Seq<char>, Seq<char>>>
    decreases lines.len() - i,
{
    if i < 0 || i >= lines.len() {
        found
    } else {
        let line = without_mark(lines[i], TAB, lines[i].len() as int);
        if line.len() == 0 || encode_utf8("//"@).is_prefix_of(line) {
            arenas_from(lines, i + 1, current, found)
        } else if line == encode_utf8("}"@) {
            arenas_from(
                lines,
                i + 1,
                current,
                if current.dom().contains("map"@) {
                    found.push(current)
                } else {
                    found
                },
            )
        } else {
            arenas_from(lines, i + 1, with_arena_line(current, line), found)
        }
    }
}

/// The arenas that an arena file describes.
pub open spec fn arenas_of(contents: Seq<char>) -> Seq<Map<Seq<char>, Seq<char>>> {
    arenas_from(lines_of(encode_utf8(contents)), 0, Map::empty(), Seq::empty())
}

fn trimmed_text(bytes: &[u8]) -> (text: String)
    ensures
        text@ == trimmed(text_of(bytes@)),
{
    let whole = bytes_to_text(copy_range(bytes, 0, bytes.len()));
    assert(bytes@.subrange(0, bytes@.len() as int) =~= bytes@);
    String::from_str(whole.as_str().trim())
}

/// Takes one entry into an arena. `lowered_key` is what stands before the
/// quote, in lower case; `value` is the entry's value and `lowered_value`
/// the same in lower case.
pub fn arena_entry(arena: InfoMap, lowered_key: &str, value: String, lowered_value: String) -> (after:
    InfoMap)
    ensures
        after@ == with_arena_entry(arena@, lowered_key@, value@, lowered_value@),
{
    let mut arena = arena;
    let key = lowered_key.trim();
    if str_eq(key, "map") {
        arena.insert_if_absent(String::from_str("map"), lowered_value);
    } else if str_eq(key, "type") {
        arena.insert_if_absent(String::from_str("gametype"), value);
    } else if str_eq(key, "longname") {
        let parsed = parse_colorstring(value);
        arena.insert_if_absent(String::from_str("longname"), parsed.1);
    } else if str_eq(key, "author") {
        let parsed = parse_colorstring(value);
        arena.insert_if_absent(String::from_str("author"), parsed.0);
        arena.insert_if_absent(String::from_str("author_vhtml"), parsed.1);
    }
    arena
}

fn apply_arena_line(current: InfoMap, line: &[u8]) -> (after: InfoMap)
    ensures
        after@ == with_arena_line(current@, line@),
{
    let mut arena = if same_bytes(line, "{".as_bytes()) {
        InfoMap::new()
    } else {
        current
    };
    let parts = split_bytes(line, QUOTE);
    if parts.len() > 1 {
        assert(byte_views(parts@)[0] == parts@[0]@);
        assert(byte_views(parts@)[1] == parts@[1]@);
        let first = bytes_to_text(copy_range(parts[0].as_slice(), 0, parts[0].len()));
        assert(parts@[0]@.subrange(0, parts@[0]@.len() as int) =~= parts@[0]@);
        let lowered = first.as_str().to_lowercase();
        let value = trimmed_text(parts[1].as_slice());
        let lowered_value = value.as_str().to_lowercase();
        arena = arena_entry(arena, lowered.as_str(), value, lowered_value);
    }
    arena
}

/// Reads the arenas that an arena file describes.
pub fn read_arenas(contents: &str) -> (arenas: Vec<InfoMap>)
    ensures
        arena_views(arenas@) == arenas_of(contents@),
{
    let mut arenas: Vec<InfoMap> = Vec::new();
    let mut current_arena_data = InfoMap::new();
    let lines = split_lines(contents.as_bytes());
    assert(arena_views(arenas@) =~= Seq::<Map<Seq<char>, Seq<char>>>::empty());
    let mut i: usize = 0;
    while i < lines.len()
        invariant
            i <= lines@.len(),
            byte_views(lines@) == lines_of(encode_utf8(contents@)),
            arenas_of(contents@) == arenas_from(
                byte_views(lines@),
                i as int,
                current_arena_data@,
                arena_views(arenas@),
            ),
        decreases lines@.len() - i,
    {
        assert(byte_views(lines@)[i as int] == lines@[i as int]@);
        let new_l = remove_mark(lines[i].as_slice(), TAB);
        if new_l.len() == 0 || begins_with(new_l.as_slice(), "//".as_bytes()) {
        } else if same_bytes(new_l.as_slice(), "}".as_bytes()) {
            if current_arena_data.contains_key("map") {
                let ghost before = arena_views(arenas@);
                let copy = current_arena_data.duplicate();
                arenas.push(copy);
                assert(arena_views(arenas@) =~= before.push(current_arena_data@));
            }
        } else {
            current_arena_data = apply_arena_line(current_arena_data, new_l.as_slice());
        }
        i += 1;
    }
    arenas
}

/// What a level is, as plain values.
pub struct LevelView {
    pub pk3_name: Seq<char>,
    pub level_name: Seq<char>,
    pub long_name: Seq<char>,
    pub gametype: Seq<Seq<char>>,
    pub author: Seq<char>,
    pub author_vhtml: Seq<char>,
    pub path: Seq<char>,
    pub parent_path: Seq<char>,
    pub is_defrag: bool,
    pub year_created: u16,
}

/// A level of a game archive.
#[derive(Clone, Debug)]
pub struct Level {
    pub pk3_name: String,
    pub level_name: String,
    pub long_name: String,
    pub gametype: Vec<String>,
    pub author: String,
    pub author_vhtml: String,
    pub path: String,
    pub parent_path: String,
    pub is_defrag: bool,
    pub year_created: u16,
}

impl View for Level {
    type V = LevelView;

    open spec fn view(&self) -> LevelView {
        LevelView {
            pk3_name: self.pk3_name@,
            level_name: self.level_name@,
            long_name: self.long_name@,
            gametype: string_views(self.gametype@),
            author: self.author@,
            author_vhtml: self.author_vhtml@,
            path: self.path@,
            parent_path: self.parent_path@,
            is_defrag: self.is_defrag,
            year_created: self.year_created,
        }
    }
}

/// The views of a list of levels.
pub open spec fn level_views(levels: Seq<Level>) -> Seq<LevelView> {
    Seq::new(levels.len(), |i: int| levels[i]@)
}

/// The game types among the first `upto` of `parts`: those that are more
/// than white space.
pub open spec fn kept_types(parts: Seq<Seq<u8>>, upto: int) -> Seq<Seq<char>>
    decreases upto,
{
    if upto <= 0 {
        Seq::empty()
    } else if trimmed(text_of(parts[upto - 1])).len() == 0 {
        kept_types(parts, upto - 1)
    } else {
        kept_types(parts, upto - 1).push(text_of(parts[upto - 1]))
    }
}

/// The game types that a value names: its words, a space between them.
pub open spec fn game_types(value: Seq<char>) -> Seq<Seq<char>> {
    let parts = pieces(encode_utf8(value), 0x20);
    kept_types(parts, parts.len() as int)
}

/// The place of the first arena at or after `from` that is of the map
/// `name`, or the number of arenas if there is none.
pub open spec fn arena_named(
    arenas: Seq<Map<Seq<char>, Seq<char>>>,
    name: Seq<char>,
    from: int,
) -> int
    decreases arenas.len() - from,
{
    if from < 0 || from >= arenas.len() {
        arenas.len() as int
    } else if arenas[from].dom().contains("map"@) && arenas[from]["map"@] == name {
        from
    } else {
        arena_named(arenas, name, from + 1)
    }
}

/// The value of `key` in `arena`, or `current` if the arena has none.
pub open spec fn arena_or(
    arena: Map<Seq<char>, Seq<char>>,
    key: Seq<char>,
    current: Seq<char>,
) -> Seq<char> {
    if arena.dom().contains(key) {
        arena[key]
    } else {
        current
    }
}

/// The level with what an arena says of it: its long name, its author and
/// its game types, as far as the arena names them.
pub open spec fn with_arena(level: LevelView, arena: Map<Seq<char>, Seq<char>>) -> LevelView {
    LevelView {
        long_name: arena_or(arena, "longname"@, level.long_name),
        author: arena_or(arena, "author"@, level.author),
        gametype: if arena.dom().contains("gametype"@) {
            game_types(arena["gametype"@])
        } else {
            level.gametype
        },
        ..level
    }
}

/// The level with what a defrag arena says of it: it is a defrag level of
/// the game type `race`, unless the arena names game types; and it has the
/// long name and the author of the arena, as far as the arena names them.
pub open spec fn with_defi(level: LevelView, arena: Map<Seq<char>, Seq<char>>) -> LevelView {
    LevelView {
        is_defrag: true,
        long_name: arena_or(arena, "longname"@, level.long_name),
        author: arena_or(arena, "author"@, level.author),
        author_vhtml: if arena.dom().contains("author"@) {
            arena_or(arena, "author_vhtml"@, level.author_vhtml)
        } else {
            level.author_vhtml
        },
        gametype: if arena.dom().contains("gametype"@) {
            game_types(arena["gametype"@])
        } else {
            seq!["race"@]
        },
        ..level
    }
}

/// Whether a level is one of the base game's own: it comes from the
/// archive `pak0` below a directory whose path holds `baseq3`.
pub open spec fn is_base_level(level: LevelView) -> bool {
    level.pk3_name == "pak0"@ && holds(encode_utf8(level.parent_path), encode_utf8("baseq3"@))
}

/// The level with all that is known of it: the authors of the base
/// game's levels, the year of its file if there is one, and what the first
/// arena and the first defrag arena of its map say. Arenas name their map in
/// lower case.
pub open spec fn with_level_data(
    level: LevelView,
    year: Option<u16>,
    arenas: Seq<Map<Seq<char>, Seq<char>>>,
    defis: Seq<Map<Seq<char>, Seq<char>>>,
) -> LevelView {
    with_level_data_as(level, lowercase_of(level.level_name), year, arenas, defis)
}

/// The level with all that is known of it, where `name` is the name by
/// which the arenas know the level.
pub open spec fn with_level_data_as(
    level: LevelView,
    name: Seq<char>,
    year: Option<u16>,
    arenas: Seq<Map<Seq<char>, Seq<char>>>,
    defis: Seq<Map<Seq<char>, Seq<char>>>,
) -> LevelView {
    let signed = if is_base_level(level) {
        LevelView { author: "id Software"@, author_vhtml: "id Software"@, ..level }
    } else {
        level
    };
    let dated = match year {
        Some(y) => LevelView { year_created: y, ..signed },
        None => signed,
    };
    let arena = arena_named(arenas, name, 0);
    let described = if arena < arenas.len() {
        with_arena(dated, arenas[arena])
    } else {
        dated
    };
    let defi = arena_named(defis, name, 0);
    if defi < defis.len() {
        with_defi(described, defis[defi])
    } else {
        described
    }
}

/// The arenas that the first `upto` of the files describe, in their order.
pub open spec fn arenas_of_files(files: Seq<Seq<char>>, upto: int) -> Seq<Map<Seq<char>, Seq<char>>>
    decreases upto,
{
    if upto <= 0 {
        Seq::empty()
    } else {
        arenas_of_files(files, upto - 1) + arenas_of(files[upto - 1])
    }
}

/// The year of level `i`, if the list names one.
pub open spec fn year_of(years: Seq<Option<u16>>, i: int) -> Option<u16> {
    if 0 <= i < years.len() {
        years[i]
    } else {
        None
    }
}

/// What an entry of a game archive is to the launcher.
#[derive(Clone, Copy, Debug, PartialEq, Eq, Structural)]
pub enum EntryKind {
    /// A level: a `.bsp` file below `maps`.
    Bsp,
    /// An arena file: `arenas.txt` or a `.arena` file below `scripts`.
    Arena,
    /// A defrag arena file: a `.defi` file below `scripts`.
    Defi,
    /// Anything else.
    Other,
}

/// What the entry with the name `lowered`, given in lower case, is.
pub open spec fn entry_kind(lowered: Seq<u8>) -> EntryKind {
    if encode_utf8("maps"@).is_prefix_of(lowered) && encode_utf8(".bsp"@).is_suffix_of(lowered) {
        EntryKind::Bsp
    } else if encode_utf8("scripts"@).is_prefix_of(lowered) && (encode_utf8(
        "arenas.txt"@,
    ).is_suffix_of(lowered) || encode_utf8(".arena"@).is_suffix_of(lowered)) {
        EntryKind::Arena
    } else if encode_utf8("scripts"@).is_prefix_of(lowered) && encode_utf8(".defi"@).is_suffix_of(
        lowered,
    ) {
        EntryKind::Defi
    } else {
        EntryKind::Other
    }
}

/// The part of an entry's name between its first `before` bytes and its
/// last four: the name of a level without `maps/` and `.bsp`. A shorter name
/// gives the empty text.
pub open spec fn inner_name(name: Seq<u8>, before: int) -> Seq<char> {
    if name.len() >= before + 4 {
        text_of(name.subrange(before, name.len() - 4))
    } else {
        Seq::empty()
    }
}

/// The level that an entry of an archive stands for, with nothing known of
/// it but its names.
pub open spec fn bare_level(
    pk3_name: Seq<char>,
    name: Seq<char>,
    path: Seq<char>,
    parent_path: Seq<char>,
) -> LevelView {
    LevelView {
        pk3_name,
        level_name: inner_name(encode_utf8(name), 5),
        long_name: Seq::empty(),
        gametype: Seq::empty(),
        author: Seq::empty(),
        author_vhtml: Seq::empty(),
        path,
        parent_path,
        is_defrag: false,
        year_created: 1901,
    }
}

/// The kind of the entry `name`, whatever its case.
pub open spec fn kind_of(name: Seq<char>) -> EntryKind {
    entry_kind(encode_utf8(lowercase_of(name)))
}

/// The levels among the first `upto` entries of an archive.
pub open spec fn levels_among(
    names: Seq<Seq<char>>,
    upto: int,
    pk3_name: Seq<char>,
    path: Seq<char>,
    parent_path: Seq<char>,
) -> Seq<LevelView>
    decreases upto,
{
    if upto <= 0 {
        Seq::empty()
    } else if kind_of(names[upto - 1]) == EntryKind::Bsp {
        levels_among(names, upto - 1, pk3_name, path, parent_path).push(
            bare_level(pk3_name, names[upto - 1], path, parent_path),
        )
    } else {
        levels_among(names, upto - 1, pk3_name, path, parent_path)
    }
}

/// The names among the first `upto` entries that are of the kind `kind`.
pub open spec fn names_among(names: Seq<Seq<char>>, upto: int, kind: EntryKind) -> Seq<Seq<char>>
    decreases upto,
{
    if upto <= 0 {
        Seq::empty()
    } else if kind_of(names[upto - 1]) == kind {
        names_among(names, upto - 1, kind).push(names[upto - 1])
    } else {
        names_among(names, upto - 1, kind)
    }
}

/// The formats of the pictures that show a level.
#[derive(Clone, Copy, Debug, PartialEq, Eq, Structural)]
pub enum ShotFormat {
    Jpeg,
    Tga,
}

/// The format of the level picture with the name `name`; nothing if the
/// entry is no level picture.
pub open spec fn shot_format(name: Seq<u8>) -> Option<ShotFormat> {
    if !encode_utf8("levelshots"@).is_prefix_of(name) {
        None
    } else if encode_utf8(".jpg"@).is_suffix_of(name) {
        Some(ShotFormat::Jpeg)
    } else if encode_utf8(".tga"@).is_suffix_of(name) {
        Some(ShotFormat::Tga)
    } else {
        None
    }
}

/// The place of the first name at or after `from` that holds `level`; the
/// number of names if there is none.
pub open spec fn shot_among(lowered: Seq<Seq<char>>, level: Seq<char>, from: int) -> int
    decreases lowered.len() - from,
{
    if from < 0 || from >= lowered.len() {
        lowered.len() as int
    } else if holds(encode_utf8(lowered[from]), encode_utf8(level)) {
        from
    } else {
        shot_among(lowered, level, from + 1)
    }
}

/// The names in lower case.
pub open spec fn lowered_names(names: Seq<Seq<char>>) -> Seq<Seq<char>> {
    Seq::new(names.len(), |i: int| lowercase_of(names[i]))
}

/// The place of the first picture at or after `from` whose name, in lower
/// case, holds `level`; the number of pictures if there is none.
pub open spec fn shot_of(shots: Seq<Seq<char>>, level: Seq<char>, from: int) -> int {
    shot_among(lowered_names(shots), level, from)
}

/// What the entry with the name `lowered`, given in lower case, is.
pub fn classify_entry(lowered: &[u8]) -> (kind: EntryKind)
    ensures
        kind == entry_kind(lowered@),
{
    if begins_with(lowered, "maps".as_bytes()) && ends_with(lowered, ".bsp".as_bytes()) {
        EntryKind::Bsp
    } else if begins_with(lowered, "scripts".as_bytes()) && (ends_with(
        lowered,
        "arenas.txt".as_bytes(),
    ) || ends_with(lowered, ".arena".as_bytes())) {
        EntryKind::Arena
    } else if begins_with(lowered, "scripts".as_bytes()) && ends_with(lowered, ".defi".as_bytes()) {
        EntryKind::Defi
    } else {
        EntryKind::Other
    }
}

/// The format of the level picture with the name `name`; nothing if the
/// entry is no level picture.
pub fn levelshot_format(name: &[u8]) -> (format: Option<ShotFormat>)
    ensures
        format == shot_format(name@),
{
    if !begins_with(name, "levelshots".as_bytes()) {
        None
    } else if ends_with(name, ".jpg".as_bytes()) {
        Some(ShotFormat::Jpeg)
    } else if ends_with(name, ".tga".as_bytes()) {
        Some(ShotFormat::Tga)
    } else {
        None
    }
}

/// The part of an entry's name between its first `before` bytes and its
/// last four.
pub fn entry_stem(name: &str, before: usize) -> (stem: String)
    requires
        before <= usize::MAX - 4,
    ensures
        stem@ == inner_name(encode_utf8(name@), before as int),
{
    let bytes = name.as_bytes();
    if bytes.len() >= before + 4 {
        bytes_to_text(copy_range(bytes, before, bytes.len() - 4))
    } else {
        String::new()
    }
}

/// Finds the first of the names, given in lower case, that holds `level`.
pub fn pick_lowered_levelshot(lowered: &Vec<String>, level: &str) -> (r: Option<usize>)
    ensures
        match r {
            Some(at) => at == shot_among(string_views(lowered@), level@, 0) && at < lowered@.len(),
            None => shot_among(string_views(lowered@), level@, 0) == lowered@.len(),
        },
{
    let mut i: usize = 0;
    while i < lowered.len()
        invariant
            i <= lowered@.len(),
            shot_among(string_views(lowered@), level@, 0) == shot_among(
                string_views(lowered@),
                level@,
                i as int,
            ),
        decreases lowered@.len() - i,
    {
        assert(string_views(lowered@)[i as int] == lowered@[i as int]@);
        if contains_bytes(lowered[i].as_str().as_bytes(), level.as_bytes()) {
            return Some(i);
        }
        i += 1;
    }
    None
}

/// Finds the first picture whose name, in lower case, holds `level`.
pub fn pick_levelshot(shots: &Vec<String>, level: &str) -> (r: Option<usize>)
    ensures
        match r {
            Some(at) => at == shot_of(string_views(shots@), level@, 0) && at < shots@.len(),
            None => shot_of(string_views(shots@), level@, 0) == shots@.len(),
        },
{
    let mut lowered: Vec<String> = Vec::new();
    let mut i: usize = 0;
    while i < shots.len()
        invariant
            i <= shots@.len(),
            lowered@.len() == i,
            forall|j: int| 0 <= j < i ==> (#[trigger] lowered@[j])@ == lowercase_of(shots@[j]@),
        decreases shots@.len() - i,
    {
        lowered.push(shots[i].as_str().to_lowercase());
        i += 1;
    }
    assert(string_views(lowered@) =~= lowered_names(string_views(shots@)));
    pick_lowered_levelshot(&lowered, level)
}

fn read_game_types(value: &String) -> (types: Vec<String>)
    ensures
        string_views(types@) == game_types(value@),
{
    let parts = split_bytes(value.as_str().as_bytes(), 0x20);
    let mut types: Vec<String> = Vec::new();
    let mut i: usize = 0;
    assert(string_views(types@) =~= Seq::<Seq<char>>::empty());
    while i < parts.len()
        invariant
            i <= parts@.len(),
            string_views(types@) == kept_types(byte_views(parts@), i as int),
        decreases parts@.len() - i,
    {
        assert(byte_views(parts@)[i as int] == parts@[i as int]@);
        let word = bytes_to_text(copy_range(parts[i].as_slice(), 0, parts[i].len()));
        assert(parts@[i as int]@.subrange(0, parts@[i as int]@.len() as int) =~= parts@[i as int]@);
        if !word.as_str().trim().is_empty() {
            let ghost before = string_views(types@);
            types.push(word);
            assert(string_views(types@) =~= before.push(word@));
        }
        i += 1;
    }
    types
}

fn find_arena(arenas: &Vec<InfoMap>, name: &String) -> (r: Option<usize>)
    ensures
        match r {
            Some(at) => at == arena_named(arena_views(arenas@), name@, 0) && at < arenas@.len(),
            None => arena_named(arena_views(arenas@), name@, 0) == arenas@.len(),
        },
{
    let mut i: usize = 0;
    while i < arenas.len()
        invariant
            i <= arenas@.len(),
            arena_named(arena_views(arenas@), name@, 0) == arena_named(
                arena_views(arenas@),
                name@,
                i as int,
            ),
        decreases arenas@.len() - i,
    {
        assert(arena_views(arenas@)[i as int] == arenas@[i as int]@);
        let found = match arenas[i].get("map") {
            Some(map) => str_eq(map.as_str(), name.as_str()),
            None => false,
        };
        if found {
            return Some(i);
        }
        i += 1;
    }
    None
}

fn read_arena_files(files: &Vec<String>) -> (arenas: Vec<InfoMap>)
    ensures
        arena_views(arenas@) == arenas_of_files(string_views(files@), files@.len() as int),
{
    let mut arenas: Vec<InfoMap> = Vec::new();
    assert(arena_views(arenas@) =~= Seq::<Map<Seq<char>, Seq<char>>>::empty());
    let mut i: usize = 0;
    while i < files.len()
        invariant
            i <= files@.len(),
            arena_views(arenas@) == arenas_of_files(string_views(files@), i as int),
        decreases files@.len() - i,
    {
        assert(string_views(files@)[i as int] == files@[i as int]@);
        let mut more = read_arenas(files[i].as_str());
        let ghost before = arena_views(arenas@);
        let ghost added = arena_views(more@);
        arenas.append(&mut more);
        assert(arena_views(arenas@) =~= before + added);
        i += 1;
    }
    arenas
}

impl Level {
    /// Sorts the entries of an archive: the levels, with nothing known of
    /// them but their names, the arena files and the defrag arena files.
    /// Upper and lower case in the names make no difference.
    pub fn scan_archive(
        pk3_name: &String,
        path: &String,
        parent_path: &String,
        names: &Vec<String>,
    ) -> (found: (Vec<Level>, Vec<String>, Vec<String>))
        ensures
            level_views(found.0@) == levels_among(
                string_views(names@),
                names@.len() as int,
                pk3_name@,
                path@,
                parent_path@,
            ),
            string_views(found.1@) == names_among(
                string_views(names@),
                names@.len() as int,
                EntryKind::Arena,
            ),
            string_views(found.2@) == names_among(
                string_views(names@),
                names@.len() as int,
                EntryKind::Defi,
            ),
    {
        let mut pk3_maps: Vec<Level> = Vec::new();
        let mut arena_files: Vec<String> = Vec::new();
        let mut defi_files: Vec<String> = Vec::new();
        assert(level_views(pk3_maps@) =~= Seq::<LevelView>::empty());
        assert(string_views(arena_files@) =~= Seq::<Seq<char>>::empty());
        assert(string_views(defi_files@) =~= Seq::<Seq<char>>::empty());
        let mut i: usize = 0;
        while i < names.len()
            invariant
                i <= names@.len(),
                level_views(pk3_maps@) == levels_among(
                    string_views(names@),
                    i as int,
                    pk3_name@,
                    path@,
                    parent_path@,
                ),
                string_views(arena_files@) == names_among(
                    string_views(names@),
                    i as int,
                    EntryKind::Arena,
                ),
                string_views(defi_files@) == names_among(
                    string_views(names@),
                    i as int,
                    EntryKind::Defi,
                ),
            decreases names@.len() - i,
        {
            assert(string_views(names@)[i as int] == names@[i as int]@);
            let name = &names[i];
            let name_lowered = name.as_str().to_lowercase();
            match classify_entry(name_lowered.as_str().as_bytes()) {
                EntryKind::Bsp => {
                    let level = Level {
                        pk3_name: pk3_name.clone(),
                        level_name: entry_stem(name.as_str(), 5),
                        long_name: String::new(),
                        gametype: Vec::new(),
                        author: String::new(),
                        author_vhtml: String::new(),
                        path: path.clone(),
                        parent_path: parent_path.clone(),
                        is_defrag: false,
                        year_created: 1901,
                    };
                    assert(string_views(level.gametype@) =~= Seq::<Seq<char>>::empty());
                    let ghost before = level_views(pk3_maps@);
                    pk3_maps.push(level);
                    assert(level_views(pk3_maps@) =~= before.push(level@));
                },
                EntryKind::Arena => {
                    let ghost before = string_views(arena_files@);
                    arena_files.push(name.clone());
                    assert(string_views(arena_files@) =~= before.push(name@));
                },
                EntryKind::Defi => {
                    let ghost before = string_views(defi_files@);
                    defi_files.push(name.clone());
                    assert(string_views(defi_files@) =~= before.push(name@));
                },
                EntryKind::Other => {},
            }
            i += 1;
        }
        (pk3_maps, arena_files, defi_files)
    }

    /// Reads the arenas that an arena file describes.
    pub fn parse_arena_data(contents: String) -> (arenas: Vec<InfoMap>)
        ensures
            arena_views(arenas@) == arenas_of(contents@),
    {
        read_arenas(contents.as_str())
    }

    /// Takes into the level all that is known of it: `year` is the year of
    /// its file, `arena_data` and `defi_data` are the arenas of its archive.
    pub fn describe(&mut self, year: Option<u16>, arena_data: &Vec<InfoMap>, defi_data: &Vec<InfoMap>)
        ensures
            final(self)@ == with_level_data(
                old(self)@,
                year,
                arena_views(arena_data@),
                arena_views(defi_data@),
            ),
    {
        let name = self.level_name.as_str().to_lowercase();
        self.describe_as(&name, year, arena_data, defi_data);
    }

    /// Takes into the level all that is known of it, where `name` is the
    /// name by which the arenas know the level: its own, in lower case.
    pub fn describe_as(
        &mut self,
        name: &String,
        year: Option<u16>,
        arena_data: &Vec<InfoMap>,
        defi_data: &Vec<InfoMap>,
    )
        ensures
            final(self)@ == with_level_data_as(
                old(self)@,
                name@,
                year,
                arena_views(arena_data@),
                arena_views(defi_data@),
            ),
    {
        if str_eq(self.pk3_name.as_str(), "pak0") && contains_bytes(
            self.parent_path.as_str().as_bytes(),
            "baseq3".as_bytes(),
        ) {
            self.author = String::from_str("id Software");
            self.author_vhtml = String::from_str("id Software");
        }
        match year {
            Some(y) => {
                self.year_created = y;
            },
            None => {},
        }
        match find_arena(arena_data, name) {
            Some(at) => {
                let d = &arena_data[at];
                assert(arena_views(arena_data@)[at as int] == d@);
                match d.get("longname") {
                    Some(text) => {
                        self.long_name = text.clone();
                    },
                    None => {},
                }
                match d.get("author") {
                    Some(text) => {
                        self.author = text.clone();
                    },
                    None => {},
                }
                match d.get("gametype") {
                    Some(text) => {
                        self.gametype = read_game_types(text);
                    },
                    None => {},
                }
            },
            None => {},
        }
        match find_arena(defi_data, name) {
            Some(at) => {
                let d = &defi_data[at];
                assert(arena_views(defi_data@)[at as int] == d@);
                self.is_defrag = true;
                let mut race: Vec<String> = Vec::new();
                race.push(String::from_str("race"));
                assert(string_views(race@) =~= seq!["race"@]);
                self.gametype = race;
                match d.get("longname") {
                    Some(text) => {
                        self.long_name = text.clone();
                    },
                    None => {},
                }
                match d.get("author") {
                    Some(text) => {
                        self.author = text.clone();
                        match d.get("author_vhtml") {
                            Some(markup) => {
                                self.author_vhtml = markup.clone();
                            },
                            None => {},
                        }
                    },
                    None => {},
                }
                match d.get("gametype") {
                    Some(text) => {
                        self.gametype = read_game_types(text);
                    },
                    None => {},
                }
            },
            None => {},
        }
    }

    /// Takes into the levels of an archive what its arena files say of
    /// them. `arena_files` and `defi_files` hold the contents of the arena
    /// files and of the defrag arena files; `years` holds, level by level,
    /// the year of the level's file where it is known.
    pub fn get_remaining_data(
        pk3_maps: &mut Vec<Level>,
        arena_files: Vec<String>,
        defi_files: Vec<String>,
        years: &Vec<Option<u16>>,
    )
        ensures
            final(pk3_maps)@.len() == old(pk3_maps)@.len(),
            forall|i: int|
                0 <= i < old(pk3_maps)@.len() ==> (#[trigger] final(pk3_maps)@[i])@
                    == with_level_data(
                    old(pk3_maps)@[i]@,
                    year_of(years@, i),
                    arenas_of_files(string_views(arena_files@), arena_files@.len() as int),
                    arenas_of_files(string_views(defi_files@), defi_files@.len() as int),
                ),
    {
        let arena_data = read_arena_files(&arena_files);
        let defi_data = read_arena_files(&defi_files);
        let mut stack: Vec<Level> = Vec::new();
        let ghost before = pk3_maps@;
        while pk3_maps.len() > 0
            invariant
                pk3_maps@.len() + stack@.len() == before.len(),
                pk3_maps@ == before.subrange(0, pk3_maps@.len() as int),
                forall|k: int|
                    0 <= k < stack@.len() ==> (#[trigger] stack@[k]) == before[before.len() - 1
                        - k],
            decreases pk3_maps@.len(),
        {
            let level = pk3_maps.pop().unwrap();
            stack.push(level);
        }
        while stack.len() > 0
            invariant
                pk3_maps@.len() + stack@.len() == before.len(),
                forall|k: int|
                    0 <= k < stack@.len() ==> (#[trigger] stack@[k]) == before[before.len() - 1
                        - k],
                forall|i: int|
                    0 <= i < pk3_maps@.len() ==> (#[trigger] pk3_maps@[i])@ == with_level_data(
                        before[i]@,
                        year_of(years@, i),
                        arena_views(arena_data@),
                        arena_views(defi_data@),
                    ),
            decreases stack@.len(),
        {
            let i: usize = pk3_maps.len();
            let mut level = stack.pop().unwrap();
            let year = if i < years.len() {
                years[i]
            } else {
                None
            };
            level.describe(year, &arena_data, &defi_data);
            pk3_maps.push(level);
        }
    }
}

} // verus!
