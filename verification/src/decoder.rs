//! The decoder of a recording: the frames that the file is cut into, the
//! commands inside each message, and the record that they add up to.
//!
//! The specifications come first. They describe the decoder as a function of
//! the buffer, the code tree and the record so far; the executable functions
//! below are proved to compute exactly that.

use crate::bitstream::{bit_len, bits_at, string_at, symbol_at};
use crate::colorstring::{colored_plain, parse_colorstring};
use crate::demo::{
    command_texts, renderable, with_issue, Demo, DemoIssue, DemoView, _Cmds, BASELINE,
    CONFIG_STRING, END_OF_MESSAGE, GAMESTATE, MAX_MESSAGE_LENGTH, SERVER_COMMAND, SNAPSHOT,
};
use crate::laws::lemma_decoded_record_whole;
use crate::gamestate::{is_player_definition, player_of, with_gamestate, with_player};
use crate::huffman::HuffmanTree;
use crate::text::{begins_with, bytes_to_text, copy_range, text_of};
use std::collections::HashMap;
use vstd::prelude::*;
use vstd::string::*;
use vstd::utf8::*;

verus! {

broadcast use vstd::std_specs::hash::group_hash_axioms;

/// Where the decoder stands in a recording.
#[derive(Clone, Copy, Debug)]
pub struct Cursor {
    /// The position of the next bit to read.
    pub bit_position: usize,
    /// The server time that the first snapshot carried.
    pub first_server_time: i32,
    /// The position behind the tag of the last snapshot seen.
    pub last_snapshot: Option<usize>,
    /// Whether decoding is over: the end marker was met, an issue was
    /// recorded, or the caller asked for no more than the first gamestate.
    pub ended: bool,
}

/// The cursor at the start of a recording.
pub open spec fn start_cursor() -> Cursor {
    Cursor { bit_position: 0, first_server_time: 0, last_snapshot: None, ended: false }
}

/// The cursor moved to `position`.
pub open spec fn moved(cursor: Cursor, position: int) -> Cursor {
    Cursor { bit_position: position as usize, ..cursor }
}

/// The little-endian signed 32-bit integer in the four bytes from `at` on.
pub open spec fn le_i32(msg: Seq<u8>, at: int) -> int {
    let unsigned = msg[at] + 0x100 * msg[at + 1] + 0x1_0000 * msg[at + 2] + 0x100_0000 * msg[at
        + 3];
    if unsigned >= 0x8000_0000 {
        unsigned - 0x1_0000_0000
    } else {
        unsigned
    }
}

/// What stands between `opcode` and the last byte of `command`, if the
/// command begins with that opcode.
pub open spec fn opcode_interior(command: Seq<u8>, opcode: Seq<char>) -> Option<Seq<u8>> {
    let code = encode_utf8(opcode);
    if code.is_prefix_of(command) {
        Some(
            if command.len() > code.len() {
                command.subrange(code.len() as int, command.len() - 1)
            } else {
                Seq::empty()
            },
        )
    } else {
        None
    }
}

/// The text of a chat or print command without its opcode and its closing
/// quote; nothing for any other command.
pub open spec fn chat_interior(command: Seq<u8>) -> Option<Seq<u8>> {
    if opcode_interior(command, "print \""@) is Some {
        opcode_interior(command, "print \""@)
    } else if opcode_interior(command, "tchat \""@) is Some {
        opcode_interior(command, "tchat \""@)
    } else if opcode_interior(command, "chat \""@) is Some {
        opcode_interior(command, "chat \""@)
    } else if opcode_interior(command, "cpsm \""@) is Some {
        opcode_interior(command, "cpsm \""@)
    } else if opcode_interior(command, "cp \""@) is Some {
        opcode_interior(command, "cp \""@)
    } else if opcode_interior(command, "pcp \""@) is Some {
        opcode_interior(command, "pcp \""@)
    } else {
        opcode_interior(command, "cwhisper \""@)
    }
}

/// The record after a server command. The plain text of a chat or print
/// command is kept under the command's index, unless that index is taken;
/// any other command leaves the record as it is.
pub open spec fn with_command(record: DemoView, index: i32, command: Seq<char>) -> DemoView {
    match chat_interior(encode_utf8(command)) {
        Some(interior) => {
            if record.server_commands.dom().contains(index) {
                record
            } else {
                DemoView {
                    server_commands: record.server_commands.insert(
                        index,
                        colored_plain(text_of(interior)),
                    ),
                    ..record
                }
            }
        },
        None => record,
    }
}

/// The config strings with `text` written at `index`, unless the index has
/// a text already.
pub open spec fn with_config_string(
    strings: Map<i32, Seq<char>>,
    index: i32,
    text: Seq<char>,
) -> Map<i32, Seq<char>> {
    if strings.dom().contains(index) {
        strings
    } else {
        strings.insert(index, text)
    }
}

/// The commands of a gamestate from `pos` on. The result holds the record
/// with the participants met, the config strings if the gamestate could be
/// read to its end, and the position reached. Tag 3 brings a config string,
/// tag 8 ends the gamestate, tag 4 ends it and the message, and any other
/// tag is passed over.
pub open spec fn gamestate_commands(
    tree: &HuffmanTree,
    msg: Seq<u8>,
    record: DemoView,
    strings: Map<i32, Seq<char>>,
    pos: int,
    msg_end: int,
) -> (DemoView, Option<Map<i32, Seq<char>>>, int)
    decreases bit_len(msg) - pos,
{
    match symbol_at(tree, msg, pos) {
        None => (record, None, pos),
        Some((tag, p1)) => {
            if !(pos < p1 <= bit_len(msg)) {
                (record, None, pos)
            } else if tag == END_OF_MESSAGE {
                (record, Some(strings), p1)
            } else if tag == CONFIG_STRING {
                match bits_at(tree, msg, p1, 16) {
                    None => (record, None, p1),
                    Some((index, p2)) => match string_at(tree, msg, p2) {
                        None => (record, None, p2),
                        Some((bytes, p3)) => {
                            if !(pos < p3 <= bit_len(msg)) {
                                (record, None, p2)
                            } else {
                                let text = text_of(bytes);
                                let listed = if is_player_definition(text) {
                                    with_player(record, player_of(text))
                                } else {
                                    record
                                };
                                gamestate_commands(
                                    tree,
                                    msg,
                                    listed,
                                    with_config_string(strings, index, text),
                                    p3,
                                    msg_end,
                                )
                            }
                        },
                    },
                }
            } else if tag == BASELINE {
                (record, Some(strings), msg_end)
            } else {
                gamestate_commands(tree, msg, record, strings, p1, msg_end)
            }
        },
    }
}

/// The gamestate at `pos`: a 32-bit sequence number, then its commands.
pub open spec fn gamestate_at(
    tree: &HuffmanTree,
    msg: Seq<u8>,
    record: DemoView,
    pos: int,
    msg_end: int,
) -> (DemoView, Option<Map<i32, Seq<char>>>, int) {
    match bits_at(tree, msg, pos, 32) {
        None => (record, None, pos),
        Some((_, p1)) => gamestate_commands(tree, msg, record, Map::empty(), p1, msg_end),
    }
}

/// The state after decoding stopped on `issue`.
pub open spec fn failed(record: DemoView, cursor: Cursor, issue: DemoIssue) -> (DemoView, Cursor) {
    (with_issue(record, issue), Cursor { ended: true, ..cursor })
}

/// The record with one more snapshot counted.
pub open spec fn with_snapshot(record: DemoView) -> DemoView {
    DemoView { snapshots: (record.snapshots + 1) as usize, ..record }
}

/// The commands of a message from the cursor on, up to the one that ends
/// the message. `msg_end` is the position at which the message ends.
///
/// Tag 8 ends the message. Tag 2 is a gamestate; it ends the message, and
/// the decoding too unless `full` is set. Tag 7 is a snapshot: it is counted,
/// the first one's server time is kept, and the message ends. Tag 5 is a
/// server command, after which the next command follows, also where the
/// command ran over the end of the message. Any other tag stops the decoding
/// as illegible, and a read beyond the buffer stops it as truncated.
pub open spec fn commands_from(
    tree: &HuffmanTree,
    msg: Seq<u8>,
    record: DemoView,
    cursor: Cursor,
    msg_end: int,
    full: bool,
) -> (DemoView, Cursor)
    decreases bit_len(msg) - cursor.bit_position,
{
    let pos = cursor.bit_position as int;
    match symbol_at(tree, msg, pos) {
        None => failed(record, cursor, DemoIssue::Truncated),
        Some((tag, p1)) => {
            if tag == END_OF_MESSAGE {
                (record, moved(cursor, p1))
            } else if tag == GAMESTATE {
                let read = gamestate_at(tree, msg, record, p1, msg_end);
                match read.1 {
                    None => failed(read.0, moved(cursor, read.2), DemoIssue::Truncated),
                    Some(strings) => (
                        with_gamestate(read.0, strings),
                        Cursor { ended: !full, ..moved(cursor, read.2) },
                    ),
                }
            } else if tag == SNAPSHOT {
                let counted = with_snapshot(record);
                let seen = Cursor { last_snapshot: Some(p1 as usize), ..moved(cursor, p1) };
                if counted.snapshots == 1 {
                    match bits_at(tree, msg, p1, 32) {
                        None => failed(counted, seen, DemoIssue::Truncated),
                        Some((time, p2)) => (
                            counted,
                            Cursor { first_server_time: time, ..moved(seen, p2) },
                        ),
                    }
                } else {
                    (counted, seen)
                }
            } else if tag == SERVER_COMMAND {
                match bits_at(tree, msg, p1, 32) {
                    None => failed(record, moved(cursor, p1), DemoIssue::Truncated),
                    Some((index, p2)) => match string_at(tree, msg, p2) {
                        None => failed(record, moved(cursor, p2), DemoIssue::Truncated),
                        Some((bytes, p3)) => {
                            if pos < p3 <= bit_len(msg) <= usize::MAX {
                                commands_from(
                                    tree,
                                    msg,
                                    with_command(record, index, text_of(bytes)),
                                    moved(cursor, p3),
                                    msg_end,
                                    full,
                                )
                            } else {
                                failed(record, moved(cursor, p2), DemoIssue::Truncated)
                            }
                        },
                    },
                }
            } else {
                failed(record, moved(cursor, p1), DemoIssue::IllegibleMessage)
            }
        },
    }
}

/// One frame of the recording at the cursor: four bytes of sequence number,
/// four bytes of length, then the message.
///
/// A header that the buffer does not hold stops the decoding as truncated.
/// A negative length is the end marker. A length above the maximum stops the
/// decoding as corrupt. A frame that the buffer does not hold in full, with
/// the eight bytes of the next frame's header, stops it as truncated.
/// Otherwise the message is decoded: a 32-bit acknowledge number, then its
/// commands; and the cursor is set to the end of the message, wherever the
/// commands left it.
pub open spec fn message_at(
    tree: &HuffmanTree,
    msg: Seq<u8>,
    record: DemoView,
    cursor: Cursor,
    full: bool,
) -> (DemoView, Cursor) {
    let pos = cursor.bit_position as int;
    let at = pos / 8;
    if pos + 64 > bit_len(msg) {
        failed(record, cursor, DemoIssue::Truncated)
    } else {
        let length = le_i32(msg, at + 4);
        let start = pos + 64;
        let inside = moved(cursor, start);
        if length < 0 {
            (record, Cursor { ended: true, ..inside })
        } else if length > MAX_MESSAGE_LENGTH {
            failed(record, inside, DemoIssue::CorruptLength)
        } else if start + 8 * length + 64 > bit_len(msg) {
            failed(record, inside, DemoIssue::Truncated)
        } else {
            match bits_at(tree, msg, start, 32) {
                None => failed(record, inside, DemoIssue::Truncated),
                Some((_, p1)) => {
                    let after = commands_from(
                        tree,
                        msg,
                        record,
                        moved(inside, p1),
                        start + 8 * length,
                        full,
                    );
                    (after.0, moved(after.1, start + 8 * length))
                },
            }
        }
    }
}

/// The frames of the recording from the cursor on, until the decoding is
/// over.
pub open spec fn messages_from(
    tree: &HuffmanTree,
    msg: Seq<u8>,
    record: DemoView,
    cursor: Cursor,
    full: bool,
) -> (DemoView, Cursor)
    decreases bit_len(msg) - cursor.bit_position,
{
    if cursor.ended {
        (record, cursor)
    } else {
        let next = message_at(tree, msg, record, cursor, full);
        if !next.1.ended && cursor.bit_position < next.1.bit_position <= bit_len(msg) {
            messages_from(tree, msg, next.0, next.1, full)
        } else {
            next
        }
    }
}

/// The time between two server times, as an unsigned 32-bit number: their
/// difference where the later is not before the earlier.
pub open spec fn elapsed(first: i32, last: i32) -> usize {
    if last - first < 0 {
        (last - first + 0x1_0000_0000) as usize
    } else {
        (last - first) as usize
    }
}

/// The record with its duration: the time from the first snapshot to the
/// 32-bit value that stands behind the tag of the last one. Without a
/// snapshot the duration is 0. Where the buffer ends before that value, the
/// duration is 0 and the record is truncated, unless it has an issue
/// already.
pub open spec fn with_duration(
    tree: &HuffmanTree,
    msg: Seq<u8>,
    record: DemoView,
    cursor: Cursor,
) -> DemoView {
    match cursor.last_snapshot {
        None => DemoView { duration: 0, ..record },
        Some(at) => match bits_at(tree, msg, at as int, 32) {
            Some((time, _)) => DemoView {
                duration: elapsed(cursor.first_server_time, time),
                ..record
            },
            None => {
                if record.issue is None {
                    with_issue(DemoView { duration: 0, ..record }, DemoIssue::Truncated)
                } else {
                    DemoView { duration: 0, ..record }
                }
            },
        },
    }
}

/// The record that decoding the whole buffer gives, starting from `record`.
pub open spec fn decoded(tree: &HuffmanTree, msg: Seq<u8>, record: DemoView, full: bool) -> DemoView {
    let end = messages_from(tree, msg, record, start_cursor(), full);
    with_duration(tree, msg, end.0, end.1)
}

/// Writing one text into a map of texts is writing its characters into the
/// map of their views.
proof fn lemma_texts_insert(texts: Map<i32, String>, index: i32, text: String)
    ensures
        command_texts(texts.insert(index, text)) == command_texts(texts).insert(index, text@),
{
    assert(command_texts(texts.insert(index, text)) =~= command_texts(texts).insert(index, text@));
}

fn read_length(msg: &Vec<u8>, at: usize) -> (length: i32)
    requires
        at + 4 <= msg.len(),
    ensures
        length == le_i32(msg@, at as int),
{
    let unsigned: i64 = msg[at] as i64 + 0x100 * (msg[at + 1] as i64) + 0x1_0000 * (msg[at
        + 2] as i64) + 0x100_0000 * (msg[at + 3] as i64);
    if unsigned >= 0x8000_0000 {
        (unsigned - 0x1_0000_0000) as i32
    } else {
        unsigned as i32
    }
}

fn strip_opcode(command: &[u8], opcode: &str) -> (r: Option<Vec<u8>>)
    ensures
        match opcode_interior(command@, opcode@) {
            Some(interior) => r matches Some(found) && found@ == interior,
            None => r is None,
        },
{
    let code = opcode.as_bytes();
    if begins_with(command, code) {
        if command.len() > code.len() {
            Some(copy_range(command, code.len(), command.len() - 1))
        } else {
            Some(Vec::new())
        }
    } else {
        None
    }
}

fn chat_text(command: &[u8]) -> (r: Option<Vec<u8>>)
    ensures
        match chat_interior(command@) {
            Some(interior) => r matches Some(found) && found@ == interior,
            None => r is None,
        },
{
    let print = strip_opcode(command, "print \"");
    if print.is_some() {
        return print;
    }
    let tchat = strip_opcode(command, "tchat \"");
    if tchat.is_some() {
        return tchat;
    }
    let chat = strip_opcode(command, "chat \"");
    if chat.is_some() {
        return chat;
    }
    let cpsm = strip_opcode(command, "cpsm \"");
    if cpsm.is_some() {
        return cpsm;
    }
    let cp = strip_opcode(command, "cp \"");
    if cp.is_some() {
        return cp;
    }
    let pcp = strip_opcode(command, "pcp \"");
    if pcp.is_some() {
        return pcp;
    }
    strip_opcode(command, "cwhisper \"")
}

impl Demo {
    /// Takes a server command into the record: the plain text of a chat or
    /// print command is kept under `index`, unless the index is taken.
    pub fn store_command(&mut self, index: i32, command: &String)
        ensures
            final(self)@ == with_command(old(self)@, index, command@),
    {
        match chat_text(command.as_str().as_bytes()) {
            Some(interior) => {
                if !self.server_commands.contains_key(&index) {
                    let parsed = parse_colorstring(bytes_to_text(interior));
                    proof {
                        lemma_texts_insert(self.server_commands@, index, parsed.0);
                    }
                    self.server_commands.insert(index, parsed.0);
                }
            },
            None => {},
        }
    }

    /// Reads a gamestate at `bit_position`, if the buffer holds all of it:
    /// the participants go into the record, the config strings are handed
    /// back by their index, the first one kept where an index comes twice.
    /// Where the buffer ends inside the gamestate, nothing is handed back,
    /// and the position is that of the item that could not be read.
    pub fn try_load_gamestate(
        &mut self,
        msg: &Vec<u8>,
        tree: &HuffmanTree,
        bit_position: &mut usize,
        msg_length: i32,
        msg_start_pos: &mut usize,
    ) -> (r: Option<HashMap<i32, String>>)
        requires
            bit_len(msg@) <= usize::MAX,
            msg_length >= 0,
            *old(msg_start_pos) + 8 * msg_length <= usize::MAX,
        ensures
            ({
                let read = gamestate_at(
                    tree,
                    msg@,
                    old(self)@,
                    *old(bit_position) as int,
                    *old(msg_start_pos) + 8 * msg_length,
                );
                &&& final(self)@ == read.0
                &&& *final(bit_position) == read.2
                &&& *final(msg_start_pos) == *old(msg_start_pos)
                &&& match read.1 {
                    Some(strings) => r matches Some(found) && command_texts(found@) == strings,
                    None => r is None,
                }
            }),
            final(self).snapshots == old(self).snapshots,
    {
        let msg_end: usize = *msg_start_pos + 8 * (msg_length as usize);
        if Self::try_huffman_readbits(32, msg, tree, bit_position).is_none() {
            return None;
        }
        let mut gamestate: HashMap<i32, String> = HashMap::new();
        assert(command_texts(gamestate@) =~= Map::<i32, Seq<char>>::empty());
        loop
            invariant
                bit_len(msg@) <= usize::MAX,
                msg_end == *old(msg_start_pos) + 8 * msg_length,
                *msg_start_pos == *old(msg_start_pos),
                self.snapshots == old(self).snapshots,
                gamestate_at(
                    tree,
                    msg@,
                    old(self)@,
                    *old(bit_position) as int,
                    msg_end as int,
                ) == gamestate_commands(
                    tree,
                    msg@,
                    self@,
                    command_texts(gamestate@),
                    *bit_position as int,
                    msg_end as int,
                ),
            decreases bit_len(msg@) + 1 - *bit_position,
        {
            match Self::try_huffman_read(msg, tree, bit_position) {
                None => {
                    return None;
                },
                Some(tag) => {
                    let command = _Cmds::from_tag(tag);
                    if command == _Cmds::EndOfMessage {
                        return Some(gamestate);
                    } else if command == _Cmds::ConfigString {
                        match Self::try_huffman_readbits(16, msg, tree, bit_position) {
                            None => {
                                return None;
                            },
                            Some(index) => {
                                match Self::try_huffman_readstring(msg, tree, bit_position) {
                                    None => {
                                        return None;
                                    },
                                    Some(text) => {
                                        if Self::defines_player(&text) {
                                            self.register_player(&text);
                                        }
                                        if !gamestate.contains_key(&index) {
                                            proof {
                                                lemma_texts_insert(gamestate@, index, text);
                                            }
                                            gamestate.insert(index, text);
                                        }
                                    },
                                }
                            },
                        }
                    } else if command == _Cmds::Baseline {
                        *bit_position = msg_end;
                        return Some(gamestate);
                    }
                },
            }
        }
    }

    /// Reads the gamestate at `bit_position`: the participants go into the
    /// record, the config strings are handed back by their index.
    pub fn load_gamestate(
        &mut self,
        msg: &Vec<u8>,
        tree: &HuffmanTree,
        bit_position: &mut usize,
        msg_length: i32,
        msg_start_pos: &mut usize,
    ) -> (gamestate: HashMap<i32, String>)
        requires
            bit_len(msg@) <= usize::MAX,
            msg_length >= 0,
            *old(msg_start_pos) + 8 * msg_length <= usize::MAX,
            gamestate_at(
                tree,
                msg@,
                old(self)@,
                *old(bit_position) as int,
                *old(msg_start_pos) + 8 * msg_length,
            ).1 is Some,
        ensures
            ({
                let read = gamestate_at(
                    tree,
                    msg@,
                    old(self)@,
                    *old(bit_position) as int,
                    *old(msg_start_pos) + 8 * msg_length,
                );
                &&& final(self)@ == read.0
                &&& *final(bit_position) == read.2
                &&& *final(msg_start_pos) == *old(msg_start_pos)
                &&& read.1 == Some(command_texts(gamestate@))
            }),
            final(self).snapshots == old(self).snapshots,
    {
        match self.try_load_gamestate(msg, tree, bit_position, msg_length, msg_start_pos) {
            Some(gamestate) => gamestate,
            None => HashMap::new(),
        }
    }

    /// Decodes the commands of a message from the cursor on. The message
    /// has `msg_length` bytes and starts at bit `msg_start_pos`.
    pub fn decode_commands(
        &mut self,
        msg: &Vec<u8>,
        tree: &HuffmanTree,
        cursor: &mut Cursor,
        msg_length: i32,
        msg_start_pos: usize,
        full: bool,
    )
        requires
            bit_len(msg@) <= usize::MAX,
            msg_length >= 0,
            msg_start_pos + 8 * msg_length <= usize::MAX,
            old(self).snapshots < usize::MAX,
        ensures
            (final(self)@, *final(cursor)) == commands_from(
                tree,
                msg@,
                old(self)@,
                *old(cursor),
                msg_start_pos + 8 * msg_length,
                full,
            ),
            final(self).snapshots <= old(self).snapshots + 1,
    {
        let msg_end: usize = msg_start_pos + 8 * (msg_length as usize);
        loop
            invariant
                bit_len(msg@) <= usize::MAX,
                msg_length >= 0,
                msg_end == msg_start_pos + 8 * msg_length,
                self.snapshots == old(self).snapshots,
                self.snapshots < usize::MAX,
                commands_from(tree, msg@, old(self)@, *old(cursor), msg_end as int, full)
                    == commands_from(tree, msg@, self@, *cursor, msg_end as int, full),
            decreases bit_len(msg@) + 1 - cursor.bit_position,
        {
            let mut position: usize = cursor.bit_position;
            match Self::try_huffman_read(msg, tree, &mut position) {
                None => {
                    self.fail(DemoIssue::Truncated);
                    cursor.ended = true;
                    return;
                },
                Some(tag) => {
                    let command = _Cmds::from_tag(tag);
                    if command == _Cmds::EndOfMessage {
                        cursor.bit_position = position;
                        return;
                    } else if command == _Cmds::Gamestate {
                        let mut start: usize = msg_start_pos;
                        match self.try_load_gamestate(
                            msg,
                            tree,
                            &mut position,
                            msg_length,
                            &mut start,
                        ) {
                            None => {
                                cursor.bit_position = position;
                                self.fail(DemoIssue::Truncated);
                                cursor.ended = true;
                            },
                            Some(gamestate) => {
                                cursor.bit_position = position;
                                self.parse_gamestate(&gamestate);
                                cursor.ended = !full;
                            },
                        }
                        return;
                    } else if command == _Cmds::Snapshot {
                        self.snapshots += 1;
                        cursor.bit_position = position;
                        cursor.last_snapshot = Some(position);
                        if self.snapshots == 1 {
                            match Self::try_huffman_readbits(32, msg, tree, &mut position) {
                                None => {
                                    self.fail(DemoIssue::Truncated);
                                    cursor.ended = true;
                                },
                                Some(time) => {
                                    cursor.first_server_time = time;
                                    cursor.bit_position = position;
                                },
                            }
                        }
                        return;
                    } else if command == _Cmds::ServerCommand {
                        match Self::try_huffman_readbits(32, msg, tree, &mut position) {
                            None => {
                                cursor.bit_position = position;
                                self.fail(DemoIssue::Truncated);
                                cursor.ended = true;
                                return;
                            },
                            Some(index) => {
                                let before: usize = position;
                                match Self::try_huffman_readstring(msg, tree, &mut position) {
                                    None => {
                                        cursor.bit_position = before;
                                        self.fail(DemoIssue::Truncated);
                                        cursor.ended = true;
                                        return;
                                    },
                                    Some(command) => {
                                        self.store_command(index, &command);
                                        cursor.bit_position = position;
                                    },
                                }
                            },
                        }
                    } else {
                        cursor.bit_position = position;
                        self.fail(DemoIssue::IllegibleMessage);
                        cursor.ended = true;
                        return;
                    }
                },
            }
        }
    }

    /// Decodes the frame at the cursor: its header, and the message if the
    /// header announces one that the buffer holds.
    pub fn decode_message(
        &mut self,
        msg: &Vec<u8>,
        tree: &HuffmanTree,
        cursor: &mut Cursor,
        full: bool,
    )
        requires
            bit_len(msg@) <= usize::MAX,
            old(self).snapshots < usize::MAX,
        ensures
            (final(self)@, *final(cursor)) == message_at(
                tree,
                msg@,
                old(self)@,
                *old(cursor),
                full,
            ),
            final(self).snapshots <= old(self).snapshots + 1,
            !final(cursor).ended ==> old(cursor).bit_position + 64 <= final(cursor).bit_position
                && final(cursor).bit_position + 64 <= bit_len(msg@),
    {
        let total: usize = msg.len() * 8;
        if cursor.bit_position > total || total - cursor.bit_position < 64 {
            self.fail(DemoIssue::Truncated);
            cursor.ended = true;
            return;
        }
        let msg_length: i32 = read_length(msg, cursor.bit_position / 8 + 4);
        cursor.bit_position += 64;
        let msg_start_pos: usize = cursor.bit_position;
        if msg_length < 0 {
            cursor.ended = true;
            return;
        }
        if msg_length > MAX_MESSAGE_LENGTH {
            self.fail(DemoIssue::CorruptLength);
            cursor.ended = true;
            return;
        }
        let msg_length_bits: usize = (msg_length as usize) * 8;
        if total - msg_start_pos < msg_length_bits + 64 {
            self.fail(DemoIssue::Truncated);
            cursor.ended = true;
            return;
        }
        let mut position: usize = cursor.bit_position;
        match Self::try_huffman_readbits(32, msg, tree, &mut position) {
            None => {
                self.fail(DemoIssue::Truncated);
                cursor.ended = true;
            },
            Some(_) => {
                cursor.bit_position = position;
                self.decode_commands(msg, tree, cursor, msg_length, msg_start_pos, full);
                cursor.bit_position = msg_start_pos + msg_length_bits;
            },
        }
    }

    /// Decodes a recording into the record: frame after frame until the end
    /// marker or an issue, or, unless `all_data` is set, until the first
    /// gamestate is taken in; then the duration.
    pub fn parse_demo(&mut self, demo_bytes: &Vec<u8>, huffman_tree: &HuffmanTree, all_data: bool)
        requires
            old(self).snapshots + bit_len(demo_bytes@) < usize::MAX,
        ensures
            final(self)@ == decoded(huffman_tree, demo_bytes@, old(self)@, all_data),
            old(self).issue is None ==> final(self).issue is None || renderable(final(self)@),
    {
        proof {
            if old(self).issue is None {
                lemma_decoded_record_whole(huffman_tree, demo_bytes@, old(self)@, all_data);
            }
        }
        let mut cursor = Cursor {
            bit_position: 0,
            first_server_time: 0,
            last_snapshot: None,
            ended: false,
        };
        while !cursor.ended
            invariant
                bit_len(demo_bytes@) < usize::MAX,
                !cursor.ended ==> cursor.bit_position <= bit_len(demo_bytes@),
                !cursor.ended ==> self.snapshots + bit_len(demo_bytes@) - cursor.bit_position
                    < usize::MAX,
                messages_from(huffman_tree, demo_bytes@, old(self)@, start_cursor(), all_data)
                    == messages_from(huffman_tree, demo_bytes@, self@, cursor, all_data),
            decreases
                    if cursor.ended {
                        0
                    } else {
                        bit_len(demo_bytes@) - cursor.bit_position + 1
                    },
        {
            self.decode_message(demo_bytes, huffman_tree, &mut cursor, all_data);
        }
        self.duration = 0;
        match cursor.last_snapshot {
            None => {},
            Some(at) => {
                let mut position: usize = at;
                match Self::try_huffman_readbits(32, demo_bytes, huffman_tree, &mut position) {
                    Some(time) => {
                        let difference: i64 = time as i64 - cursor.first_server_time as i64;
                        if difference < 0 {
                            self.duration = (difference + 0x1_0000_0000) as usize;
                        } else {
                            self.duration = difference as usize;
                        }
                    },
                    None => {
                        if self.issue.is_none() {
                            self.fail(DemoIssue::Truncated);
                        }
                    },
                }
            },
        }
    }
}

} // verus!
