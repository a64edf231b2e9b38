//! What holds of the decoder on every recording.

use crate::bitstream::{
    bit_len, bits_at, lemma_bits_move, lemma_walk_moves, string_at, symbol_at,
};
use crate::decoder::{
    commands_from, decoded, elapsed, failed, gamestate_at, gamestate_commands, le_i32,
    message_at, messages_from, moved, start_cursor, with_command, with_config_string,
    with_duration, Cursor,
};
use crate::demo::{
    renderable, with_issue, Demo, DemoIssue, DemoView, BASELINE, CONFIG_STRING, END_OF_MESSAGE,
    GAMESTATE, MAX_MESSAGE_LENGTH, SERVER_COMMAND, SNAPSHOT,
};
use crate::gamestate::{
    is_player_definition, player_of, with_gamestate, with_inferred_game, with_player,
    with_server_setting, with_settings, with_system_setting, config_string, setting_tokens,
};
use crate::huffman::HuffmanTree;
use crate::text::text_of;
use vstd::prelude::*;

verus! {

/// Decoding is a function of the buffer, the tree and the record it starts
/// from: two records that were equal before are equal after, field by field.
pub proof fn lemma_decoding_repeats(
    tree: &HuffmanTree,
    msg: Seq<u8>,
    first_before: Demo,
    second_before: Demo,
    first_after: Demo,
    second_after: Demo,
    full: bool,
)
    requires
        first_before@ == second_before@,
        first_after@ == decoded(tree, msg, first_before@, full),
        second_after@ == decoded(tree, msg, second_before@, full),
    ensures
        first_after@ == second_after@,
{
}

/// A record on which decoding stopped with an issue can be shown.
pub proof fn lemma_issue_fills_placeholders(record: DemoView, issue: DemoIssue)
    ensures
        with_issue(record, issue).issue == Some(issue),
        renderable(with_issue(record, issue)),
{
    reveal_strlit("???");
}

/// A frame whose declared length runs past the end of the buffer, the next
/// frame's header counted in, stops the decoding as truncated, with the
/// placeholders filled in.
pub proof fn lemma_truncated_frame(
    tree: &HuffmanTree,
    msg: Seq<u8>,
    record: DemoView,
    cursor: Cursor,
    full: bool,
)
    requires
        cursor.bit_position + 64 <= bit_len(msg),
        0 <= le_i32(msg, cursor.bit_position / 8 + 4) <= MAX_MESSAGE_LENGTH,
        cursor.bit_position + 64 + 8 * le_i32(msg, cursor.bit_position / 8 + 4) + 64 > bit_len(
            msg,
        ),
    ensures
        message_at(tree, msg, record, cursor, full).0 == with_issue(record, DemoIssue::Truncated),
        message_at(tree, msg, record, cursor, full).0.issue == Some(DemoIssue::Truncated),
        renderable(message_at(tree, msg, record, cursor, full).0),
        message_at(tree, msg, record, cursor, full).1.ended,
{
    lemma_issue_fills_placeholders(record, DemoIssue::Truncated);
}

/// A recording that is too short for a frame header is truncated.
pub proof fn lemma_truncated_header(
    tree: &HuffmanTree,
    msg: Seq<u8>,
    record: DemoView,
    cursor: Cursor,
    full: bool,
)
    requires
        cursor.bit_position + 64 > bit_len(msg),
    ensures
        message_at(tree, msg, record, cursor, full) == failed(
            record,
            cursor,
            DemoIssue::Truncated,
        ),
{
}

/// A frame that declares more than the maximum length stops the decoding
/// as corrupt.
pub proof fn lemma_corrupt_length(
    tree: &HuffmanTree,
    msg: Seq<u8>,
    record: DemoView,
    cursor: Cursor,
    full: bool,
)
    requires
        cursor.bit_position + 64 <= bit_len(msg),
        le_i32(msg, cursor.bit_position / 8 + 4) > MAX_MESSAGE_LENGTH,
    ensures
        message_at(tree, msg, record, cursor, full) == failed(
            record,
            moved(cursor, cursor.bit_position + 64),
            DemoIssue::CorruptLength,
        ),
{
}

/// A negative length ends the decoding and leaves the record as it is.
pub proof fn lemma_end_marker(
    tree: &HuffmanTree,
    msg: Seq<u8>,
    record: DemoView,
    cursor: Cursor,
    full: bool,
)
    requires
        cursor.bit_position + 64 <= bit_len(msg),
        le_i32(msg, cursor.bit_position / 8 + 4) < 0,
    ensures
        message_at(tree, msg, record, cursor, full).0 == record,
        message_at(tree, msg, record, cursor, full).1.ended,
{
}

/// A command tag other than 2, 5, 7 and 8 stops the decoding as illegible:
/// the record gets the issue and the placeholders, and nothing else of it
/// changes.
pub proof fn lemma_illegible_tag(
    tree: &HuffmanTree,
    msg: Seq<u8>,
    record: DemoView,
    cursor: Cursor,
    msg_end: int,
    full: bool,
)
    requires
        symbol_at(tree, msg, cursor.bit_position as int) matches Some((tag, next)) && tag != GAMESTATE
            && tag != SERVER_COMMAND && tag != SNAPSHOT && tag != END_OF_MESSAGE,
    ensures
        commands_from(tree, msg, record, cursor, msg_end, full).0 == with_issue(
            record,
            DemoIssue::IllegibleMessage,
        ),
        commands_from(tree, msg, record, cursor, msg_end, full).1.ended,
{
}

/// Once the decoding is over, no further frame is looked at: the record and
/// the cursor stay as they are.
pub proof fn lemma_ended_stops(
    tree: &HuffmanTree,
    msg: Seq<u8>,
    record: DemoView,
    cursor: Cursor,
    full: bool,
)
    requires
        cursor.ended,
    ensures
        messages_from(tree, msg, record, cursor, full) == (record, cursor),
{
}

/// A frame that ends the decoding is the last one decoded.
pub proof fn lemma_last_frame(
    tree: &HuffmanTree,
    msg: Seq<u8>,
    record: DemoView,
    cursor: Cursor,
    full: bool,
)
    requires
        !cursor.ended,
        message_at(tree, msg, record, cursor, full).1.ended,
    ensures
        messages_from(tree, msg, record, cursor, full) == message_at(
            tree,
            msg,
            record,
            cursor,
            full,
        ),
{
}

/// Without a snapshot the duration is 0.
pub proof fn lemma_no_snapshot(tree: &HuffmanTree, msg: Seq<u8>, record: DemoView, cursor: Cursor)
    requires
        cursor.last_snapshot is None,
    ensures
        with_duration(tree, msg, record, cursor).duration == 0,
{
}

/// The time elapsed between equal server times is 0, and between a server
/// time and a later one their difference.
pub proof fn lemma_elapsed(first: i32, last: i32)
    requires
        first <= last,
    ensures
        elapsed(first, last) == last - first,
        first == last ==> elapsed(first, last) == 0,
{
}

/// With a snapshot, the duration is the time elapsed from the first server
/// time to the value read behind the tag of the last snapshot.
pub proof fn lemma_duration(
    tree: &HuffmanTree,
    msg: Seq<u8>,
    record: DemoView,
    cursor: Cursor,
    at: usize,
    time: i32,
    end: int,
)
    requires
        cursor.last_snapshot == Some(at),
        bits_at(tree, msg, at as int, 32) == Some((time, end)),
    ensures
        with_duration(tree, msg, record, cursor).duration == elapsed(
            cursor.first_server_time,
            time,
        ),
        cursor.first_server_time <= time ==> with_duration(tree, msg, record, cursor).duration
            == time - cursor.first_server_time,
{
}

/// A recording's first snapshot, if it is also its last, gives the duration
/// 0.
pub proof fn lemma_single_snapshot(
    tree: &HuffmanTree,
    msg: Seq<u8>,
    record: DemoView,
    cursor: Cursor,
    msg_end: int,
    full: bool,
)
    requires
        record.snapshots == 0,
        bit_len(msg) <= usize::MAX,
        symbol_at(tree, msg, cursor.bit_position as int) matches Some((tag, next)) && tag == SNAPSHOT
            && 0 <= next <= bit_len(msg) && bits_at(tree, msg, next, 32) is Some,
    ensures
        ({
            let after = commands_from(tree, msg, record, cursor, msg_end, full);
            &&& after.0.snapshots == 1
            &&& with_duration(tree, msg, after.0, after.1).duration == 0
        }),
{
}

/// The point of view is the first participant: a participant that joins a
/// record which has one already leaves the point of view as it is.
pub proof fn lemma_point_of_view_stays(
    record: DemoView,
    first: crate::demo::PlayerView,
    second: crate::demo::PlayerView,
)
    ensures
        with_player(with_player(record, first), second).player_pov == with_player(
            record,
            first,
        ).player_pov,
        record.players is None ==> with_player(with_player(record, first), second).player_pov
            == first,
        with_player(with_player(record, first), second).players.unwrap().len() == with_player(
            record,
            first,
        ).players.unwrap().len() + 1,
{
}

/// Settings never touch the issue of a record.
pub proof fn lemma_settings_keep_issue(
    record: DemoView,
    tokens: Seq<Seq<u8>>,
    from: int,
    system: bool,
)
    ensures
        with_settings(record, tokens, from, system).issue == record.issue,
        with_settings(record, tokens, from, system).snapshots == record.snapshots,
    decreases tokens.len() - from,
{
    if !(from < 0 || from + 1 >= tokens.len()) {
        let key = text_of(tokens[from]);
        let value = text_of(tokens[from + 1]);
        let next = if system {
            with_system_setting(record, key, value)
        } else {
            with_server_setting(record, key, value)
        };
        lemma_settings_keep_issue(next, tokens, from + 2, system);
    }
}

/// Taking in a gamestate never touches the issue of a record.
pub proof fn lemma_gamestate_keeps_issue(record: DemoView, strings: Map<i32, Seq<char>>)
    ensures
        with_gamestate(record, strings).issue == record.issue,
        with_gamestate(record, strings).snapshots == record.snapshots,
{
    let server = with_settings(record, setting_tokens(config_string(strings, 0)), 1, false);
    lemma_settings_keep_issue(record, setting_tokens(config_string(strings, 0)), 1, false);
    lemma_settings_keep_issue(
        with_inferred_game(server),
        setting_tokens(config_string(strings, 1)),
        1,
        true,
    );
}

/// Reading a gamestate never touches the issue of a record.
pub proof fn lemma_reading_keeps_issue(
    tree: &HuffmanTree,
    msg: Seq<u8>,
    record: DemoView,
    strings: Map<i32, Seq<char>>,
    pos: int,
    msg_end: int,
)
    ensures
        gamestate_commands(tree, msg, record, strings, pos, msg_end).0.issue == record.issue,
        gamestate_commands(tree, msg, record, strings, pos, msg_end).0.snapshots
            == record.snapshots,
    decreases bit_len(msg) - pos,
{
    match symbol_at(tree, msg, pos) {
        None => {},
        Some((tag, p1)) => {
            if !(pos < p1 <= bit_len(msg)) {
            } else if tag == END_OF_MESSAGE {
            } else if tag == CONFIG_STRING {
                match bits_at(tree, msg, p1, 16) {
                    None => {},
                    Some((index, p2)) => match string_at(tree, msg, p2) {
                        None => {},
                        Some((bytes, p3)) => {
                            if pos < p3 <= bit_len(msg) {
                                let text = text_of(bytes);
                                let listed = if is_player_definition(text) {
                                    with_player(record, player_of(text))
                                } else {
                                    record
                                };
                                lemma_reading_keeps_issue(
                                    tree,
                                    msg,
                                    listed,
                                    with_config_string(strings, index, text),
                                    p3,
                                    msg_end,
                                );
                            }
                        },
                    },
                }
            } else if tag == BASELINE {
            } else {
                lemma_reading_keeps_issue(tree, msg, record, strings, p1, msg_end);
            }
        },
    }
}

/// The commands of a message, met by a record without an issue, leave it
/// without one, or stop the decoding on a record that can be shown.
pub proof fn lemma_commands_keep_record_whole(
    tree: &HuffmanTree,
    msg: Seq<u8>,
    record: DemoView,
    cursor: Cursor,
    msg_end: int,
    full: bool,
)
    requires
        record.issue is None,
    ensures
        ({
            let after = commands_from(tree, msg, record, cursor, msg_end, full);
            after.0.issue is None || (renderable(after.0) && after.1.ended)
        }),
    decreases bit_len(msg) - cursor.bit_position,
{
    reveal_strlit("???");
    let pos = cursor.bit_position as int;
    match symbol_at(tree, msg, pos) {
        None => {},
        Some((tag, p1)) => {
            if tag == GAMESTATE {
                let read = gamestate_at(tree, msg, record, p1, msg_end);
                match bits_at(tree, msg, p1, 32) {
                    None => {},
                    Some((_, p2)) => {
                        lemma_reading_keeps_issue(
                            tree,
                            msg,
                            record,
                            Map::empty(),
                            p2,
                            msg_end,
                        );
                    },
                }
                match read.1 {
                    None => {},
                    Some(strings) => {
                        lemma_gamestate_keeps_issue(read.0, strings);
                    },
                }
            } else if tag == SERVER_COMMAND {
                match bits_at(tree, msg, p1, 32) {
                    None => {},
                    Some((index, p2)) => match string_at(tree, msg, p2) {
                        None => {},
                        Some((bytes, p3)) => {
                            if pos < p3 <= bit_len(msg) <= usize::MAX {
                                lemma_commands_keep_record_whole(
                                    tree,
                                    msg,
                                    with_command(record, index, text_of(bytes)),
                                    moved(cursor, p3),
                                    msg_end,
                                    full,
                                );
                            }
                        },
                    },
                }
            }
        },
    }
}

/// The frames of a recording, met by a record without an issue, leave it
/// without one, or stop the decoding on a record that can be shown.
pub proof fn lemma_frames_keep_record_whole(
    tree: &HuffmanTree,
    msg: Seq<u8>,
    record: DemoView,
    cursor: Cursor,
    full: bool,
)
    requires
        record.issue is None,
    ensures
        ({
            let after = messages_from(tree, msg, record, cursor, full);
            after.0.issue is None || renderable(after.0)
        }),
    decreases bit_len(msg) - cursor.bit_position,
{
    reveal_strlit("???");
    if !cursor.ended {
        let pos = cursor.bit_position as int;
        let start = pos + 64;
        let length = le_i32(msg, pos / 8 + 4);
        if pos + 64 <= bit_len(msg) && 0 <= length <= MAX_MESSAGE_LENGTH && start + 8 * length + 64
            <= bit_len(msg) {
            match bits_at(tree, msg, start, 32) {
                None => {},
                Some((_, p1)) => {
                    lemma_commands_keep_record_whole(
                        tree,
                        msg,
                        record,
                        moved(moved(cursor, start), p1),
                        start + 8 * length,
                        full,
                    );
                },
            }
        }
        let next = message_at(tree, msg, record, cursor, full);
        if !next.1.ended && cursor.bit_position < next.1.bit_position <= bit_len(msg) {
            lemma_frames_keep_record_whole(tree, msg, next.0, next.1, full);
        }
    }
}

/// A record never ends up half filled without a diagnostic: decoding leaves
/// a record that had no issue either without one, or with one and with
/// every field that is shown filled in.
pub proof fn lemma_decoded_record_whole(
    tree: &HuffmanTree,
    msg: Seq<u8>,
    record: DemoView,
    full: bool,
)
    requires
        record.issue is None,
    ensures
        decoded(tree, msg, record, full).issue is None || renderable(
            decoded(tree, msg, record, full),
        ),
{
    reveal_strlit("???");
    lemma_frames_keep_record_whole(tree, msg, record, start_cursor(), full);
}

/// The state in which frame `k` of a recording is met, counted from the
/// frame at the cursor: the record and the cursor after the `k` frames
/// before it, if each of them let the decoding go on.
pub open spec fn frame_start(
    tree: &HuffmanTree,
    msg: Seq<u8>,
    record: DemoView,
    cursor: Cursor,
    full: bool,
    k: nat,
) -> Option<(DemoView, Cursor)>
    decreases k,
{
    if k == 0 {
        Some((record, cursor))
    } else {
        match frame_start(tree, msg, record, cursor, full, (k - 1) as nat) {
            None => None,
            Some((r, c)) => {
                let next = message_at(tree, msg, r, c, full);
                if !c.ended && !next.1.ended && c.bit_position < next.1.bit_position <= bit_len(
                    msg,
                ) {
                    Some(next)
                } else {
                    None
                }
            },
        }
    }
}

/// Decoding from the start of a recording is decoding from any frame that
/// it reaches.
pub proof fn lemma_decoding_goes_on(
    tree: &HuffmanTree,
    msg: Seq<u8>,
    record: DemoView,
    cursor: Cursor,
    full: bool,
    k: nat,
)
    requires
        frame_start(tree, msg, record, cursor, full, k) is Some,
    ensures
        ({
            let at = frame_start(tree, msg, record, cursor, full, k).unwrap();
            messages_from(tree, msg, record, cursor, full) == messages_from(
                tree,
                msg,
                at.0,
                at.1,
                full,
            )
        }),
    decreases k,
{
    if k > 0 {
        lemma_decoding_goes_on(tree, msg, record, cursor, full, (k - 1) as nat);
    }
}

/// A record with an issue keeps it, and all else but the duration, when
/// the duration is taken.
pub proof fn lemma_duration_keeps_issue(
    tree: &HuffmanTree,
    msg: Seq<u8>,
    record: DemoView,
    cursor: Cursor,
)
    requires
        record.issue is Some,
    ensures
        with_duration(tree, msg, record, cursor) == (DemoView {
            duration: with_duration(tree, msg, record, cursor).duration,
            ..record
        }),
{
}

/// The frame that ends the decoding is the last one that counts: whatever
/// follows it in the buffer, the record is what that frame left, with the
/// duration.
pub proof fn lemma_file_ends_at_frame(
    tree: &HuffmanTree,
    msg: Seq<u8>,
    record: DemoView,
    full: bool,
    k: nat,
)
    requires
        frame_start(tree, msg, record, start_cursor(), full, k) matches Some((r, c)) && !c.ended
            && message_at(tree, msg, r, c, full).1.ended,
    ensures
        ({
            let at = frame_start(tree, msg, record, start_cursor(), full, k).unwrap();
            let last = message_at(tree, msg, at.0, at.1, full);
            decoded(tree, msg, record, full) == with_duration(tree, msg, last.0, last.1)
        }),
{
    lemma_decoding_goes_on(tree, msg, record, start_cursor(), full, k);
}

/// Whether the frame at the cursor declares a message that the buffer does
/// not hold, or is cut off inside its header.
pub open spec fn frame_is_cut(msg: Seq<u8>, cursor: Cursor) -> bool {
    let length = le_i32(msg, cursor.bit_position / 8 + 4);
    ||| cursor.bit_position + 64 > bit_len(msg)
    ||| 0 <= length <= MAX_MESSAGE_LENGTH && cursor.bit_position + 64 + 8 * length + 64
        > bit_len(msg)
}

/// Wherever in a recording the data ends before the end of a declared
/// message, or inside a header, the record is truncated: it keeps what the
/// frames before gave, has the issue and the placeholders, and can be shown.
pub proof fn lemma_truncated_file(
    tree: &HuffmanTree,
    msg: Seq<u8>,
    record: DemoView,
    full: bool,
    k: nat,
)
    requires
        frame_start(tree, msg, record, start_cursor(), full, k) matches Some((r, c)) && !c.ended
            && frame_is_cut(msg, c),
    ensures
        ({
            let before = frame_start(tree, msg, record, start_cursor(), full, k).unwrap().0;
            let after = decoded(tree, msg, record, full);
            &&& after.issue == Some(DemoIssue::Truncated)
            &&& renderable(after)
            &&& after == (DemoView {
                duration: after.duration,
                ..with_issue(before, DemoIssue::Truncated)
            })
        }),
{
    let at = frame_start(tree, msg, record, start_cursor(), full, k).unwrap();
    lemma_file_ends_at_frame(tree, msg, record, full, k);
    lemma_issue_fills_placeholders(at.0, DemoIssue::Truncated);
    let last = message_at(tree, msg, at.0, at.1, full);
    lemma_duration_keeps_issue(tree, msg, last.0, last.1);
}

/// Whether the frame at the cursor holds a message whose first command has
/// a tag that the decoder does not know.
pub open spec fn frame_is_illegible(tree: &HuffmanTree, msg: Seq<u8>, cursor: Cursor) -> bool {
    let length = le_i32(msg, cursor.bit_position / 8 + 4);
    let start = cursor.bit_position + 64;
    &&& 0 <= length <= MAX_MESSAGE_LENGTH
    &&& start + 8 * length + 64 <= bit_len(msg) <= usize::MAX
    &&& match bits_at(tree, msg, start, 32) {
        None => false,
        Some((_, first)) => match symbol_at(tree, msg, first) {
            None => false,
            Some((tag, _)) => tag != GAMESTATE && tag != SERVER_COMMAND && tag != SNAPSHOT && tag
                != END_OF_MESSAGE,
        },
    }
}

/// Wherever in a recording a message begins with a tag that the decoder
/// does not know, the decoding stops there: the record keeps what the frames
/// before gave, and nothing that follows is counted or stored.
pub proof fn lemma_illegible_file(
    tree: &HuffmanTree,
    msg: Seq<u8>,
    record: DemoView,
    full: bool,
    k: nat,
)
    requires
        frame_start(tree, msg, record, start_cursor(), full, k) matches Some((r, c)) && !c.ended
            && frame_is_illegible(tree, msg, c),
    ensures
        ({
            let before = frame_start(tree, msg, record, start_cursor(), full, k).unwrap().0;
            let after = decoded(tree, msg, record, full);
            &&& after.issue == Some(DemoIssue::IllegibleMessage)
            &&& renderable(after)
            &&& after.snapshots == before.snapshots
            &&& after.server_commands == before.server_commands
            &&& after == (DemoView {
                duration: after.duration,
                ..with_issue(before, DemoIssue::IllegibleMessage)
            })
        }),
{
    let at = frame_start(tree, msg, record, start_cursor(), full, k).unwrap();
    let c = at.1;
    let start = c.bit_position + 64;
    let length = le_i32(msg, c.bit_position / 8 + 4);
    let first = bits_at(tree, msg, start, 32).unwrap().1;
    lemma_bits_move(tree, msg, start, 32);
    lemma_illegible_tag(
        tree,
        msg,
        at.0,
        moved(moved(c, start), first),
        start + 8 * length,
        full,
    );
    lemma_file_ends_at_frame(tree, msg, record, full, k);
    lemma_issue_fills_placeholders(at.0, DemoIssue::IllegibleMessage);
    let last = message_at(tree, msg, at.0, at.1, full);
    lemma_duration_keeps_issue(tree, msg, last.0, last.1);
}

/// The snapshot that the commands from `pos` on lead to, if they lead to
/// one: the position behind its tag. Server commands may stand before it.
pub open spec fn snapshot_mark(tree: &HuffmanTree, msg: Seq<u8>, pos: int) -> Option<int>
    decreases bit_len(msg) - pos,
{
    match symbol_at(tree, msg, pos) {
        None => None,
        Some((tag, p1)) => {
            if tag == SNAPSHOT {
                Some(p1)
            } else if tag == SERVER_COMMAND {
                match bits_at(tree, msg, p1, 32) {
                    None => None,
                    Some((_, p2)) => match string_at(tree, msg, p2) {
                        None => None,
                        Some((_, p3)) => {
                            if pos < p3 <= bit_len(msg) <= usize::MAX {
                                snapshot_mark(tree, msg, p3)
                            } else {
                                None
                            }
                        },
                    },
                }
            } else {
                None
            }
        },
    }
}

/// The snapshot of the frame at the cursor, if the frame holds a message
/// that leads to one: the position behind the snapshot's tag.
pub open spec fn frame_mark(tree: &HuffmanTree, msg: Seq<u8>, cursor: Cursor) -> Option<int> {
    let length = le_i32(msg, cursor.bit_position / 8 + 4);
    let start = cursor.bit_position + 64;
    if start > bit_len(msg) || length < 0 || length > MAX_MESSAGE_LENGTH || start + 8 * length
        + 64 > bit_len(msg) {
        None
    } else {
        match bits_at(tree, msg, start, 32) {
            None => None,
            Some((_, first)) => snapshot_mark(tree, msg, first),
        }
    }
}

/// The snapshots of a recording from the cursor on, in their order: for
/// each frame that is decoded and leads to a snapshot, the position behind
/// the snapshot's tag.
pub open spec fn snapshot_marks(
    tree: &HuffmanTree,
    msg: Seq<u8>,
    record: DemoView,
    cursor: Cursor,
    full: bool,
) -> Seq<int>
    decreases bit_len(msg) - cursor.bit_position,
{
    if cursor.ended {
        Seq::empty()
    } else {
        let next = message_at(tree, msg, record, cursor, full);
        let here = match frame_mark(tree, msg, cursor) {
            Some(mark) => seq![mark],
            None => Seq::empty(),
        };
        if !next.1.ended && cursor.bit_position < next.1.bit_position <= bit_len(msg) {
            here + snapshot_marks(tree, msg, next.0, next.1, full)
        } else {
            here
        }
    }
}

/// How a step of the decoding that may meet the snapshot `mark` changes
/// the count of snapshots and the times kept: without a snapshot nothing
/// changes; with one, the count grows by one, the snapshot is the last one
/// seen, and if it is the first one its server time is kept.
pub open spec fn timeline_step(
    tree: &HuffmanTree,
    msg: Seq<u8>,
    record: DemoView,
    cursor: Cursor,
    after: (DemoView, Cursor),
    mark: Option<int>,
) -> bool {
    match mark {
        None => {
            &&& after.0.snapshots == record.snapshots
            &&& after.1.last_snapshot == cursor.last_snapshot
            &&& after.1.first_server_time == cursor.first_server_time
        },
        Some(at) => {
            &&& 0 <= at <= usize::MAX
            &&& after.0.snapshots == record.snapshots + 1
            &&& after.1.last_snapshot == Some(at as usize)
            &&& if record.snapshots == 0 {
                match bits_at(tree, msg, at, 32) {
                    Some((time, _)) => after.1.first_server_time == time,
                    None => after.1.ended,
                }
            } else {
                after.1.first_server_time == cursor.first_server_time
            }
        },
    }
}

/// The commands of a message change the count of snapshots and the times
/// kept as the snapshot that they lead to says.
pub proof fn lemma_commands_timeline(
    tree: &HuffmanTree,
    msg: Seq<u8>,
    record: DemoView,
    cursor: Cursor,
    msg_end: int,
    full: bool,
)
    requires
        bit_len(msg) <= usize::MAX,
        record.snapshots < usize::MAX,
    ensures
        timeline_step(
            tree,
            msg,
            record,
            cursor,
            commands_from(tree, msg, record, cursor, msg_end, full),
            snapshot_mark(tree, msg, cursor.bit_position as int),
        ),
    decreases bit_len(msg) - cursor.bit_position,
{
    let pos = cursor.bit_position as int;
    lemma_walk_moves(tree, msg, tree.root(), pos);
    match symbol_at(tree, msg, pos) {
        None => {},
        Some((tag, p1)) => {
            if tag == GAMESTATE {
                let read = gamestate_at(tree, msg, record, p1, msg_end);
                match bits_at(tree, msg, p1, 32) {
                    None => {},
                    Some((_, p2)) => {
                        lemma_reading_keeps_issue(tree, msg, record, Map::empty(), p2, msg_end);
                    },
                }
                match read.1 {
                    None => {},
                    Some(strings) => {
                        lemma_gamestate_keeps_issue(read.0, strings);
                    },
                }
            } else if tag == SERVER_COMMAND {
                match bits_at(tree, msg, p1, 32) {
                    None => {},
                    Some((index, p2)) => match string_at(tree, msg, p2) {
                        None => {},
                        Some((bytes, p3)) => {
                            if pos < p3 <= bit_len(msg) <= usize::MAX {
                                lemma_commands_timeline(
                                    tree,
                                    msg,
                                    with_command(record, index, text_of(bytes)),
                                    moved(cursor, p3),
                                    msg_end,
                                    full,
                                );
                            }
                        },
                    },
                }
            }
        },
    }
}

/// A frame changes the count of snapshots and the times kept as the
/// snapshot that it leads to says.
pub proof fn lemma_frame_timeline(
    tree: &HuffmanTree,
    msg: Seq<u8>,
    record: DemoView,
    cursor: Cursor,
    full: bool,
)
    requires
        bit_len(msg) <= usize::MAX,
        record.snapshots < usize::MAX,
    ensures
        timeline_step(
            tree,
            msg,
            record,
            cursor,
            message_at(tree, msg, record, cursor, full),
            frame_mark(tree, msg, cursor),
        ),
{
    let pos = cursor.bit_position as int;
    let start = pos + 64;
    let length = le_i32(msg, pos / 8 + 4);
    if pos + 64 <= bit_len(msg) && 0 <= length <= MAX_MESSAGE_LENGTH && start + 8 * length + 64
        <= bit_len(msg) {
        lemma_bits_move(tree, msg, start, 32);
        match bits_at(tree, msg, start, 32) {
            None => {},
            Some((_, first)) => {
                lemma_commands_timeline(
                    tree,
                    msg,
                    record,
                    moved(moved(cursor, start), first),
                    start + 8 * length,
                    full,
                );
            },
        }
    }
}

/// What the snapshots of a recording make of the count and the times kept,
/// from the cursor to the end of the decoding.
pub open spec fn timeline_of(
    tree: &HuffmanTree,
    msg: Seq<u8>,
    record: DemoView,
    cursor: Cursor,
    end: (DemoView, Cursor),
    marks: Seq<int>,
) -> bool {
    &&& end.0.snapshots == record.snapshots + marks.len()
    &&& if marks.len() == 0 {
        &&& end.1.last_snapshot == cursor.last_snapshot
        &&& end.1.first_server_time == cursor.first_server_time
    } else {
        &&& 0 <= marks.last() <= usize::MAX
        &&& end.1.last_snapshot == Some(marks.last() as usize)
        &&& if record.snapshots == 0 {
            match bits_at(tree, msg, marks[0], 32) {
                Some((time, _)) => end.1.first_server_time == time,
                None => marks.len() == 1,
            }
        } else {
            end.1.first_server_time == cursor.first_server_time
        }
    }
}

/// The frames of a recording count one snapshot for each snapshot met,
/// keep the last one met as the last snapshot, and keep the server time of
/// the first one if the record had counted none before.
pub proof fn lemma_frames_timeline(
    tree: &HuffmanTree,
    msg: Seq<u8>,
    record: DemoView,
    cursor: Cursor,
    full: bool,
)
    requires
        bit_len(msg) <= usize::MAX,
        cursor.bit_position <= bit_len(msg) ==> record.snapshots + bit_len(msg)
            - cursor.bit_position < usize::MAX,
        cursor.bit_position > bit_len(msg) ==> record.snapshots < usize::MAX,
    ensures
        timeline_of(
            tree,
            msg,
            record,
            cursor,
            messages_from(tree, msg, record, cursor, full),
            snapshot_marks(tree, msg, record, cursor, full),
        ),
    decreases bit_len(msg) - cursor.bit_position,
{
    if !cursor.ended {
        lemma_frame_timeline(tree, msg, record, cursor, full);
        let next = message_at(tree, msg, record, cursor, full);
        let here = match frame_mark(tree, msg, cursor) {
            Some(mark) => seq![mark],
            None => Seq::<int>::empty(),
        };
        if !next.1.ended && cursor.bit_position < next.1.bit_position <= bit_len(msg) {
            lemma_frames_timeline(tree, msg, next.0, next.1, full);
            let rest = snapshot_marks(tree, msg, next.0, next.1, full);
            let marks = here + rest;
            assert(marks == snapshot_marks(tree, msg, record, cursor, full));
            if rest.len() > 0 {
                assert(marks.last() == rest.last());
            }
            if here.len() > 0 {
                assert(marks[0] == here[0]);
                if rest.len() == 0 {
                    assert(marks =~= here);
                }
            } else {
                assert(marks =~= rest);
            }
        }
    }
}

/// Over a whole recording, decoded into a record that counted no snapshot
/// before: the record counts one snapshot for each snapshot met; without a
/// snapshot the duration is 0; with one snapshot it is 0 too; and with more
/// it is the time elapsed from the server time behind the tag of the first
/// snapshot to the value behind the tag of the last one, whatever the
/// snapshots between them hold.
pub proof fn lemma_file_duration(tree: &HuffmanTree, msg: Seq<u8>, record: DemoView, full: bool)
    requires
        record.snapshots == 0,
        bit_len(msg) < usize::MAX,
    ensures
        ({
            let marks = snapshot_marks(tree, msg, record, start_cursor(), full);
            let after = decoded(tree, msg, record, full);
            &&& after.snapshots == marks.len()
            &&& marks.len() <= 1 ==> after.duration == 0
            &&& marks.len() > 1 ==> match (
                bits_at(tree, msg, marks[0], 32),
                bits_at(tree, msg, marks.last(), 32),
            ) {
                (Some((first, _)), Some((last, _))) => {
                    &&& after.duration == elapsed(first, last)
                    &&& first <= last ==> after.duration == last - first
                },
                _ => after.duration == 0,
            }
        }),
{
    reveal_strlit("???");
    lemma_frames_timeline(tree, msg, record, start_cursor(), full);
}

} // verus!
