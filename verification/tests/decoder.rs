use sarge_launcher::decoder::Cursor;
use sarge_launcher::demo::{Demo, DemoIssue, DemoPlayer};
use sarge_launcher::huffman::{HuffmanTree, Node};

fn grow_plain(table: &mut Vec<Node>, depth: u32, bits: u16) -> usize {
    let at = table.len();
    if depth == 8 {
        table.push(Node::Leaf { symbol: bits });
        return at;
    }
    table.push(Node::Internal { left: 0, right: 0 });
    let left = grow_plain(table, depth + 1, bits);
    let right = grow_plain(table, depth + 1, bits | (1 << depth));
    table[at] = Node::Internal { left, right };
    at
}

/// The tree in which the code word of a byte is its eight bits, lowest
/// first, so that a message reads as its bytes stand.
fn byte_tree() -> HuffmanTree {
    let mut table = Vec::new();
    let root = grow_plain(&mut table, 0, 0);
    HuffmanTree::new(table, root).unwrap()
}

fn frame(message: &[u8]) -> Vec<u8> {
    let mut out = vec![7u8, 0, 0, 0];
    out.extend_from_slice(&(message.len() as i32).to_le_bytes());
    out.extend_from_slice(message);
    out
}

fn header(length: i32) -> Vec<u8> {
    let mut out = vec![7u8, 0, 0, 0];
    out.extend_from_slice(&length.to_le_bytes());
    out
}

fn config(index: u16, text: &str) -> Vec<u8> {
    let mut out = vec![3u8];
    out.extend_from_slice(&index.to_le_bytes());
    out.extend_from_slice(text.as_bytes());
    out.push(0);
    out
}

fn gamestate(strings: &[(u16, &str)]) -> Vec<u8> {
    let mut out = vec![1u8, 0, 0, 0, 2, 9, 0, 0, 0];
    for (index, text) in strings {
        out.extend(config(*index, text));
    }
    out.push(8);
    out
}

fn snapshot(time: i32) -> Vec<u8> {
    let mut out = vec![1u8, 0, 0, 0, 7];
    out.extend_from_slice(&time.to_le_bytes());
    out.extend_from_slice(&[0xde, 0xad, 0xbe, 0xef]);
    out
}

fn command(index: i32, text: &str) -> Vec<u8> {
    let mut out = vec![1u8, 0, 0, 0, 5];
    out.extend_from_slice(&index.to_le_bytes());
    out.extend_from_slice(text.as_bytes());
    out.push(0);
    out.push(8);
    out
}

fn recording(messages: &[Vec<u8>]) -> Vec<u8> {
    let mut out = Vec::new();
    for message in messages {
        out.extend(frame(message));
    }
    out.extend(header(-1));
    out
}

fn fresh() -> Demo {
    Demo::new(
        String::from("match"),
        String::from("/demos/match.dm_68"),
        String::from("/demos"),
        68,
        String::from("dm_68"),
    )
}

fn decode(bytes: &Vec<u8>, all_data: bool) -> Demo {
    let mut demo = fresh();
    demo.parse_demo(bytes, &byte_tree(), all_data);
    demo
}

fn summary(demo: &Demo) -> String {
    let mut commands: Vec<(i32, String)> =
        demo.server_commands.iter().map(|(k, v)| (*k, v.clone())).collect();
    commands.sort();
    let mut out = format!(
        "{}|{}|{}|{}|{}|{}|{}|{}|{}|{}|{}|{}|{}|{:?}|{:?}",
        demo.file_name,
        demo.path,
        demo.parent_path,
        demo.protocol,
        demo.extension,
        demo.snapshots,
        demo.sv_hostname,
        demo.sv_hostname_color,
        demo.gamename,
        demo.g_gametype,
        demo.mapname,
        demo.version,
        demo.duration,
        demo.issue,
        commands
    );
    out.push_str(&format!("|{:?}|{:?}", demo.player_pov, demo.players));
    out.push_str(&format!("|{:?}|{:?}", demo.server_info, demo.system_info));
    out
}

const SERVER_INFO: &str =
    "\\sv_hostname\\^1My ^7Server\\mapname\\q3dm17\\g_gametype\\0\\gamename\\baseq3\\version\\ioq3 1.36\\sv_maxclients\\16\\protocol\\68";
const SYSTEM_INFO: &str = "\\sv_pure\\1\\sv_cheats\\0";

fn whole_match() -> Vec<u8> {
    recording(&[
        gamestate(&[
            (0, SERVER_INFO),
            (1, SYSTEM_INFO),
            (544, "n\\^2Player^7One\\t\\0\\model\\sarge"),
            (545, "n\\Second\\t\\0"),
            (20, "whatever"),
        ]),
        command(1, "print \"^1hello^7 world\n\""),
        snapshot(1000),
        command(2, "cs 5 \"irrelevant\""),
        snapshot(2500),
        command(3, "chat \"gg\""),
        snapshot(4500),
    ])
}

#[test]
fn a_whole_match_is_decoded() {
    let demo = decode(&whole_match(), true);
    assert_eq!(demo.issue, None);
    assert_eq!(demo.file_name, "match");
    assert_eq!(demo.path, "/demos/match.dm_68");
    assert_eq!(demo.parent_path, "/demos");
    assert_eq!(demo.protocol, 68);
    assert_eq!(demo.extension, "dm_68");
    assert_eq!(demo.sv_hostname, "My Server");
    assert_eq!(
        demo.sv_hostname_color,
        "<span class=\"q3c-1\">My </span><span class=\"q3c-7\">Server</span>"
    );
    assert_eq!(demo.mapname, "q3dm17");
    assert_eq!(demo.g_gametype, "0");
    assert_eq!(demo.gamename, "baseq3");
    assert_eq!(demo.version, "ioq3 1.36");
    assert_eq!(demo.server_info.len(), 2);
    assert_eq!(demo.server_info.get("sv_maxclients").unwrap(), "16");
    assert_eq!(demo.server_info.get("protocol").unwrap(), "68");
    assert!(demo.server_info.get("mapname").is_none());
    assert_eq!(demo.system_info.len(), 2);
    assert_eq!(demo.system_info.get("sv_pure").unwrap(), "1");
    assert_eq!(demo.system_info.get("sv_cheats").unwrap(), "0");
    assert_eq!(demo.snapshots, 3);
    assert_eq!(demo.duration, 3500);
    assert_eq!(demo.server_commands.len(), 2);
    assert_eq!(demo.server_commands[&1], "hello world");
    assert_eq!(demo.server_commands[&3], "gg");
    let players = demo.players.as_ref().unwrap();
    assert_eq!(players.len(), 2);
    assert_eq!(players[0].name, "PlayerOne");
    assert_eq!(players[0].raw, "n\\^2Player^7One\\t\\0\\model\\sarge");
    assert_eq!(players[1].name, "Second");
    assert_eq!(demo.player_pov.name, "PlayerOne");
    assert_eq!(
        demo.player_pov.namecolored,
        "<span class=\"q3c-2\">Player</span><span class=\"q3c-7\">One</span>"
    );
}

#[test]
fn decoding_twice_gives_the_same_record() {
    let bytes = whole_match();
    let first = decode(&bytes, true);
    let second = decode(&bytes, true);
    assert_eq!(summary(&first), summary(&second));
    let broken = bytes[..bytes.len() - 30].to_vec();
    assert_eq!(summary(&decode(&broken, true)), summary(&decode(&broken, true)));
}

#[test]
fn the_fast_path_stops_after_the_first_gamestate() {
    let demo = decode(&whole_match(), false);
    assert_eq!(demo.issue, None);
    assert_eq!(demo.mapname, "q3dm17");
    assert_eq!(demo.player_pov.name, "PlayerOne");
    assert_eq!(demo.snapshots, 0);
    assert_eq!(demo.duration, 0);
    assert!(demo.server_commands.is_empty());
}

#[test]
fn the_fast_path_reads_on_until_a_gamestate_comes() {
    let bytes = recording(&[
        command(1, "print \"early\""),
        gamestate(&[(0, "\\mapname\\q3dm6")]),
        command(2, "print \"late\""),
    ]);
    let demo = decode(&bytes, false);
    assert_eq!(demo.mapname, "q3dm6");
    assert_eq!(demo.server_commands.len(), 1);
    assert_eq!(demo.server_commands[&1], "early");
}

#[test]
fn a_length_past_the_end_of_the_buffer_is_truncated() {
    let mut bytes = header(100);
    bytes.extend_from_slice(&[1, 0, 0, 0, 8, 0, 0, 0]);
    let demo = decode(&bytes, true);
    assert_eq!(demo.issue, Some(DemoIssue::Truncated));
    assert_eq!(demo.mapname, "???");
    assert_eq!(demo.gamename, "???");
    assert_eq!(demo.g_gametype, "???");
    assert_eq!(demo.player_pov.name, "???");
    assert_eq!(demo.player_pov.namecolored, "???");
    assert_eq!(demo.snapshots, 0);
    assert_eq!(demo.duration, 0);
}

#[test]
fn a_message_needs_the_next_header_behind_it() {
    let message = snapshot(5);
    let mut bytes = frame(&message);
    let demo = decode(&bytes, true);
    assert_eq!(demo.issue, Some(DemoIssue::Truncated));
    assert_eq!(demo.snapshots, 0);
    bytes.extend_from_slice(&[0u8; 7]);
    assert_eq!(decode(&bytes, true).issue, Some(DemoIssue::Truncated));
    bytes.push(0);
    let demo = decode(&bytes, true);
    assert_eq!(demo.snapshots, 1);
}

#[test]
fn truncation_keeps_what_was_decoded_before() {
    let mut bytes = frame(&gamestate(&[(0, "\\mapname\\q3dm1"), (7, "n\\Owner")]));
    bytes.extend(header(50));
    let demo = decode(&bytes, true);
    assert_eq!(demo.issue, Some(DemoIssue::Truncated));
    assert_eq!(demo.mapname, "q3dm1");
    assert_eq!(demo.gamename, "???");
    assert_eq!(demo.g_gametype, "???");
    assert_eq!(demo.player_pov.name, "Owner");
}

#[test]
fn an_empty_buffer_is_truncated() {
    let demo = decode(&Vec::new(), true);
    assert_eq!(demo.issue, Some(DemoIssue::Truncated));
    assert_eq!(demo.mapname, "???");
    let demo = decode(&vec![0u8; 7], true);
    assert_eq!(demo.issue, Some(DemoIssue::Truncated));
}

#[test]
fn the_end_marker_alone_is_a_recording() {
    let demo = decode(&header(-1), true);
    assert_eq!(demo.issue, None);
    assert_eq!(demo.mapname, "");
    assert_eq!(demo.snapshots, 0);
    assert_eq!(demo.duration, 0);
    assert!(demo.players.is_none());
}

#[test]
fn an_unknown_tag_stops_the_decoding() {
    let bytes = recording(&[
        snapshot(10),
        vec![1, 0, 0, 0, 9, 0, 0],
        snapshot(20),
        command(1, "print \"never\""),
    ]);
    let demo = decode(&bytes, true);
    assert_eq!(demo.issue, Some(DemoIssue::IllegibleMessage));
    assert_eq!(demo.snapshots, 1);
    assert!(demo.server_commands.is_empty());
    assert_eq!(demo.mapname, "???");
    assert_eq!(demo.player_pov.name, "???");
    assert_eq!(demo.duration, 0);
}

#[test]
fn every_tag_but_four_is_known_or_illegible() {
    for tag in [0u8, 1, 3, 4, 6, 9, 200] {
        let bytes = recording(&[vec![1, 0, 0, 0, tag, 8]]);
        assert_eq!(decode(&bytes, true).issue, Some(DemoIssue::IllegibleMessage));
    }
    let bytes = recording(&[vec![1, 0, 0, 0, 8]]);
    assert_eq!(decode(&bytes, true).issue, None);
}

#[test]
fn a_length_above_the_maximum_is_corrupt() {
    let mut bytes = header(16385);
    bytes.extend(vec![0u8; 20000]);
    let demo = decode(&bytes, true);
    assert_eq!(demo.issue, Some(DemoIssue::CorruptLength));
    assert_eq!(demo.mapname, "???");
    let mut message = vec![1u8, 0, 0, 0, 8];
    message.resize(16384, 0);
    let demo = decode(&recording(&[message]), true);
    assert_eq!(demo.issue, None);
}

#[test]
fn a_command_may_run_over_its_message() {
    let mut message = command(1, "print \"much too long for the frame\"");
    let rest = message.split_off(12);
    let mut bytes = frame(&message);
    bytes.extend(rest);
    bytes.extend(vec![0u8; 16]);
    let demo = decode(&bytes, true);
    assert_eq!(demo.server_commands[&1], "much too long for the frame");
    // the cursor goes back to the declared end, where the text stands for a header
    assert_eq!(demo.issue, Some(DemoIssue::CorruptLength));
    assert_eq!(demo.mapname, "???");
}

#[test]
fn the_loop_goes_on_behind_the_end_of_the_message() {
    let mut message = vec![1u8, 0, 0, 0];
    message.push(5);
    message.extend_from_slice(&1i32.to_le_bytes());
    message.extend_from_slice(b"chat \"one\"\0");
    let declared = message.len() - 3;
    message.push(5);
    message.extend_from_slice(&2i32.to_le_bytes());
    message.extend_from_slice(b"chat \"two\"\0");
    message.push(8);
    let mut bytes = vec![7u8, 0, 0, 0];
    bytes.extend_from_slice(&(declared as i32).to_le_bytes());
    bytes.extend_from_slice(&message[..declared]);
    // what follows the declared end is read by the loop and then again as frames
    bytes.extend_from_slice(&message[declared..]);
    bytes.extend(vec![0u8; 16]);
    let demo = decode(&bytes, true);
    assert_eq!(demo.server_commands[&1], "one");
    assert_eq!(demo.server_commands[&2], "two");
}

#[test]
fn a_string_that_the_buffer_cuts_off_is_truncated() {
    let mut message = vec![1u8, 0, 0, 0, 5, 1, 0, 0, 0];
    message.extend_from_slice(b"print \"abc");
    let mut bytes = frame(&message);
    bytes.extend_from_slice(b"defghijk");
    let demo = decode(&bytes, true);
    assert_eq!(demo.issue, Some(DemoIssue::Truncated));
    assert!(demo.server_commands.is_empty());
}

#[test]
fn no_snapshot_gives_no_duration() {
    let demo = decode(&recording(&[gamestate(&[(0, "\\mapname\\q3dm1")])]), true);
    assert_eq!(demo.snapshots, 0);
    assert_eq!(demo.duration, 0);
}

#[test]
fn one_snapshot_gives_no_duration() {
    let demo = decode(&recording(&[snapshot(123456)]), true);
    assert_eq!(demo.snapshots, 1);
    assert_eq!(demo.duration, 0);
    assert_eq!(demo.issue, None);
}

#[test]
fn duration_is_last_minus_first() {
    let demo = decode(&recording(&[snapshot(1000), snapshot(1100), snapshot(91000)]), true);
    assert_eq!(demo.snapshots, 3);
    assert_eq!(demo.duration, 90000);
    let demo = decode(&recording(&[snapshot(-500), snapshot(700)]), true);
    assert_eq!(demo.duration, 1200);
}

#[test]
fn a_last_time_before_the_first_wraps_around() {
    let demo = decode(&recording(&[snapshot(5), snapshot(3)]), true);
    assert_eq!(demo.duration, 0xffff_fffe);
}

#[test]
fn the_first_participant_is_the_point_of_view() {
    let bytes = recording(&[gamestate(&[(544, "n\\PlayerOne\\othervalue")])]);
    let demo = decode(&bytes, true);
    let players = demo.players.as_ref().unwrap();
    assert_eq!(players.len(), 1);
    assert_eq!(players[0].name, "PlayerOne");
    assert_eq!(demo.player_pov.name, "PlayerOne");
    assert_eq!(demo.player_pov.raw, "n\\PlayerOne\\othervalue");
}

#[test]
fn a_second_participant_leaves_the_point_of_view() {
    let mut demo = fresh();
    demo.register_player(&String::from("n\\PlayerOne\\othervalue"));
    demo.register_player(&String::from("n\\^4Other\\t\\3"));
    let players = demo.players.as_ref().unwrap();
    assert_eq!(players.len(), 2);
    assert_eq!(players[1].name, "Other");
    assert_eq!(demo.player_pov.name, "PlayerOne");
    assert_eq!(demo.player_pov.namecolored, "<span class=\"q3c-7\">PlayerOne</span>");
}

#[test]
fn without_participants_nothing_is_listed() {
    let demo = decode(&recording(&[gamestate(&[(0, "\\mapname\\q3dm1"), (5, "north\\x")])]), true);
    assert!(demo.players.is_none());
    assert_eq!(demo.player_pov.name, "");
    assert_eq!(demo.issue, None);
    assert!(!Demo::defines_player(&String::from("north\\x")));
    assert!(Demo::defines_player(&String::from("n\\x")));
}

#[test]
fn a_participant_without_a_name_has_an_empty_one() {
    let mut demo = fresh();
    demo.register_player(&String::from("n\\"));
    assert_eq!(demo.players.as_ref().unwrap()[0].name, "");
    let player = DemoPlayer::new(String::from("raw"));
    assert_eq!(player.raw, "raw");
    assert_eq!(player.name, "");
    assert_eq!(player.namecolored, "");
    assert_eq!(player.othersettings.len(), 0);
}

#[test]
fn every_chat_opcode_is_kept_and_no_other() {
    let bytes = recording(&[
        command(1, "print \"a\""),
        command(2, "tchat \"b\""),
        command(3, "chat \"c\""),
        command(4, "cpsm \"d\""),
        command(5, "cp \"e\""),
        command(6, "pcp \"f\""),
        command(7, "cwhisper \"g\""),
        command(8, "scores 1 2 3"),
        command(9, "printx \"h\""),
        command(10, "cs 3 \"x\""),
        command(11, "print \""),
        command(12, "print \"<b>\""),
    ]);
    let demo = decode(&bytes, true);
    assert_eq!(demo.issue, None);
    let mut keys: Vec<i32> = demo.server_commands.keys().copied().collect();
    keys.sort();
    assert_eq!(keys, vec![1, 2, 3, 4, 5, 6, 7, 11, 12]);
    assert_eq!(demo.server_commands[&1], "a");
    assert_eq!(demo.server_commands[&2], "b");
    assert_eq!(demo.server_commands[&3], "c");
    assert_eq!(demo.server_commands[&4], "d");
    assert_eq!(demo.server_commands[&5], "e");
    assert_eq!(demo.server_commands[&6], "f");
    assert_eq!(demo.server_commands[&7], "g");
    assert_eq!(demo.server_commands[&11], "");
    assert_eq!(demo.server_commands[&12], "<b>");
}

#[test]
fn the_first_command_of_an_index_stays() {
    let mut demo = fresh();
    demo.store_command(4, &String::from("chat \"first\""));
    demo.store_command(4, &String::from("chat \"second\""));
    demo.store_command(-1, &String::from("chat \"^3other\""));
    assert_eq!(demo.server_commands.len(), 2);
    assert_eq!(demo.server_commands[&4], "first");
    assert_eq!(demo.server_commands[&-1], "other");
}

#[test]
fn several_commands_share_a_message() {
    let mut message = vec![1u8, 0, 0, 0];
    for (index, text) in [(1i32, "chat \"one\""), (2, "chat \"two\"")] {
        message.push(5);
        message.extend_from_slice(&index.to_le_bytes());
        message.extend_from_slice(text.as_bytes());
        message.push(0);
    }
    message.push(7);
    message.extend_from_slice(&77i32.to_le_bytes());
    let demo = decode(&recording(&[message]), true);
    assert_eq!(demo.server_commands.len(), 2);
    assert_eq!(demo.server_commands[&2], "two");
    assert_eq!(demo.snapshots, 1);
}

#[test]
fn the_first_config_string_of_an_index_stays() {
    let bytes = recording(&[gamestate(&[(0, "\\mapname\\first"), (0, "\\mapname\\second")])]);
    assert_eq!(decode(&bytes, true).mapname, "first");
}

#[test]
fn a_baseline_ends_the_gamestate_and_the_message() {
    let mut message = vec![1u8, 0, 0, 0, 2, 9, 0, 0, 0];
    message.extend(config(0, "\\mapname\\q3tourney2"));
    message.push(1);
    message.push(4);
    message.extend(config(1, "\\never\\read"));
    let demo = decode(&recording(&[message, snapshot(1)]), true);
    assert_eq!(demo.issue, None);
    assert_eq!(demo.mapname, "q3tourney2");
    assert_eq!(demo.system_info.len(), 0);
    assert_eq!(demo.snapshots, 1);
}

#[test]
fn protocol_91_without_a_game_is_quakelive() {
    let bytes = recording(&[gamestate(&[(0, "\\protocol\\91\\mapname\\campgrounds")])]);
    assert_eq!(decode(&bytes, true).gamename, "quakelive");
    let bytes = recording(&[gamestate(&[(0, "\\protocol\\91\\gamename\\cpma")])]);
    assert_eq!(decode(&bytes, true).gamename, "cpma");
    let bytes = recording(&[gamestate(&[(0, "\\protocol\\68\\mapname\\q3dm1")])]);
    assert_eq!(decode(&bytes, true).gamename, "");
}

#[test]
fn settings_come_in_pairs() {
    let bytes = recording(&[gamestate(&[
        (0, "\\a\\1\\b\\2\\dangling"),
        (1, "\\x\\1\\x\\2\\y\\"),
    ])]);
    let demo = decode(&bytes, true);
    assert_eq!(demo.server_info.len(), 2);
    assert_eq!(demo.server_info.get("a").unwrap(), "1");
    assert_eq!(demo.server_info.get("b").unwrap(), "2");
    assert!(demo.server_info.get("dangling").is_none());
    assert_eq!(demo.system_info.len(), 2);
    assert_eq!(demo.system_info.get("x").unwrap(), "1");
    assert_eq!(demo.system_info.get("y").unwrap(), "");
}

#[test]
fn the_host_name_is_taken_whenever_it_occurs() {
    let bytes = recording(&[gamestate(&[(0, "\\sv_hostname\\one\\sv_hostname\\two\\mapname\\a\\mapname\\b")])]);
    let demo = decode(&bytes, true);
    assert_eq!(demo.sv_hostname, "two");
    assert_eq!(demo.mapname, "a");
}

#[test]
fn placeholders_fill_only_what_is_missing() {
    let mut demo = fresh();
    demo.mapname = String::from("q3dm1");
    demo.finish_bad_demo();
    assert_eq!(demo.mapname, "q3dm1");
    assert_eq!(demo.gamename, "???");
    assert_eq!(demo.g_gametype, "???");
    assert_eq!(demo.player_pov.name, "???");
    assert_eq!(demo.player_pov.namecolored, "???");
    assert_eq!(demo.issue, None);
    let mut demo = fresh();
    demo.fail(DemoIssue::IOFailure);
    assert_eq!(demo.issue, Some(DemoIssue::IOFailure));
    assert_eq!(demo.mapname, "???");
}

#[test]
fn issues_have_their_texts() {
    assert_eq!(DemoIssue::CorruptLength.message(), "message length exceeds maximum");
    assert_eq!(DemoIssue::Truncated.message(), "file truncated");
    assert_eq!(DemoIssue::IllegibleMessage.message(), "illegible server message");
    assert_eq!(DemoIssue::IOFailure.message(), "file could not be read");
}

#[test]
fn a_default_record_is_blank() {
    let demo = Demo::default();
    assert_eq!(demo.file_name, "test");
    assert_eq!(demo.protocol, 68);
    assert_eq!(demo.path, "");
    assert_eq!(demo.snapshots, 0);
    assert_eq!(demo.issue, None);
    assert!(demo.players.is_none());
}

#[test]
fn frames_are_decoded_one_by_one() {
    let bytes = recording(&[snapshot(40), command(6, "chat \"x\"")]);
    let tree = byte_tree();
    let mut demo = fresh();
    let mut cursor =
        Cursor { bit_position: 0, first_server_time: 0, last_snapshot: None, ended: false };
    demo.decode_message(&bytes, &tree, &mut cursor, true);
    assert_eq!(demo.snapshots, 1);
    assert_eq!(cursor.first_server_time, 40);
    assert_eq!(cursor.last_snapshot, Some(64 + 40));
    assert_eq!(cursor.bit_position, 8 * (8 + 13));
    assert!(!cursor.ended);
    demo.decode_message(&bytes, &tree, &mut cursor, true);
    assert_eq!(demo.server_commands[&6], "x");
    assert!(!cursor.ended);
    demo.decode_message(&bytes, &tree, &mut cursor, true);
    assert!(cursor.ended);
    assert_eq!(demo.issue, None);
    let at = cursor.bit_position;
    demo.decode_message(&bytes, &tree, &mut cursor, true);
    assert_eq!(demo.issue, Some(DemoIssue::Truncated));
    assert_eq!(cursor.bit_position, at);
}

#[test]
fn a_gamestate_is_read_into_its_strings() {
    let mut message = vec![9u8, 0, 0, 0];
    message.extend(config(0, "\\mapname\\q3dm1"));
    message.extend(config(3, "n\\Nick"));
    message.extend(config(3, "later"));
    message.push(8);
    let tree = byte_tree();
    let mut demo = fresh();
    let mut pos = 0usize;
    let mut start = 0usize;
    let strings = demo.load_gamestate(&message, &tree, &mut pos, message.len() as i32, &mut start);
    assert_eq!(strings.len(), 2);
    assert_eq!(strings[&0], "\\mapname\\q3dm1");
    assert_eq!(strings[&3], "n\\Nick");
    assert_eq!(pos, 8 * message.len());
    assert_eq!(demo.player_pov.name, "Nick");
    assert_eq!(demo.mapname, "");
    demo.parse_gamestate(&strings);
    assert_eq!(demo.mapname, "q3dm1");
    let mut cut = message.clone();
    cut.pop();
    let mut pos = 0usize;
    let mut demo = fresh();
    assert!(demo.try_load_gamestate(&cut, &tree, &mut pos, cut.len() as i32, &mut start).is_none());
    assert_eq!(demo.player_pov.name, "Nick");
}
