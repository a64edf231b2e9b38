use sarge_launcher::client::{Q3Executable, SearchPath};
use sarge_launcher::config::AppData;
use sarge_launcher::demo::Demo;
use sarge_launcher::info_map::InfoMap;
use sarge_launcher::level::{
    arena_entry, classify_entry, entry_stem, levelshot_format, pick_levelshot,
    pick_lowered_levelshot, EntryKind, Level, ShotFormat,
};
use sarge_launcher::server::ServerPlayer;
use sarge_launcher::text_set::TextSet;
use sarge_launcher::master::MasterServer;
use sarge_launcher::server::Quake3Server;
use sarge_launcher::status::StatusError;
use sarge_launcher::text::{
    contains_bytes, ends_with, find_last, find_next, remove_mark, same_bytes, split_lines,
};

fn span(color: &str, text: &str) -> String {
    format!("<span class=\"q3c-{}\">{}</span>", color, text)
}

fn padded(text: &[u8]) -> Vec<u8> {
    let mut out = text.to_vec();
    out.resize(2400, 0);
    out
}

fn server() -> Quake3Server {
    Quake3Server::new(String::from("1.2.3.4"), String::from("27960"), None, Some(68))
}

const SETTINGS: &[u8] =
    b"\xff\xff\xff\xffstatusResponse\n\\sv_hostname\\^1Host\\mapname\\q3dm17\\gamename\\cpma\\sv_maxclients\\16\\version\\ioq3 1.36\\g_needpass\\0\\g_needpass\\1\n";

#[test]
fn a_status_response_without_players() {
    let mut s = server();
    assert_eq!(s.parse_status_response(&padded(SETTINGS)), Ok(()));
    assert_eq!(s.host, "Host");
    assert_eq!(s.hostcolored, format!("{}", span("1", "Host")));
    assert_eq!(s.map, "q3dm17");
    assert_eq!(s.game, "cpma");
    assert_eq!(s.maxclients, "16");
    assert_eq!(s.version, "ioq3 1.36");
    assert_eq!(s.othersettings.len(), 1);
    assert_eq!(s.othersettings.get("g_needpass").unwrap(), "0");
    assert!(s.players.is_none());
    assert_eq!(s.bots, 0);
    assert_eq!(s.playersconnected, 0);
}

#[test]
fn a_status_response_with_players() {
    let mut response = SETTINGS.to_vec();
    response.extend_from_slice(b"5 40 \"^2Alice\"\n0 0 \"Bot One\"\n-1 999 \"x\"\n");
    let mut s = server();
    assert_eq!(s.parse_status_response(&padded(&response)), Ok(()));
    let players = s.players.as_ref().unwrap();
    assert_eq!(players.len(), 3);
    assert_eq!(players[0].name, "Alice");
    assert_eq!(players[0].frags, 5);
    assert_eq!(players[0].ping, 40);
    assert_eq!(players[1].name, "Bot One");
    assert_eq!(players[1].ping, 0);
    assert_eq!(players[2].frags, -1);
    assert_eq!(s.bots, 1);
    assert_eq!(s.playersconnected, 2);
    assert_eq!(s.map, "q3dm17");
    assert_eq!(s.parse_status_response(&padded(&response)), Ok(()));
    assert_eq!(s.players.as_ref().unwrap().len(), 6);
    assert_eq!(s.bots, 2);
}

#[test]
fn protocol_114_plays_base() {
    let mut s = Quake3Server::new(String::from("1.2.3.4"), String::from("1"), None, Some(114));
    assert_eq!(s.parse_status_response(&padded(SETTINGS)), Ok(()));
    assert_eq!(s.game, "base");
}

#[test]
fn another_datagram_is_no_status() {
    let mut s = server();
    assert_eq!(
        s.parse_status_response(&padded(b"\xff\xff\xff\xffinfoResponse\n\\a\\b\n")),
        Err(StatusError::FailedToReceiveMessage)
    );
    assert_eq!(s.parse_status_response(b""), Err(StatusError::FailedToReceiveMessage));
    assert_eq!(s.map, "");
}

#[test]
fn a_status_without_its_parts_is_refused() {
    let mut s = server();
    assert_eq!(
        s.parse_status_response(&padded(b"\xff\xff\xff\xffstatusResponse\nnothing here\n")),
        Err(StatusError::MissingSettingsDelimiter)
    );
    assert_eq!(
        s.parse_status_response(&padded(b"\xff\xff\xff\xffstatusResponse\n\\mapname\\q3dm1")),
        Err(StatusError::MissingSettingsEnd)
    );
    assert_eq!(
        s.parse_status_response(&padded(b"\xff\xff\xff\xffstatusResponse\n\\mapname\\q3dm1\\odd\n")),
        Err(StatusError::Malformed)
    );
    assert_eq!(
        s.parse_status_response(&padded(b"\xff\xff\xff\xffstatusResponse\n\\mapname\\q3dm1\n5 40\n")),
        Err(StatusError::Malformed)
    );
    assert_eq!(
        s.parse_status_response(&padded(b"\xff\xff\xff\xffstatusResponse\n\\mapname\\q3dm1\nfive 40 \"a\"\n")),
        Err(StatusError::Malformed)
    );
    assert_eq!(
        s.parse_status_response(&padded(b"\xff\xff\xff\xffstatusResponse\n\\mapname\\q3dm1\n5 40 \"\n")),
        Err(StatusError::Malformed)
    );
    assert_eq!(s.map, "");
    assert!(s.players.is_none());
    assert_eq!(StatusError::MissingSettingsEnd.message(), "last gamestate length");
    assert_eq!(StatusError::MissingSettingsDelimiter.message(), "last gamestate delimiter");
    assert_eq!(StatusError::FailedToReceiveMessage.message(), "failed to receive message");
}

#[test]
fn more_than_255_bots_are_refused() {
    let mut response = SETTINGS.to_vec();
    for _ in 0..128 {
        response.extend_from_slice(b"0 0 \"b\"\n");
    }
    let mut s = server();
    assert_eq!(s.parse_status_response(&response), Ok(()));
    assert_eq!(s.bots, 128);
    assert_eq!(s.parse_status_response(&response), Err(StatusError::Malformed));
    assert_eq!(s.bots, 128);
    assert_eq!(s.players.as_ref().unwrap().len(), 128);
}

#[test]
fn malformed_bytes_are_replaced() {
    let mut response = b"\xff\xff\xff\xffstatusResponse\n\\mapname\\q3\xffdm\\sv_hostname\\caf\xc3\xa9\n".to_vec();
    response.extend_from_slice(b"1 2 \"a\xfeb\"\n");
    let mut s = server();
    assert_eq!(s.parse_status_response(&response), Ok(()));
    assert_eq!(s.map, "q3\u{fffd}dm");
    assert_eq!(s.host, "caf\u{c3}\u{a9}");
    assert_eq!(s.players.as_ref().unwrap()[0].name, "a\u{ef}\u{bf}\u{bd}b");
}

const ARENAS: &str = "// the arenas\r\n{\r\n\tmap\t\t\"Q3DM1\"\r\n\tlongname\t\"^1Arena Gate\"\r\n\ttype\t\"ffa  tourney\"\r\n\tauthor \"^2Someone\"\r\n\tbots \"sarge\"\r\n\tmap \"other\"\r\n}\r\n\r\n{\nlongname \"no map\"\n}\n{\nMAP \" q3dm2 \"\n}";

#[test]
fn arena_files_describe_arenas() {
    let arenas = Level::parse_arena_data(String::from(ARENAS));
    assert_eq!(arenas.len(), 2);
    assert_eq!(arenas[0].len(), 5);
    assert_eq!(arenas[0].get("map").unwrap(), "q3dm1");
    assert_eq!(
        arenas[0].get("longname").unwrap(),
        &format!("{}", span("1", "Arena Gate"))
    );
    assert_eq!(arenas[0].get("gametype").unwrap(), "ffa  tourney");
    assert_eq!(arenas[0].get("author").unwrap(), "Someone");
    assert_eq!(
        arenas[0].get("author_vhtml").unwrap(),
        &format!("{}", span("2", "Someone"))
    );
    assert_eq!(arenas[1].len(), 1);
    assert_eq!(arenas[1].get("map").unwrap(), "q3dm2");
    assert!(Level::parse_arena_data(String::new()).is_empty());
    assert!(Level::parse_arena_data(String::from("map \"q3dm1\"")).is_empty());
}

#[test]
fn only_a_brace_alone_starts_an_arena() {
    let arenas = Level::parse_arena_data(String::from("{\nlongname \"kept\"\n}\n{ \nmap \"a\"\n}\n"));
    assert_eq!(arenas.len(), 1);
    assert_eq!(arenas[0].get("longname").unwrap(), &span("7", "kept"));
    assert_eq!(arenas[0].get("map").unwrap(), "a");
}

fn names(list: &[&str]) -> Vec<String> {
    list.iter().map(|s| String::from(*s)).collect()
}

#[test]
fn the_entries_of_an_archive_are_sorted() {
    let entries = names(&[
        "maps/q3dm1.bsp",
        "MAPS/Q3DM2.BSP",
        "maps/q3dm1.aas",
        "scripts/arenas.txt",
        "scripts/extra.arena",
        "Scripts/run.DEFI",
        "levelshots/q3dm1.jpg",
        "textures/maps.bsp",
        "maps.bsp",
    ]);
    let (levels, arenas, defis) = Level::scan_archive(
        &String::from("pak0"),
        &String::from("/q3/baseq3/pak0.pk3"),
        &String::from("/q3/baseq3"),
        &entries,
    );
    assert_eq!(levels.len(), 3);
    assert_eq!(levels[0].level_name, "q3dm1");
    assert_eq!(levels[0].pk3_name, "pak0");
    assert_eq!(levels[0].path, "/q3/baseq3/pak0.pk3");
    assert_eq!(levels[0].parent_path, "/q3/baseq3");
    assert_eq!(levels[0].year_created, 1901);
    assert!(!levels[0].is_defrag);
    assert!(levels[0].gametype.is_empty());
    assert_eq!(levels[1].level_name, "Q3DM2");
    assert_eq!(levels[2].level_name, "");
    assert_eq!(arenas, names(&["scripts/arenas.txt", "scripts/extra.arena"]));
    assert_eq!(defis, names(&["Scripts/run.DEFI"]));
    assert_eq!(classify_entry(b"maps/a.bsp"), EntryKind::Bsp);
    assert_eq!(classify_entry(b"scripts/a.arena"), EntryKind::Arena);
    assert_eq!(classify_entry(b"scripts/a.defi"), EntryKind::Defi);
    assert_eq!(classify_entry(b"sound/a.wav"), EntryKind::Other);
    assert_eq!(entry_stem("levelshots/q3dm1.jpg", 11), "q3dm1");
    assert_eq!(entry_stem("short", 5), "");
}

#[test]
fn levels_take_what_their_arenas_say() {
    let entries = names(&["maps/Q3DM1.bsp", "maps/run1.bsp", "maps/plain.bsp"]);
    let (mut levels, _, _) = Level::scan_archive(
        &String::from("pak0"),
        &String::from("/q3/baseq3/pak0.pk3"),
        &String::from("/q3/baseq3"),
        &entries,
    );
    let defi = "{\nmap \"run1\"\nlongname \"Run One\"\nauthor \"^4Runner\"\n}\n{\nmap \"run1\"\nlongname \"second\"\n}";
    Level::get_remaining_data(
        &mut levels,
        vec![String::from("// nothing"), String::from(ARENAS)],
        vec![String::from(defi)],
        &vec![Some(1999), None],
    );
    assert_eq!(levels.len(), 3);
    assert_eq!(levels[0].level_name, "Q3DM1");
    assert_eq!(levels[0].long_name, format!("{}", span("1", "Arena Gate")));
    assert_eq!(levels[0].author, "Someone");
    assert_eq!(levels[0].author_vhtml, "id Software");
    assert_eq!(levels[0].gametype, names(&["ffa", "tourney"]));
    assert_eq!(levels[0].year_created, 1999);
    assert!(!levels[0].is_defrag);
    assert!(levels[1].is_defrag);
    assert_eq!(levels[1].gametype, names(&["race"]));
    assert_eq!(levels[1].long_name, span("7", "Run One"));
    assert_eq!(levels[1].author, "Runner");
    assert_eq!(levels[1].author_vhtml, format!("{}", span("4", "Runner")));
    assert_eq!(levels[1].year_created, 1901);
    assert_eq!(levels[2].author, "id Software");
    assert_eq!(levels[2].author_vhtml, "id Software");
    assert_eq!(levels[2].long_name, "");
    assert_eq!(levels[2].year_created, 1901);
}

#[test]
fn levels_of_other_archives_are_unsigned() {
    let (mut levels, _, _) = Level::scan_archive(
        &String::from("pak0"),
        &String::from("/q3/cpma/pak0.pk3"),
        &String::from("/q3/cpma"),
        &names(&["maps/a.bsp"]),
    );
    levels[0].describe(Some(2003), &Vec::new(), &Vec::new());
    assert_eq!(levels[0].author, "");
    assert_eq!(levels[0].year_created, 2003);
}

#[test]
fn level_pictures_are_found() {
    assert_eq!(levelshot_format(b"levelshots/q3dm1.jpg"), Some(ShotFormat::Jpeg));
    assert_eq!(levelshot_format(b"levelshots/q3dm1.tga"), Some(ShotFormat::Tga));
    assert_eq!(levelshot_format(b"levelshots/q3dm1.png"), None);
    assert_eq!(levelshot_format(b"textures/q3dm1.jpg"), None);
    let shots = names(&["levelshots/Q3DM10.jpg", "levelshots/q3dm1.tga"]);
    assert_eq!(pick_levelshot(&shots, "q3dm1"), Some(0));
    assert_eq!(pick_levelshot(&shots, "q3dm1."), Some(1));
    assert_eq!(pick_levelshot(&shots, "q3dm2"), None);
    assert_eq!(pick_levelshot(&Vec::new(), "q3dm2"), None);
}

#[test]
fn text_is_cut_into_lines() {
    assert_eq!(split_lines(b"a\r\nb\n\nc"), vec![b"a".to_vec(), b"b".to_vec(), b"".to_vec(), b"c".to_vec()]);
    assert_eq!(split_lines(b"a\n"), vec![b"a".to_vec()]);
    assert_eq!(split_lines(b""), Vec::<Vec<u8>>::new());
    assert_eq!(split_lines(b"\n"), vec![b"".to_vec()]);
    assert_eq!(split_lines(b"a\r"), vec![b"a\r".to_vec()]);
    for text in ["", "\n", "a", "a\n", "a\r\n\r\nb", "\r", "x\r\r\n", "\n\n"] {
        let expected: Vec<Vec<u8>> = text.lines().map(|l| l.as_bytes().to_vec()).collect();
        assert_eq!(split_lines(text.as_bytes()), expected, "{:?}", text);
    }
    assert_eq!(remove_mark(b"\ta\t\tb", 9), b"ab".to_vec());
    assert!(ends_with(b"map.bsp", b".bsp"));
    assert!(!ends_with(b"bsp", b".bsp"));
    assert!(contains_bytes(b"/q3/baseq3/x", b"baseq3"));
    assert!(contains_bytes(b"abc", b""));
    assert!(!contains_bytes(b"/q3/base/x", b"baseq3"));
    assert!(same_bytes(b"{", b"{"));
    assert!(!same_bytes(b"{ ", b"{"));
    assert_eq!(find_last(b"a\\b\\c", b'\\'), Some(3));
    assert_eq!(find_last(b"abc", b'\\'), None);
    assert_eq!(find_next(b"a\\b\\c", b'\\', 2), Some(3));
    assert_eq!(find_next(b"a\\b\\c", b'\\', 4), None);
}

#[test]
fn saved_servers_join_the_list() {
    let mut data = AppData::new(String::from("/data"));
    data.custom.insert(String::from("9.9.9.9:27960"));
    data.custom.insert(String::from("1.1.1.1:27960"));
    data.custom.insert(String::from("no colon"));
    data.pinned.insert(String::from("2.2.2.2:27961"));
    data.pinned.insert(String::from("8.8.8.8:27960"));
    data.trash.insert(String::from("3.3.3.3:27960"));
    data.trash_ip.insert(String::from("4.4.4.4"));
    let mut servers: Vec<Quake3Server> = ["1.1.1.1", "2.2.2.2", "3.3.3.3", "4.4.4.4", "5.5.5.5"]
        .iter()
        .map(|ip| Quake3Server::new(String::from(*ip), String::from("27960"), None, Some(68)))
        .collect();
    data.get_saved_servers(&mut servers);
    let seen: Vec<(String, String, bool)> =
        servers.iter().map(|s| (s.address.clone(), s.list.clone(), s.custom)).collect();
    let expected = vec![
        ("1.1.1.1:27960", "pinned", true),
        ("2.2.2.2:27960", "main", false),
        ("3.3.3.3:27960", "trash", false),
        ("4.4.4.4:27960", "trash", false),
        ("5.5.5.5:27960", "main", false),
        ("9.9.9.9:27960", "pinned", true),
        ("2.2.2.2:27961", "pinned", false),
        ("8.8.8.8:27960", "pinned", false),
    ];
    let expected: Vec<(String, String, bool)> =
        expected.into_iter().map(|(a, l, c)| (String::from(a), String::from(l), c)).collect();
    assert_eq!(seen, expected);
    assert_eq!(servers[5].ip, "9.9.9.9");
    assert_eq!(servers[5].port, "27960");
    assert!(servers[5].protocol.is_none());
}

#[test]
fn masters_are_asked_in_their_own_words() {
    let query = |game: &str, protocol: u8| MasterServer::master_query(&String::from(game), &protocol);
    assert_eq!(query("Quake 3", 68), b"\xff\xff\xff\xffgetservers 68 full empty".to_vec());
    assert_eq!(query("Quake 3", 43), b"\xff\xff\xff\xffgetservers 43 full empty".to_vec());
    assert_eq!(query("Quake 3", 71), b"\xff\xff\xff\xffgetservers 68 full empty".to_vec());
    assert_eq!(query("Urban Terror", 43), b"\xff\xff\xff\xffgetservers 68 full empty".to_vec());
    assert_eq!(query("OpenArena", 43), b"\xff\xff\xff\xffgetservers 71 full empty".to_vec());
    assert_eq!(
        query("Bloodrun", 43),
        b"\xff\xff\xff\xffgetservers Quake3Champions 114 full empty".to_vec()
    );
    assert_eq!(query("?", 43), b"\xff\xff\xff\xffgetservers 68 full empty".to_vec());
    let mut masters = MasterServer::initial_masters();
    masters[1].active = false;
    masters[5].active = false;
    let chosen = MasterServer::active_masters(&masters);
    assert_eq!(chosen.len(), 5);
    assert_eq!(chosen[1], masters[2]);
    assert_eq!(chosen[4], masters[6]);
    assert!(MasterServer::expects_more(10, 10));
    assert!(MasterServer::expects_more(11, 10));
    assert!(!MasterServer::expects_more(9, 10));
}

#[test]
fn servers_are_shared_out_among_threads() {
    assert_eq!(Quake3Server::chunk_size(100, 50), 2);
    assert_eq!(Quake3Server::chunk_size(10, 50), 1);
    assert_eq!(Quake3Server::chunk_size(0, 3), 1);
    assert_eq!(Quake3Server::chunk_size(101, 50), 2);
}

#[test]
fn recordings_are_known_by_their_extension() {
    for extension in ["dm_48", "dm_66", "dm_67", "dm_68", "dm_73", "dm_91"] {
        assert!(Demo::has_demo_extension(extension));
    }
    for extension in ["dm_69", "DM_68", "", "cfg", "dm_680"] {
        assert!(!Demo::has_demo_extension(extension));
    }
}

#[test]
fn a_script_plays_a_recording() {
    assert_eq!(
        Demo::create_demo_script("demos/match", false, false),
        "set cpma_menu togglemenu\r\nset close quit\r\nset demo_load \"demo demos/match;\"\r\nvstr demo_load"
    );
    assert_eq!(
        Demo::create_demo_script("m", true, false),
        "set cpma_menu togglemenu\r\nset close quit\r\nset demo_load \"demo m; set nextdemo vstr close\"\r\nvstr demo_load"
    );
    assert_eq!(
        Demo::create_demo_script("m", true, true),
        "set cpma_menu togglemenu\r\nset close quit\r\nset demo_load \"demo m; set nextdemo vstr close set nextdemo vstr demo_load\"\r\nvstr demo_load"
    );
}

#[test]
fn each_game_has_its_search_paths() {
    let client = |game: &str| Q3Executable {
        name: String::from("q3"),
        exe_path: String::from("/q3/q3"),
        parent_path: String::from("/q3"),
        gamename: String::from(game),
        extra_launch_args: String::new(),
    };
    let all = [
        SearchPath::HomeGame,
        SearchPath::ClientGame,
        SearchPath::OpenArenaGame,
        SearchPath::HomeBaseq3,
        SearchPath::ClientBaseq3,
        SearchPath::HomeBaseoa,
        SearchPath::ClientBaseoa,
    ];
    let chosen = |game: &str| -> Vec<bool> { all.iter().map(|p| client(game).searches_in(*p)).collect() };
    assert_eq!(chosen("CPMA"), vec![true, true, false, true, true, false, false]);
    assert_eq!(chosen("rat"), vec![false, true, true, false, false, true, true]);
    assert_eq!(chosen("q3ut4"), vec![true, true, false, false, false, false, false]);
}

#[test]
fn an_arena_takes_its_entries() {
    let entry = |arena: InfoMap, key: &str, value: &str| {
        arena_entry(arena, key, String::from(value), value.to_lowercase())
    };
    let arena = entry(InfoMap::new(), " map ", "Q3DM1");
    assert_eq!(arena.get("map").unwrap(), "q3dm1");
    let arena = entry(arena, "map", "Other");
    assert_eq!(arena.get("map").unwrap(), "q3dm1");
    let arena = entry(arena, "type", "FFA Tourney");
    assert_eq!(arena.get("gametype").unwrap(), "FFA Tourney");
    let arena = entry(arena, "longname", "^1Gate <1>");
    assert_eq!(arena.get("longname").unwrap(), &span("1", "Gate &lt;1&gt;"));
    let arena = entry(arena, "author", "^2Some^7one");
    assert_eq!(arena.get("author").unwrap(), "Someone");
    assert_eq!(arena.get("author_vhtml").unwrap(), &format!("{}{}", span("2", "Some"), span("7", "one")));
    let arena = entry(arena, "bots", "sarge");
    assert_eq!(arena.len(), 5);
    // the key is expected in lower case
    let arena = entry(InfoMap::new(), "MAP", "q3dm1");
    assert_eq!(arena.len(), 0);
}

#[test]
fn lowered_names_are_searched_as_they_stand() {
    let shots = names(&["levelshots/q3dm10.jpg", "levelshots/Q3DM1.tga", "levelshots/q3dm1.tga"]);
    assert_eq!(pick_lowered_levelshot(&shots, "q3dm1."), Some(2));
    assert_eq!(pick_lowered_levelshot(&shots, "q3dm1"), Some(0));
    assert_eq!(pick_lowered_levelshot(&shots, "Q3DM1"), Some(1));
    assert_eq!(pick_lowered_levelshot(&shots, "q3dm2"), None);
    assert_eq!(pick_levelshot(&shots, "q3dm1."), Some(1));
}

#[test]
fn a_level_is_described_by_the_name_given() {
    let (mut levels, _, _) = Level::scan_archive(
        &String::from("maps1"),
        &String::from("/q3/baseq3/maps1.pk3"),
        &String::from("/q3/baseq3"),
        &names(&["maps/Q3DM1.bsp"]),
    );
    let arenas = Level::parse_arena_data(String::from(ARENAS));
    let mut by_own_name = levels[0].clone();
    by_own_name.describe_as(&String::from("Q3DM1"), None, &arenas, &Vec::new());
    assert_eq!(by_own_name.long_name, "");
    levels[0].describe_as(&String::from("q3dm1"), Some(2001), &arenas, &Vec::new());
    assert_eq!(levels[0].long_name, span("1", "Arena Gate"));
    assert_eq!(levels[0].author, "Someone");
    assert_eq!(levels[0].author_vhtml, "");
    assert_eq!(levels[0].year_created, 2001);
}

#[test]
fn a_setting_of_a_status_is_taken_alone() {
    let mut s = server();
    s.apply_status_setting(String::from("mapname"), String::from("q3dm6"));
    s.apply_status_setting(String::from("sv_hostname"), String::from("^4<Host>"));
    s.apply_status_setting(String::from("g_gametype"), String::from("0"));
    s.apply_status_setting(String::from("g_gametype"), String::from("4"));
    assert_eq!(s.map, "q3dm6");
    assert_eq!(s.host, "<Host>");
    assert_eq!(s.hostcolored, span("4", "&lt;Host&gt;"));
    assert_eq!(s.othersettings.get("g_gametype").unwrap(), "0");
}

#[test]
fn copies_hold_what_their_sources_hold() {
    let mut map = InfoMap::new();
    map.insert_if_absent(String::from("a"), String::from("1"));
    let mut copy = map.clone();
    copy.insert_if_absent(String::from("b"), String::from("2"));
    assert_eq!(map.len(), 1);
    assert_eq!(copy.len(), 2);
    assert_eq!(copy.get("a").unwrap(), "1");
    let mut set = TextSet::new();
    set.insert(String::from("x"));
    let copy = set.clone();
    assert!(copy.contains("x"));
    assert_eq!(copy.len(), 1);
    let mut demo = Demo::default();
    demo.register_player(&String::from("n\\Nick"));
    let twin = demo.clone();
    assert_eq!(twin.player_pov.name, "Nick");
    assert_eq!(twin.players.as_ref().unwrap().len(), 1);
    let s = server();
    assert_eq!(s.clone().address, s.address);
    let player = ServerPlayer::default();
    assert_eq!((player.name.as_str(), player.frags, player.ping), ("", 0, 0));
    let blank = sarge_launcher::demo::DemoPlayer::default();
    assert_eq!((blank.raw.as_str(), blank.name.as_str()), ("", ""));
}
