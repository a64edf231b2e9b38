//! The gamestate message: the settings that the server announces and the
//! participants that it lists.

use crate::colorstring::{colored_markup, colored_plain, parse_colorstring};
use crate::demo::{command_texts, player_views, Demo, DemoPlayer, DemoView, PlayerView};
use crate::info_map::{str_eq, InfoMap};
use crate::text::{begins_with, byte_views, bytes_to_text, copy_range, pieces, split_bytes, text_of};
use std::collections::HashMap;
use vstd::prelude::*;
use vstd::string::*;
use vstd::utf8::*;

verus! {

broadcast use vstd::std_specs::hash::group_hash_axioms;

/// The byte that separates the keys and values of a settings string, `\`.
pub const SEPARATOR: u8 = 0x5c;

/// Whether a config string defines a participant: it begins with `n\`.
pub open spec fn is_player_definition(text: Seq<char>) -> bool {
    encode_utf8("n\\"@).is_prefix_of(encode_utf8(text))
}

/// The participant that a definition stands for. Its name is the second of
/// the pieces that the separator cuts the definition into.
pub open spec fn player_of(text: Seq<char>) -> PlayerView {
    let tokens = pieces(encode_utf8(text), SEPARATOR);
    let name = if tokens.len() > 1 {
        text_of(tokens[1])
    } else {
        Seq::empty()
    };
    PlayerView {
        raw: text,
        name: colored_plain(name),
        namecolored: colored_markup(name),
        othersettings: Map::empty(),
    }
}

/// The record with one more participant. The first participant of a record
/// becomes its point of view; a later one leaves the point of view alone.
pub open spec fn with_player(record: DemoView, player: PlayerView) -> DemoView {
    DemoView {
        players: Some(
            match record.players {
                Some(list) => list.push(player),
                None => seq![player],
            },
        ),
        player_pov: if record.players is None {
            player
        } else {
            record.player_pov
        },
        ..record
    }
}

/// The value of a field that keeps what was written first: `value`, unless
/// the field holds something already.
pub open spec fn first_written(current: Seq<char>, value: Seq<char>) -> Seq<char> {
    if current.len() == 0 {
        value
    } else {
        current
    }
}

/// The map with `value` written for `key`, unless the key has a value
/// already.
pub open spec fn first_wins(
    map: Map<Seq<char>, Seq<char>>,
    key: Seq<char>,
    value: Seq<char>,
) -> Map<Seq<char>, Seq<char>> {
    if map.dom().contains(key) {
        map
    } else {
        map.insert(key, value)
    }
}

/// The record after one setting of the server info. The host name is taken
/// whenever it occurs; the game, the game type, the map and the version keep
/// what was written first; every other key goes to the map of server
/// settings.
pub open spec fn with_server_setting(record: DemoView, key: Seq<char>, value: Seq<char>) -> DemoView {
    if key == "sv_hostname"@ {
        DemoView {
            sv_hostname: colored_plain(value),
            sv_hostname_color: colored_markup(value),
            ..record
        }
    } else if key == "gamename"@ {
        DemoView { gamename: first_written(record.gamename, value), ..record }
    } else if key == "g_gametype"@ {
        DemoView { g_gametype: first_written(record.g_gametype, value), ..record }
    } else if key == "mapname"@ {
        DemoView { mapname: first_written(record.mapname, value), ..record }
    } else if key == "version"@ {
        DemoView { version: first_written(record.version, value), ..record }
    } else {
        DemoView { server_info: first_wins(record.server_info, key, value), ..record }
    }
}

/// The record after one setting of the system info.
pub open spec fn with_system_setting(record: DemoView, key: Seq<char>, value: Seq<char>) -> DemoView {
    DemoView { system_info: first_wins(record.system_info, key, value), ..record }
}

/// The record after the settings that `tokens` holds from place `from` on,
/// taken in pairs of key and value. A key without a value at the end is
/// left out.
pub open spec fn with_settings(record: DemoView, tokens: Seq<Seq<u8>>, from: int, system: bool) -> DemoView
    decreases tokens.len() - from,
{
    if from < 0 || from + 1 >= tokens.len() {
        record
    } else {
        let key = text_of(tokens[from]);
        let value = text_of(tokens[from + 1]);
        let next = if system {
            with_system_setting(record, key, value)
        } else {
            with_server_setting(record, key, value)
        };
        with_settings(next, tokens, from + 2, system)
    }
}

/// The record whose game is taken to be `quakelive` where the server names
/// none and announces protocol 91.
pub open spec fn with_inferred_game(record: DemoView) -> DemoView {
    if record.gamename.len() == 0 && record.server_info.dom().contains("protocol"@)
        && record.server_info["protocol"@] == "91"@ {
        DemoView { gamename: "quakelive"@, ..record }
    } else {
        record
    }
}

/// The config string at `index` of a gamestate, or the empty text.
pub open spec fn config_string(strings: Map<i32, Seq<char>>, index: i32) -> Seq<char> {
    if strings.dom().contains(index) {
        strings[index]
    } else {
        Seq::empty()
    }
}

/// The pieces of a settings string. The first piece, which stands before
/// the first separator, is no setting.
pub open spec fn setting_tokens(settings: Seq<char>) -> Seq<Seq<u8>> {
    pieces(encode_utf8(settings), SEPARATOR)
}

/// The record after a gamestate: the server info is config string 0, the
/// system info config string 1.
pub open spec fn with_gamestate(record: DemoView, strings: Map<i32, Seq<char>>) -> DemoView {
    let server = with_settings(record, setting_tokens(config_string(strings, 0)), 1, false);
    with_settings(
        with_inferred_game(server),
        setting_tokens(config_string(strings, 1)),
        1,
        true,
    )
}

impl Demo {
    /// Whether a config string defines a participant.
    pub fn defines_player(definition: &String) -> (b: bool)
        ensures
            b == is_player_definition(definition@),
    {
        begins_with(definition.as_str().as_bytes(), "n\\".as_bytes())
    }

    /// Adds the participant that `definition` stands for. The first
    /// participant becomes the point of view.
    pub fn register_player(&mut self, definition: &String)
        ensures
            final(self)@ == with_player(old(self)@, player_of(definition@)),
            old(self).players is Some ==> final(self)@.player_pov == old(self)@.player_pov,
            final(self).snapshots == old(self).snapshots,
    {
        let tokens = split_bytes(definition.as_str().as_bytes(), SEPARATOR);
        let name = if tokens.len() > 1 {
            bytes_to_text(copy_range(tokens[1].as_slice(), 0, tokens[1].len()))
        } else {
            String::new()
        };
        assert(tokens.len() > 1 ==> byte_views(tokens@)[1] == tokens@[1]@);
        assert(tokens@[1]@.subrange(0, tokens@[1]@.len() as int) =~= tokens@[1]@);
        let parsed = parse_colorstring(name);
        let player = DemoPlayer {
            raw: definition.clone(),
            name: parsed.0,
            namecolored: parsed.1,
            othersettings: InfoMap::new(),
        };
        assert(player@ == player_of(definition@));
        match self.players.take() {
            Some(mut list) => {
                let ghost before = list@;
                list.push(player);
                assert(player_views(list@) =~= player_views(before).push(player@));
                self.players = Some(list);
            },
            None => {
                self.player_pov = player.clone();
                let mut list: Vec<DemoPlayer> = Vec::new();
                list.push(player);
                assert(player_views(list@) =~= seq![player@]);
                self.players = Some(list);
            },
        }
    }

    fn apply_server_setting(&mut self, key: String, value: String)
        ensures
            final(self)@ == with_server_setting(old(self)@, key@, value@),
    {
        if str_eq(key.as_str(), "sv_hostname") {
            let parsed = parse_colorstring(value);
            self.sv_hostname = parsed.0;
            self.sv_hostname_color = parsed.1;
        } else if str_eq(key.as_str(), "gamename") {
            if self.gamename.as_str().is_empty() {
                self.gamename = value;
            }
        } else if str_eq(key.as_str(), "g_gametype") {
            if self.g_gametype.as_str().is_empty() {
                self.g_gametype = value;
            }
        } else if str_eq(key.as_str(), "mapname") {
            if self.mapname.as_str().is_empty() {
                self.mapname = value;
            }
        } else if str_eq(key.as_str(), "version") {
            if self.version.as_str().is_empty() {
                self.version = value;
            }
        } else {
            self.server_info.insert_if_absent(key, value);
        }
    }

    fn apply_settings(&mut self, tokens: &Vec<Vec<u8>>, system: bool)
        ensures
            final(self)@ == with_settings(old(self)@, byte_views(tokens@), 1, system),
            final(self).snapshots == old(self).snapshots,
    {
        let mut i: usize = 1;
        while i < tokens.len() && i + 1 < tokens.len()
            invariant
                1 <= i,
                self.snapshots == old(self).snapshots,
                with_settings(old(self)@, byte_views(tokens@), 1, system) == with_settings(
                    self@,
                    byte_views(tokens@),
                    i as int,
                    system,
                ),
            decreases tokens.len() - i,
        {
            let key = bytes_to_text(copy_range(tokens[i].as_slice(), 0, tokens[i].len()));
            let value = bytes_to_text(
                copy_range(tokens[i + 1].as_slice(), 0, tokens[i + 1].len()),
            );
            assert(tokens@[i as int]@.subrange(0, tokens@[i as int]@.len() as int)
                =~= tokens@[i as int]@);
            assert(tokens@[i + 1]@.subrange(0, tokens@[i + 1]@.len() as int) =~= tokens@[i + 1]@);
            assert(byte_views(tokens@)[i as int] == tokens@[i as int]@);
            assert(byte_views(tokens@)[i + 1] == tokens@[i + 1]@);
            if system {
                self.system_info.insert_if_absent(key, value);
            } else {
                self.apply_server_setting(key, value);
            }
            i += 2;
        }
    }

    fn infer_game(&mut self)
        ensures
            final(self)@ == with_inferred_game(old(self)@),
    {
        if self.gamename.as_str().is_empty() {
            let announced = match self.server_info.get("protocol") {
                Some(protocol) => str_eq(protocol.as_str(), "91"),
                None => false,
            };
            if announced {
                self.gamename = String::from_str("quakelive");
            }
        }
    }

    /// Takes the settings of a gamestate into the record: the server info
    /// from config string 0, the system info from config string 1. A server
    /// that names no game and announces protocol 91 is taken to run
    /// `quakelive`.
    pub fn parse_gamestate(&mut self, gamestate: &HashMap<i32, String>)
        ensures
            final(self)@ == with_gamestate(old(self)@, command_texts(gamestate@)),
            final(self).snapshots == old(self).snapshots,
    {
        let empty = String::new();
        let server = match gamestate.get(&0) {
            Some(text) => text,
            None => &empty,
        };
        let server_tokens = split_bytes(server.as_str().as_bytes(), SEPARATOR);
        self.apply_settings(&server_tokens, false);
        self.infer_game();
        let system = match gamestate.get(&1) {
            Some(text) => text,
            None => &empty,
        };
        let system_tokens = split_bytes(system.as_str().as_bytes(), SEPARATOR);
        self.apply_settings(&system_tokens, true);
    }
}

} // verus!
