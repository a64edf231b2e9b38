//! What a game server answers when it is asked for its status: a line of
//! settings, then a line for each player.

use crate::colorstring::{colored_markup, colored_plain, parse_colorstring};
use crate::gamestate::{first_wins, SEPARATOR};
use crate::info_map::str_eq;
use crate::server::{
    player_entry, server_player_views, Quake3Server, ServerPlayer, ServerPlayerView, ServerView,
};
use crate::text::{
    begins_with, byte_views, find_last, find_next, last_mark, lossy, lossy_text, next_mark,
    pieces, split_bytes,
};
use vstd::prelude::*;
use vstd::slice::slice_subrange;
use vstd::string::*;
use vstd::utf8::*;

verus! {

/// Why a status response could not be read.
#[derive(Clone, Copy, Debug, PartialEq, Eq, Structural)]
pub enum StatusError {
    /// The datagram is no status response.
    FailedToReceiveMessage,
    /// The response holds no separator.
    MissingSettingsDelimiter,
    /// No line feed follows the last separator.
    MissingSettingsEnd,
    /// The settings do not come in pairs, a player's line lacks a part or a
    /// number, or the server would hold more than 255 players or bots.
    Malformed,
}

impl StatusError {
    /// The text shown for the error.
    pub fn message(&self) -> (s: String)
        ensures
            s@ == match *self {
                StatusError::FailedToReceiveMessage => "failed to receive message"@,
                StatusError::MissingSettingsDelimiter => "last gamestate delimiter"@,
                StatusError::MissingSettingsEnd => "last gamestate length"@,
                StatusError::Malformed => "malformed status response"@,
            },
    {
        match self {
            StatusError::FailedToReceiveMessage => String::from_str("failed to receive message"),
            StatusError::MissingSettingsDelimiter => String::from_str("last gamestate delimiter"),
            StatusError::MissingSettingsEnd => String::from_str("last gamestate length"),
            StatusError::Malformed => String::from_str("malformed status response"),
        }
    }
}

/// The byte that ends a line.
pub const LINE_FEED: u8 = 0x0a;

/// The byte that separates the parts of a player's line.
pub const SPACE: u8 = 0x20;

/// The place at which the settings start: behind the header and the first
/// separator.
pub const FIRST_SETTING: usize = 20;

/// Whether a datagram is a status response: four bytes `0xff`, then the word
/// `statusResponse` and a line feed.
pub open spec fn is_status_response(response: Seq<u8>) -> bool {
    &&& response.len() >= 4
    &&& response[0] == 0xff
    &&& response[1] == 0xff
    &&& response[2] == 0xff
    &&& response[3] == 0xff
    &&& encode_utf8("statusResponse\n"@).is_prefix_of(
        response.subrange(4, response.len() as int),
    )
}

/// The place of the line feed that ends the settings: the first one behind
/// the last separator of the response.
pub open spec fn settings_end(response: Seq<u8>) -> int {
    next_mark(
        response,
        LINE_FEED,
        last_mark(response, SEPARATOR, response.len() as int) + 1,
    )
}

/// The place of the line feed that ends the players: the last one of the
/// response.
pub open spec fn players_end(response: Seq<u8>) -> int {
    last_mark(response, LINE_FEED, response.len() as int)
}

/// What is wrong with the frame of a response, if anything.
pub open spec fn frame_error(response: Seq<u8>) -> Option<StatusError> {
    if !is_status_response(response) {
        Some(StatusError::FailedToReceiveMessage)
    } else if last_mark(response, SEPARATOR, response.len() as int) < 0 {
        Some(StatusError::MissingSettingsDelimiter)
    } else if settings_end(response) >= response.len() {
        Some(StatusError::MissingSettingsEnd)
    } else if settings_end(response) < FIRST_SETTING {
        Some(StatusError::Malformed)
    } else {
        None
    }
}

/// The server after one setting of a status response.
pub open spec fn with_status_setting(server: ServerView, key: Seq<char>, value: Seq<char>) -> ServerView {
    if key == "sv_hostname"@ {
        ServerView { host: colored_plain(value), hostcolored: colored_markup(value), ..server }
    } else if key == "version"@ {
        ServerView { version: value, ..server }
    } else if key == "gamename"@ {
        ServerView {
            game: if server.protocol == Some(114u8) {
                "base"@
            } else {
                value
            },
            ..server
        }
    } else if key == "sv_maxclients"@ {
        ServerView { maxclients: value, ..server }
    } else if key == "mapname"@ {
        ServerView { map: value, ..server }
    } else {
        ServerView { othersettings: first_wins(server.othersettings, key, value), ..server }
    }
}

/// The server after the settings that `tokens` holds from place `from` on,
/// in pairs of key and value.
pub open spec fn with_status_settings(server: ServerView, tokens: Seq<Seq<u8>>, from: int) -> ServerView
    decreases tokens.len() - from,
{
    if from < 0 || from + 1 >= tokens.len() {
        server
    } else {
        with_status_settings(
            with_status_setting(server, lossy_text(tokens[from]), lossy_text(tokens[from + 1])),
            tokens,
            from + 2,
        )
    }
}

/// The player that a line stands for: frags, ping and the name in quotes,
/// with a space between them.
pub open spec fn player_of_line(line: Seq<u8>) -> Option<ServerPlayerView> {
    let first = next_mark(line, SPACE, 0);
    let second = next_mark(line, SPACE, first + 1);
    if first >= line.len() || second >= line.len() || line.len() - second < 3 {
        None
    } else {
        player_entry(
            lossy_text(line.subrange(second + 2, line.len() - 1)),
            lossy_text(line.subrange(0, first)),
            lossy_text(line.subrange(first + 1, second)),
        )
    }
}

/// The players that the lines up to place `upto` stand for, if each line
/// stands for one.
pub open spec fn players_of_lines(lines: Seq<Seq<u8>>, upto: int) -> Option<Seq<ServerPlayerView>>
    decreases upto,
{
    if upto <= 0 {
        Some(Seq::empty())
    } else {
        match (players_of_lines(lines, upto - 1), player_of_line(lines[upto - 1])) {
            (Some(before), Some(player)) => Some(before.push(player)),
            _ => None,
        }
    }
}

/// How many of the players are bots: those with a ping of 0.
pub open spec fn bots_among(players: Seq<ServerPlayerView>) -> nat
    decreases players.len(),
{
    if players.len() == 0 {
        0
    } else {
        bots_among(players.drop_last()) + if players.last().ping == 0 {
            1nat
        } else {
            0nat
        }
    }
}

/// The server with `players` added, if its counts stay within a byte.
pub open spec fn with_players(server: ServerView, players: Seq<ServerPlayerView>) -> Option<ServerView> {
    let bots = server.bots + bots_among(players);
    let humans = server.playersconnected + players.len() - bots_among(players);
    if bots > 255 || humans > 255 {
        None
    } else {
        Some(
            ServerView {
                bots: bots as u8,
                playersconnected: humans as u8,
                players: Some(
                    match server.players {
                        Some(list) => list + players,
                        None => players,
                    },
                ),
                ..server
            },
        )
    }
}

/// The server after a status response, or why the response could not be
/// read.
pub open spec fn status_result(server: ServerView, response: Seq<u8>) -> Result<ServerView, StatusError> {
    match frame_error(response) {
        Some(error) => Err(error),
        None => {
            let tokens = pieces(
                response.subrange(FIRST_SETTING as int, settings_end(response)),
                SEPARATOR,
            );
            if tokens.len() % 2 != 0 {
                Err(StatusError::Malformed)
            } else if settings_end(response) == players_end(response) {
                Ok(with_status_settings(server, tokens, 0))
            } else {
                let lines = pieces(
                    response.subrange(settings_end(response) + 1, players_end(response)),
                    LINE_FEED,
                );
                match players_of_lines(lines, lines.len() as int) {
                    None => Err(StatusError::Malformed),
                    Some(players) => match with_players(
                        with_status_settings(server, tokens, 0),
                        players,
                    ) {
                        None => Err(StatusError::Malformed),
                        Some(after) => Ok(after),
                    },
                }
            }
        },
    }
}

/// A status response holds a line feed: the one that ends its header.
pub proof fn lemma_header_ends_a_line(response: Seq<u8>)
    requires
        is_status_response(response),
    ensures
        players_end(response) >= 18,
{
    reveal_strlit("statusResponse\n");
    let word = "statusResponse\n"@;
    assert(word.len() == 15);
    assert(word[14] == '\n');
    assert(is_ascii_chars(word)) by {
        assert forall|i: int| 0 <= i < word.len() implies '\0' <= #[trigger] word[i] <= '\u{7f}' by {}
    }
    is_ascii_chars_encode_utf8(word);
    let code = encode_utf8(word);
    assert(code[14] == word[14] as u8);
    let rest = response.subrange(4, response.len() as int);
    assert(rest.subrange(0, 15)[14] == code[14]);
    assert(response[18] == 0x0a);
    crate::text::lemma_last_is_behind(response, LINE_FEED, 18);
}

fn status_header(response: &[u8]) -> (b: bool)
    ensures
        b == is_status_response(response@),
{
    if response.len() < 4 {
        return false;
    }
    if response[0] != 0xff || response[1] != 0xff || response[2] != 0xff || response[3] != 0xff {
        return false;
    }
    begins_with(slice_subrange(response, 4, response.len()), "statusResponse\n".as_bytes())
}

fn read_player(line: &[u8]) -> (player: Option<ServerPlayer>)
    ensures
        match player_of_line(line@) {
            Some(entry) => player matches Some(p) && p@ == entry,
            None => player is None,
        },
{
    let total = line.len();
    let first = match find_next(line, SPACE, 0) {
        Some(at) => at,
        None => {
            return None;
        },
    };
    let second = match find_next(line, SPACE, first + 1) {
        Some(at) => at,
        None => {
            return None;
        },
    };
    if total - second < 3 {
        return None;
    }
    let name = lossy(slice_subrange(line, second + 2, total - 1));
    let frags = lossy(slice_subrange(line, 0, first));
    let ping = lossy(slice_subrange(line, first + 1, second));
    ServerPlayer::try_new(name, frags, ping)
}

fn read_players(lines: &Vec<Vec<u8>>) -> (r: Option<(Vec<ServerPlayer>, usize)>)
    ensures
        match players_of_lines(byte_views(lines@), lines@.len() as int) {
            Some(players) => r matches Some(found) && server_player_views(found.0@) == players
                && found.1 == bots_among(players) && found.0@.len() == lines@.len() && found.1
                <= found.0@.len(),
            None => r is None,
        },
{
    let mut players: Vec<ServerPlayer> = Vec::new();
    let mut bots: usize = 0;
    let mut i: usize = 0;
    while i < lines.len()
        invariant
            i <= lines@.len(),
            players@.len() == i,
            bots <= i,
            players_of_lines(byte_views(lines@), i as int) == Some(
                server_player_views(players@),
            ),
            bots == bots_among(server_player_views(players@)),
        decreases lines@.len() - i,
    {
        assert(byte_views(lines@)[i as int] == lines@[i as int]@);
        match read_player(lines[i].as_slice()) {
            None => {
                proof {
                    lemma_players_stay_unread(byte_views(lines@), i + 1, lines@.len() as int);
                }
                return None;
            },
            Some(player) => {
                let ghost before = server_player_views(players@);
                if player.ping == 0 {
                    bots += 1;
                }
                players.push(player);
                assert(server_player_views(players@) =~= before.push(player@));
                assert(server_player_views(players@).drop_last() =~= before);
            },
        }
        i += 1;
    }
    Some((players, bots))
}

/// Once a line stands for no player, the lines stand for no players.
proof fn lemma_players_stay_unread(lines: Seq<Seq<u8>>, failed: int, upto: int)
    requires
        0 < failed <= upto,
        players_of_lines(lines, failed) is None,
    ensures
        players_of_lines(lines, upto) is None,
    decreases upto - failed,
{
    if failed < upto {
        lemma_players_stay_unread(lines, failed, upto - 1);
    }
}

impl Quake3Server {
    /// Takes one setting of a status response into the server.
    pub fn apply_status_setting(&mut self, key: String, value: String)
        ensures
            final(self)@ == with_status_setting(old(self)@, key@, value@),
    {
        if str_eq(key.as_str(), "sv_hostname") {
            let parsed_host = parse_colorstring(value);
            self.host = parsed_host.0;
            self.hostcolored = parsed_host.1;
        } else if str_eq(key.as_str(), "version") {
            self.version = value;
        } else if str_eq(key.as_str(), "gamename") {
            let bloodrun = match self.protocol {
                Some(p) => p == 114,
                None => false,
            };
            self.game = if bloodrun {
                String::from_str("base")
            } else {
                value
            };
        } else if str_eq(key.as_str(), "sv_maxclients") {
            self.maxclients = value;
        } else if str_eq(key.as_str(), "mapname") {
            self.map = value;
        } else {
            self.othersettings.insert_if_absent(key, value);
        }
    }

    fn apply_status_settings(&mut self, tokens: &Vec<Vec<u8>>)
        ensures
            final(self)@ == with_status_settings(old(self)@, byte_views(tokens@), 0),
    {
        let mut i: usize = 0;
        while i < tokens.len() && i + 1 < tokens.len()
            invariant
                with_status_settings(old(self)@, byte_views(tokens@), 0) == with_status_settings(
                    self@,
                    byte_views(tokens@),
                    i as int,
                ),
            decreases tokens.len() - i,
        {
            assert(byte_views(tokens@)[i as int] == tokens@[i as int]@);
            assert(byte_views(tokens@)[i + 1] == tokens@[i + 1]@);
            let key = lossy(tokens[i].as_slice());
            let value = lossy(tokens[i + 1].as_slice());
            self.apply_status_setting(key, value);
            i += 2;
        }
    }

    /// Takes a status response into the server: its settings, and its
    /// players if it lists any. Where the response cannot be read, the
    /// server stays as it is.
    pub fn parse_status_response(&mut self, response_buf: &[u8]) -> (r: Result<(), StatusError>)
        ensures
            match status_result(old(self)@, response_buf@) {
                Ok(after) => r is Ok && final(self)@ == after,
                Err(error) => r == Err::<(), StatusError>(error) && final(self)@ == old(self)@,
            },
    {
        if !status_header(response_buf) {
            return Err(StatusError::FailedToReceiveMessage);
        }
        let total = response_buf.len();
        proof {
            lemma_header_ends_a_line(response_buf@);
        }
        let end_index = match find_last(response_buf, LINE_FEED) {
            Some(at) => at,
            None => {
                return Err(StatusError::FailedToReceiveMessage);
            },
        };
        let delimiter = match find_last(response_buf, SEPARATOR) {
            Some(at) => at + 1,
            None => {
                return Err(StatusError::MissingSettingsDelimiter);
            },
        };
        let index = match find_next(response_buf, LINE_FEED, delimiter) {
            Some(at) => at,
            None => {
                return Err(StatusError::MissingSettingsEnd);
            },
        };
        if index < FIRST_SETTING {
            return Err(StatusError::Malformed);
        }
        let tokens = split_bytes(slice_subrange(response_buf, FIRST_SETTING, index), SEPARATOR);
        if tokens.len() % 2 != 0 {
            return Err(StatusError::Malformed);
        }
        if index == end_index {
            self.apply_status_settings(&tokens);
            return Ok(());
        }
        proof {
            crate::text::lemma_last_is_behind(response_buf@, LINE_FEED, index as int);
        }
        let lines = split_bytes(slice_subrange(response_buf, index + 1, end_index), LINE_FEED);
        let (mut players, bots) = match read_players(&lines) {
            Some(found) => found,
            None => {
                return Err(StatusError::Malformed);
            },
        };
        let humans: usize = players.len() - bots;
        if bots > 255 - self.bots as usize || humans > 255 - self.playersconnected as usize {
            proof {
                lemma_settings_keep_counts(old(self)@, byte_views(tokens@), 0);
            }
            return Err(StatusError::Malformed);
        }
        proof {
            lemma_settings_keep_counts(old(self)@, byte_views(tokens@), 0);
        }
        self.apply_status_settings(&tokens);
        self.bots = self.bots + bots as u8;
        self.playersconnected = self.playersconnected + humans as u8;
        let ghost added = server_player_views(players@);
        match self.players.take() {
            Some(mut list) => {
                let ghost before = server_player_views(list@);
                list.append(&mut players);
                assert(server_player_views(list@) =~= before + added);
                self.players = Some(list);
            },
            None => {
                self.players = Some(players);
            },
        }
        Ok(())
    }
}

/// Settings leave the counts and the players of a server alone.
pub proof fn lemma_settings_keep_counts(server: ServerView, tokens: Seq<Seq<u8>>, from: int)
    ensures
        with_status_settings(server, tokens, from).bots == server.bots,
        with_status_settings(server, tokens, from).playersconnected == server.playersconnected,
        with_status_settings(server, tokens, from).players == server.players,
    decreases tokens.len() - from,
{
    if !(from < 0 || from + 1 >= tokens.len()) {
        lemma_settings_keep_counts(
            with_status_setting(server, lossy_text(tokens[from]), lossy_text(tokens[from + 1])),
            tokens,
            from + 2,
        );
    }
}

} // verus!
