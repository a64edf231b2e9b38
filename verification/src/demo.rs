//! The record that a recorded match is summarised into.

use crate::info_map::{str_eq, InfoMap};
use std::collections::HashMap;
use vstd::prelude::*;
use vstd::string::*;

verus! {

/// The longest message that a recording may hold, in bytes.
pub const MAX_MESSAGE_LENGTH: i32 = 16384;

/// The tags of the server's commands.
#[derive(Clone, Copy, Debug, PartialEq, Eq, Structural)]
pub enum _Cmds {
    Bad,
    Nop,
    Gamestate,
    ConfigString,
    Baseline,
    ServerCommand,
    Download,
    Snapshot,
    EndOfMessage,
}

/// The tag of a gamestate.
pub const GAMESTATE: i32 = 2;

/// The tag of a config string inside a gamestate.
pub const CONFIG_STRING: i32 = 3;

/// The tag of a baseline inside a gamestate.
pub const BASELINE: i32 = 4;

/// The tag of a server command.
pub const SERVER_COMMAND: i32 = 5;

/// The tag of a snapshot.
pub const SNAPSHOT: i32 = 7;

/// The tag that ends a message or a gamestate.
pub const END_OF_MESSAGE: i32 = 8;

/// The command that a tag read from the stream stands for; a tag outside
/// the set is `Bad`.
pub open spec fn command_of(tag: int) -> _Cmds {
    if tag == 1 {
        _Cmds::Nop
    } else if tag == GAMESTATE {
        _Cmds::Gamestate
    } else if tag == CONFIG_STRING {
        _Cmds::ConfigString
    } else if tag == BASELINE {
        _Cmds::Baseline
    } else if tag == SERVER_COMMAND {
        _Cmds::ServerCommand
    } else if tag == 6 {
        _Cmds::Download
    } else if tag == SNAPSHOT {
        _Cmds::Snapshot
    } else if tag == END_OF_MESSAGE {
        _Cmds::EndOfMessage
    } else {
        _Cmds::Bad
    }
}

impl _Cmds {
    /// The command that a tag read from the stream stands for.
    pub fn from_tag(tag: i32) -> (command: _Cmds)
        ensures
            command == command_of(tag as int),
    {
        if tag == 1 {
            _Cmds::Nop
        } else if tag == GAMESTATE {
            _Cmds::Gamestate
        } else if tag == CONFIG_STRING {
            _Cmds::ConfigString
        } else if tag == BASELINE {
            _Cmds::Baseline
        } else if tag == SERVER_COMMAND {
            _Cmds::ServerCommand
        } else if tag == 6 {
            _Cmds::Download
        } else if tag == SNAPSHOT {
            _Cmds::Snapshot
        } else if tag == END_OF_MESSAGE {
            _Cmds::EndOfMessage
        } else {
            _Cmds::Bad
        }
    }
}

/// Why the decoding of a recording stopped early.
#[derive(Clone, Copy, Debug, PartialEq, Eq, Structural)]
pub enum DemoIssue {
    /// A message declares a length above `MAX_MESSAGE_LENGTH`.
    CorruptLength,
    /// The buffer ends before the data that a message needs.
    Truncated,
    /// A command tag that the decoder does not know.
    IllegibleMessage,
    /// The recording could not be read at all.
    IOFailure,
}

impl DemoIssue {
    /// The text shown for the issue.
    pub open spec fn text(self) -> Seq<char> {
        match self {
            DemoIssue::CorruptLength => "message length exceeds maximum"@,
            DemoIssue::Truncated => "file truncated"@,
            DemoIssue::IllegibleMessage => "illegible server message"@,
            DemoIssue::IOFailure => "file could not be read"@,
        }
    }

    /// The text shown for the issue.
    pub fn message(&self) -> (s: String)
        ensures
            s@ == self.text(),
    {
        match self {
            DemoIssue::CorruptLength => String::from_str("message length exceeds maximum"),
            DemoIssue::Truncated => String::from_str("file truncated"),
            DemoIssue::IllegibleMessage => String::from_str("illegible server message"),
            DemoIssue::IOFailure => String::from_str("file could not be read"),
        }
    }
}

/// What a participant is, as plain values.
pub struct PlayerView {
    pub raw: Seq<char>,
    pub name: Seq<char>,
    pub namecolored: Seq<char>,
    pub othersettings: Map<Seq<char>, Seq<char>>,
}

/// A participant of a recorded match.
#[derive(Debug)]
pub struct DemoPlayer {
    pub raw: String,
    pub name: String,
    pub namecolored: String,
    pub othersettings: InfoMap,
}

impl View for DemoPlayer {
    type V = PlayerView;

    open spec fn view(&self) -> PlayerView {
        PlayerView {
            raw: self.raw@,
            name: self.name@,
            namecolored: self.namecolored@,
            othersettings: self.othersettings@,
        }
    }
}

/// The participant that only its definition is known of.
pub open spec fn unnamed_player(raw: Seq<char>) -> PlayerView {
    PlayerView { raw, name: Seq::empty(), namecolored: Seq::empty(), othersettings: Map::empty() }
}

impl Clone for DemoPlayer {
    fn clone(&self) -> (copy: Self)
        ensures
            copy@ == self@,
    {
        DemoPlayer {
            raw: self.raw.clone(),
            name: self.name.clone(),
            namecolored: self.namecolored.clone(),
            othersettings: self.othersettings.clone(),
        }
    }
}

impl Default for DemoPlayer {
    fn default() -> (player: Self)
        ensures
            player@ == unnamed_player(Seq::empty()),
    {
        DemoPlayer::new(String::new())
    }
}

impl DemoPlayer {
    /// A participant with the given definition and no name yet.
    pub fn new(raw: String) -> (p: Self)
        ensures
            p@ == unnamed_player(raw@),
    {
        Self { raw, name: String::new(), namecolored: String::new(), othersettings: InfoMap::new() }
    }
}

/// The views of a list of participants.
pub open spec fn player_views(players: Seq<DemoPlayer>) -> Seq<PlayerView> {
    Seq::new(players.len(), |i: int| players[i]@)
}

/// The texts of the stored server commands, by their index.
pub open spec fn command_texts(commands: Map<i32, String>) -> Map<i32, Seq<char>> {
    Map::new(|index: i32| commands.dom().contains(index), |index: i32| commands[index]@)
}

/// What a record is, as plain values.
pub struct DemoView {
    pub file_name: Seq<char>,
    pub path: Seq<char>,
    pub parent_path: Seq<char>,
    pub protocol: usize,
    pub extension: Seq<char>,
    pub player_pov: PlayerView,
    pub snapshots: usize,
    pub sv_hostname: Seq<char>,
    pub sv_hostname_color: Seq<char>,
    pub gamename: Seq<char>,
    pub g_gametype: Seq<char>,
    pub mapname: Seq<char>,
    pub players: Option<Seq<PlayerView>>,
    pub server_info: Map<Seq<char>, Seq<char>>,
    pub system_info: Map<Seq<char>, Seq<char>>,
    pub server_commands: Map<i32, Seq<char>>,
    pub duration: usize,
    pub issue: Option<DemoIssue>,
    pub version: Seq<char>,
}

/// The summary of one recorded match: where the file is, and what the
/// decoder found in it.
#[derive(Clone, Debug)]
pub struct Demo {
    pub file_name: String,
    pub path: String,
    pub parent_path: String,
    pub protocol: usize,
    pub extension: String,
    pub player_pov: DemoPlayer,
    pub snapshots: usize,
    pub sv_hostname: String,
    pub sv_hostname_color: String,
    pub gamename: String,
    pub g_gametype: String,
    pub mapname: String,
    pub players: Option<Vec<DemoPlayer>>,
    pub server_info: InfoMap,
    pub system_info: InfoMap,
    pub server_commands: HashMap<i32, String>,
    pub duration: usize,
    pub issue: Option<DemoIssue>,
    pub version: String,
}

impl View for Demo {
    type V = DemoView;

    open spec fn view(&self) -> DemoView {
        DemoView {
            file_name: self.file_name@,
            path: self.path@,
            parent_path: self.parent_path@,
            protocol: self.protocol,
            extension: self.extension@,
            player_pov: self.player_pov@,
            snapshots: self.snapshots,
            sv_hostname: self.sv_hostname@,
            sv_hostname_color: self.sv_hostname_color@,
            gamename: self.gamename@,
            g_gametype: self.g_gametype@,
            mapname: self.mapname@,
            players: match self.players {
                Some(list) => Some(player_views(list@)),
                None => None,
            },
            server_info: self.server_info@,
            system_info: self.system_info@,
            server_commands: command_texts(self.server_commands@),
            duration: self.duration,
            issue: self.issue,
            version: self.version@,
        }
    }
}

/// The record of a recording that nothing was decoded of yet.
pub open spec fn blank_record(
    file_name: Seq<char>,
    path: Seq<char>,
    parent_path: Seq<char>,
    protocol: usize,
    extension: Seq<char>,
) -> DemoView {
    DemoView {
        file_name,
        path,
        parent_path,
        protocol,
        extension,
        player_pov: unnamed_player(Seq::empty()),
        snapshots: 0,
        sv_hostname: Seq::empty(),
        sv_hostname_color: Seq::empty(),
        gamename: Seq::empty(),
        g_gametype: Seq::empty(),
        mapname: Seq::empty(),
        players: None,
        server_info: Map::empty(),
        system_info: Map::empty(),
        server_commands: Map::empty(),
        duration: 0,
        issue: None,
        version: Seq::empty(),
    }
}

/// The sentinel that stands for a value that could not be decoded.
pub open spec fn unknown_text() -> Seq<char> {
    "???"@
}

/// `current`, or the sentinel if nothing was decoded for it.
pub open spec fn or_unknown(current: Seq<char>) -> Seq<char> {
    if current.len() == 0 {
        unknown_text()
    } else {
        current
    }
}

/// The record with the sentinel in the place of the game, the game type,
/// the map and the name of the point of view, wherever nothing was decoded
/// for them.
pub open spec fn with_placeholders(record: DemoView) -> DemoView {
    DemoView {
        gamename: or_unknown(record.gamename),
        g_gametype: or_unknown(record.g_gametype),
        mapname: or_unknown(record.mapname),
        player_pov: if record.player_pov.name.len() == 0 {
            PlayerView {
                name: unknown_text(),
                namecolored: unknown_text(),
                ..record.player_pov
            }
        } else {
            record.player_pov
        },
        ..record
    }
}

/// The record after decoding stopped on `issue`.
pub open spec fn with_issue(record: DemoView, issue: DemoIssue) -> DemoView {
    with_placeholders(DemoView { issue: Some(issue), ..record })
}

/// Whether the record can be shown: it names a game, a game type, a map and
/// a point of view.
pub open spec fn renderable(record: DemoView) -> bool {
    &&& record.gamename.len() > 0
    &&& record.g_gametype.len() > 0
    &&& record.mapname.len() > 0
    &&& record.player_pov.name.len() > 0
}

/// Whether a file with the extension `extension` is a recording.
pub open spec fn is_demo_extension(extension: Seq<char>) -> bool {
    ||| extension == "dm_48"@
    ||| extension == "dm_66"@
    ||| extension == "dm_67"@
    ||| extension == "dm_68"@
    ||| extension == "dm_73"@
    ||| extension == "dm_91"@
}

/// The script that plays the recording at `demo_path`, and after it quits
/// the game if `close` is set, and plays it again if `loop_d` is set.
pub open spec fn demo_script(demo_path: Seq<char>, close: bool, loop_d: bool) -> Seq<char> {
    "set cpma_menu togglemenu\r\n"@ + "set close quit\r\n"@ + "set demo_load \"demo "@ + demo_path
        + ";"@ + (if close {
        " set nextdemo vstr close"@
    } else {
        Seq::empty()
    }) + (if loop_d {
        " set nextdemo vstr demo_load"@
    } else {
        Seq::empty()
    }) + "\"\r\nvstr demo_load"@
}

fn fill_unknown(field: &mut String)
    ensures
        final(field)@ == or_unknown(old(field)@),
{
    if field.as_str().unicode_len() == 0 {
        *field = String::from_str("???");
    }
}

impl Demo {
    /// Whether a file with the extension `extension` is a recording.
    pub fn has_demo_extension(extension: &str) -> (b: bool)
        ensures
            b == is_demo_extension(extension@),
    {
        str_eq(extension, "dm_48") || str_eq(extension, "dm_66") || str_eq(extension, "dm_67")
            || str_eq(extension, "dm_68") || str_eq(extension, "dm_73") || str_eq(
            extension,
            "dm_91",
        )
    }

    /// Writes the script that plays the recording at `demo_path`.
    pub fn create_demo_script(demo_path: &str, close: bool, loop_d: bool) -> (script: String)
        ensures
            script@ == demo_script(demo_path@, close, loop_d),
    {
        let mut script = String::from_str("set cpma_menu togglemenu\r\n");
        script.append("set close quit\r\n");
        script.append("set demo_load \"demo ");
        script.append(demo_path);
        script.append(";");
        if close {
            script.append(" set nextdemo vstr close");
        }
        if loop_d {
            script.append(" set nextdemo vstr demo_load");
        }
        script.append("\"\r\nvstr demo_load");
        assert(script@ =~= demo_script(demo_path@, close, loop_d));
        script
    }

    /// The record of a recording that nothing was decoded of yet.
    pub fn new(
        file_name: String,
        path: String,
        parent_path: String,
        protocol: usize,
        extension: String,
    ) -> (demo: Self)
        ensures
            demo@ == blank_record(file_name@, path@, parent_path@, protocol, extension@),
    {
        let demo = Self {
            file_name,
            path,
            parent_path,
            protocol,
            extension,
            player_pov: DemoPlayer::new(String::new()),
            snapshots: 0,
            sv_hostname: String::new(),
            sv_hostname_color: String::new(),
            gamename: String::new(),
            g_gametype: String::new(),
            mapname: String::new(),
            players: None,
            server_info: InfoMap::new(),
            system_info: InfoMap::new(),
            server_commands: HashMap::new(),
            duration: 0,
            issue: None,
            version: String::new(),
        };
        assert(demo@.server_commands =~= Map::<i32, Seq<char>>::empty());
        demo
    }

    /// Puts the sentinel `???` wherever the game, the game type, the map or
    /// the name of the point of view is missing, so that the record can be
    /// shown.
    pub fn finish_bad_demo(&mut self)
        ensures
            final(self)@ == with_placeholders(old(self)@),
            renderable(final(self)@),
    {
        proof {
            reveal_strlit("???");
        }
        fill_unknown(&mut self.gamename);
        fill_unknown(&mut self.g_gametype);
        fill_unknown(&mut self.mapname);
        if self.player_pov.name.as_str().unicode_len() == 0 {
            self.player_pov.name = String::from_str("???");
            self.player_pov.namecolored = String::from_str("???");
        }
    }

    /// Records `issue` and fills in the sentinels.
    pub fn fail(&mut self, issue: DemoIssue)
        ensures
            final(self)@ == with_issue(old(self)@, issue),
            renderable(final(self)@),
            final(self).issue == Some(issue),
    {
        self.issue = Some(issue);
        self.finish_bad_demo();
    }
}

impl Default for Demo {
    /// The record of a recording named `test`, with protocol 68.
    fn default() -> (demo: Self)
        ensures
            demo@ == blank_record("test"@, Seq::empty(), Seq::empty(), 68, Seq::empty()),
    {
        Demo::new(String::from_str("test"), String::new(), String::new(), 68, String::new())
    }
}

} // verus!
