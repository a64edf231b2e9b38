//! The game clients that the launcher can start, and their config files.

use crate::info_map::str_eq;
use vstd::prelude::*;
use crate::text::lowercase_of;

verus! {

/// What a game client is, as plain values.
pub struct ExecutableView {
    pub name: Seq<char>,
    pub exe_path: Seq<char>,
    pub parent_path: Seq<char>,
    pub gamename: Seq<char>,
    pub extra_launch_args: Seq<char>,
}

/// A game client on disk.
#[derive(Clone, Debug)]
pub struct Q3Executable {
    pub name: String,
    pub exe_path: String,
    pub parent_path: String,
    pub gamename: String,
    pub extra_launch_args: String,
}

impl View for Q3Executable {
    type V = ExecutableView;

    open spec fn view(&self) -> ExecutableView {
        ExecutableView {
            name: self.name@,
            exe_path: self.exe_path@,
            parent_path: self.parent_path@,
            gamename: self.gamename@,
            extra_launch_args: self.extra_launch_args@,
        }
    }
}

/// The views of a list of clients.
pub open spec fn executable_views(clients: Seq<Q3Executable>) -> Seq<ExecutableView> {
    Seq::new(clients.len(), |i: int| clients[i]@)
}

/// A config file of a client.
#[derive(Clone, Debug)]
pub struct Q3Config {
    pub name: String,
    pub path: String,
}

/// Whether a game, named in lower case, keeps its files where the base
/// game does.
pub open spec fn is_baseq3_game(lowered: Seq<char>) -> bool {
    ||| lowered == "baseq3"@
    ||| lowered == "cpma"@
    ||| lowered == "defrag"@
    ||| lowered == "excessiveplus"@
    ||| lowered == "osp"@
}

/// Whether a game, named in lower case, keeps its files where OpenArena
/// does.
pub open spec fn is_baseoa_game(lowered: Seq<char>) -> bool {
    ||| lowered == "baseoa"@
    ||| lowered == "rat"@
    ||| lowered == "missionpack"@
}

/// Whether a game, named in lower case, keeps its files where the base
/// game does.
pub fn uses_baseq3_paths(lowered: &str) -> (b: bool)
    ensures
        b == is_baseq3_game(lowered@),
{
    str_eq(lowered, "baseq3") || str_eq(lowered, "cpma") || str_eq(lowered, "defrag") || str_eq(
        lowered,
        "excessiveplus",
    ) || str_eq(lowered, "osp")
}

/// Whether a game, named in lower case, keeps its files where OpenArena
/// does.
pub fn uses_baseoa_paths(lowered: &str) -> (b: bool)
    ensures
        b == is_baseoa_game(lowered@),
{
    str_eq(lowered, "baseoa") || str_eq(lowered, "rat") || str_eq(lowered, "missionpack")
}

/// The places where a client may keep the files of its game.
#[derive(Clone, Copy, Debug, PartialEq, Eq, Structural)]
pub enum SearchPath {
    /// The game's directory below `.q3a` in the home directory.
    HomeGame,
    /// The game's directory beside the client.
    ClientGame,
    /// The game's directory below `.openarena` in the home directory.
    OpenArenaGame,
    /// `baseq3` below `.q3a` in the home directory.
    HomeBaseq3,
    /// `baseq3` beside the client.
    ClientBaseq3,
    /// `baseoa` below `.openarena` in the home directory.
    HomeBaseoa,
    /// `baseoa` beside the client.
    ClientBaseoa,
}

/// Whether a client looks for files at `place`, given whether its game
/// keeps its files where the base game does and where OpenArena does.
pub open spec fn searches(place: SearchPath, baseq3: bool, baseoa: bool) -> bool {
    match place {
        SearchPath::HomeGame => !baseoa,
        SearchPath::ClientGame => true,
        SearchPath::OpenArenaGame => baseoa,
        SearchPath::HomeBaseq3 => baseq3,
        SearchPath::ClientBaseq3 => baseq3,
        SearchPath::HomeBaseoa => baseoa,
        SearchPath::ClientBaseoa => baseoa,
    }
}

impl Q3Executable {
    /// Whether the client looks for files at `place`, if that directory
    /// exists.
    pub fn searches_in(&self, place: SearchPath) -> (b: bool)
        ensures
            b == searches(
                place,
                is_baseq3_game(lowercase_of(self.gamename@)),
                is_baseoa_game(lowercase_of(self.gamename@)),
            ),
    {
        match place {
            SearchPath::HomeGame => !self.game_uses_baseoa_paths(),
            SearchPath::ClientGame => true,
            SearchPath::OpenArenaGame => self.game_uses_baseoa_paths(),
            SearchPath::HomeBaseq3 => self.game_uses_baseq3_paths(),
            SearchPath::ClientBaseq3 => self.game_uses_baseq3_paths(),
            SearchPath::HomeBaseoa => self.game_uses_baseoa_paths(),
            SearchPath::ClientBaseoa => self.game_uses_baseoa_paths(),
        }
    }

    /// Whether the client's game keeps its files where the base game
    /// does. Upper and lower case in the game's name make no difference.
    pub fn game_uses_baseq3_paths(&self) -> (b: bool)
        ensures
            b == is_baseq3_game(lowercase_of(self.gamename@)),
    {
        let lowered = self.gamename.as_str().to_lowercase();
        uses_baseq3_paths(lowered.as_str())
    }

    /// Whether the client's game keeps its files where OpenArena does. Upper
    /// and lower case in the game's name make no difference.
    pub fn game_uses_baseoa_paths(&self) -> (b: bool)
        ensures
            b == is_baseoa_game(lowercase_of(self.gamename@)),
    {
        let lowered = self.gamename.as_str().to_lowercase();
        uses_baseoa_paths(lowered.as_str())
    }
}

} // verus!
