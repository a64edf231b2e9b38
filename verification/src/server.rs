//! A game server as the server browser shows it.

use crate::colorstring::{colored_markup, colored_plain, parse_colorstring};
use crate::info_map::InfoMap;
use crate::master::{MasterServer, MasterView};
use crate::numbers::{i32_value, parse_i32};
use vstd::prelude::*;
use vstd::string::*;

verus! {

/// What a player on a server is, as plain values.
pub struct ServerPlayerView {
    pub name: Seq<char>,
    pub namecolored: Seq<char>,
    pub frags: i32,
    pub ping: i32,
}

/// A player on a server.
#[derive(Clone, Debug)]
pub struct ServerPlayer {
    pub name: String,
    pub namecolored: String,
    pub frags: i32,
    pub ping: i32,
}

impl View for ServerPlayer {
    type V = ServerPlayerView;

    open spec fn view(&self) -> ServerPlayerView {
        ServerPlayerView {
            name: self.name@,
            namecolored: self.namecolored@,
            frags: self.frags,
            ping: self.ping,
        }
    }
}

/// The player that a line of a status response stands for, if its frags and
/// its ping are numbers.
pub open spec fn player_entry(name: Seq<char>, frags: Seq<char>, ping: Seq<char>) -> Option<
    ServerPlayerView,
> {
    match (i32_value(frags), i32_value(ping)) {
        (Some(f), Some(p)) => Some(
            ServerPlayerView {
                name: colored_plain(name),
                namecolored: colored_markup(name),
                frags: f,
                ping: p,
            },
        ),
        _ => None,
    }
}

impl Default for ServerPlayer {
    fn default() -> (player: Self)
        ensures
            player@ == (ServerPlayerView {
                name: Seq::empty(),
                namecolored: Seq::empty(),
                frags: 0,
                ping: 0,
            }),
    {
        ServerPlayer { name: String::new(), namecolored: String::new(), frags: 0, ping: 0 }
    }
}

impl ServerPlayer {
    /// The player with the given name, frags and ping, if the frags and the
    /// ping are numbers.
    pub fn try_new(name: String, frags: String, ping: String) -> (player: Option<Self>)
        ensures
            match player_entry(name@, frags@, ping@) {
                Some(entry) => player matches Some(p) && p@ == entry,
                None => player is None,
            },
    {
        let frags_number = parse_i32(frags.as_str());
        let ping_number = parse_i32(ping.as_str());
        match (frags_number, ping_number) {
            (Some(f), Some(p)) => {
                let parsed_name = parse_colorstring(name);
                Some(Self { name: parsed_name.0, namecolored: parsed_name.1, frags: f, ping: p })
            },
            _ => None,
        }
    }

    /// The player with the given name, frags and ping.
    pub fn new(name: String, frags: String, ping: String) -> (player: Self)
        requires
            i32_value(frags@) is Some,
            i32_value(ping@) is Some,
        ensures
            Some(player@) == player_entry(name@, frags@, ping@),
    {
        match Self::try_new(name, frags, ping) {
            Some(player) => player,
            None => Self { name: String::new(), namecolored: String::new(), frags: 0, ping: 0 },
        }
    }
}

/// The views of a list of players.
pub open spec fn server_player_views(players: Seq<ServerPlayer>) -> Seq<ServerPlayerView> {
    Seq::new(players.len(), |i: int| players[i]@)
}

/// What a server is, as plain values.
pub struct ServerView {
    pub master: Option<MasterView>,
    pub ip: Seq<char>,
    pub port: Seq<char>,
    pub address: Seq<char>,
    pub protocol: Option<u8>,
    pub ping: u16,
    pub errormessage: Seq<char>,
    pub host: Seq<char>,
    pub hostcolored: Seq<char>,
    pub game: Seq<char>,
    pub playersconnected: u8,
    pub maxclients: Seq<char>,
    pub bots: u8,
    pub map: Seq<char>,
    pub othersettings: Map<Seq<char>, Seq<char>>,
    pub players: Option<Seq<ServerPlayerView>>,
    pub list: Seq<char>,
    pub custom: bool,
    pub version: Seq<char>,
}

/// A game server.
#[derive(Clone, Debug)]
pub struct Quake3Server {
    pub master: Option<MasterServer>,
    pub ip: String,
    pub port: String,
    pub address: String,
    pub protocol: Option<u8>,
    pub ping: u16,
    pub errormessage: String,
    pub host: String,
    pub hostcolored: String,
    pub game: String,
    pub playersconnected: u8,
    pub maxclients: String,
    pub bots: u8,
    pub map: String,
    pub othersettings: InfoMap,
    pub players: Option<Vec<ServerPlayer>>,
    pub list: String,
    pub custom: bool,
    pub version: String,
}

impl View for Quake3Server {
    type V = ServerView;

    open spec fn view(&self) -> ServerView {
        ServerView {
            master: match self.master {
                Some(m) => Some(m@),
                None => None,
            },
            ip: self.ip@,
            port: self.port@,
            address: self.address@,
            protocol: self.protocol,
            ping: self.ping,
            errormessage: self.errormessage@,
            host: self.host@,
            hostcolored: self.hostcolored@,
            game: self.game@,
            playersconnected: self.playersconnected,
            maxclients: self.maxclients@,
            bots: self.bots,
            map: self.map@,
            othersettings: self.othersettings@,
            players: match self.players {
                Some(list) => Some(server_player_views(list@)),
                None => None,
            },
            list: self.list@,
            custom: self.custom,
            version: self.version@,
        }
    }
}

/// The address of a server: its ip, a colon, its port.
pub open spec fn address_of(ip: Seq<char>, port: Seq<char>) -> Seq<char> {
    ip + seq![':'] + port
}

/// The server that nothing is known of but where it is and who listed it.
pub open spec fn fresh_server(
    ip: Seq<char>,
    port: Seq<char>,
    master: Option<MasterView>,
    protocol: Option<u8>,
) -> ServerView {
    ServerView {
        master,
        ip,
        port,
        address: address_of(ip, port),
        protocol,
        ping: 0,
        errormessage: Seq::empty(),
        host: Seq::empty(),
        hostcolored: Seq::empty(),
        game: Seq::empty(),
        playersconnected: 0,
        maxclients: "0"@,
        bots: 0,
        map: Seq::empty(),
        othersettings: Map::empty(),
        players: None,
        list: "main"@,
        custom: false,
        version: Seq::empty(),
    }
}

/// The server after a query that failed with `message`.
pub open spec fn unreachable_server(server: ServerView, message: Seq<char>) -> ServerView {
    ServerView {
        ping: 999,
        errormessage: message,
        host: message,
        hostcolored: message,
        game: "unreachable"@,
        map: "unreachable"@,
        ..server
    }
}

impl Quake3Server {
    /// How many servers a thread asks when `servers` servers are shared out
    /// among `threads` threads: their quotient, and at least one.
    pub fn chunk_size(servers: usize, threads: usize) -> (size: usize)
        requires
            threads > 0,
        ensures
            size == if servers / threads == 0 {
                1
            } else {
                servers / threads
            },
    {
        let chunk_size: usize = servers / threads;
        if chunk_size == 0 {
            1
        } else {
            chunk_size
        }
    }

    /// The server at `ip` and `port`, listed by `master`, with nothing else
    /// known of it.
    pub fn new(ip: String, port: String, master: Option<MasterServer>, protocol: Option<u8>) -> (server:
        Quake3Server)
        ensures
            server@ == fresh_server(
                ip@,
                port@,
                match master {
                    Some(m) => Some(m@),
                    None => None,
                },
                protocol,
            ),
    {
        let mut address = ip.clone();
        address.push(':');
        address.append(port.as_str());
        assert(address@ =~= address_of(ip@, port@));
        Quake3Server {
            master,
            ip,
            port,
            address,
            protocol,
            ping: 0,
            errormessage: String::new(),
            host: String::new(),
            hostcolored: String::new(),
            game: String::new(),
            playersconnected: 0,
            maxclients: String::from_str("0"),
            bots: 0,
            map: String::new(),
            othersettings: InfoMap::new(),
            players: None,
            list: String::from_str("main"),
            custom: false,
            version: String::new(),
        }
    }

    /// Marks the server as unreachable; `err` is the text of the failure.
    pub fn set_error(&mut self, err: &str)
        ensures
            final(self)@ == unreachable_server(old(self)@, err@),
    {
        self.ping = 999;
        self.errormessage = String::from_str(err);
        self.host = String::from_str(err);
        self.hostcolored = String::from_str(err);
        self.game = String::from_str("unreachable");
        self.map = String::from_str("unreachable");
    }
}

} // verus!
