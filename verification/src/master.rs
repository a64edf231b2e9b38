//! The master servers that list the game servers, and what they answer.

use crate::info_map::str_eq;
use crate::numbers::{decimal, push_decimal};
use crate::server::{fresh_server, Quake3Server, ServerView};
use crate::text::begins_with;
use vstd::prelude::*;
use vstd::string::*;
use vstd::utf8::*;

verus! {

/// What a master server is, as plain values.
pub struct MasterView {
    pub name: Seq<char>,
    pub address: Seq<char>,
    pub game: Seq<char>,
    pub active: bool,
    pub unreachable: bool,
}

/// A master server.
#[derive(Debug, Hash, PartialEq, Eq, PartialOrd)]
pub struct MasterServer {
    pub name: String,
    pub address: String,
    pub game: String,
    pub active: bool,
    pub unreachable: bool,
}

impl View for MasterServer {
    type V = MasterView;

    open spec fn view(&self) -> MasterView {
        MasterView {
            name: self.name@,
            address: self.address@,
            game: self.game@,
            active: self.active,
            unreachable: self.unreachable,
        }
    }
}

impl Clone for MasterServer {
    fn clone(&self) -> (copy: Self)
        ensures
            copy@ == self@,
    {
        MasterServer {
            name: self.name.clone(),
            address: self.address.clone(),
            game: self.game.clone(),
            active: self.active,
            unreachable: self.unreachable,
        }
    }
}

impl Default for MasterServer {
    fn default() -> (master: Self)
        ensures
            master@ == (MasterView {
                name: Seq::empty(),
                address: Seq::empty(),
                game: Seq::empty(),
                active: false,
                unreachable: false,
            }),
    {
        MasterServer {
            name: String::new(),
            address: String::new(),
            game: String::new(),
            active: false,
            unreachable: false,
        }
    }
}

/// A master server that is asked and has not failed yet.
pub open spec fn active_master(name: Seq<char>, address: Seq<char>, game: Seq<char>) -> MasterView {
    MasterView { name, address, game, active: true, unreachable: false }
}

/// The master servers that the launcher knows from the start.
pub open spec fn known_masters() -> Seq<MasterView> {
    seq![
        active_master("master.quake3arena.com"@, "master.quake3arena.com:27950"@, "Quake 3"@),
        active_master("master.ioquake3.org"@, "master.ioquake3.org:27950"@, "Quake 3"@),
        active_master("dpmaster.deathmask.net"@, "dpmaster.deathmask.net:27950"@, "Quake 3"@),
        active_master("master.urbanterror.info"@, "master.urbanterror.info:27900"@, "Urban Terror"@),
        active_master("master.ioquake3.org"@, "master.ioquake3.org:27950"@, "OpenArena"@),
        active_master("dpmaster.deathmask.net"@, "dpmaster.deathmask.net:27950"@, "OpenArena"@),
        active_master("bloodrun master"@, "164.90.203.227:27950"@, "Bloodrun"@),
    ]
}

/// The views of a list of master servers.
pub open spec fn master_views(masters: Seq<MasterServer>) -> Seq<MasterView> {
    Seq::new(masters.len(), |i: int| masters[i]@)
}

/// The protocol that servers of `game` are asked with. `Quake 3` takes the
/// protocol that the user chose; every other game has its own.
pub open spec fn used_protocol(game: Seq<char>, q3_protocol: u8) -> u8 {
    if game == "Quake 3"@ {
        q3_protocol
    } else if game == "Urban Terror"@ {
        68
    } else if game == "OpenArena"@ {
        71
    } else if game == "Bloodrun"@ {
        114
    } else {
        68
    }
}

/// The protocol that servers of `game` are asked with.
pub fn get_used_protocol(game: &String, q3_protocol: &u8) -> (protocol: u8)
    ensures
        protocol == used_protocol(game@, *q3_protocol),
{
    if str_eq(game.as_str(), "Quake 3") {
        *q3_protocol
    } else if str_eq(game.as_str(), "Urban Terror") {
        68
    } else if str_eq(game.as_str(), "OpenArena") {
        71
    } else if str_eq(game.as_str(), "Bloodrun") {
        114
    } else {
        68
    }
}

/// Whether a datagram is a master server's list of servers: four bytes
/// `0xff`, then the word `getserversResponse`.
pub open spec fn is_server_list(response: Seq<u8>) -> bool {
    &&& response.len() >= 4
    &&& response[0] == 0xff
    &&& response[1] == 0xff
    &&& response[2] == 0xff
    &&& response[3] == 0xff
    &&& encode_utf8("getserversResponse"@).is_prefix_of(
        response.subrange(4, response.len() as int),
    )
}

/// An ip address in dotted decimal.
pub open spec fn ip_text(a: u8, b: u8, c: u8, d: u8) -> Seq<char> {
    decimal(a as nat) + seq!['.'] + decimal(b as nat) + seq!['.'] + decimal(c as nat) + seq!['.']
        + decimal(d as nat)
}

/// The views of a list of servers.
pub open spec fn server_views(servers: Seq<Quake3Server>) -> Seq<ServerView> {
    Seq::new(servers.len(), |i: int| servers[i]@)
}

/// Whether one of `servers` has the address `address`.
pub open spec fn has_address(servers: Seq<ServerView>, address: Seq<char>) -> bool {
    exists|i: int| 0 <= i < servers.len() && (#[trigger] servers[i]).address == address
}

/// The place in a list of servers at which the entries start.
pub const FIRST_ENTRY: usize = 23;

/// The servers that the entries of a list stand for, from byte `index` on.
/// An entry has seven bytes: four of the ip address, two of the port, high
/// byte first, and a separator. The list ends at a port 0, or where fewer
/// than seven bytes are left. A server whose address one of `known` has is
/// left out.
pub open spec fn listed_servers(
    response: Seq<u8>,
    index: int,
    master: MasterView,
    known: Seq<ServerView>,
    protocol: u8,
) -> Seq<ServerView>
    decreases response.len() + 2 - index,
{
    if index < 0 || index + 5 >= response.len() {
        Seq::empty()
    } else {
        let port = 0x100 * (response[index + 4] as int) + (response[index + 5] as int);
        if port == 0 {
            Seq::empty()
        } else {
            let server = fresh_server(
                ip_text(
                    response[index],
                    response[index + 1],
                    response[index + 2],
                    response[index + 3],
                ),
                decimal(port as nat),
                Some(master),
                Some(protocol),
            );
            if has_address(known, server.address) {
                listed_servers(response, index + 7, master, known, protocol)
            } else {
                seq![server] + listed_servers(response, index + 7, master, known, protocol)
            }
        }
    }
}

/// The servers that a master server's answer lists and that are not known
/// yet; none if the datagram is no list of servers.
pub open spec fn master_response(
    response: Seq<u8>,
    master: MasterView,
    known: Seq<ServerView>,
    protocol: u8,
) -> Seq<ServerView> {
    if is_server_list(response) {
        listed_servers(response, FIRST_ENTRY as int, master, known, protocol)
    } else {
        Seq::empty()
    }
}

fn server_list_header(response: &[u8]) -> (b: bool)
    ensures
        b == is_server_list(response@),
{
    if response.len() < 4 {
        return false;
    }
    if response[0] != 0xff || response[1] != 0xff || response[2] != 0xff || response[3] != 0xff {
        return false;
    }
    let rest = vstd::slice::slice_subrange(response, 4, response.len());
    begins_with(rest, "getserversResponse".as_bytes())
}

fn dotted(a: u8, b: u8, c: u8, d: u8) -> (text: String)
    ensures
        text@ == ip_text(a, b, c, d),
{
    let mut text = String::new();
    push_decimal(&mut text, a as u32);
    text.push('.');
    push_decimal(&mut text, b as u32);
    text.push('.');
    push_decimal(&mut text, c as u32);
    text.push('.');
    push_decimal(&mut text, d as u32);
    assert(text@ =~= ip_text(a, b, c, d));
    text
}

fn knows_address(servers: &Vec<Quake3Server>, address: &String) -> (b: bool)
    ensures
        b == has_address(server_views(servers@), address@),
{
    let mut i: usize = 0;
    while i < servers.len()
        invariant
            i <= servers.len(),
            forall|j: int| 0 <= j < i ==> (#[trigger] server_views(servers@)[j]).address != address@,
        decreases servers.len() - i,
    {
        if servers[i].address == *address {
            assert(server_views(servers@)[i as int].address == address@);
            return true;
        }
        i += 1;
    }
    false
}

/// The words of the request that asks a master server of `game` for its
/// servers.
pub open spec fn query_words(game: Seq<char>, q3_protocol: u8) -> Seq<char> {
    if game == "Quake 3"@ {
        if q3_protocol == 43 {
            "getservers 43 full empty"@
        } else {
            "getservers 68 full empty"@
        }
    } else if game == "Urban Terror"@ {
        "getservers 68 full empty"@
    } else if game == "OpenArena"@ {
        "getservers 71 full empty"@
    } else if game == "Bloodrun"@ {
        "getservers Quake3Champions 114 full empty"@
    } else {
        "getservers 68 full empty"@
    }
}

/// The request that asks a master server of `game` for its servers: four
/// bytes `0xff`, then the words.
pub open spec fn query_bytes(game: Seq<char>, q3_protocol: u8) -> Seq<u8> {
    seq![0xffu8, 0xffu8, 0xffu8, 0xffu8] + encode_utf8(query_words(game, q3_protocol))
}

/// The active ones among the first `upto` master servers.
pub open spec fn active_among(masters: Seq<MasterView>, upto: int) -> Seq<MasterView>
    decreases upto,
{
    if upto <= 0 {
        Seq::empty()
    } else if masters[upto - 1].active {
        active_among(masters, upto - 1).push(masters[upto - 1])
    } else {
        active_among(masters, upto - 1)
    }
}

fn active(name: &str, address: &str, game: &str) -> (master: MasterServer)
    ensures
        master@ == active_master(name@, address@, game@),
{
    MasterServer {
        name: String::from_str(name),
        address: String::from_str(address),
        game: String::from_str(game),
        active: true,
        unreachable: false,
    }
}

impl MasterServer {
    /// The request that asks a master server of `game` for its servers.
    pub fn master_query(game: &String, q3_protocol: &u8) -> (request: Vec<u8>)
        ensures
            request@ == query_bytes(game@, *q3_protocol),
    {
        let words: &str = if str_eq(game.as_str(), "Quake 3") {
            if *q3_protocol == 43 {
                "getservers 43 full empty"
            } else {
                "getservers 68 full empty"
            }
        } else if str_eq(game.as_str(), "Urban Terror") {
            "getservers 68 full empty"
        } else if str_eq(game.as_str(), "OpenArena") {
            "getservers 71 full empty"
        } else if str_eq(game.as_str(), "Bloodrun") {
            "getservers Quake3Champions 114 full empty"
        } else {
            "getservers 68 full empty"
        };
        let mut request: Vec<u8> = Vec::new();
        request.push(0xff);
        request.push(0xff);
        request.push(0xff);
        request.push(0xff);
        let mut tail = words.as_bytes_vec();
        request.append(&mut tail);
        assert(request@ =~= query_bytes(game@, *q3_protocol));
        request
    }

    /// The master servers that are asked: the active ones, in their order.
    pub fn active_masters(masters: &Vec<MasterServer>) -> (chosen: Vec<MasterServer>)
        ensures
            master_views(chosen@) == active_among(master_views(masters@), masters@.len() as int),
    {
        let mut chosen: Vec<MasterServer> = Vec::new();
        assert(master_views(chosen@) =~= Seq::<MasterView>::empty());
        let mut i: usize = 0;
        while i < masters.len()
            invariant
                i <= masters@.len(),
                master_views(chosen@) == active_among(master_views(masters@), i as int),
            decreases masters@.len() - i,
        {
            assert(master_views(masters@)[i as int] == masters@[i as int]@);
            if masters[i].active {
                let ghost before = master_views(chosen@);
                let copy = masters[i].clone();
                chosen.push(copy);
                assert(master_views(chosen@) =~= before.push(copy@));
            }
            i += 1;
        }
        chosen
    }

    /// Whether a master server is expected to send another datagram: it is,
    /// as long as a datagram is not shorter than the one before it.
    pub fn expects_more(received: usize, before: usize) -> (more: bool)
        ensures
            more == (received >= before),
    {
        received >= before
    }

    /// Reads a master server's answer: the servers that it lists, but for
    /// those that `servers_so_far` holds already by their address. Each
    /// server is noted as listed by `master` and as asked with `protocol`.
    pub fn parse_master_response(
        response: &[u8],
        master: &MasterServer,
        servers_so_far: &Vec<Quake3Server>,
        protocol: &u8,
    ) -> (servers: Vec<Quake3Server>)
        ensures
            server_views(servers@) == master_response(
                response@,
                master@,
                server_views(servers_so_far@),
                *protocol,
            ),
    {
        let mut parsed_master_servers: Vec<Quake3Server> = Vec::new();
        if !server_list_header(response) {
            assert(server_views(parsed_master_servers@) =~= Seq::<ServerView>::empty());
            return parsed_master_servers;
        }
        let mut index: usize = FIRST_ENTRY;
        while response.len() > 5 && index < response.len() - 5
            invariant_except_break
                FIRST_ENTRY <= index,
                master_response(response@, master@, server_views(servers_so_far@), *protocol)
                    == server_views(parsed_master_servers@) + listed_servers(
                    response@,
                    index as int,
                    master@,
                    server_views(servers_so_far@),
                    *protocol,
                ),
            ensures
                master_response(response@, master@, server_views(servers_so_far@), *protocol)
                    == server_views(parsed_master_servers@),
            decreases response.len() - index,
        {
            let port: u32 = (response[index + 4] as u32) * 0x100 + response[index + 5] as u32;
            if port == 0 {
                assert(server_views(parsed_master_servers@) + Seq::<ServerView>::empty()
                    =~= server_views(parsed_master_servers@));
                break;
            }
            let ip = dotted(
                response[index],
                response[index + 1],
                response[index + 2],
                response[index + 3],
            );
            let mut port_text = String::new();
            push_decimal(&mut port_text, port);
            assert(port_text@ =~= decimal(port as nat));
            let parsed = Quake3Server::new(ip, port_text, Some(master.clone()), Some(*protocol));
            let ghost rest = listed_servers(
                response@,
                index + 7,
                master@,
                server_views(servers_so_far@),
                *protocol,
            );
            if !knows_address(servers_so_far, &parsed.address) {
                let ghost before = server_views(parsed_master_servers@);
                parsed_master_servers.push(parsed);
                assert(server_views(parsed_master_servers@) =~= before.push(parsed@));
                assert(before + (seq![parsed@] + rest) =~= server_views(parsed_master_servers@)
                    + rest);
            }
            if response.len() - index < 7 {
                assert(rest =~= Seq::<ServerView>::empty());
                assert(server_views(parsed_master_servers@) + Seq::<ServerView>::empty()
                    =~= server_views(parsed_master_servers@));
                break;
            }
            index += 7;
        }
        assert(server_views(parsed_master_servers@) + Seq::<ServerView>::empty() =~= server_views(
            parsed_master_servers@,
        ));
        parsed_master_servers
    }

    /// The master servers that the launcher knows from the start.
    pub fn initial_masters() -> (masters: Vec<MasterServer>)
        ensures
            master_views(masters@) == known_masters(),
    {
        let mut initial: Vec<MasterServer> = Vec::new();
        initial.push(active("master.quake3arena.com", "master.quake3arena.com:27950", "Quake 3"));
        initial.push(active("master.ioquake3.org", "master.ioquake3.org:27950", "Quake 3"));
        initial.push(active("dpmaster.deathmask.net", "dpmaster.deathmask.net:27950", "Quake 3"));
        initial.push(
            active("master.urbanterror.info", "master.urbanterror.info:27900", "Urban Terror"),
        );
        initial.push(active("master.ioquake3.org", "master.ioquake3.org:27950", "OpenArena"));
        initial.push(
            active("dpmaster.deathmask.net", "dpmaster.deathmask.net:27950", "OpenArena"),
        );
        initial.push(active("bloodrun master", "164.90.203.227:27950", "Bloodrun"));
        assert(master_views(initial@) =~= known_masters());
        initial
    }
}

} // verus!
