//! The servers that the user pinned, added or threw away, brought into a
//! list of servers.

use crate::config::AppData;
use crate::master::{has_address, server_views};
use crate::server::{fresh_server, Quake3Server, ServerView};
use crate::text::{byte_views, bytes_to_text, copy_range, pieces, split_bytes, string_views, text_of};
use crate::text_set::TextSet;
use vstd::prelude::*;
use vstd::string::*;
use vstd::utf8::*;

verus! {

/// The byte between the ip and the port of an address, `:`.
pub const COLON: u8 = 0x3a;

/// The server that a saved address stands for, on the list of pinned
/// servers; nothing if the address has no colon.
pub open spec fn saved_server(address: Seq<char>, custom: bool) -> Option<ServerView> {
    let parts = pieces(encode_utf8(address), COLON);
    if parts.len() < 2 {
        None
    } else {
        Some(
            ServerView {
                list: "pinned"@,
                custom,
                ..fresh_server(text_of(parts[0]), text_of(parts[1]), None, None)
            },
        )
    }
}

/// The servers that the first `upto` of the saved addresses add to the
/// servers `known`: one for each address that none of `known` has.
pub open spec fn added_servers(
    saved: Seq<Seq<char>>,
    upto: int,
    known: Seq<ServerView>,
    custom: bool,
) -> Seq<ServerView>
    decreases upto,
{
    if upto <= 0 {
        Seq::empty()
    } else {
        let before = added_servers(saved, upto - 1, known, custom);
        match saved_server(saved[upto - 1], custom) {
            Some(server) => if has_address(known, saved[upto - 1]) {
                before
            } else {
                before.push(server)
            },
            None => before,
        }
    }
}

/// The list that a server belongs on, and whether the user added it: a
/// pinned server is on `pinned`, so is one that the user added, and a server
/// whose address or ip was thrown away is on `trash`.
pub open spec fn marked_server(
    server: ServerView,
    pinned: Set<Seq<char>>,
    custom: Set<Seq<char>>,
    trash: Set<Seq<char>>,
    trash_ip: Set<Seq<char>>,
) -> ServerView {
    let added = custom.contains(server.address);
    let list = if trash.contains(server.address) || trash_ip.contains(server.ip) {
        "trash"@
    } else if pinned.contains(server.address) || added {
        "pinned"@
    } else {
        server.list
    };
    ServerView { list, custom: server.custom || added, ..server }
}

fn read_saved(address: &String, custom: bool) -> (r: Option<Quake3Server>)
    ensures
        match saved_server(address@, custom) {
            Some(server) => r matches Some(found) && found@ == server,
            None => r is None,
        },
{
    let ip_port = split_bytes(address.as_str().as_bytes(), COLON);
    if ip_port.len() < 2 {
        return None;
    }
    assert(byte_views(ip_port@)[0] == ip_port@[0]@);
    assert(byte_views(ip_port@)[1] == ip_port@[1]@);
    let ip = bytes_to_text(copy_range(ip_port[0].as_slice(), 0, ip_port[0].len()));
    let port = bytes_to_text(copy_range(ip_port[1].as_slice(), 0, ip_port[1].len()));
    assert(ip_port@[0]@.subrange(0, ip_port@[0]@.len() as int) =~= ip_port@[0]@);
    assert(ip_port@[1]@.subrange(0, ip_port@[1]@.len() as int) =~= ip_port@[1]@);
    let mut server = Quake3Server::new(ip, port, None, None);
    server.list = String::from_str("pinned");
    server.custom = custom;
    Some(server)
}

fn knows(servers: &Vec<Quake3Server>, count: usize, address: &String) -> (b: bool)
    requires
        count <= servers@.len(),
    ensures
        b == has_address(server_views(servers@.subrange(0, count as int)), address@),
{
    let ghost known = server_views(servers@.subrange(0, count as int));
    let mut i: usize = 0;
    while i < count
        invariant
            i <= count <= servers@.len(),
            known == server_views(servers@.subrange(0, count as int)),
            forall|j: int| 0 <= j < i ==> (#[trigger] known[j]).address != address@,
        decreases count - i,
    {
        assert(known[i as int] == servers@[i as int]@);
        if servers[i].address == *address {
            return true;
        }
        i += 1;
    }
    false
}

fn add_saved(servers: &mut Vec<Quake3Server>, count: usize, saved: &TextSet, custom: bool)
    requires
        count <= old(servers)@.len(),
    ensures
        server_views(final(servers)@) == server_views(old(servers)@) + added_servers(
            string_views(saved.items()),
            saved.items().len() as int,
            server_views(old(servers)@.subrange(0, count as int)),
            custom,
        ),
{
    let ghost known = server_views(servers@.subrange(0, count as int));
    let ghost start = server_views(servers@);
    let mut i: usize = 0;
    assert(start + Seq::<ServerView>::empty() =~= start);
    while i < saved.len()
        invariant
            i <= saved.items().len(),
            count <= servers@.len(),
            known == server_views(servers@.subrange(0, count as int)),
            server_views(servers@) == start + added_servers(
                string_views(saved.items()),
                i as int,
                known,
                custom,
            ),
        decreases saved.items().len() - i,
    {
        let address = saved.item(i);
        assert(string_views(saved.items())[i as int] == address@);
        let ghost so_far = added_servers(string_views(saved.items()), i as int, known, custom);
        match read_saved(address, custom) {
            Some(server) => {
                if !knows(servers, count, address) {
                    let ghost before = servers@;
                    servers.push(server);
                    assert(servers@.subrange(0, count as int) =~= before.subrange(0, count as int));
                    assert(server_views(servers@) =~= server_views(before).push(server@));
                    assert(server_views(servers@) =~= start + so_far.push(server@));
                }
            },
            None => {},
        }
        i += 1;
    }
}

impl AppData {
    /// Puts the server on the list that it belongs on.
    fn mark(&self, server: &mut Quake3Server)
        ensures
            final(server)@ == marked_server(
                old(server)@,
                self.pinned@,
                self.custom@,
                self.trash@,
                self.trash_ip@,
            ),
    {
        if self.pinned.contains(server.address.as_str()) {
            server.list = String::from_str("pinned");
        }
        if self.custom.contains(server.address.as_str()) {
            server.list = String::from_str("pinned");
            server.custom = true;
        }
        if self.trash.contains(server.address.as_str()) {
            server.list = String::from_str("trash");
        }
        if self.trash_ip.contains(server.ip.as_str()) {
            server.list = String::from_str("trash");
        }
    }

    /// Brings the saved servers into a list of servers. The servers that
    /// the user added and those that are pinned join the list, unless it
    /// holds their address already; then every server is put on the list
    /// that it belongs on.
    pub fn get_saved_servers(&self, servers: &mut Vec<Quake3Server>)
        ensures
            ({
                let known = server_views(old(servers)@);
                let joined = known + added_servers(
                    string_views(self.custom.items()),
                    self.custom.items().len() as int,
                    known,
                    true,
                ) + added_servers(
                    string_views(self.pinned.items()),
                    self.pinned.items().len() as int,
                    known,
                    false,
                );
                &&& final(servers)@.len() == joined.len()
                &&& forall|i: int|
                    0 <= i < joined.len() ==> (#[trigger] final(servers)@[i])@ == marked_server(
                        joined[i],
                        self.pinned@,
                        self.custom@,
                        self.trash@,
                        self.trash_ip@,
                    )
            }),
    {
        let count: usize = servers.len();
        assert(servers@.subrange(0, count as int) =~= servers@);
        add_saved(servers, count, &self.custom, true);
        let ghost middle = servers@;
        assert(servers@.len() >= count) by {
            assert(server_views(servers@).len() >= count);
        }
        assert(server_views(servers@.subrange(0, count as int)) =~= server_views(old(servers)@)) by {
            assert forall|i: int| 0 <= i < count implies server_views(
                servers@.subrange(0, count as int),
            )[i] == server_views(old(servers)@)[i] by {
                assert(server_views(servers@)[i] == servers@[i]@);
            }
        }
        add_saved(servers, count, &self.pinned, false);
        let ghost joined = server_views(servers@);
        let mut stack: Vec<Quake3Server> = Vec::new();
        let ghost before = servers@;
        while servers.len() > 0
            invariant
                servers@.len() + stack@.len() == before.len(),
                servers@ == before.subrange(0, servers@.len() as int),
                forall|k: int|
                    0 <= k < stack@.len() ==> (#[trigger] stack@[k]) == before[before.len() - 1
                        - k],
            decreases servers@.len(),
        {
            let server = servers.pop().unwrap();
            stack.push(server);
        }
        while stack.len() > 0
            invariant
                servers@.len() + stack@.len() == before.len(),
                forall|k: int|
                    0 <= k < stack@.len() ==> (#[trigger] stack@[k]) == before[before.len() - 1
                        - k],
                forall|i: int|
                    0 <= i < servers@.len() ==> (#[trigger] servers@[i])@ == marked_server(
                        before[i]@,
                        self.pinned@,
                        self.custom@,
                        self.trash@,
                        self.trash_ip@,
                    ),
            decreases stack@.len(),
        {
            let mut server = stack.pop().unwrap();
            self.mark(&mut server);
            servers.push(server);
        }
        assert forall|i: int| 0 <= i < joined.len() implies joined[i] == before[i]@ by {}
    }
}

} // verus!
