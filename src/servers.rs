//! Saved server addresses: one server, and the list a chat guild keeps with
//! the one it uses by default.

use vstd::prelude::*;
use vstd::string::{StrSliceExecFns, StringExecFns};

verus! {

/// The port a server address gets when it names none.
pub open spec fn default_port_suffix() -> Seq<char> {
    seq![':', '2', '5', '5', '6', '5']
}

/// True when the address names a port: it holds a `:`.
pub open spec fn names_port(ip: Seq<char>) -> bool {
    exists|i: int| 0 <= i < ip.len() && ip[i] == ':'
}

/// A server to ask for its status: an address, and a name if saved under one.
#[derive(Debug, Clone)]
pub struct MCServer {
    pub ip: String,
    pub name: Option<String>,
}

/// True when `s` is saved under the name `name`.
pub open spec fn named(s: MCServer, name: Seq<char>) -> bool {
    s.name matches Some(n) && n@ == name
}

impl MCServer {
    /// A server at `ip`, with the default port added where `ip` names none.
    pub fn new(ip: String, name: Option<String>) -> (r: MCServer)
        ensures
            r.ip@ == if names_port(ip@) { ip@ } else { ip@ + default_port_suffix() },
            r.name == name,
    {
        let mut ip = ip;
        let n: usize = ip.as_str().unicode_len();
        let mut i: usize = 0;
        let mut found = false;
        while i < n
            invariant
                n == ip@.len(),
                i <= n,
                found <==> exists|j: int| 0 <= j < i && ip@[j] == ':',
            decreases n - i,
        {
            if ip.as_str().get_char(i) == ':' {
                found = true;
            }
            i = i + 1;
        }
        if !found {
            let suffix = ":25565";
            proof {
                reveal_strlit(":25565");
                assert(suffix@ =~= default_port_suffix());
            }
            ip.append(suffix);
        }
        MCServer { ip, name }
    }
}

/// The servers a guild saved, and the index of the one used by default.
#[derive(Debug, Clone)]
pub struct GuildServers {
    pub active: usize,
    pub servers: Vec<MCServer>,
}

/// The first index in `s` of a server saved under `name`, if any.
pub open spec fn first_named(s: Seq<MCServer>, name: Seq<char>) -> Option<int> {
    if exists|i: int| 0 <= i < s.len() && named(s[i], name) {
        Some(choose|i: int| 0 <= i < s.len() && named(s[i], name) && forall|j: int| 0 <= j < i ==> !named(s[j], name))
    } else {
        None
    }
}

/// Where the default index goes when the server at `removed` leaves: to the
/// start if it was that server, one down if it came after it.
pub open spec fn active_after_removal(active: usize, removed: int) -> usize {
    if active as int == removed {
        0
    } else if active as int > removed {
        (active - 1) as usize
    } else {
        active
    }
}

impl GuildServers {
    /// The default index points at a saved server, or is zero when none is.
    pub open spec fn wf(&self) -> bool {
        if self.servers@.len() == 0 {
            self.active == 0
        } else {
            self.active < self.servers@.len()
        }
    }

    /// An empty list.
    pub fn new() -> (r: GuildServers)
        ensures
            r.wf(),
            r.servers@.len() == 0,
    {
        GuildServers { active: 0, servers: Vec::new() }
    }

    /// The index of the first server saved under `name`.
    pub fn find(&self, name: &String) -> (r: Option<usize>)
        ensures
            match first_named(self.servers@, name@) {
                Some(i) => 0 <= i < self.servers@.len() && (r matches Some(k) && k as int == i),
                None => r is None,
            },
    {
        let mut i: usize = 0;
        while i < self.servers.len()
            invariant
                i <= self.servers@.len(),
                forall|j: int| 0 <= j < i ==> !named(self.servers@[j], name@),
            decreases self.servers@.len() - i,
        {
            let hit = match &self.servers[i].name {
                Some(n) => n.eq(name),
                None => false,
            };
            if hit {
                proof {
                    let s = self.servers@;
                    assert(named(s[i as int], name@));
                    let k = choose|k: int| 0 <= k < s.len() && named(s[k], name@) && forall|j: int| 0 <= j < k ==> !named(s[j], name@);
                    assert(k == i) by {
                        if k < i {
                        } else if k > i {
                            assert(!named(s[i as int], name@));
                        }
                    }
                }
                return Some(i);
            }
            i = i + 1;
        }
        None
    }

    /// Saves `server` at the end of the list.
    pub fn add(&mut self, server: MCServer)
        requires
            old(self).wf(),
        ensures
            final(self).wf(),
            final(self).servers@ == old(self).servers@.push(server),
            final(self).active == old(self).active,
    {
        self.servers.push(server);
    }

    /// Removes the first server saved under `name` and hands it back; the
    /// default index follows the servers it pointed at where it can.
    pub fn remove(&mut self, name: &String) -> (r: Option<MCServer>)
        requires
            old(self).wf(),
        ensures
            final(self).wf(),
            match first_named(old(self).servers@, name@) {
                Some(i) => r == Some(old(self).servers@[i])
                    && final(self).servers@ == old(self).servers@.remove(i)
                    && final(self).active == active_after_removal(old(self).active, i),
                None => r is None && *final(self) == *old(self),
            },
    {
        match self.find(name) {
            None => None,
            Some(i) => {
                if self.active == i {
                    self.active = 0;
                } else if self.active > i {
                    self.active = self.active - 1;
                }
                Some(self.servers.remove(i))
            },
        }
    }

    /// Makes the first server saved under `name` the default one, and gives
    /// its index.
    pub fn set_active(&mut self, name: &String) -> (r: Option<usize>)
        requires
            old(self).wf(),
        ensures
            final(self).wf(),
            final(self).servers@ == old(self).servers@,
            match first_named(old(self).servers@, name@) {
                Some(i) => final(self).active as int == i && (r matches Some(k) && k as int == i),
                None => r is None && final(self).active == old(self).active,
            },
    {
        let r = self.find(name);
        if let Some(i) = r {
            self.active = i;
        }
        r
    }

    /// Removes every server.
    pub fn clear(&mut self)
        ensures
            final(self).wf(),
            final(self).servers@.len() == 0,
    {
        self.active = 0;
        self.servers.clear();
    }

    /// The index of the server to ask: the first one saved under `name`,
    /// or the default one when no name is given; `None` when there is none.
    pub fn pick(&self, name: Option<&String>) -> (r: Option<usize>)
        requires
            self.wf(),
        ensures
            match name {
                None => r == (if self.servers@.len() == 0 { None } else { Some(self.active) }),
                Some(n) => match first_named(self.servers@, n@) {
                    Some(i) => r matches Some(k) && k as int == i,
                    None => r is None,
                },
            },
            r matches Some(i) ==> i < self.servers@.len(),
    {
        match name {
            None => if self.servers.len() == 0 {
                None
            } else {
                Some(self.active)
            },
            Some(n) => self.find(n),
        }
    }
}

} // verus!
