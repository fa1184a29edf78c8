//! Configuration of MCP servers: an in-memory table keyed by server name.
//!
//! Loading the table from disk and writing it back is left to the surrounding
//! application; the manager here owns the current entries and the rules for
//! adding, updating, renaming, toggling and removing them.

use vstd::prelude::*;
use vstd::string::StringExecFns;

use crate::config::clone_string_vec;
use crate::types::{AppError, AppErrorView, McpServerConfig, McpServerConfigView};

verus! {

/// First index in `s` holding a server with the given name, or `-1`.
pub open spec fn server_idx(s: Seq<McpServerConfigView>, name: Seq<char>) -> int
    decreases s.len(),
{
    if s.len() == 0 {
        -1
    } else if s[0].name == name {
        0
    } else if server_idx(s.drop_first(), name) == -1 {
        -1
    } else {
        server_idx(s.drop_first(), name) + 1
    }
}

/// Characterization of [`server_idx`]: `-1` means the name is absent;
/// otherwise it is the first position holding the name.
pub proof fn lemma_server_idx(s: Seq<McpServerConfigView>, name: Seq<char>)
    ensures
        server_idx(s, name) == -1 ==> forall|i: int| 0 <= i < s.len() ==> s[i].name != name,
        server_idx(s, name) != -1 ==> 0 <= server_idx(s, name) < s.len() && s[server_idx(
            s,
            name,
        )].name == name && (forall|i: int| 0 <= i < server_idx(s, name) ==> s[i].name != name),
    decreases s.len(),
{
    if s.len() > 0 && s[0].name != name {
        lemma_server_idx(s.drop_first(), name);
        let f = server_idx(s.drop_first(), name);
        if f == -1 {
            assert forall|i: int| 0 <= i < s.len() implies s[i].name != name by {
                if i >= 1 {
                    assert(s[i] == s.drop_first()[i - 1]);
                }
            }
        } else {
            assert(s[f + 1] == s.drop_first()[f]);
            assert forall|i: int| 0 <= i < f + 1 implies s[i].name != name by {
                if i >= 1 {
                    assert(s[i] == s.drop_first()[i - 1]);
                }
            }
        }
    }
}

/// Element-for-element copy of an environment list.
fn clone_env(v: &Vec<(String, String)>) -> (r: Vec<(String, String)>)
    ensures
        r.deep_view() == v.deep_view(),
{
    let n = v.len();
    let mut r: Vec<(String, String)> = Vec::new();
    let mut i: usize = 0;
    while i < n
        invariant
            i <= n,
            n == v.len(),
            r.deep_view() =~= v.deep_view().subrange(0, i as int),
        decreases n - i,
    {
        let ghost prev = r.deep_view();
        let pair = (v[i].0.clone(), v[i].1.clone());
        r.push(pair);
        proof {
            assert(r.deep_view() =~= prev.push(v.deep_view()[i as int]));
            assert(v.deep_view().subrange(0, i + 1 as int) =~= v.deep_view().subrange(
                0,
                i as int,
            ).push(v.deep_view()[i as int]));
        }
        i = i + 1;
    }
    proof {
        assert(v.deep_view().subrange(0, n as int) =~= v.deep_view());
    }
    r
}

/// Field-for-field copy of a server entry.
fn clone_server(s: &McpServerConfig) -> (r: McpServerConfig)
    ensures
        r@ == s@,
{
    McpServerConfig {
        name: s.name.clone(),
        command: s.command.clone(),
        args: clone_string_vec(&s.args),
        env: match &s.env {
            Some(e) => Some(clone_env(e)),
            None => None,
        },
        enabled: s.enabled,
        status: match &s.status {
            Some(st) => Some(st.clone()),
            None => None,
        },
    }
}

/// First index in `v` holding a server with the given name.
fn index_of_name(v: &Vec<McpServerConfig>, name: &String) -> (r: Option<usize>)
    ensures
        match r {
            Some(i) => server_idx(v.deep_view(), name@) == i && i < v.len(),
            None => server_idx(v.deep_view(), name@) == -1,
        },
{
    let n = v.len();
    let mut i: usize = 0;
    while i < n
        invariant
            i <= n,
            n == v.len(),
            forall|j: int| 0 <= j < i ==> v.deep_view()[j].name != name@,
        decreases n - i,
    {
        if v[i].name == *name {
            proof {
                assert(v.deep_view()[i as int].name == name@);
                lemma_server_idx(v.deep_view(), name@);
            }
            return Some(i);
        }
        i = i + 1;
    }
    proof {
        lemma_server_idx(v.deep_view(), name@);
    }
    None
}

/// The "already exists" error for a server name.
fn exists_error(name: &String) -> (r: AppError)
    ensures
        r@ == AppErrorView::Other("MCP server '"@ + name@ + "' already exists"@),
{
    let mut m = String::from_str("MCP server '");
    m.append(name.as_str());
    m.append("' already exists");
    AppError::Other(m)
}

/// The "not found" error for a server name.
fn not_found_error(name: &String) -> (r: AppError)
    ensures
        r@ == AppErrorView::Other("MCP server '"@ + name@ + "' not found"@),
{
    let mut m = String::from_str("MCP server '");
    m.append(name.as_str());
    m.append("' not found");
    AppError::Other(m)
}

/// A stored entry: the given record with its transient status cleared.
pub open spec fn stored_entry(s: McpServerConfigView) -> McpServerConfigView {
    McpServerConfigView { status: None, ..s }
}

/// Owner of the MCP server table.
pub struct McpManager {
    servers: Vec<McpServerConfig>,
}

impl View for McpManager {
    type V = Seq<McpServerConfigView>;

    closed spec fn view(&self) -> Seq<McpServerConfigView> {
        self.servers.deep_view()
    }
}

impl McpManager {
    /// An empty table.
    pub fn new() -> (r: McpManager)
        ensures
            r@.len() == 0,
    {
        McpManager { servers: Vec::new() }
    }

    /// All entries, in table order.
    pub fn list_servers(&self) -> (r: Result<Vec<McpServerConfig>, AppError>)
        ensures
            match r {
                Ok(list) => list.deep_view() == self@,
                Err(_) => false,
            },
    {
        let n = self.servers.len();
        let mut list: Vec<McpServerConfig> = Vec::new();
        let mut i: usize = 0;
        while i < n
            invariant
                i <= n,
                n == self.servers.len(),
                list.deep_view() =~= self@.subrange(0, i as int),
            decreases n - i,
        {
            let ghost prev = list.deep_view();
            list.push(clone_server(&self.servers[i]));
            proof {
                assert(list.deep_view() =~= prev.push(self@[i as int]));
                assert(self@.subrange(0, i + 1 as int) =~= self@.subrange(0, i as int).push(
                    self@[i as int],
                ));
            }
            i = i + 1;
        }
        proof {
            assert(self@.subrange(0, n as int) =~= self@);
        }
        Ok(list)
    }

    /// Add a new entry; fails without effect when the name is already taken.
    /// The stored entry has its transient status cleared.
    pub fn add_server(&mut self, server: McpServerConfig) -> (r: Result<(), AppError>)
        ensures
            match r {
                Ok(_) => server_idx(old(self)@, server@.name) == -1 && final(self)@ == old(
                    self,
                )@.push(stored_entry(server@)),
                Err(e) => server_idx(old(self)@, server@.name) != -1 && final(self)@ == old(self)@
                    && e@ == AppErrorView::Other(
                    "MCP server '"@ + server@.name + "' already exists"@,
                ),
            },
    {
        match index_of_name(&self.servers, &server.name) {
            Some(_) => Err(exists_error(&server.name)),
            None => {
                let mut entry = server;
                entry.status = None;
                self.servers.push(entry);
                Ok(())
            },
        }
    }

    /// Replace the entry stored under `name` with `server`, possibly renaming
    /// it; fails without effect when `name` is unknown. When the new name
    /// collides with a third entry, that entry is overwritten, as a map keyed
    /// by name would.
    pub fn update_server(&mut self, name: &str, server: McpServerConfig) -> (r: Result<
        (),
        AppError,
    >)
        ensures
            match r {
                Ok(_) => ({
                    let f = server_idx(old(self)@, name@);
                    let norm = stored_entry(server@);
                    f != -1 && final(self)@ == (if server@.name == name@ {
                        old(self)@.update(f, norm)
                    } else {
                        let removed = old(self)@.remove(f);
                        let g = server_idx(removed, server@.name);
                        if g == -1 {
                            removed.push(norm)
                        } else {
                            removed.update(g, norm)
                        }
                    })
                }),
                Err(e) => server_idx(old(self)@, name@) == -1 && final(self)@ == old(self)@ && e@
                    == AppErrorView::Other("MCP server '"@ + name@ + "' not found"@),
            },
    {
        let owned = name.to_owned();
        match index_of_name(&self.servers, &owned) {
            Some(f) => {
                let mut entry = server;
                entry.status = None;
                if entry.name == owned {
                    self.servers.remove(f);
                    self.servers.insert(f, entry);
                    proof {
                        assert(self@ =~= old(self)@.update(f as int, stored_entry(server@)));
                    }
                } else {
                    self.servers.remove(f);
                    let ghost removed = old(self)@.remove(f as int);
                    proof {
                        assert(self.servers.deep_view() =~= removed);
                    }
                    match index_of_name(&self.servers, &entry.name) {
                        Some(g) => {
                            self.servers.remove(g);
                            self.servers.insert(g, entry);
                            proof {
                                assert(server_idx(removed, server@.name) == g);
                                assert(self@ =~= removed.update(g as int, stored_entry(server@)));
                            }
                        },
                        None => {
                            self.servers.push(entry);
                            proof {
                                assert(self@ =~= removed.push(stored_entry(server@)));
                            }
                        },
                    }
                }
                Ok(())
            },
            None => Err(not_found_error(&owned)),
        }
    }

    /// Remove the entry stored under `name`; fails without effect when it is
    /// unknown.
    pub fn delete_server(&mut self, name: &str) -> (r: Result<(), AppError>)
        ensures
            match r {
                Ok(_) => server_idx(old(self)@, name@) != -1 && final(self)@ == old(self)@.remove(
                    server_idx(old(self)@, name@),
                ),
                Err(e) => server_idx(old(self)@, name@) == -1 && final(self)@ == old(self)@ && e@
                    == AppErrorView::Other("MCP server '"@ + name@ + "' not found"@),
            },
    {
        let owned = name.to_owned();
        match index_of_name(&self.servers, &owned) {
            Some(f) => {
                self.servers.remove(f);
                Ok(())
            },
            None => Err(not_found_error(&owned)),
        }
    }

    /// Enable or disable the entry stored under `name`; fails without effect
    /// when it is unknown.
    pub fn toggle_server(&mut self, name: &str, enabled: bool) -> (r: Result<(), AppError>)
        ensures
            match r {
                Ok(_) => ({
                    let f = server_idx(old(self)@, name@);
                    f != -1 && final(self)@ == old(self)@.update(
                        f,
                        McpServerConfigView { enabled, ..old(self)@[f] },
                    )
                }),
                Err(e) => server_idx(old(self)@, name@) == -1 && final(self)@ == old(self)@ && e@
                    == AppErrorView::Other("MCP server '"@ + name@ + "' not found"@),
            },
    {
        let owned = name.to_owned();
        match index_of_name(&self.servers, &owned) {
            Some(f) => {
                let mut entry = clone_server(&self.servers[f]);
                entry.enabled = enabled;
                self.servers.remove(f);
                self.servers.insert(f, entry);
                proof {
                    assert(self@ =~= old(self)@.update(
                        f as int,
                        McpServerConfigView { enabled, ..old(self)@[f as int] },
                    ));
                }
                Ok(())
            },
            None => Err(not_found_error(&owned)),
        }
    }
}

} // verus!
