//! Configuration data for the supervisor: per-service settings and the
//! daemon-wide mapping from service name to settings.
//!
//! The on-disk format is an external collaborator: an unverified loader
//! parses it and hands over plain values, which `TomlDecode::into_config`
//! completes with defaults.  Within the daemon the mapping is held as an
//! association list with pairwise-distinct names.

use vstd::prelude::*;

use crate::text::str_eq;

verus! {

/// How one service is launched and stopped.
pub struct ServerConfig {
    pub dir: String,
    pub command: String,
    pub args: Vec<String>,
    pub auto_restart: Option<bool>,
    pub on_stop: Vec<String>,
    pub stop_timeout: Option<u64>,
}

/// The mathematical value of a `ServerConfig`.
pub ghost struct ServerConfigV {
    pub dir: Seq<char>,
    pub command: Seq<char>,
    pub args: Seq<Seq<char>>,
    pub auto_restart: Option<bool>,
    pub on_stop: Seq<Seq<char>>,
    pub stop_timeout: Option<u64>,
}

impl View for ServerConfig {
    type V = ServerConfigV;

    open spec fn view(&self) -> ServerConfigV {
        ServerConfigV {
            dir: self.dir@,
            command: self.command@,
            args: self.args.deep_view(),
            auto_restart: self.auto_restart,
            on_stop: self.on_stop.deep_view(),
            stop_timeout: self.stop_timeout,
        }
    }
}

impl DeepView for ServerConfig {
    type V = ServerConfigV;

    open spec fn deep_view(&self) -> ServerConfigV {
        self@
    }
}

/// Clones a vector of strings, element for element.
pub fn clone_string_vec(v: &Vec<String>) -> (r: Vec<String>)
    ensures
        r@ == v@,
{
    let r = v.clone();
    proof {
        assert(forall|i: int| 0 <= i < v@.len() ==> r@[i] == v@[i]);
        assert(r@ =~= v@);
    }
    r
}

impl Clone for ServerConfig {
    /// Clones the configuration; the copy has the same value.
    fn clone(&self) -> (r: Self)
        ensures
            r@ == self@,
    {
        ServerConfig {
            dir: self.dir.clone(),
            command: self.command.clone(),
            args: clone_string_vec(&self.args),
            auto_restart: self.auto_restart,
            on_stop: clone_string_vec(&self.on_stop),
            stop_timeout: self.stop_timeout,
        }
    }
}

/// A name-to-configuration table, as a mathematical value.
pub type ConfigTable = Seq<(Seq<char>, ServerConfigV)>;

/// Whether `name` is bound in the table.
pub open spec fn table_has(t: ConfigTable, name: Seq<char>) -> bool {
    exists|i: int| 0 <= i < t.len() && t[i].0 == name
}

/// The configuration bound to `name` (meaningful when `table_has` holds
/// and the table is well formed).
pub open spec fn table_get(t: ConfigTable, name: Seq<char>) -> ServerConfigV {
    t[choose|i: int| 0 <= i < t.len() && t[i].0 == name].1
}

/// Names are pairwise distinct.
pub open spec fn table_wf(t: ConfigTable) -> bool {
    forall|i: int, j: int| 0 <= i < j < t.len() ==> t[i].0 != t[j].0
}

/// With pairwise-distinct names, any entry holding `name` is the
/// table's binding for it.
pub proof fn lemma_table_get(t: ConfigTable, name: Seq<char>, i: int)
    requires
        table_wf(t),
        0 <= i < t.len(),
        t[i].0 == name,
    ensures
        table_has(t, name),
        table_get(t, name) == t[i].1,
{
    assert(table_has(t, name));
    let k = choose|k: int| 0 <= k < t.len() && t[k].0 == name;
    if k < i {
        assert(t[k].0 != t[i].0);
    } else if k > i {
        assert(t[i].0 != t[k].0);
    }
}

/// The daemon-wide configuration: control-socket path, services to start
/// at boot, and the service table.
pub struct Config {
    pub socket_path: String,
    pub start_servers: Vec<String>,
    pub servers: Vec<(String, ServerConfig)>,
}

/// The mathematical value of a `Config`.
pub ghost struct ConfigV {
    pub socket_path: Seq<char>,
    pub start_servers: Seq<Seq<char>>,
    pub servers: ConfigTable,
}

impl View for Config {
    type V = ConfigV;

    open spec fn view(&self) -> ConfigV {
        ConfigV {
            socket_path: self.socket_path@,
            start_servers: self.start_servers.deep_view(),
            servers: self.servers.deep_view(),
        }
    }
}

impl Config {
    /// The service table as a mathematical value.
    pub open spec fn table(&self) -> ConfigTable {
        self.servers.deep_view()
    }

    /// Service names are pairwise distinct.
    pub open spec fn wf(&self) -> bool {
        table_wf(self.table())
    }

    /// Looks a service up by name.
    pub fn lookup(&self, name: &str) -> (r: Option<&ServerConfig>)
        ensures
            match r {
                Some(c) => table_has(self.table(), name@) && exists|i: int|
                    0 <= i < self.table().len() && self.table()[i].0 == name@ && c@
                        == self.table()[i].1,
                None => !table_has(self.table(), name@),
            },
    {
        match find_key(&self.servers, name) {
            Some(i) => {
                let c = &self.servers[i].1;
                proof {
                    assert(self.table()[i as int].0 == name@ && c@ == self.table()[i as int].1);
                }
                Some(c)
            },
            None => None,
        }
    }

    /// Checks that service names are pairwise distinct.
    pub fn check_wf(&self) -> (r: bool)
        ensures
            r == self.wf(),
    {
        let n = self.servers.len();
        let mut i: usize = 0;
        while i < n
            invariant
                n == self.servers.len(),
                i <= n,
                forall|p: int, q: int|
                    0 <= p < q < n && p < i ==> self.table()[p].0 != self.table()[q].0,
            decreases n - i,
        {
            let mut j = i + 1;
            while j < n
                invariant
                    n == self.servers.len(),
                    i < j <= n,
                    forall|q: int| i < q < j ==> self.table()[i as int].0 != self.table()[q].0,
                decreases n - j,
            {
                if str_eq(self.servers[i].0.as_str(), self.servers[j].0.as_str()) {
                    assert(self.table()[i as int].0 == self.table()[j as int].0);
                    return false;
                }
                j = j + 1;
            }
            i = i + 1;
        }
        true
    }
}

/// Finds the first entry of an association list with the given name.
pub fn find_key<T>(entries: &Vec<(String, T)>, name: &str) -> (r: Option<usize>)
    ensures
        match r {
            Some(i) => i < entries@.len() && entries@[i as int].0@ == name@,
            None => forall|i: int| 0 <= i < entries@.len() ==> entries@[i].0@ != name@,
        },
{
    let n = entries.len();
    let mut i: usize = 0;
    while i < n
        invariant
            n == entries@.len(),
            i <= n,
            forall|j: int| 0 <= j < i ==> entries@[j].0@ != name@,
        decreases n - i,
    {
        if str_eq(entries[i].0.as_str(), name) {
            return Some(i);
        }
        i = i + 1;
    }
    None
}

/// `s` wrapped in double quotes.
pub open spec fn quoted(s: Seq<char>) -> Seq<char> {
    "\""@ + s + "\""@
}

/// An argument list rendered with each argument quoted, comma-separated.
pub open spec fn args_list_text(args: Seq<Seq<char>>) -> Seq<char>
    decreases args.len(),
{
    if args.len() == 0 {
        Seq::empty()
    } else if args.len() == 1 {
        quoted(args[0])
    } else {
        args_list_text(args.drop_last()) + ", "@ + quoted(args.last())
    }
}

/// The listing of one service's configuration.
pub open spec fn config_text(c: ServerConfigV) -> Seq<char> {
    "directory: "@ + c.dir + "\ncommand: "@ + c.command + "\nargs: ["@ + args_list_text(c.args)
        + "]"@
}

impl ServerConfig {
    /// The listing of this configuration.
    pub fn describe(&self) -> (r: String)
        ensures
            r@ == config_text(self@),
    {
        let mut s = String::from_str("directory: ");
        s.append(self.dir.as_str());
        s.append("\ncommand: ");
        s.append(self.command.as_str());
        s.append("\nargs: [");
        let n = self.args.len();
        let mut i: usize = 0;
        while i < n
            invariant
                n == self.args@.len(),
                i <= n,
                s@ == "directory: "@ + self@.dir + "\ncommand: "@ + self@.command + "\nargs: ["@
                    + args_list_text(self@.args.take(i as int)),
            decreases n - i,
        {
            if i > 0 {
                s.append(", ");
            }
            s.append("\"");
            s.append(self.args[i].as_str());
            s.append("\"");
            proof {
                reveal_strlit(", ");
                let dv = self@.args;
                assert(dv.take(i as int + 1).drop_last() =~= dv.take(i as int));
                assert(dv.take(i as int + 1).last() == dv[i as int]);
                if i == 0 {
                    assert(dv.take(1)[0] == dv[0]);
                    assert(s@ =~= "directory: "@ + self@.dir + "\ncommand: "@ + self@.command
                        + "\nargs: ["@ + args_list_text(dv.take(i as int + 1)));
                } else {
                    assert(s@ =~= "directory: "@ + self@.dir + "\ncommand: "@ + self@.command
                        + "\nargs: ["@ + args_list_text(dv.take(i as int + 1)));
                }
            }
            i = i + 1;
        }
        s.append("]");
        proof {
            assert(self@.args.take(n as int) =~= self@.args);
            assert(s@ =~= config_text(self@));
        }
        s
    }
}

/// The control-socket path used when the configuration names none.
pub open spec fn default_socket_path() -> Seq<char> {
    "/tmp/shepherd.sock"@
}

/// Executable mirror of `default_socket_path`.
pub fn default_socket_path_str() -> (r: &'static str)
    ensures
        r@ == default_socket_path(),
{
    "/tmp/shepherd.sock"
}

/// The daemon-wide section of the external configuration, as handed over
/// by the unverified loader.
pub struct Shepherd {
    pub socket_path: Option<String>,
    pub start_servers: Vec<String>,
}

/// The external configuration as handed over by the unverified loader,
/// before defaults are applied.
pub struct TomlDecode {
    pub shepherd: Shepherd,
    pub servers: Vec<(String, ServerConfig)>,
}

impl TomlDecode {
    /// Completes the loaded configuration: a missing socket path falls
    /// back to the default.
    pub fn into_config(self) -> (r: Config)
        ensures
            r.socket_path@ == match self.shepherd.socket_path {
                Some(p) => p@,
                None => default_socket_path(),
            },
            r.start_servers == self.shepherd.start_servers,
            r.servers == self.servers,
    {
        let socket_path = match self.shepherd.socket_path {
            Some(p) => p,
            None => String::from_str(default_socket_path_str()),
        };
        Config { socket_path, start_servers: self.shepherd.start_servers, servers: self.servers }
    }
}

} // verus!
