//! The action table: an ordered, index-addressable sequence of configured
//! actions, each a display title and a shell command, built once from the
//! externally parsed configuration and immutable afterwards.

use vstd::prelude::*;
use vstd::string::StrSliceExecFns;
use vstd::utf8::encode_utf8;

verus! {

/// One configuration entry as the outside parser hands it in: either a bare
/// command string, or a command with an optional display name.
#[derive(Clone, Debug)]
pub enum RawAction {
    /// Just a command; the display title defaults to the entry's key.
    Plain(String),
    /// A command with an optional explicit display name.
    Verbose {
        /// The shell command to launch.
        command: String,
        /// The display name; when absent the entry's key is the title.
        name: Option<String>,
    },
}

/// A resolved action: the display title shown to clients and the shell
/// command launched when the action is selected.
#[derive(Clone, Debug)]
pub struct Action {
    /// The display title.
    pub name: String,
    /// The shell command.
    pub command: String,
}

/// The display title a raw entry resolves to: its explicit name when one was
/// configured, else the entry's key.
pub open spec fn spec_title(key: Seq<char>, raw: RawAction) -> Seq<char> {
    match raw {
        RawAction::Verbose { name: Some(n), .. } => n@,
        _ => key,
    }
}

/// The command a raw entry carries.
pub open spec fn spec_command(raw: RawAction) -> Seq<char> {
    match raw {
        RawAction::Plain(c) => c@,
        RawAction::Verbose { command, .. } => command@,
    }
}

impl Action {
    /// Resolve one raw entry against its key — the second phase of the
    /// configuration pipeline. Total: a missing display name falls back to
    /// the key, so every raw entry resolves.
    pub fn resolve(key: &String, raw: &RawAction) -> (r: Action)
        ensures
            r.name@ == spec_title(key@, *raw),
            r.command@ == spec_command(*raw),
    {
        match raw {
            RawAction::Plain(command) => Action { name: key.clone(), command: command.clone() },
            RawAction::Verbose { command, name: Some(name) } => Action {
                name: name.clone(),
                command: command.clone(),
            },
            RawAction::Verbose { command, name: None } => Action {
                name: key.clone(),
                command: command.clone(),
            },
        }
    }
}

/// Why a configuration was rejected at startup.
#[derive(Clone, Copy, Debug, PartialEq, Eq, Structural)]
pub enum ConfigError {
    /// The action table is empty; the server would have nothing to select.
    NoActions,
    /// Some action's title does not fit a `ReStatus` reply (over 255 bytes
    /// of UTF-8).
    TitleTooLong,
    /// Two entries share a key.
    DuplicateKey,
}

/// Every entry's resolved title fits behind the one length byte of a
/// `ReStatus` reply: at most 255 bytes of UTF-8.
pub open spec fn titles_fit(actions: Seq<(String, RawAction)>) -> bool {
    forall|i: int|
        0 <= i < actions.len() ==> #[trigger] encode_utf8(
            spec_title(actions[i].0@, actions[i].1),
        ).len() <= 255
}

/// No two entries share a key.
pub open spec fn keys_unique(actions: Seq<(String, RawAction)>) -> bool {
    forall|i: int, j: int| 0 <= i < j < actions.len() ==> actions[i].0@ != actions[j].0@
}

/// The server's configuration: the socket path, whether a stale socket file
/// is removed before binding, and the ordered action table, addressed by
/// zero-based position.
pub struct Config {
    /// Filesystem path of the listening socket.
    pub socket: String,
    /// Remove an existing socket file before binding.
    pub remove_socket_if_exists: bool,
    /// Key and entry, in configuration order.
    pub actions: Vec<(String, RawAction)>,
}

impl Config {
    /// How many actions are configured.
    pub open spec fn count(self) -> nat {
        self.actions@.len()
    }

    /// The key of the entry at `i`.
    pub open spec fn key_at(self, i: int) -> Seq<char> {
        self.actions@[i].0@
    }

    /// The display title of the entry at `i`.
    pub open spec fn title_at(self, i: int) -> Seq<char> {
        spec_title(self.actions@[i].0@, self.actions@[i].1)
    }

    /// The UTF-8 bytes of the title at `i` — what a `ReStatus` reply carries.
    pub open spec fn title_bytes_at(self, i: int) -> Seq<u8> {
        encode_utf8(self.title_at(i))
    }

    /// The command of the entry at `i`.
    pub open spec fn command_at(self, i: int) -> Seq<char> {
        spec_command(self.actions@[i].1)
    }

    /// Well formed: at least one action (an empty table is a configuration
    /// error, not a runtime state), every title fits a `ReStatus` reply, and
    /// keys are unique, as an ordered map guarantees.
    pub open spec fn wf(self) -> bool {
        &&& self.count() >= 1
        &&& titles_fit(self.actions@)
        &&& keys_unique(self.actions@)
    }

    /// Title of the action at `v`. The table does not bounds-check: callers
    /// must establish `v < count` themselves.
    pub fn get_action_title(&self, v: usize) -> (r: &str)
        requires
            v < self.count(),
        ensures
            r@ == self.title_at(v as int),
    {
        let entry = &self.actions[v];
        match &entry.1 {
            RawAction::Verbose { name: Some(n), .. } => n.as_str(),
            _ => entry.0.as_str(),
        }
    }

    /// UTF-8 bytes of the title at `v`, ready to travel in a `ReStatus`
    /// reply. Same caller obligation as `get_action_title`.
    pub fn get_action_title_bytes(&self, v: usize) -> (r: Vec<u8>)
        requires
            v < self.count(),
        ensures
            r@ == self.title_bytes_at(v as int),
    {
        self.get_action_title(v).as_bytes_vec()
    }

    /// Command of the action at `v`. Same caller obligation as
    /// `get_action_title`.
    pub fn get_action_command(&self, v: usize) -> (r: &str)
        requires
            v < self.count(),
        ensures
            r@ == self.command_at(v as int),
    {
        let entry = &self.actions[v];
        match &entry.1 {
            RawAction::Plain(command) => command.as_str(),
            RawAction::Verbose { command, .. } => command.as_str(),
        }
    }

    /// Build a configuration from externally parsed values, rejecting what
    /// the server could not run against: an empty table, a title too long
    /// for a reply, a duplicated key. On success the result is well formed
    /// and carries the inputs unchanged.
    pub fn new(socket: String, remove_socket_if_exists: bool, actions: Vec<(String, RawAction)>)
        -> (r: Result<Config, ConfigError>)
        ensures
            r is Ok <==> (actions@.len() >= 1 && titles_fit(actions@) && keys_unique(actions@)),
            r matches Ok(c) ==> {
                &&& c.wf()
                &&& c.socket@ == socket@
                &&& c.remove_socket_if_exists == remove_socket_if_exists
                &&& c.actions@ == actions@
            },
            r matches Err(ConfigError::NoActions) <==> actions@.len() == 0,
            r matches Err(ConfigError::TitleTooLong) <==> (actions@.len() >= 1 && !titles_fit(
                actions@,
            )),
            r matches Err(ConfigError::DuplicateKey) <==> (actions@.len() >= 1 && titles_fit(
                actions@,
            ) && !keys_unique(actions@)),
    {
        if actions.len() == 0 {
            return Err(ConfigError::NoActions);
        }
        let c = Config { socket, remove_socket_if_exists, actions };
        let mut i: usize = 0;
        while i < c.actions.len()
            invariant
                c.actions@ == actions@,
                i <= c.count(),
                forall|k: int|
                    0 <= k < i ==> #[trigger] encode_utf8(
                        spec_title(actions@[k].0@, actions@[k].1),
                    ).len() <= 255,
            decreases c.count() - i,
        {
            let title = c.get_action_title_bytes(i);
            if title.len() > 255 {
                proof {
                    assert(encode_utf8(spec_title(actions@[i as int].0@, actions@[i as int].1)).len()
                        > 255);
                }
                return Err(ConfigError::TitleTooLong);
            }
            proof {
                assert(encode_utf8(spec_title(actions@[i as int].0@, actions@[i as int].1)).len()
                    <= 255);
            }
            i += 1;
        }
        assert(titles_fit(actions@));
        let mut i: usize = 0;
        while i < c.actions.len()
            invariant
                c.actions@ == actions@,
                actions@.len() >= 1,
                titles_fit(actions@),
                i <= c.count(),
                forall|k: int, l: int|
                    0 <= k < l < actions@.len() && k < i ==> actions@[k].0@ != actions@[l].0@,
            decreases c.count() - i,
        {
            let mut j: usize = i + 1;
            while j < c.actions.len()
                invariant
                    c.actions@ == actions@,
                    actions@.len() >= 1,
                    titles_fit(actions@),
                    i < j <= c.count(),
                    forall|l: int| i < l < j ==> actions@[i as int].0@ != actions@[l].0@,
                decreases c.count() - j,
            {
                if c.actions[i].0 == c.actions[j].0 {
                    proof {
                        assert(actions@[i as int].0@ == actions@[j as int].0@);
                        assert(!keys_unique(actions@));
                    }
                    return Err(ConfigError::DuplicateKey);
                }
                j += 1;
            }
            i += 1;
        }
        assert(keys_unique(actions@));
        Ok(c)
    }
}

} // verus!
