//! Server configuration: defaults, overrides of the command line, and live edits.
//!
//! The precedence is `defaults < configuration file < command line < live edits`. Addresses and
//! paths are carried as text; whoever opens them parses them.

use std::path::Path;

use vstd::prelude::*;

use crate::text;

verus! {

/// The view of a [`Config`].
pub ghost struct ConfigView {
    pub bind_addr: Seq<char>,
    pub default_room: Seq<char>,
    pub db_path: Seq<char>,
    pub data_dir: Seq<char>,
    pub allow_register: bool,
    pub force_account: bool,
    pub lock_server: bool,
    pub record_history: bool,
    pub cert_file: Option<Seq<char>>,
    pub key_file: Option<Seq<char>>,
    pub web_enabled: bool,
    pub web_addr: Seq<char>,
}

/// The configuration of a server.
#[derive(Debug, Clone, PartialEq, Eq)]
pub struct Config {
    /// The UDP/QUIC address to listen on.
    pub bind_addr: String,
    /// The room that every user joins at login.
    pub default_room: String,
    /// The path of the SQLite database file.
    pub db_path: String,
    /// The directory for run-time files.
    pub data_dir: String,
    /// Whether new users may register.
    pub allow_register: bool,
    /// Whether an account is needed (no guests).
    pub force_account: bool,
    /// Whether only administrators may log in.
    pub lock_server: bool,
    /// Whether the chat is recorded in the database.
    pub record_history: bool,
    /// The certificate chain (DER). Where a path is given and the file is missing, a certificate
    /// is made and written there, to be used again at the next start.
    pub cert_file: Option<String>,
    /// The private key (DER) that goes with `cert_file`.
    pub key_file: Option<String>,
    /// Whether the web interface is served.
    pub web_enabled: bool,
    /// The TCP address of the web interface.
    pub web_addr: String,
}

impl View for Config {
    type V = ConfigView;

    open spec fn view(&self) -> ConfigView {
        ConfigView {
            bind_addr: self.bind_addr@,
            default_room: self.default_room@,
            db_path: self.db_path@,
            data_dir: self.data_dir@,
            allow_register: self.allow_register,
            force_account: self.force_account,
            lock_server: self.lock_server,
            record_history: self.record_history,
            cert_file: text::opt_view(self.cert_file),
            key_file: text::opt_view(self.key_file),
            web_enabled: self.web_enabled,
            web_addr: self.web_addr@,
        }
    }
}

/// The view of [`Overrides`].
pub ghost struct OverridesView {
    pub bind: Option<Seq<char>>,
    pub default_room: Option<Seq<char>>,
    pub db: Option<Seq<char>>,
    pub cert: Option<Seq<char>>,
    pub key: Option<Seq<char>>,
    pub allow_register: Option<bool>,
    pub force_account: Option<bool>,
    pub lock_server: bool,
    pub record: bool,
    pub web: Option<bool>,
    pub web_addr: Option<Seq<char>>,
}

/// What the command line may override.
#[derive(Debug, Clone, PartialEq, Eq)]
pub struct Overrides {
    pub bind: Option<String>,
    pub default_room: Option<String>,
    pub db: Option<String>,
    pub cert: Option<String>,
    pub key: Option<String>,
    pub allow_register: Option<bool>,
    pub force_account: Option<bool>,
    /// A flag: it can lock the server, not unlock it.
    pub lock_server: bool,
    /// A flag: it can switch recording on, not off.
    pub record: bool,
    pub web: Option<bool>,
    pub web_addr: Option<String>,
}

impl View for Overrides {
    type V = OverridesView;

    open spec fn view(&self) -> OverridesView {
        OverridesView {
            bind: text::opt_view(self.bind),
            default_room: text::opt_view(self.default_room),
            db: text::opt_view(self.db),
            cert: text::opt_view(self.cert),
            key: text::opt_view(self.key),
            allow_register: self.allow_register,
            force_account: self.force_account,
            lock_server: self.lock_server,
            record: self.record,
            web: self.web,
            web_addr: text::opt_view(self.web_addr),
        }
    }
}

/// A value, or the one in its place.
pub open spec fn or_else<T>(first: Option<T>, second: T) -> T {
    match first {
        Some(value) => value,
        None => second,
    }
}

impl ConfigView {
    /// The defaults.
    pub open spec fn defaults() -> ConfigView {
        ConfigView {
            bind_addr: "127.0.0.1:8080"@,
            default_room: "Sinrana! Chatting Room"@,
            db_path: "server/data/sinrana.sqlite"@,
            data_dir: "server/data"@,
            allow_register: true,
            force_account: true,
            lock_server: false,
            record_history: false,
            cert_file: None,
            key_file: None,
            web_enabled: true,
            web_addr: "127.0.0.1:8090"@,
        }
    }

    /// The configuration with what the command line overrides.
    pub open spec fn overridden(self, o: OverridesView) -> ConfigView {
        ConfigView {
            bind_addr: or_else(o.bind, self.bind_addr),
            default_room: or_else(o.default_room, self.default_room),
            db_path: or_else(o.db, self.db_path),
            data_dir: self.data_dir,
            allow_register: or_else(o.allow_register, self.allow_register),
            force_account: or_else(o.force_account, self.force_account),
            lock_server: o.lock_server || self.lock_server,
            record_history: o.record || self.record_history,
            cert_file: if o.cert is Some {
                o.cert
            } else {
                self.cert_file
            },
            key_file: if o.key is Some {
                o.key
            } else {
                self.key_file
            },
            web_enabled: or_else(o.web, self.web_enabled),
            web_addr: or_else(o.web_addr, self.web_addr),
        }
    }

    /// The configuration with the fields of `incoming` that need no restart.
    pub open spec fn edited(self, incoming: ConfigView) -> ConfigView {
        ConfigView {
            default_room: incoming.default_room,
            allow_register: incoming.allow_register,
            force_account: incoming.force_account,
            lock_server: incoming.lock_server,
            record_history: incoming.record_history,
            web_enabled: incoming.web_enabled,
            ..self
        }
    }
}

impl ConfigView {
    /// The files of the certificate and its key, where both are named.
    pub open spec fn named_pair(self) -> Option<(Seq<char>, Seq<char>)> {
        match (self.cert_file, self.key_file) {
            (Some(cert), Some(key)) => Some((cert, key)),
            _ => None,
        }
    }
}

/// Where the certificate of the server comes from.
#[derive(Debug, Clone, PartialEq, Eq)]
pub enum CertSource {
    /// The pair of files, which is made where it is missing.
    Files { cert: String, key: String },
    /// A certificate that lives as long as the process.
    Fresh,
}

impl Default for Config {
    fn default() -> (cfg: Self)
        ensures
            cfg@ == ConfigView::defaults(),
    {
        Config {
            bind_addr: "127.0.0.1:8080".to_owned(),
            default_room: "Sinrana! Chatting Room".to_owned(),
            db_path: "server/data/sinrana.sqlite".to_owned(),
            data_dir: "server/data".to_owned(),
            allow_register: true,
            force_account: true,
            lock_server: false,
            record_history: false,
            cert_file: None,
            key_file: None,
            web_enabled: true,
            web_addr: "127.0.0.1:8090".to_owned(),
        }
    }
}

/// Another optional text with the same contents.
fn copy_option(item: &Option<String>) -> (copied: Option<String>)
    ensures
        text::opt_view(copied) == text::opt_view(*item),
{
    match item {
        Some(value) => Some(value.clone()),
        None => None,
    }
}

impl Config {
    /// Another configuration with the same contents.
    pub fn copy(&self) -> (cfg: Self)
        ensures
            cfg@ == self@,
    {
        Config {
            bind_addr: self.bind_addr.clone(),
            default_room: self.default_room.clone(),
            db_path: self.db_path.clone(),
            data_dir: self.data_dir.clone(),
            allow_register: self.allow_register,
            force_account: self.force_account,
            lock_server: self.lock_server,
            record_history: self.record_history,
            cert_file: copy_option(&self.cert_file),
            key_file: copy_option(&self.key_file),
            web_enabled: self.web_enabled,
            web_addr: self.web_addr.clone(),
        }
    }

    /// Puts what the command line gives over the configuration.
    pub fn apply_overrides(self, o: Overrides) -> (cfg: Self)
        ensures
            cfg@ == self@.overridden(o@),
    {
        Config {
            bind_addr: match o.bind {
                Some(value) => value,
                None => self.bind_addr,
            },
            default_room: match o.default_room {
                Some(value) => value,
                None => self.default_room,
            },
            db_path: match o.db {
                Some(value) => value,
                None => self.db_path,
            },
            data_dir: self.data_dir,
            allow_register: match o.allow_register {
                Some(value) => value,
                None => self.allow_register,
            },
            force_account: match o.force_account {
                Some(value) => value,
                None => self.force_account,
            },
            lock_server: o.lock_server || self.lock_server,
            record_history: o.record || self.record_history,
            cert_file: match o.cert {
                Some(value) => Some(value),
                None => self.cert_file,
            },
            key_file: match o.key {
                Some(value) => Some(value),
                None => self.key_file,
            },
            web_enabled: match o.web {
                Some(value) => value,
                None => self.web_enabled,
            },
            web_addr: match o.web_addr {
                Some(value) => value,
                None => self.web_addr,
            },
        }
    }

    /// Puts the data where the database is.
    pub fn settle_data_dir(&mut self)
        ensures
            exists|parent: Option<Seq<char>>| #[trigger]
                may_be_parent(old(self)@.db_path, parent) && final(self)@ == (ConfigView {
                    data_dir: data_dir(parent),
                    ..old(self)@
                }),
    {
        let parent = parent_of(self.db_path.as_str());
        assert(may_be_parent(self@.db_path, text::opt_view(parent)));
        self.set_data_dir(parent);
    }

    /// Puts the data into the directory that holds the database, or into the working directory
    /// where the path of the database names none.
    pub fn set_data_dir(&mut self, parent: Option<String>)
        ensures
            final(self)@ == (ConfigView { data_dir: data_dir(text::opt_view(parent)), ..old(self)@
            }),
    {
        self.data_dir = match parent {
            Some(dir) => dir,
            None => ".".to_owned(),
        };
    }

    /// Takes over the fields of `incoming` that need no restart, and leaves the others.
    pub fn apply_runtime(&mut self, incoming: &Config)
        ensures
            final(self)@ == old(self)@.edited(incoming@),
    {
        self.default_room = incoming.default_room.clone();
        self.allow_register = incoming.allow_register;
        self.force_account = incoming.force_account;
        self.lock_server = incoming.lock_server;
        self.record_history = incoming.record_history;
        self.web_enabled = incoming.web_enabled;
    }

    /// The fields that a live edit changes without a restart. All others need one.
    pub fn runtime_fields(&self) -> (fields: Vec<&'static str>)
        ensures
            text::views(fields@) == seq![
                "default_room"@,
                "allow_register"@,
                "force_account"@,
                "lock_server"@,
                "record_history"@,
                "web_enabled"@,
            ],
    {
        let fields = vec![
            "default_room",
            "allow_register",
            "force_account",
            "lock_server",
            "record_history",
            "web_enabled",
        ];
        assert(text::views(fields@) =~= seq![
            "default_room"@,
            "allow_register"@,
            "force_account"@,
            "lock_server"@,
            "record_history"@,
            "web_enabled"@,
        ]);
        fields
    }

    /// Where the certificate comes from: the files, where both are named.
    pub fn cert_source(&self) -> (source: CertSource)
        ensures
            match (self@.cert_file, self@.key_file) {
                (Some(cert_path), Some(key_path)) => source matches CertSource::Files { cert, key }
                    && cert@ == cert_path && key@ == key_path,
                _ => source is Fresh,
            },
            self@.named_pair() == match source {
                CertSource::Files { cert, key } => Some((cert@, key@)),
                CertSource::Fresh => None,
            },
    {
        match (&self.cert_file, &self.key_file) {
            (Some(cert), Some(key)) => CertSource::Files { cert: cert.clone(), key: key.clone() },
            _ => CertSource::Fresh,
        }
    }
}

/// A live edit wins in every field that needs no restart, whatever gave the field its value
/// before; it leaves every other field as it was, and applying it again changes nothing.
pub proof fn law_live_edit(cfg: ConfigView, incoming: ConfigView)
    ensures
        cfg.edited(incoming).default_room == incoming.default_room,
        cfg.edited(incoming).allow_register == incoming.allow_register,
        cfg.edited(incoming).force_account == incoming.force_account,
        cfg.edited(incoming).lock_server == incoming.lock_server,
        cfg.edited(incoming).record_history == incoming.record_history,
        cfg.edited(incoming).web_enabled == incoming.web_enabled,
        cfg.edited(incoming).bind_addr == cfg.bind_addr,
        cfg.edited(incoming).db_path == cfg.db_path,
        cfg.edited(incoming).data_dir == cfg.data_dir,
        cfg.edited(incoming).cert_file == cfg.cert_file,
        cfg.edited(incoming).key_file == cfg.key_file,
        cfg.edited(incoming).web_addr == cfg.web_addr,
        cfg.edited(incoming).edited(incoming) == cfg.edited(incoming),
{
}

/// The command line wins where it says something, and where it says nothing the configuration
/// below it stands.
pub proof fn law_command_line_wins(cfg: ConfigView, o: OverridesView)
    ensures
        o.bind matches Some(value) ==> cfg.overridden(o).bind_addr == value,
        o.default_room matches Some(value) ==> cfg.overridden(o).default_room == value,
        o.db matches Some(value) ==> cfg.overridden(o).db_path == value,
        o.cert is Some ==> cfg.overridden(o).cert_file == o.cert,
        o.key is Some ==> cfg.overridden(o).key_file == o.key,
        o.allow_register matches Some(value) ==> cfg.overridden(o).allow_register == value,
        o.force_account matches Some(value) ==> cfg.overridden(o).force_account == value,
        o.lock_server ==> cfg.overridden(o).lock_server,
        o.record ==> cfg.overridden(o).record_history,
        o.web matches Some(value) ==> cfg.overridden(o).web_enabled == value,
        o.web_addr matches Some(value) ==> cfg.overridden(o).web_addr == value,
        o.bind is None && o.default_room is None && o.db is None && o.cert is None && o.key is None
            && o.allow_register is None && o.force_account is None && !o.lock_server && !o.record
            && o.web is None && o.web_addr is None ==> cfg.overridden(o) == cfg,
        o.bind is None ==> cfg.overridden(o).bind_addr == cfg.bind_addr,
        o.default_room is None ==> cfg.overridden(o).default_room == cfg.default_room,
        o.db is None ==> cfg.overridden(o).db_path == cfg.db_path,
        o.cert is None ==> cfg.overridden(o).cert_file == cfg.cert_file,
        o.key is None ==> cfg.overridden(o).key_file == cfg.key_file,
        o.allow_register is None ==> cfg.overridden(o).allow_register == cfg.allow_register,
        o.force_account is None ==> cfg.overridden(o).force_account == cfg.force_account,
        !o.lock_server ==> cfg.overridden(o).lock_server == cfg.lock_server,
        !o.record ==> cfg.overridden(o).record_history == cfg.record_history,
        o.web is None ==> cfg.overridden(o).web_enabled == cfg.web_enabled,
        o.web_addr is None ==> cfg.overridden(o).web_addr == cfg.web_addr,
        cfg.overridden(o).data_dir == cfg.data_dir,
{
}

/// A file in a directory has its data in that directory, one without a directory in the working
/// directory of the process, and one at the root at the root.
pub proof fn law_data_is_beside_the_database(
    dir: Seq<char>,
    name: Seq<char>,
    parent: Option<Seq<char>>,
)
    requires
        plain_name(name),
    ensures
        plain_dir(dir) && may_be_parent(joined(dir, name), parent) ==> data_dir(parent) == dir,
        may_be_parent(name, parent) ==> data_dir(parent) == Seq::<char>::empty(),
        may_be_parent(joined(Seq::empty(), name), parent) ==> data_dir(parent) == seq!['/'],
        may_be_parent(Seq::empty(), parent) ==> data_dir(parent) == "."@,
{
}

/// Whether a text is one component of a path on every platform, and none that stands for another.
pub open spec fn plain_name(name: Seq<char>) -> bool {
    &&& name.len() > 0
    &&& name[0] != '.'
    &&& forall|i: int|
        0 <= i < name.len() ==> #[trigger] name[i] != '/' && name[i] != '\\' && name[i] != ':'
}

/// Whether a text is a path of components with one `/` between two of them, maybe with a `/`
/// before the first, on every platform.
pub open spec fn plain_dir(dir: Seq<char>) -> bool {
    &&& dir.len() > 0
    &&& dir.last() != '/' && dir.last() != '.'
    &&& forall|i: int| 0 <= i < dir.len() ==> #[trigger] dir[i] != '\\' && dir[i] != ':'
    &&& forall|i: int, j: int|
        0 <= i && j == i + 1 && j < dir.len() ==> !(#[trigger] dir[i] == '/' && #[trigger] dir[j]
            == '/')
}

/// The path of a file in a directory.
pub open spec fn joined(dir: Seq<char>, name: Seq<char>) -> Seq<char> {
    dir + seq!['/'] + name
}

/// What may be the directory of a path. The empty path has none, and neither has the root. A path
/// of one component has the empty one, and that of a file in a directory is the directory. Any
/// directory is a shorter beginning of the path.
pub open spec fn may_be_parent(path: Seq<char>, parent: Option<Seq<char>>) -> bool {
    &&& path.len() == 0 || path == seq!['/'] ==> parent is None
    &&& parent matches Some(dir) ==> dir.len() < path.len() && dir.is_prefix_of(path)
    &&& plain_name(path) ==> parent == Some(Seq::<char>::empty())
    &&& forall|dir: Seq<char>, name: Seq<char>|
        plain_name(name) && path == #[trigger] joined(dir, name) ==> {
            &&& plain_dir(dir) ==> parent == Some(dir)
            &&& dir.len() == 0 ==> parent == Some(seq!['/'])
        }
}

/// Where the data is, given the directory of the database.
pub open spec fn data_dir(parent: Option<Seq<char>>) -> Seq<char> {
    match parent {
        Some(dir) => dir,
        None => "."@,
    }
}

/// Calls `std::path::Path::parent` on a path, and takes the outcome as a text: the path without
/// its final component, which is empty for a relative path of one component; nothing for the
/// empty path and for the root. `/` separates components on Unix and on Windows, which is where
/// the program runs. What other characters mean depends on the platform, so of a path with a
/// backslash or a colon, and of one that std takes apart in another way than it is written
/// (`//`, a component `.`), only that the outcome is a shorter beginning of the path is said.
#[verifier::external_body]
fn parent_of(path: &str) -> (parent: Option<String>)
    ensures
        may_be_parent(path@, text::opt_view(parent)),
{
    Path::new(path).parent().map(|dir| dir.display().to_string())
}

/// A pair of files is used exactly where both are named, and it is the two that are named, wherever
/// each of the names comes from.
pub proof fn law_pair_needs_both_names(
    cfg: ConfigView,
    o: OverridesView,
    cert: Seq<char>,
    key: Seq<char>,
)
    ensures
        cfg.named_pair() == Some((cert, key)) <==> cfg.cert_file == Some(cert) && cfg.key_file
            == Some(key),
        cfg.named_pair() is None <==> cfg.cert_file is None || cfg.key_file is None,
        o.cert == Some(cert) && o.key == Some(key) ==> cfg.overridden(o).named_pair() == Some(
            (cert, key),
        ),
        o.cert == Some(cert) && o.key is None && cfg.key_file == Some(key) ==> cfg.overridden(
            o,
        ).named_pair() == Some((cert, key)),
{
}

/// The defaults fit together: the data is beside the database, everybody may register and nobody
/// is locked out, and no certificate is named.
pub proof fn law_defaults_fit()
    ensures
        joined(ConfigView::defaults().data_dir, "sinrana.sqlite"@)
            == ConfigView::defaults().db_path,
        ConfigView::defaults().allow_register,
        ConfigView::defaults().force_account,
        ConfigView::defaults().web_enabled,
        !ConfigView::defaults().lock_server,
        !ConfigView::defaults().record_history,
        ConfigView::defaults().named_pair() is None,
{
    reveal_strlit("server/data");
    reveal_strlit("sinrana.sqlite");
    reveal_strlit("server/data/sinrana.sqlite");
    assert("server/data/sinrana.sqlite"@ =~= joined("server/data"@, "sinrana.sqlite"@));
}

} // verus!
