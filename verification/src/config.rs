//! The saved configuration: the list of IRC servers to offer.
use vstd::prelude::*;

use crate::text::{copy_opt, copy_string, copy_strings, opt_view, strs_view};

verus! {

/// The whole configuration file.
#[derive(Debug, Clone)]
pub struct Config {
    pub servers: Vec<ServerConfig>,
}

/// One IRC server and the identity used on it.
#[derive(Debug, Clone)]
pub struct ServerConfig {
    pub name: String,
    pub host: String,
    pub port: u16,
    pub nick: String,
    pub user: Option<String>,
    pub realname: Option<String>,
    pub password: Option<String>,
    pub use_tls: bool,
    pub channels: Vec<String>,
}

/// The contents of a `ServerConfig`.
pub struct ServerConfigView {
    pub name: Seq<char>,
    pub host: Seq<char>,
    pub port: u16,
    pub nick: Seq<char>,
    pub user: Option<Seq<char>>,
    pub realname: Option<Seq<char>>,
    pub password: Option<Seq<char>>,
    pub use_tls: bool,
    pub channels: Seq<Seq<char>>,
}

impl View for ServerConfig {
    type V = ServerConfigView;

    open spec fn view(&self) -> ServerConfigView {
        ServerConfigView {
            name: self.name@,
            host: self.host@,
            port: self.port,
            nick: self.nick@,
            user: opt_view(self.user),
            realname: opt_view(self.realname),
            password: opt_view(self.password),
            use_tls: self.use_tls,
            channels: strs_view(self.channels@),
        }
    }
}

/// The contents of each server of a list.
pub open spec fn servers_view(v: Seq<ServerConfig>) -> Seq<ServerConfigView> {
    v.map_values(|s: ServerConfig| s@)
}

impl View for Config {
    type V = Seq<ServerConfigView>;

    open spec fn view(&self) -> Seq<ServerConfigView> {
        servers_view(self.servers@)
    }
}

/// The server that a fresh configuration offers.
pub open spec fn default_server() -> ServerConfigView {
    ServerConfigView {
        name: "Libera.Chat"@,
        host: "irc.libera.chat"@,
        port: 6697,
        nick: "cosmic-user"@,
        user: None,
        realname: None,
        password: None,
        use_tls: true,
        channels: seq!["#cosmic-chat"@],
    }
}

/// A server with every field empty, as the add-server dialog starts out.
pub open spec fn blank_server() -> ServerConfigView {
    ServerConfigView {
        name: seq![],
        host: seq![],
        port: 0,
        nick: seq![],
        user: None,
        realname: None,
        password: None,
        use_tls: false,
        channels: seq![],
    }
}

impl Default for Config {
    fn default() -> (c: Self)
        ensures
            c@ == seq![default_server()],
    {
        let mut channels: Vec<String> = Vec::new();
        channels.push("#cosmic-chat".to_owned());
        let server = ServerConfig {
            name: "Libera.Chat".to_owned(),
            host: "irc.libera.chat".to_owned(),
            port: 6697,
            nick: "cosmic-user".to_owned(),
            user: None,
            realname: None,
            password: None,
            use_tls: true,
            channels,
        };
        let mut servers: Vec<ServerConfig> = Vec::new();
        servers.push(server);
        let c = Config { servers };
        assert(strs_view(c.servers@[0].channels@) =~= seq!["#cosmic-chat"@]);
        assert(c@ =~= seq![default_server()]);
        c
    }
}

impl Default for ServerConfig {
    fn default() -> (s: Self)
        ensures
            s@ == blank_server(),
    {
        let s = ServerConfig {
            name: String::new(),
            host: String::new(),
            port: 0,
            nick: String::new(),
            user: None,
            realname: None,
            password: None,
            use_tls: false,
            channels: Vec::new(),
        };
        assert(strs_view(s.channels@) =~= Seq::<Seq<char>>::empty());
        s
    }
}

impl ServerConfig {
    /// A field-by-field copy.
    pub fn duplicate(&self) -> (r: ServerConfig)
        ensures
            r@ == self@,
    {
        ServerConfig {
            name: copy_string(&self.name),
            host: copy_string(&self.host),
            port: self.port,
            nick: copy_string(&self.nick),
            user: copy_opt(&self.user),
            realname: copy_opt(&self.realname),
            password: copy_opt(&self.password),
            use_tls: self.use_tls,
            channels: copy_strings(&self.channels),
        }
    }
}

/// `PathBuf::push` of a relative component on Unix: a `/` goes between the
/// two unless the base is empty or already ends with one.
pub open spec fn path_join(base: Seq<char>, part: Seq<char>) -> Seq<char> {
    if base.len() == 0 || base.last() == '/' {
        base + part
    } else {
        base + seq!['/'] + part
    }
}

/// The directory that holds the configuration directory, from the values of
/// `XDG_CONFIG_HOME` and `HOME` (`None` where a variable is unset).
pub open spec fn config_base(xdg: Option<Seq<char>>, home: Option<Seq<char>>) -> Seq<char> {
    match xdg {
        Some(p) => p,
        None => path_join(
            match home {
                Some(h) => h,
                None => "."@,
            },
            ".config"@,
        ),
    }
}

/// Where the configuration file lives.
pub open spec fn config_path_spec(xdg: Option<Seq<char>>, home: Option<Seq<char>>) -> Seq<char> {
    path_join(path_join(config_base(xdg, home), "cosmic-chat"@), "config.toml"@)
}

fn path_join_exec(base: String, part: &str) -> (r: String)
    ensures
        r@ == path_join(base@, part@),
{
    let mut r = base;
    let b = crate::text::chars_of(r.as_str());
    if b.len() > 0 && b[b.len() - 1] != '/' {
        crate::text::push_char(&mut r, '/');
    }
    r.append(part);
    r
}

impl Config {
    /// The path of the configuration file, given the values of the
    /// `XDG_CONFIG_HOME` and `HOME` environment variables.
    pub fn config_path_from(xdg: Option<String>, home: Option<String>) -> (p: String)
        ensures
            p@ == config_path_spec(opt_view(xdg), opt_view(home)),
    {
        let base = match xdg {
            Some(p) => p,
            None => {
                let h = match home {
                    Some(h) => h,
                    None => ".".to_owned(),
                };
                path_join_exec(h, ".config")
            },
        };
        let dir = path_join_exec(base, "cosmic-chat");
        path_join_exec(dir, "config.toml")
    }
}

} // verus!
