//! Server settings: the built-in defaults, the overrides taken from the
//! environment, and the summary logged at start-up.
use vstd::prelude::*;
use vstd::string::{StrSliceExecFns, StringExecFns};
use vstd::utf8::encode_utf8;
use crate::protocol::{DEFAULT_PORT, DEFAULT_VOICE_PORT, MAX_ROOM_USERS};
use crate::text::{decimal, parse_unsigned, parse_unsigned_decimal, push_decimal};

verus! {

/// How many rooms the server keeps by default.
pub const DEFAULT_MAX_ROOMS: usize = 50;

/// The server's settings.
pub struct ServerConfig {
    pub bind_addr: String,
    pub tcp_port: u16,
    pub udp_port: u16,
    pub max_users_per_room: usize,
    pub max_rooms: usize,
    pub server_name: String,
}

/// The abstract value of the settings.
pub struct ServerConfigView {
    pub bind_addr: Seq<char>,
    pub tcp_port: u16,
    pub udp_port: u16,
    pub max_users_per_room: usize,
    pub max_rooms: usize,
    pub server_name: Seq<char>,
}

impl View for ServerConfig {
    type V = ServerConfigView;

    open spec fn view(&self) -> ServerConfigView {
        ServerConfigView {
            bind_addr: self.bind_addr@,
            tcp_port: self.tcp_port,
            udp_port: self.udp_port,
            max_users_per_room: self.max_users_per_room,
            max_rooms: self.max_rooms,
            server_name: self.server_name@,
        }
    }
}

/// The settings used when nothing overrides them.
pub open spec fn default_config() -> ServerConfigView {
    ServerConfigView {
        bind_addr: "0.0.0.0"@,
        tcp_port: DEFAULT_PORT,
        udp_port: DEFAULT_VOICE_PORT,
        max_users_per_room: MAX_ROOM_USERS,
        max_rooms: DEFAULT_MAX_ROOMS,
        server_name: "voicechat-server"@,
    }
}

impl Default for ServerConfig {
    fn default() -> (r: Self)
        ensures
            r@ == default_config(),
    {
        ServerConfig {
            bind_addr: String::from_str("0.0.0.0"),
            tcp_port: DEFAULT_PORT,
            udp_port: DEFAULT_VOICE_PORT,
            max_users_per_room: MAX_ROOM_USERS,
            max_rooms: DEFAULT_MAX_ROOMS,
            server_name: String::from_str("voicechat-server"),
        }
    }
}

/// The values of the environment variables that override the settings, each
/// `None` when the variable is unset: `BIND_ADDR`, `PORT`, `VOICE_PORT`,
/// `MAX_USERS`, `MAX_ROOMS` and `SERVER_NAME`.
pub struct EnvOverrides {
    pub bind_addr: Option<String>,
    pub port: Option<String>,
    pub voice_port: Option<String>,
    pub max_users: Option<String>,
    pub max_rooms: Option<String>,
    pub server_name: Option<String>,
}

/// The characters of an optional string.
pub open spec fn opt_view(o: Option<String>) -> Option<Seq<char>> {
    match o {
        Some(s) => Some(s@),
        None => None,
    }
}

/// A text setting after its override: the variable's value when it is set.
pub open spec fn text_override(current: Seq<char>, v: Option<Seq<char>>) -> Seq<char> {
    match v {
        Some(s) => s,
        None => current,
    }
}

/// A numeric setting after its override: the variable's value when it is set
/// and parses as an unsigned integer no larger than `max`; otherwise the
/// setting is kept.
pub open spec fn number_override(current: nat, v: Option<Seq<char>>, max: nat) -> nat {
    match v {
        Some(s) => match parse_unsigned(encode_utf8(s), max) {
            Some(n) => n,
            None => current,
        },
        None => current,
    }
}

/// The settings `c` after the overrides of `env`.
pub open spec fn with_env(c: ServerConfigView, env: EnvOverrides) -> ServerConfigView {
    ServerConfigView {
        bind_addr: text_override(c.bind_addr, opt_view(env.bind_addr)),
        tcp_port: number_override(c.tcp_port as nat, opt_view(env.port), u16::MAX as nat) as u16,
        udp_port: number_override(c.udp_port as nat, opt_view(env.voice_port), u16::MAX as nat) as u16,
        max_users_per_room: number_override(
            c.max_users_per_room as nat,
            opt_view(env.max_users),
            usize::MAX as nat,
        ) as usize,
        max_rooms: number_override(c.max_rooms as nat, opt_view(env.max_rooms), usize::MAX as nat) as usize,
        server_name: text_override(c.server_name, opt_view(env.server_name)),
    }
}

/// The lines of the settings summary.
pub open spec fn summary_lines(c: ServerConfigView) -> Seq<Seq<char>> {
    seq![
        "=== Server Configuration ==="@,
        "  server_name: "@ + c.server_name,
        "  bind_addr: "@ + c.bind_addr,
        "  tcp_port: "@ + decimal(c.tcp_port as nat),
        "  udp_port: "@ + decimal(c.udp_port as nat),
        "  max_users_per_room: "@ + decimal(c.max_users_per_room as nat),
        "  max_rooms: "@ + decimal(c.max_rooms as nat),
        "============================"@,
    ]
}

fn text_or(current: &String, v: &Option<String>) -> (r: String)
    ensures
        r@ == text_override(current@, opt_view(*v)),
{
    match v {
        Some(s) => s.clone(),
        None => current.clone(),
    }
}

fn number_or(current: u64, v: &Option<String>, max: u64) -> (r: u64)
    requires
        current <= max,
    ensures
        r <= max,
        r == number_override(current as nat, opt_view(*v), max as nat),
{
    match v {
        Some(s) => match parse_unsigned_decimal(s.as_str(), max) {
            Some(n) => n,
            None => current,
        },
        None => current,
    }
}

fn line_with_number(label: &str, n: u64) -> (r: String)
    ensures
        r@ == label@ + decimal(n as nat),
{
    let mut l = String::from_str(label);
    push_decimal(&mut l, n);
    l
}

fn line_with_text(label: &str, text: &str) -> (r: String)
    ensures
        r@ == label@ + text@,
{
    let mut l = String::from_str(label);
    l.append(text);
    l
}

impl ServerConfig {
    /// Applies the environment's overrides: a text variable replaces its
    /// setting; a numeric one replaces it only when it parses as an unsigned
    /// integer that fits the setting's type.
    pub fn apply_env(&mut self, env: &EnvOverrides)
        ensures
            final(self)@ == with_env(old(self)@, *env),
    {
        self.bind_addr = text_or(&self.bind_addr, &env.bind_addr);
        self.tcp_port = number_or(self.tcp_port as u64, &env.port, 65535) as u16;
        self.udp_port = number_or(self.udp_port as u64, &env.voice_port, 65535) as u16;
        self.max_users_per_room = number_or(
            self.max_users_per_room as u64,
            &env.max_users,
            usize::MAX as u64,
        ) as usize;
        self.max_rooms = number_or(self.max_rooms as u64, &env.max_rooms, usize::MAX as u64) as usize;
        self.server_name = text_or(&self.server_name, &env.server_name);
    }

    /// The settings in effect: those read from the configuration file (`None`
    /// when there is no file, or it cannot be read or parsed), else the
    /// defaults; then the environment's overrides.
    pub fn resolve(from_file: Option<ServerConfig>, env: &EnvOverrides) -> (r: ServerConfig)
        ensures
            r@ == with_env(
                match from_file {
                    Some(c) => c@,
                    None => default_config(),
                },
                *env,
            ),
    {
        let mut cfg = match from_file {
            Some(c) => c,
            None => ServerConfig::default(),
        };
        cfg.apply_env(env);
        cfg
    }

    /// The summary of the settings, one line each, as logged at start-up.
    pub fn log(&self) -> (r: Vec<String>)
        ensures
            r@.len() == 8,
            forall|i: int| 0 <= i < 8 ==> #[trigger] r@[i]@ == summary_lines(self@)[i],
    {
        let mut lines: Vec<String> = Vec::new();
        lines.push(String::from_str("=== Server Configuration ==="));
        lines.push(line_with_text("  server_name: ", self.server_name.as_str()));
        lines.push(line_with_text("  bind_addr: ", self.bind_addr.as_str()));
        lines.push(line_with_number("  tcp_port: ", self.tcp_port as u64));
        lines.push(line_with_number("  udp_port: ", self.udp_port as u64));
        lines.push(line_with_number("  max_users_per_room: ", self.max_users_per_room as u64));
        lines.push(line_with_number("  max_rooms: ", self.max_rooms as u64));
        lines.push(String::from_str("============================"));
        lines
    }
}

} // verus!
