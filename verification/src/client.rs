//! The client's decisions: the login form check, the roster and chat log of
//! the connected screen, the audio switches, and the reconnection schedule.
use vstd::prelude::*;
use vstd::string::{StringExecFns, StringSliceAdditionalSpecFns};
use vstd::utf8::encode_utf8;
use crate::chat::{decode_chat_text, encode_chat_text, key_view, outgoing_text, shown_text};
use crate::crypto::{argon2id_key, base64_text, derive_key, salt_bytes, sealable, xchacha20poly1305_seal};
use crate::devices::DeviceInfo;
use crate::protocol::ServerMessage;
use crate::text::{str_equal, trim, trimmed};

verus! {

/// A line of the chat log.
pub struct ChatMsg {
    pub from: String,
    pub text: String,
}

/// The abstract value of a chat line: sender and text.
pub open spec fn line_view(m: ChatMsg) -> (Seq<char>, Seq<char>) {
    (m.from@, m.text@)
}

/// The abstract value of a list of names.
pub open spec fn names_view(s: Seq<String>) -> Seq<Seq<char>> {
    s.map_values(|x: String| x@)
}

/// The abstract value of a chat log.
pub open spec fn log_view(s: Seq<ChatMsg>) -> Seq<(Seq<char>, Seq<char>)> {
    s.map_values(|m: ChatMsg| line_view(m))
}

/// The name under which the client's own notices appear.
pub open spec fn system_name() -> Seq<char> {
    "system"@
}

/// The roster and chat log of a joined room.
pub struct ChatRoom {
    pub users: Vec<String>,
    pub messages: Vec<ChatMsg>,
}

/// Why the login form cannot be submitted.
pub open spec fn login_error_text() -> Seq<char> {
    "username required"@
}

/// Checks the login form: the user name without surrounding white space, or
/// the error shown when that leaves nothing.
pub fn validate_username(username: &str) -> (r: Result<String, String>)
    ensures
        trimmed(username@).len() == 0 ==> r is Err && r->Err_0@ == login_error_text(),
        trimmed(username@).len() > 0 ==> r is Ok && r->Ok_0@ == trimmed(username@),
{
    let t = trim(username);
    if t.as_str().is_empty() {
        Err(String::from_str("username required"))
    } else {
        Ok(t)
    }
}

/// Whether `names` holds `name`.
fn contains_name(names: &Vec<String>, name: &str) -> (r: bool)
    ensures
        r == names_view(names@).contains(name@),
{
    let mut i: usize = 0;
    while i < names.len()
        invariant
            0 <= i <= names@.len(),
            forall|j: int| 0 <= j < i ==> names@[j]@ != name@,
        decreases names@.len() - i,
    {
        if str_equal(names[i].as_str(), name) {
            assert(names_view(names@)[i as int] == name@);
            return true;
        }
        i = i + 1;
    }
    proof {
        if names_view(names@).contains(name@) {
            let j = choose|j: int| 0 <= j < names_view(names@).len() && names_view(names@)[j] == name@;
            assert(names@[j]@ == name@);
        }
    }
    false
}

/// `names` with `name` added at the end when it is not there yet.
pub open spec fn with_name(names: Seq<Seq<char>>, name: Seq<char>) -> Seq<Seq<char>> {
    if names.contains(name) {
        names
    } else {
        names.push(name)
    }
}

/// `names` without every occurrence of `name`.
pub open spec fn without_name(names: Seq<Seq<char>>, name: Seq<char>) -> Seq<Seq<char>> {
    names.filter(|x: Seq<char>| x != name)
}

/// The chat log after a server message (see [`ChatRoom::on_server_message`]).
pub open spec fn roster_after(users: Seq<Seq<char>>, msg: ServerMessage) -> Seq<Seq<char>> {
    match msg {
        ServerMessage::UserJoined { username } => with_name(users, username@),
        ServerMessage::UserLeft { username } => without_name(users, username@),
        _ => users,
    }
}

/// The line a server message adds to the chat log, if any.
pub open spec fn line_for(key: Option<Seq<u8>>, msg: ServerMessage) -> Option<(Seq<char>, Seq<char>)> {
    match msg {
        ServerMessage::Chat { from, text, .. } => Some((from@, shown_text(key, text@))),
        ServerMessage::UserJoined { username } => Some((system_name(), username@ + " joined"@)),
        ServerMessage::UserLeft { username } => Some((system_name(), username@ + " left"@)),
        _ => None,
    }
}

impl ChatRoom {
    /// The screen right after joining: the room's members with the user added
    /// when the server did not list it, and a notice when this was a
    /// reconnection.
    pub fn joined(users: Vec<String>, username: &str, is_reconnect: bool) -> (r: Self)
        ensures
            names_view(r.users@) == with_name(names_view(users@), username@),
            is_reconnect ==> log_view(r.messages@) == seq![(system_name(), "Reconnected!"@)],
            !is_reconnect ==> r.messages@.len() == 0,
    {
        let mut users = users;
        let ghost u0 = users@;
        if !contains_name(&users, username) {
            users.push(String::from_str(username));
            assert(names_view(users@) =~= names_view(u0).push(username@));
        }
        let mut messages: Vec<ChatMsg> = Vec::new();
        if is_reconnect {
            messages.push(ChatMsg { from: String::from_str("system"), text: String::from_str("Reconnected!") });
            assert(log_view(messages@) =~= seq![(system_name(), "Reconnected!"@)]);
        }
        ChatRoom { users, messages }
    }

    /// Sends what was typed: nothing happens for blank input; otherwise the
    /// trimmed text is added to the log under the user's name and what goes on
    /// the wire is returned (see [`encode_chat_text`]).
    pub fn send(&mut self, username: &str, input: &str, key: Option<&[u8; 32]>) -> (r: Option<String>)
        requires
            input.spec_bytes().len() + 40 <= usize::MAX / 2,
        ensures
            final(self).users@ == old(self).users@,
            trimmed(input@).len() == 0 ==> r is None && final(self).messages@ == old(self).messages@,
            trimmed(input@).len() > 0 ==> r is Some && log_view(final(self).messages@) == log_view(
                old(self).messages@,
            ).push((username@, trimmed(input@))),
            key is None && trimmed(input@).len() > 0 ==> r.unwrap()@ == trimmed(input@),
            key is Some && trimmed(input@).len() > 0 ==> {
                let b = encode_utf8(trimmed(input@));
                &&& sealable(b.len()) ==> exists|d: Seq<u8>|
                    d.len() == b.len() + 40 && d == d.take(24) + #[trigger] xchacha20poly1305_seal(
                        key.unwrap()@,
                        d.take(24),
                        b,
                    ) && r.unwrap()@ == base64_text(d)
                &&& !sealable(b.len()) ==> r.unwrap()@ == trimmed(input@)
            },
    {
        match outgoing_text(input) {
            None => None,
            Some(text) => {
                let wire = encode_chat_text(key, text.as_str());
                let ghost m0 = self.messages@;
                self.messages.push(ChatMsg { from: String::from_str(username), text });
                assert(log_view(self.messages@) =~= log_view(m0).push((username@, trimmed(input@))));
                Some(wire)
            },
        }
    }

    /// Applies a message from the server: a chat line is shown (opened with
    /// the room key when there is one); a member who joins is added to the
    /// roster unless listed and announced; a member who leaves is taken off the
    /// roster and announced; other messages change nothing.
    pub fn on_server_message(&mut self, msg: ServerMessage, key: Option<&[u8; 32]>)
        ensures
            names_view(final(self).users@) == roster_after(names_view(old(self).users@), msg),
            log_view(final(self).messages@) == match line_for(key_view(key), msg) {
                Some(l) => log_view(old(self).messages@).push(l),
                None => log_view(old(self).messages@),
            },
    {
        let ghost m0 = self.messages@;
        let ghost u0 = self.users@;
        match msg {
            ServerMessage::Chat { from, text, .. } => {
                let shown = decode_chat_text(key, text.as_str());
                self.messages.push(ChatMsg { from, text: shown });
                assert(log_view(self.messages@) =~= log_view(m0).push(line_for(key_view(key), msg).unwrap()));
            },
            ServerMessage::UserJoined { username } => {
                if !contains_name(&self.users, username.as_str()) {
                    self.users.push(username.clone());
                    assert(names_view(self.users@) =~= names_view(u0).push(username@));
                }
                let mut t = username.clone();
                t.append(" joined");
                self.messages.push(ChatMsg { from: String::from_str("system"), text: t });
                assert(log_view(self.messages@) =~= log_view(m0).push(line_for(key_view(key), msg).unwrap()));
            },
            ServerMessage::UserLeft { username } => {
                self.remove_user(username.as_str());
                let mut t = username.clone();
                t.append(" left");
                self.messages.push(ChatMsg { from: String::from_str("system"), text: t });
                assert(log_view(self.messages@) =~= log_view(m0).push(line_for(key_view(key), msg).unwrap()));
            },
            _ => {},
        }
    }

    /// Notes in the log that reconnecting was given up.
    pub fn note_gave_up(&mut self)
        ensures
            final(self).users@ == old(self).users@,
            log_view(final(self).messages@) == log_view(old(self).messages@).push(
                (system_name(), "Reconnection failed. Returning to login..."@),
            ),
    {
        let ghost m0 = self.messages@;
        self.messages.push(
            ChatMsg {
                from: String::from_str("system"),
                text: String::from_str("Reconnection failed. Returning to login..."),
            },
        );
        assert(log_view(self.messages@) =~= log_view(m0).push(
            (system_name(), "Reconnection failed. Returning to login..."@),
        ));
    }

    /// Takes every occurrence of `name` off the roster.
    fn remove_user(&mut self, name: &str)
        ensures
            names_view(final(self).users@) == without_name(names_view(old(self).users@), name@),
            final(self).messages@ == old(self).messages@,
    {
        let ghost u0 = names_view(self.users@);
        let mut kept: Vec<String> = Vec::new();
        let n = self.users.len();
        let mut i: usize = 0;
        while i < n
            invariant
                0 <= i <= n,
                n == self.users@.len(),
                u0 == names_view(self.users@),
                names_view(kept@) == u0.take(i as int).filter(|x: Seq<char>| x != name@),
            decreases n - i,
        {
            assert(u0.take(i as int + 1).drop_last() =~= u0.take(i as int));
            reveal_with_fuel(Seq::<_>::filter, 1);
            if !str_equal(self.users[i].as_str(), name) {
                let ghost k0 = kept@;
                kept.push(self.users[i].clone());
                assert(names_view(kept@) =~= names_view(k0).push(u0[i as int]));
            }
            i = i + 1;
        }
        assert(u0.take(n as int) =~= u0);
        self.users = kept;
    }
}


/// What the login form asks the connection to do.
pub struct ConnectRequest {
    /// The server's address, as typed.
    pub server_addr: String,
    pub username: String,
    pub room: String,
    /// The room password to send; `None` when the field is empty.
    pub password: Option<String>,
    /// The chosen input device (`None` for the system default).
    pub input_device: Option<usize>,
    /// The chosen output device (`None` for the system default).
    pub output_device: Option<usize>,
}

/// The device behind entry `selected` of a device list: its index, or the
/// system default when the entry is the default or does not exist.
pub open spec fn chosen_device(devices: Seq<DeviceInfo>, selected: usize) -> Option<usize> {
    if selected < devices.len() {
        devices[selected as int].index
    } else {
        None
    }
}

fn device_at(devices: &Vec<DeviceInfo>, selected: usize) -> (r: Option<usize>)
    ensures
        r == chosen_device(devices@, selected),
{
    if selected < devices.len() {
        devices[selected].index
    } else {
        None
    }
}

/// Submits the login form: refused with the form's error when the user name
/// is blank; otherwise the server address as typed, the trimmed user name and
/// room, the password when one was typed, and the chosen devices.
pub fn login_request(
    server_addr: &str,
    username: &str,
    room: &str,
    password: &str,
    inputs: &Vec<DeviceInfo>,
    selected_input: usize,
    outputs: &Vec<DeviceInfo>,
    selected_output: usize,
) -> (r: Result<ConnectRequest, String>)
    ensures
        trimmed(username@).len() == 0 ==> (r matches Err(e) && e@ == login_error_text()),
        trimmed(username@).len() > 0 ==> (r matches Ok(q) && {
            &&& q.server_addr@ == server_addr@
            &&& q.username@ == trimmed(username@)
            &&& q.room@ == trimmed(room@)
            &&& (password@.len() == 0 ==> q.password is None)
            &&& (password@.len() > 0 ==> (q.password matches Some(p) && p@ == password@))
            &&& q.input_device == chosen_device(inputs@, selected_input)
            &&& q.output_device == chosen_device(outputs@, selected_output)
        }),
{
    match validate_username(username) {
        Err(e) => Err(e),
        Ok(user) => {
            let pw = if password.is_empty() {
                None
            } else {
                Some(String::from_str(password))
            };
            Ok(
                ConnectRequest {
                    server_addr: String::from_str(server_addr),
                    username: user,
                    room: trim(room),
                    password: pw,
                    input_device: device_at(inputs, selected_input),
                    output_device: device_at(outputs, selected_output),
                },
            )
        },
    }
}

/// The reply shown when the server answers a join with anything but the
/// room's state or an error.
pub open spec fn unexpected_reply_text() -> Seq<char> {
    "unexpected server response"@
}

/// What the first reply to a join means: the room's name and members, or the
/// error to show on the login form.
pub fn join_outcome(first: Option<ServerMessage>) -> (r: Result<(String, Vec<String>), String>)
    ensures
        match first {
            Some(ServerMessage::RoomState { room, users }) => r matches Ok((g, u)) && g@ == room@
                && names_view(u@) == names_view(users@),
            Some(ServerMessage::Error { message }) => r matches Err(m) && m@ == message@,
            _ => r matches Err(m) && m@ == unexpected_reply_text(),
        },
{
    match first {
        Some(ServerMessage::RoomState { room, users }) => Ok((room, users)),
        Some(ServerMessage::Error { message }) => Err(message),
        _ => Err(String::from_str("unexpected server response")),
    }
}

/// The key that encrypts the room's chat: derived from the room password, or
/// none when there is no password or it is empty.
pub fn room_key(password: Option<&str>) -> (r: Option<[u8; 32]>)
    requires
        password matches Some(p) ==> p.spec_bytes().len() <= 0xFFFF_FFFF,
    ensures
        (password matches Some(p) && p@.len() > 0) ==> (r matches Some(k) && k@ == argon2id_key(
            password.unwrap().spec_bytes(),
            salt_bytes(),
        )),
        !(password matches Some(p) && p@.len() > 0) ==> r is None,
{
    match password {
        Some(p) => if p.is_empty() {
            None
        } else {
            Some(derive_key(p))
        },
        None => None,
    }
}

/// The audio switches of the connected screen.
#[derive(Debug, Clone, Copy, PartialEq, Eq, Structural)]
pub struct AudioSwitches {
    pub muted: bool,
    pub deafened: bool,
    pub loopback: bool,
    pub open_mic: bool,
    pub noise_suppression: bool,
    pub noise_gate: bool,
}

impl AudioSwitches {
    /// Flips the microphone mute.
    pub fn toggle_mute(&mut self)
        ensures
            *final(self) == (AudioSwitches { muted: !old(self).muted, ..*old(self) }),
    {
        self.muted = !self.muted;
    }

    /// Flips deafening; deafening also mutes.
    pub fn toggle_deafen(&mut self)
        ensures
            final(self).deafened == !old(self).deafened,
            final(self).muted == (old(self).muted || final(self).deafened),
            *final(self) == (AudioSwitches {
                muted: final(self).muted,
                deafened: final(self).deafened,
                ..*old(self)
            }),
    {
        self.deafened = !self.deafened;
        if self.deafened {
            self.muted = true;
        }
    }

    /// Flips the microphone test: switching it on mutes and deafens, switching
    /// it off unmutes and undeafens.
    pub fn toggle_loopback(&mut self)
        ensures
            final(self).loopback == !old(self).loopback,
            final(self).muted == final(self).loopback,
            final(self).deafened == final(self).loopback,
            final(self).open_mic == old(self).open_mic,
            final(self).noise_suppression == old(self).noise_suppression,
            final(self).noise_gate == old(self).noise_gate,
    {
        self.loopback = !self.loopback;
        self.muted = self.loopback;
        self.deafened = self.loopback;
    }

    /// Flips between open microphone and push-to-talk.
    pub fn toggle_open_mic(&mut self)
        ensures
            *final(self) == (AudioSwitches { open_mic: !old(self).open_mic, ..*old(self) }),
    {
        self.open_mic = !self.open_mic;
    }

    /// Flips noise suppression.
    pub fn toggle_noise_suppression(&mut self)
        ensures
            *final(self) == (AudioSwitches { noise_suppression: !old(self).noise_suppression, ..*old(self) }),
    {
        self.noise_suppression = !self.noise_suppression;
    }

    /// Flips the noise gate.
    pub fn toggle_noise_gate(&mut self)
        ensures
            *final(self) == (AudioSwitches { noise_gate: !old(self).noise_gate, ..*old(self) }),
    {
        self.noise_gate = !self.noise_gate;
    }
}

/// Longest wait between reconnection attempts, in seconds.
pub const MAX_RECONNECT_DELAY_SECS: u64 = 30;

/// Time after which reconnecting is given up, in seconds.
pub const RECONNECT_GIVE_UP_SECS: u64 = 120;

/// Seconds to wait before reconnection attempt `attempt`: 2^attempt (the
/// exponent capped at 5), at most 30.
pub open spec fn backoff_secs(attempt: u32) -> u64 {
    let e: u32 = if attempt < 5 { attempt } else { 5 };
    let d = vstd::arithmetic::power2::pow2(e as nat);
    if d < 30 { d as u64 } else { 30 }
}

/// Seconds to wait before reconnection attempt `attempt`.
pub fn reconnect_delay_secs(attempt: u32) -> (r: u64)
    ensures
        r == backoff_secs(attempt),
{
    let e: u32 = if attempt < 5 { attempt } else { 5 };
    let d: u64 = 1u64 << e;
    proof {
        vstd::arithmetic::power2::lemma2_to64();
        assert(1u64 << e == vstd::arithmetic::power2::pow2(e as nat)) by {
            vstd::bits::lemma_u64_shl_is_mul(1u64, e as u64);
        }
    }
    if d < MAX_RECONNECT_DELAY_SECS { d } else { MAX_RECONNECT_DELAY_SECS }
}

/// The reconnection delay doubles with each attempt, from one second, until it
/// reaches its cap of 30 seconds, and never decreases.
pub proof fn law_backoff_doubles_to_cap(attempt: u32, later: u32)
    requires
        attempt <= later,
    ensures
        1 <= backoff_secs(attempt) <= MAX_RECONNECT_DELAY_SECS,
        backoff_secs(0) == 1,
        attempt < u32::MAX ==> backoff_secs((attempt + 1) as u32) == if 2 * backoff_secs(attempt)
            < MAX_RECONNECT_DELAY_SECS {
            2 * backoff_secs(attempt)
        } else {
            MAX_RECONNECT_DELAY_SECS as int
        },
        backoff_secs(attempt) <= backoff_secs(later),
{
    vstd::arithmetic::power2::lemma2_to64();
}

/// The state of the connection.
#[derive(Debug, Clone, Copy, PartialEq, Eq, Structural)]
pub enum ReconnectState {
    Connected,
    Reconnecting { attempt: u32, next_try_ms: u64, started_ms: u64 },
    GaveUp,
}

/// What a tick of the clock calls for.
#[derive(Debug, Clone, Copy, PartialEq, Eq, Structural)]
pub enum ReconnectAction {
    Nothing,
    /// Reconnecting took too long; tell the user.
    GiveUp,
    /// Try to connect again.
    Reconnect,
}

/// What a tick at `now_ms` does to the connection state (see
/// [`reconnect_tick`]).
pub open spec fn tick_spec(state: ReconnectState, now_ms: u64, pending: bool) -> (ReconnectState, ReconnectAction) {
    match state {
        ReconnectState::Reconnecting { attempt, next_try_ms, started_ms } => {
            let elapsed = if now_ms >= started_ms { now_ms - started_ms } else { 0 };
            if elapsed / 1000 > RECONNECT_GIVE_UP_SECS {
                (ReconnectState::GaveUp, ReconnectAction::GiveUp)
            } else if now_ms >= next_try_ms && !pending {
                let a = if attempt < u32::MAX { (attempt + 1) as u32 } else { attempt };
                let next = now_ms + backoff_secs(a) * 1000;
                (
                    ReconnectState::Reconnecting {
                        attempt: a,
                        next_try_ms: if next <= u64::MAX { next as u64 } else { u64::MAX },
                        started_ms,
                    },
                    ReconnectAction::Reconnect,
                )
            } else {
                (state, ReconnectAction::Nothing)
            }
        },
        _ => (state, ReconnectAction::Nothing),
    }
}

/// A tick of the clock while reconnecting: give up once more than 120 s
/// passed since reconnecting started; otherwise, when the next try is due and
/// no attempt is under way, count the attempt, schedule the one after it with
/// the backoff delay, and try now. Other states are left alone.
pub fn reconnect_tick(state: ReconnectState, now_ms: u64, pending: bool) -> (r: (ReconnectState, ReconnectAction))
    ensures
        r == tick_spec(state, now_ms, pending),
{
    match state {
        ReconnectState::Reconnecting { attempt, next_try_ms, started_ms } => {
            let elapsed = now_ms.saturating_sub(started_ms);
            if elapsed / 1000 > RECONNECT_GIVE_UP_SECS {
                (ReconnectState::GaveUp, ReconnectAction::GiveUp)
            } else if now_ms >= next_try_ms && !pending {
                let a = attempt.saturating_add(1);
                let d = reconnect_delay_secs(a);
                let next = now_ms.saturating_add(d * 1000);
                (ReconnectState::Reconnecting { attempt: a, next_try_ms: next, started_ms }, ReconnectAction::Reconnect)
            } else {
                (state, ReconnectAction::Nothing)
            }
        },
        _ => (state, ReconnectAction::Nothing),
    }
}

} // verus!
