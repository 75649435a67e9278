//! The texts of the connected screen's indicators: the voice status, the
//! transmit indicator, the ping, the reconnection notice and the roster
//! entries.
use vstd::prelude::*;
use vstd::string::StringExecFns;
use crate::client::ReconnectState;
use crate::text::{decimal, push_decimal, str_equal};

verus! {

/// What the audio engine reports for the status bar.
#[derive(Debug, Clone, Copy, PartialEq, Eq, Structural)]
pub struct VoiceFlags {
    pub deafened: bool,
    pub muted: bool,
    pub open_mic: bool,
    pub ptt_active: bool,
    /// Voice activity was detected in the last frame.
    pub vad_active: bool,
}

/// The voice status shown in the status bar; `None` stands for an audio
/// engine that could not start.
pub open spec fn voice_status_text(flags: Option<VoiceFlags>) -> Seq<char> {
    match flags {
        None => "No Audio"@,
        Some(f) => if f.deafened {
            "DEAFENED"@
        } else if f.muted {
            "MUTED"@
        } else if f.open_mic {
            "Open Mic"@
        } else if f.ptt_active {
            "PTT Active"@
        } else {
            "PTT Ready"@
        },
    }
}

/// The voice status shown in the status bar (see [`voice_status_text`]).
pub fn voice_status(flags: Option<VoiceFlags>) -> (r: String)
    ensures
        r@ == voice_status_text(flags),
{
    match flags {
        None => String::from_str("No Audio"),
        Some(f) => if f.deafened {
            String::from_str("DEAFENED")
        } else if f.muted {
            String::from_str("MUTED")
        } else if f.open_mic {
            String::from_str("Open Mic")
        } else if f.ptt_active {
            String::from_str("PTT Active")
        } else {
            String::from_str("PTT Ready")
        },
    }
}

/// The transmit indicator: shown while the microphone is live (open
/// microphone with voice detected, or push-to-talk held), a quieter notice
/// with an open microphone and no voice, nothing otherwise; never while muted
/// or deafened. `use_open_mic` is the screen's voice mode.
pub open spec fn transmit_text(use_open_mic: bool, f: VoiceFlags) -> Option<Seq<char>> {
    if use_open_mic && f.vad_active && !f.muted && !f.deafened {
        Some(">> TRANSMITTING"@)
    } else if use_open_mic && !f.muted && !f.deafened {
        Some("Open Mic (silent)"@)
    } else if f.ptt_active && !f.muted && !f.deafened {
        Some(">> TRANSMITTING"@)
    } else {
        None
    }
}

/// The transmit indicator (see [`transmit_text`]).
pub fn transmit_indicator(use_open_mic: bool, f: VoiceFlags) -> (r: Option<String>)
    ensures
        match transmit_text(use_open_mic, f) {
            Some(t) => r matches Some(s) && s@ == t,
            None => r is None,
        },
{
    if use_open_mic && f.vad_active && !f.muted && !f.deafened {
        Some(String::from_str(">> TRANSMITTING"))
    } else if use_open_mic && !f.muted && !f.deafened {
        Some(String::from_str("Open Mic (silent)"))
    } else if f.ptt_active && !f.muted && !f.deafened {
        Some(String::from_str(">> TRANSMITTING"))
    } else {
        None
    }
}

/// The ping shown: the round trip in milliseconds, or an ellipsis before the
/// first answer.
pub open spec fn latency_label(ms: Option<u32>) -> Seq<char> {
    match ms {
        Some(m) => decimal(m as nat) + "ms"@,
        None => "..."@,
    }
}

/// The ping shown (see [`latency_label`]).
pub fn latency_text(ms: Option<u32>) -> (r: String)
    ensures
        r@ == latency_label(ms),
{
    match ms {
        Some(m) => {
            let mut s = String::new();
            push_decimal(&mut s, m as u64);
            s.append("ms");
            s
        },
        None => String::from_str("..."),
    }
}

/// The notice that replaces the status bar while reconnecting.
pub open spec fn reconnect_label(state: ReconnectState) -> Option<Seq<char>> {
    match state {
        ReconnectState::Reconnecting { attempt, .. } => Some(
            "Reconnecting (attempt "@ + decimal(attempt as nat) + ")..."@,
        ),
        _ => None,
    }
}

/// The notice that replaces the status bar while reconnecting (see
/// [`reconnect_label`]).
pub fn reconnect_status(state: ReconnectState) -> (r: Option<String>)
    ensures
        match reconnect_label(state) {
            Some(t) => r matches Some(s) && s@ == t,
            None => r is None,
        },
{
    match state {
        ReconnectState::Reconnecting { attempt, .. } => {
            let mut s = String::from_str("Reconnecting (attempt ");
            push_decimal(&mut s, attempt as u64);
            s.append(")...");
            Some(s)
        },
        _ => None,
    }
}

/// How a member is listed: the user's own entry is marked.
pub open spec fn roster_label(user: Seq<char>, me: Seq<char>) -> Seq<char> {
    if user == me {
        user + " (you)"@
    } else {
        user
    }
}

/// How a member is listed (see [`roster_label`]).
pub fn roster_entry(user: &str, me: &str) -> (r: String)
    ensures
        r@ == roster_label(user@, me@),
{
    let mut s = String::from_str(user);
    if str_equal(user, me) {
        s.append(" (you)");
    }
    s
}

/// The round trip of a ping answered at `now_ms` that was sent at `sent_ms`
/// (milliseconds since the Unix epoch): the time between them, none when the
/// clock went back, kept to its low 32 bits.
pub open spec fn round_trip_ms(now_ms: u64, sent_ms: u64) -> u32 {
    if now_ms >= sent_ms {
        ((now_ms - sent_ms) % 0x1_0000_0000) as u32
    } else {
        0
    }
}

/// The round trip of a ping (see [`round_trip_ms`]).
pub fn ping_latency(now_ms: u64, sent_ms: u64) -> (r: u32)
    ensures
        r == round_trip_ms(now_ms, sent_ms),
{
    let d = now_ms.saturating_sub(sent_ms);
    (d % 0x1_0000_0000) as u32
}

/// The status bar: the reconnection notice while reconnecting, else the
/// voice status, the user, the room, how many are online, the upload loss
/// and the ping, separated by middle dots.
pub open spec fn status_line_text(
    reconnect: Option<Seq<char>>,
    voice: Seq<char>,
    username: Seq<char>,
    room: Seq<char>,
    online: nat,
    loss: Seq<char>,
    ping: Seq<char>,
) -> Seq<char> {
    match reconnect {
        Some(t) => t,
        None => voice + " "@ + username + " · Room: "@ + room + " · "@ + decimal(online) + " online · Loss: "@
            + loss + "% · Ping: "@ + ping,
    }
}

/// The status bar (see [`status_line_text`]); `loss` is the upload loss
/// already written with one decimal.
pub fn status_line(
    reconnect: &Option<String>,
    voice: &str,
    username: &str,
    room: &str,
    online: usize,
    loss: &str,
    ping: &str,
) -> (r: String)
    ensures
        r@ == status_line_text(
            match reconnect {
                Some(t) => Some(t@),
                None => None,
            },
            voice@,
            username@,
            room@,
            online as nat,
            loss@,
            ping@,
        ),
{
    match reconnect {
        Some(t) => t.clone(),
        None => {
            let mut s = String::from_str(voice);
            s.append(" ");
            s.append(username);
            s.append(" · Room: ");
            s.append(room);
            s.append(" · ");
            push_decimal(&mut s, online as u64);
            s.append(" online · Loss: ");
            s.append(loss);
            s.append("% · Ping: ");
            s.append(ping);
            s
        },
    }
}

} // verus!
