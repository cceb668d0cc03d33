//! The per-connection protocol state machine: one synthetic player's journey
//! through login into play, with compression negotiation, keep-alive echoes
//! under two identifier pairs, and disconnect classification. The machine
//! decides; the caller performs the resulting action on the transport.
use vstd::prelude::*;
use vstd::string::StrSliceExecFns;
use vstd::utf8::encode_utf8;

use crate::codec::{parse_lp_bytes, parse_varint_u32, read_lp_bytes, read_varint};
use crate::names::bytes_eq;

verus! {

/// Inbound disconnect: a length-prefixed JSON chat-component string.
pub const DISCONNECT_ID: u8 = 0x00;

/// Login success while logging in; echoed with an empty payload when it
/// arrives again during play (a compatibility shim).
pub const LOGIN_SUCCESS_ID: u8 = 0x02;

/// Set-compression while logging in; also the first keep-alive identifier
/// pair (inbound and outbound alike) once in play.
pub const SET_COMPRESSION_ID: u8 = 0x03;

/// The second keep-alive identifier pair, inbound side.
pub const KEEP_ALIVE_IN_ID: u8 = 0x23;

/// The second keep-alive identifier pair, outbound side.
pub const KEEP_ALIVE_OUT_ID: u8 = 0x12;

/// The mandatory cool-down, in time units, after a throttled disconnect.
pub const THROTTLE_DELAY_UNITS: u64 = 4;

/// The chat component the server sends when the connection was throttled.
pub open spec fn throttle_text() -> Seq<char> {
    "{\"text\":\"Connection throttled! Please wait before reconnecting.\"}"@
}

/// The chat component the server sends when the identity is already playing.
pub open spec fn duplicate_login_text() -> Seq<char> {
    "{\"color\":\"dark_red\",\"text\":\"Игрок с данным никнеймом уже играет на сервере!\"}"@
}

/// How a disconnect chat message is classified, by its exact content.
#[derive(Debug)]
pub enum DisconnectKind {
    Throttled,
    DuplicateLogin,
    OtherRejection,
}

/// Classify a disconnect chat message (as its raw bytes) by exact content.
pub fn classify_disconnect(msg: &Vec<u8>) -> (kind: DisconnectKind)
    ensures
        (kind is Throttled) == (msg@ == encode_utf8(throttle_text())),
        (kind is DuplicateLogin) == (msg@ != encode_utf8(throttle_text()) && msg@ == encode_utf8(
            duplicate_login_text(),
        )),
        (kind is OtherRejection) == (msg@ != encode_utf8(throttle_text()) && msg@ != encode_utf8(
            duplicate_login_text(),
        )),
{
    let throttle: Vec<u8> =
        "{\"text\":\"Connection throttled! Please wait before reconnecting.\"}".as_bytes_vec();
    if bytes_eq(msg, &throttle) {
        return DisconnectKind::Throttled;
    }
    let duplicate: Vec<u8> =
        "{\"color\":\"dark_red\",\"text\":\"Игрок с данным никнеймом уже играет на сервере!\"}".as_bytes_vec();
    if bytes_eq(msg, &duplicate) {
        return DisconnectKind::DuplicateLogin;
    }
    DisconnectKind::OtherRejection
}

/// The phase of one connection's life.
#[derive(Debug)]
pub enum Phase {
    LoggingIn,
    Play,
}

/// What the caller must do on the transport after one inbound packet.
#[derive(Debug)]
pub enum Action {
    /// Write a packet with this id and body.
    Send { id: u8, payload: Vec<u8> },
    /// Record the advertised compression threshold on the connection codec.
    SetCompression { threshold: u32 },
}

/// The machine's verdict on one inbound packet.
#[derive(Debug)]
pub enum Step {
    /// The session goes on; perform the action, if one is owed.
    Proceed { action: Option<Action> },
    /// The session is over, cleanly: an ordinary rejection or a duplicate
    /// login.
    CloseClean,
    /// The server throttled the connection: wait the given number of time
    /// units, then signal a retryable failure.
    ThrottleRetry { delay_units: u64 },
    /// The packet body is malformed for its identifier: a session error.
    Malformed,
}

/// Per-connection state: the identity being played, the phase, and the
/// compression threshold once one was advertised.
pub struct Session {
    pub name: Vec<u8>,
    pub phase: Phase,
    pub compression: Option<u32>,
}

/// What handling a set-compression body must yield: the advertised threshold
/// recorded and handed to the caller, or a session error on a malformed body.
pub open spec fn compression_step(pre: Session, post: Session, body: Seq<u8>, step: Step) -> bool {
    match parse_varint_u32(body) {
        Some((t, w)) => {
            &&& (step matches Step::Proceed { action: Some(Action::SetCompression { threshold }) }
                && threshold as nat == t)
            &&& post.phase is LoggingIn
            &&& (post.compression matches Some(th) && th as nat == t)
        },
        None => step is Malformed && post == pre,
    }
}

/// What a keep-alive echo must yield: exactly one outbound packet under the
/// mapped identifier carrying the identical first eight payload bytes.
pub open spec fn echo_step(pre: Session, post: Session, body: Seq<u8>, out_id: u8, step: Step) -> bool {
    &&& post == pre
    &&& if body.len() >= 8 {
        step matches Step::Proceed { action: Some(Action::Send { id, payload }) } && id == out_id
            && payload@ == body.subrange(0, 8)
    } else {
        step is Malformed
    }
}

/// What handling a disconnect body must yield: the throttle message earns the
/// mandatory cool-down before the retry signal, every other message ends the
/// session cleanly, and a body that holds no complete string is ignored.
pub open spec fn disconnect_step(pre: Session, post: Session, body: Seq<u8>, step: Step) -> bool {
    &&& post == pre
    &&& match parse_lp_bytes(body) {
        Some((msg, w)) => if msg == encode_utf8(throttle_text()) {
            step matches Step::ThrottleRetry { delay_units } && delay_units == THROTTLE_DELAY_UNITS
        } else {
            step is CloseClean
        },
        None => step matches Step::Proceed { action: None },
    }
}

/// Copy the first eight bytes of a keep-alive body into the echo packet.
fn echo_payload(body: &Vec<u8>, out_id: u8) -> (step: Step)
    ensures
        if body@.len() >= 8 {
            step matches Step::Proceed { action: Some(Action::Send { id, payload }) } && id
                == out_id && payload@ == body@.subrange(0, 8)
        } else {
            step is Malformed
        },
{
    if body.len() < 8 {
        return Step::Malformed;
    }
    let mut payload: Vec<u8> = Vec::new();
    let mut i: usize = 0;
    while i < 8
        invariant
            i <= 8,
            body@.len() >= 8,
            payload@ == body@.subrange(0, i as int),
        decreases 8 - i,
    {
        let ghost pre = payload@;
        payload.push(body[i]);
        proof {
            assert(pre.push(body@[i as int]) =~= body@.subrange(0, i as int + 1));
        }
        i += 1;
    }
    Step::Proceed { action: Some(Action::Send { id: out_id, payload }) }
}

impl Session {
    /// A fresh session for one identity, about to log in.
    pub fn new(name: Vec<u8>) -> (s: Session)
        ensures
            s.name == name,
            s.phase is LoggingIn,
            s.compression is None,
    {
        Session { name, phase: Phase::LoggingIn, compression: None }
    }

    /// Drive the state machine by one inbound packet (identifier and body)
    /// and say what the caller must do next.
    pub fn handle_packet(&mut self, id: u8, body: &Vec<u8>) -> (step: Step)
        ensures
            final(self).name == old(self).name,
            id == SET_COMPRESSION_ID && old(self).phase is LoggingIn ==> compression_step(
                *old(self),
                *final(self),
                body@,
                step,
            ),
            id == SET_COMPRESSION_ID && old(self).phase is Play ==> echo_step(
                *old(self),
                *final(self),
                body@,
                SET_COMPRESSION_ID,
                step,
            ),
            id == LOGIN_SUCCESS_ID && old(self).phase is LoggingIn ==> final(self).phase is Play
                && final(self).compression == old(self).compression && (step matches Step::Proceed {
                action: None,
            }),
            id == LOGIN_SUCCESS_ID && old(self).phase is Play ==> *final(self) == *old(self) && (
            step matches Step::Proceed { action: Some(Action::Send { id: out, payload }) } && out
                == LOGIN_SUCCESS_ID && payload@.len() == 0),
            id == KEEP_ALIVE_IN_ID ==> echo_step(
                *old(self),
                *final(self),
                body@,
                KEEP_ALIVE_OUT_ID,
                step,
            ),
            id == DISCONNECT_ID ==> disconnect_step(*old(self), *final(self), body@, step),
            id != DISCONNECT_ID && id != LOGIN_SUCCESS_ID && id != SET_COMPRESSION_ID && id
                != KEEP_ALIVE_IN_ID ==> *final(self) == *old(self) && (step
                matches Step::Proceed { action: None }),
    {
        proof {
            assert(body@.skip(0) =~= body@);
        }
        if id == SET_COMPRESSION_ID {
            match self.phase {
                Phase::LoggingIn => {
                    match read_varint(body, 0) {
                        Some((threshold, _w)) => {
                            self.compression = Some(threshold);
                            Step::Proceed { action: Some(Action::SetCompression { threshold }) }
                        },
                        None => Step::Malformed,
                    }
                },
                Phase::Play => echo_payload(body, SET_COMPRESSION_ID),
            }
        } else if id == LOGIN_SUCCESS_ID {
            match self.phase {
                Phase::LoggingIn => {
                    self.phase = Phase::Play;
                    Step::Proceed { action: None }
                },
                Phase::Play => Step::Proceed {
                    action: Some(Action::Send { id: LOGIN_SUCCESS_ID, payload: Vec::new() }),
                },
            }
        } else if id == DISCONNECT_ID {
            match read_lp_bytes(body, 0) {
                Some((msg, _w)) => match classify_disconnect(&msg) {
                    DisconnectKind::Throttled => Step::ThrottleRetry {
                        delay_units: THROTTLE_DELAY_UNITS,
                    },
                    DisconnectKind::DuplicateLogin => Step::CloseClean,
                    DisconnectKind::OtherRejection => Step::CloseClean,
                },
                None => Step::Proceed { action: None },
            }
        } else if id == KEEP_ALIVE_IN_ID {
            echo_payload(body, KEEP_ALIVE_OUT_ID)
        } else {
            Step::Proceed { action: None }
        }
    }
}

} // verus!
