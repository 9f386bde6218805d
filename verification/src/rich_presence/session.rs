//! What one client connection of the bridge answers to each message.
//!
//! The native side reads frames (see `frame`), pulls the few fields read here
//! out of each JSON body, and writes back the replies chosen here.

use vstd::prelude::*;

use vstd::string::StringExecFns;

use super::activities::Activities;
use super::echo::{activity_text, echo_activity, echo_for, echo_view, ActivityIn, EchoData};
use crate::numbers::{parse_i64, parse_i64_spec};

verus! {

/// Why the bridge closes a connection; each has its code and message.
#[derive(Clone, Copy, Debug, PartialEq, Eq)]
pub enum CloseReason {
    /// The connection ends normally (code 1000).
    Normal,
    /// A frame arrived before the handshake (code 1003).
    HandshakeRequired,
    /// The handshake named no client id (code 4000).
    ClientIdRequired,
    /// The handshake asked for a protocol version other than 1 (code 4004).
    UnsupportedVersion,
}

impl CloseReason {
    pub open spec fn spec_code(self) -> i32 {
        match self {
            CloseReason::Normal => 1000,
            CloseReason::HandshakeRequired => 1003,
            CloseReason::ClientIdRequired => 4000,
            CloseReason::UnsupportedVersion => 4004,
        }
    }

    pub open spec fn spec_message(self) -> Seq<char> {
        match self {
            CloseReason::Normal => ""@,
            CloseReason::HandshakeRequired => "handshake required"@,
            CloseReason::ClientIdRequired => "client id required"@,
            CloseReason::UnsupportedVersion => "unsupported version"@,
        }
    }

    /// The close code sent to the client.
    pub fn code(self) -> (r: i32)
        ensures
            r == self.spec_code(),
    {
        match self {
            CloseReason::Normal => 1000,
            CloseReason::HandshakeRequired => 1003,
            CloseReason::ClientIdRequired => 4000,
            CloseReason::UnsupportedVersion => 4004,
        }
    }

    /// The close message sent to the client.
    pub fn message(self) -> (r: &'static str)
        ensures
            r@ == self.spec_message(),
    {
        match self {
            CloseReason::Normal => "",
            CloseReason::HandshakeRequired => "handshake required",
            CloseReason::ClientIdRequired => "client id required",
            CloseReason::UnsupportedVersion => "unsupported version",
        }
    }
}

/// The handshake's `v` field, when it is an integer or a string.
pub enum VersionField {
    Int(i64),
    Text(String),
}

/// One message from a client, reduced to the fields the bridge reads.
pub enum Inbound {
    /// HANDSHAKE: the `v` field (absent or of another JSON type: `None`) and
    /// the `client_id` field when it is a string.
    Handshake { version: Option<VersionField>, client_id: Option<String> },
    /// FRAME: the `cmd` field when it is a string, `args.activity` when it
    /// is present and not null, and the `nonce` field as JSON text (`null`
    /// when absent).
    Frame { cmd: Option<String>, activity: Option<ActivityIn>, nonce: String },
    Close,
    Ping,
    Pong,
}

/// One message the bridge sends back.
pub enum Outbound {
    /// PONG echoing the PING's body.
    Pong,
    /// The READY dispatch that completes a handshake.
    Ready,
    /// CLOSE with the reason's code and message.
    Close(CloseReason),
    /// The reply to SET_ACTIVITY: the command, the activity echoed back as
    /// `echo::echo_for` gives it (`null` data when the activity was cleared),
    /// and the request's nonce as JSON text.
    ActivitySet { cmd: String, data: Option<EchoData>, nonce: String },
    /// Any other command, acknowledged with `null` data and the request's
    /// nonce as JSON text.
    Ack { cmd: String, nonce: String },
}

/// What to do after a message.
pub struct Reply {
    /// The message to send, if any.
    pub send: Option<Outbound>,
    /// Whether the current activity changed and must be published.
    pub publish: bool,
    /// Whether the connection ends once `send` has been written.
    pub end: bool,
}

/// The protocol version a handshake asks for: `v` as an integer, or as a
/// string that parses as one; 1 when it is neither.
pub open spec fn version_spec(v: Option<VersionField>) -> i64 {
    match v {
        Some(VersionField::Int(n)) => n,
        Some(VersionField::Text(t)) => match parse_i64_spec(t@) {
            Some(n) => n,
            None => 1,
        },
        None => 1,
    }
}

/// One connection's protocol state.
pub struct RpcSession {
    connection: u64,
    handshaken: bool,
    client_id: String,
}

impl RpcSession {
    pub closed spec fn connection(&self) -> u64 {
        self.connection
    }

    pub closed spec fn handshaken(&self) -> bool {
        self.handshaken
    }

    pub closed spec fn client_id(&self) -> Seq<char> {
        self.client_id@
    }

    /// A fresh connection, not yet handshaken.
    pub fn new(connection: u64) -> (r: Self)
        ensures
            r.connection() == connection,
            !r.handshaken(),
            r.client_id() == Seq::<char>::empty(),
    {
        RpcSession { connection, handshaken: false, client_id: String::new() }
    }

    /// Decides the reply to one message. SET_ACTIVITY records the activity
    /// for this connection, the most recent update winning.
    pub fn on_message(&mut self, activities: &mut Activities, msg: Inbound) -> (r: Reply)
        requires
            old(activities).wf(),
        ensures
            final(activities).wf(),
            final(self).connection() == old(self).connection(),
            match msg {
                Inbound::Ping => r.send matches Some(Outbound::Pong) && !r.end && !r.publish
                    && *final(self) == *old(self) && *final(activities) == *old(activities),
                Inbound::Pong => r.send is None && !r.end && !r.publish
                    && *final(self) == *old(self) && *final(activities) == *old(activities),
                Inbound::Close => r.send is None && r.end && !r.publish
                    && *final(self) == *old(self) && *final(activities) == *old(activities),
                Inbound::Handshake { version, client_id } => {
                    let id = match client_id {
                        Some(c) => c@,
                        None => Seq::<char>::empty(),
                    };
                    &&& !r.publish
                    &&& *final(activities) == *old(activities)
                    &&& if version_spec(version) != 1 {
                        r.send == Some(Outbound::Close(CloseReason::UnsupportedVersion)) && r.end
                            && *final(self) == *old(self)
                    } else if id.len() == 0 {
                        r.send == Some(Outbound::Close(CloseReason::ClientIdRequired)) && r.end
                            && *final(self) == *old(self)
                    } else {
                        r.send matches Some(Outbound::Ready) && !r.end && final(self).handshaken()
                            && final(self).client_id() == id
                    }
                },
                Inbound::Frame { cmd, activity, nonce } => {
                    let c = match cmd {
                        Some(c) => c@,
                        None => Seq::<char>::empty(),
                    };
                    if !old(self).handshaken() {
                        r.send == Some(Outbound::Close(CloseReason::HandshakeRequired)) && r.end && !r.publish
                            && *final(self) == *old(self) && *final(activities) == *old(activities)
                    } else if c == "SET_ACTIVITY"@ {
                        &&& r.send matches Some(Outbound::ActivitySet { cmd: rc, data, nonce: rn })
                        &&& rc@ == c && rn@ == nonce@
                        &&& echo_view(data) == echo_for(activity, old(self).client_id())
                        &&& r.publish && !r.end
                        &&& *final(self) == *old(self)
                        &&& final(activities).order() == super::activities::without(old(activities).order(), old(self).connection()).push(old(self).connection())
                        &&& final(activities).activities() == old(activities).activities().insert(old(self).connection(), activity_text(activity))
                    } else {
                        r.send matches Some(Outbound::Ack { cmd: rc, nonce: rn }) && rc@ == c && rn@ == nonce@
                            && !r.end && !r.publish
                            && *final(self) == *old(self) && *final(activities) == *old(activities)
                    }
                },
            },
    {
        match msg {
            Inbound::Ping => Reply { send: Some(Outbound::Pong), publish: false, end: false },
            Inbound::Pong => Reply { send: None, publish: false, end: false },
            Inbound::Close => Reply { send: None, publish: false, end: true },
            Inbound::Handshake { version, client_id } => {
                let v = match version {
                    Some(VersionField::Int(n)) => n,
                    Some(VersionField::Text(t)) => match parse_i64(t.as_str()) {
                        Some(n) => n,
                        None => 1,
                    },
                    None => 1,
                };
                if v != 1 {
                    return Reply { send: Some(Outbound::Close(CloseReason::UnsupportedVersion)), publish: false, end: true };
                }
                let id = match client_id {
                    Some(c) => c,
                    None => String::new(),
                };
                if id.as_str().is_empty() {
                    return Reply { send: Some(Outbound::Close(CloseReason::ClientIdRequired)), publish: false, end: true };
                }
                self.client_id = id;
                self.handshaken = true;
                Reply { send: Some(Outbound::Ready), publish: false, end: false }
            },
            Inbound::Frame { cmd, activity, nonce } => {
                if !self.handshaken {
                    return Reply { send: Some(Outbound::Close(CloseReason::HandshakeRequired)), publish: false, end: true };
                }
                let c = match cmd {
                    Some(c) => c,
                    None => String::new(),
                };
                let set = String::from_str("SET_ACTIVITY");
                if c == set {
                    let (text, data) = echo_activity(activity, &self.client_id);
                    activities.set_activity(self.connection, text);
                    Reply { send: Some(Outbound::ActivitySet { cmd: c, data, nonce }), publish: true, end: false }
                } else {
                    Reply { send: Some(Outbound::Ack { cmd: c, nonce }), publish: false, end: false }
                }
            },
        }
    }
}

} // verus!
