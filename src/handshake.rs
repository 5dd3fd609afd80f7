//! The replica's side of the replication handshake: `PING`, two `REPLCONF`s
//! and `PSYNC`, each sent once the master's previous reply is the expected one.
//! The caller owns the connection: it sends what a step asks for and hands
//! back the master's reply.
use vstd::prelude::*;
use vstd::string::StringSliceAdditionalSpecFns;

use crate::redis_commands::{command_bytes, Command, RedisCommands};
use crate::redis_response::{response_of, RedisResponse};
use crate::resp::ToRedisBytes;
use crate::server_config::{unknown_replication_id, Offset, Port, ReplicationId};
use crate::text::{decimal, literal_bytes, push_decimal};

verus! {

/// Where the handshake stands.
#[derive(Debug, Clone, Copy, PartialEq, Eq, Structural)]
pub enum HandshakeState {
    /// `PING` sent; `+PONG` expected.
    AwaitPong,
    /// `REPLCONF listening-port` sent; `+OK` expected.
    AwaitPortAck,
    /// `REPLCONF capa psync2` sent; `+OK` expected.
    AwaitCapaAck,
    /// `PSYNC ? -1` sent; any reply ends the handshake.
    AwaitPsyncReply,
    /// The handshake is over; the replica may accept clients.
    Done,
    /// The master answered out of turn; startup stops.
    Failed,
}

/// What the caller does next.
#[derive(Debug, Clone, PartialEq, Eq)]
pub enum HandshakeAction {
    /// Send these bytes to the master and read its reply.
    Send(Vec<u8>),
    /// The handshake succeeded.
    Ready,
    /// The handshake failed.
    Abort,
}

pub enum ActionView {
    Send(Seq<u8>),
    Ready,
    Abort,
}

impl View for HandshakeAction {
    type V = ActionView;

    open spec fn view(&self) -> ActionView {
        match self {
            HandshakeAction::Send(b) => ActionView::Send(b@),
            HandshakeAction::Ready => ActionView::Ready,
            HandshakeAction::Abort => ActionView::Abort,
        }
    }
}

pub open spec fn ping_message() -> Seq<u8> {
    command_bytes(Command::Ping)
}

/// `REPLCONF listening-port <port>`.
pub open spec fn listening_port_message(port: u16) -> Seq<u8> {
    command_bytes(Command::Replconf("listening-port".spec_bytes(), decimal(port as nat)))
}

/// `REPLCONF capa psync2`.
pub open spec fn capa_message() -> Seq<u8> {
    command_bytes(Command::Replconf("capa".spec_bytes(), "psync2".spec_bytes()))
}

/// `PSYNC ? -1`: no replication id or offset is known yet.
pub open spec fn first_psync_message() -> Seq<u8> {
    command_bytes(Command::Psync(unknown_replication_id(), -1i8))
}

/// The next state and action once the master's `reply` arrives.
pub open spec fn handshake_next(state: HandshakeState, port: u16, reply: Seq<u8>) -> (
    HandshakeState,
    ActionView,
) {
    match state {
        HandshakeState::AwaitPong => if response_of(reply) == Some(RedisResponse::Pong) {
            (HandshakeState::AwaitPortAck, ActionView::Send(listening_port_message(port)))
        } else {
            (HandshakeState::Failed, ActionView::Abort)
        },
        HandshakeState::AwaitPortAck => if response_of(reply) == Some(RedisResponse::Okay) {
            (HandshakeState::AwaitCapaAck, ActionView::Send(capa_message()))
        } else {
            (HandshakeState::Failed, ActionView::Abort)
        },
        HandshakeState::AwaitCapaAck => if response_of(reply) == Some(RedisResponse::Okay) {
            (HandshakeState::AwaitPsyncReply, ActionView::Send(first_psync_message()))
        } else {
            (HandshakeState::Failed, ActionView::Abort)
        },
        HandshakeState::AwaitPsyncReply => (HandshakeState::Done, ActionView::Ready),
        HandshakeState::Done => (HandshakeState::Done, ActionView::Ready),
        HandshakeState::Failed => (HandshakeState::Failed, ActionView::Abort),
    }
}

/// A replica's handshake with its master.
#[derive(Debug, Clone, Copy)]
pub struct Handshake {
    state: HandshakeState,
    port: Port,
}

impl View for Handshake {
    type V = (HandshakeState, u16);

    closed spec fn view(&self) -> (HandshakeState, u16) {
        (self.state, self.port@)
    }
}

impl Handshake {
    /// Starts the handshake of a replica that listens on `port`: the `PING`
    /// to send first.
    pub fn start(port: Port) -> (r: (Handshake, Vec<u8>))
        ensures
            r.0@ == (HandshakeState::AwaitPong, port@),
            r.1@ == ping_message(),
    {
        (Handshake { state: HandshakeState::AwaitPong, port }, RedisCommands::Ping.to_redis_bytes())
    }

    pub fn state(&self) -> (r: HandshakeState)
        ensures
            r == self@.0,
    {
        self.state
    }

    /// Takes the master's reply and says what to do next.
    pub fn on_reply(&mut self, reply: &[u8]) -> (r: HandshakeAction)
        ensures
            final(self)@.1 == old(self)@.1,
            (final(self)@.0, r@) == handshake_next(old(self)@.0, old(self)@.1, reply@),
    {
        let response = RedisResponse::from_bytes(reply);
        match self.state {
            HandshakeState::AwaitPong => {
                if response == Some(RedisResponse::Pong) {
                    self.state = HandshakeState::AwaitPortAck;
                    let mut port_text: Vec<u8> = Vec::new();
                    push_decimal(&mut port_text, self.port.get() as u64);
                    let command = RedisCommands::Replconf(literal_bytes("listening-port"), port_text);
                    HandshakeAction::Send(command.to_redis_bytes())
                } else {
                    self.state = HandshakeState::Failed;
                    HandshakeAction::Abort
                }
            },
            HandshakeState::AwaitPortAck => {
                if response == Some(RedisResponse::Okay) {
                    self.state = HandshakeState::AwaitCapaAck;
                    let command = RedisCommands::Replconf(literal_bytes("capa"), literal_bytes("psync2"));
                    HandshakeAction::Send(command.to_redis_bytes())
                } else {
                    self.state = HandshakeState::Failed;
                    HandshakeAction::Abort
                }
            },
            HandshakeState::AwaitCapaAck => {
                if response == Some(RedisResponse::Okay) {
                    self.state = HandshakeState::AwaitPsyncReply;
                    let command = RedisCommands::Psync(ReplicationId::parse(None), Offset::parse(None));
                    HandshakeAction::Send(command.to_redis_bytes())
                } else {
                    self.state = HandshakeState::Failed;
                    HandshakeAction::Abort
                }
            },
            HandshakeState::AwaitPsyncReply => {
                self.state = HandshakeState::Done;
                HandshakeAction::Ready
            },
            HandshakeState::Done => HandshakeAction::Ready,
            HandshakeState::Failed => HandshakeAction::Abort,
        }
    }
}

} // verus!
