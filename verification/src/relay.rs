//! The decision logic of the lobby-rendezvous relay.
//!
//! The relay pairs two clients: a host creates a lobby under a random 32-bit
//! code and waits; a joiner names the code, the relay answers both sides and
//! hands the joiner's connection to the host's worker, which then funnels
//! bytes between the two until either side closes. Everything that decides —
//! parsing the 5-byte command, the lobby-code registry, the per-connection
//! state machine, and the funnel-loop decisions — lives here; the sockets,
//! threads and the mutex around the registry live with the caller.

use vstd::prelude::*;
use vstd::bytes::*;
use vstd::slice::slice_subrange;

verus! {

/// TCP port the relay listens on.
pub const PORT: u32 = 5321;

/// First byte of a client command: create a lobby.
pub const OP_CREATE_LOBBY: u8 = 1;

/// First byte of a client command: join a lobby by code.
pub const OP_JOIN_LOBBY: u8 = 2;

/// Reply to a joiner when the lobby exists.
pub const JOIN_OK: i32 = 200;

/// Reply to a joiner when no lobby has the named code.
pub const JOIN_UNKNOWN: i32 = 400;

/// Length of a client command on the wire.
pub const COMMAND_BYTES: usize = 5;

/// A client's 5-byte command, parsed. Anything that is not exactly five
/// bytes with a known opcode is malformed and ends the connection.
#[derive(Clone, Copy, PartialEq, Eq, Structural, Debug)]
pub enum ClientCommand {
    CreateLobby,
    JoinLobby { code: i32 },
    Malformed,
}

/// What a byte string read from a client means.
pub open spec fn sp_parse_command(d: Seq<u8>) -> ClientCommand {
    if d.len() != COMMAND_BYTES {
        ClientCommand::Malformed
    } else if d[0] == OP_CREATE_LOBBY {
        ClientCommand::CreateLobby
    } else if d[0] == OP_JOIN_LOBBY {
        ClientCommand::JoinLobby { code: spec_u32_from_le_bytes(d.subrange(1, 5)) as i32 }
    } else {
        ClientCommand::Malformed
    }
}

/// Parse the bytes read from a client. The caller passes exactly the bytes
/// that were read; a short read parses as malformed.
pub fn parse_command(data: &[u8]) -> (r: ClientCommand)
    ensures
        r == sp_parse_command(data@),
{
    if data.len() != COMMAND_BYTES {
        ClientCommand::Malformed
    } else if data[0] == OP_CREATE_LOBBY {
        ClientCommand::CreateLobby
    } else if data[0] == OP_JOIN_LOBBY {
        let code = u32_from_le_bytes(slice_subrange(data, 1, 5));
        ClientCommand::JoinLobby { code: #[verifier::truncate] (code as i32) }
    } else {
        ClientCommand::Malformed
    }
}

/// The 5-byte create-lobby command a client sends (bytes 1..4 are ignored by
/// the relay and sent as zeros).
pub fn create_lobby_command() -> (r: Vec<u8>)
    ensures
        r@ =~= seq![OP_CREATE_LOBBY, 0u8, 0u8, 0u8, 0u8],
{
    let mut r: Vec<u8> = Vec::new();
    r.push(OP_CREATE_LOBBY);
    r.push(0);
    r.push(0);
    r.push(0);
    r.push(0);
    r
}

/// The 5-byte join-lobby command naming `code`, little-endian.
pub fn join_lobby_command(code: i32) -> (r: Vec<u8>)
    ensures
        r@ =~= seq![OP_JOIN_LOBBY] + spec_u32_to_le_bytes(code as u32),
        r@.len() == 5,
{
    proof {
        lemma_auto_spec_u32_to_from_le_bytes();
    }
    let mut r: Vec<u8> = Vec::new();
    r.push(OP_JOIN_LOBBY);
    let mut tail = u32_to_le_bytes(#[verifier::truncate] (code as u32));
    r.append(&mut tail);
    r
}

/// A 4-byte little-endian reply carrying a signed 32-bit value (a lobby
/// code, or one of the join status values).
pub fn reply_i32_le(v: i32) -> (r: Vec<u8>)
    ensures
        r@ == spec_u32_to_le_bytes(v as u32),
        r@.len() == 4,
{
    proof {
        lemma_auto_spec_u32_to_from_le_bytes();
    }
    u32_to_le_bytes(#[verifier::truncate] (v as u32))
}

/// The single byte written to the host when an opponent has joined.
pub fn peer_joined_notice() -> (r: Vec<u8>)
    ensures
        r@ =~= seq![1u8],
{
    let mut r: Vec<u8> = Vec::new();
    r.push(1);
    r
}

/// No lobby code occurs twice.
pub open spec fn sp_unique(s: Seq<i32>) -> bool {
    forall|a: int, b: int| 0 <= a < b < s.len() ==> s[a] != s[b]
}

/// The set of codes of the lobbies currently awaiting a peer. The caller
/// keeps it under its lock together with whatever it maps each code to.
pub struct LobbyRegistry {
    codes: Vec<i32>,
}

impl View for LobbyRegistry {
    type V = Seq<i32>;

    closed spec fn view(&self) -> Seq<i32> {
        self.codes@
    }
}

impl LobbyRegistry {
    pub open spec fn wf(self) -> bool {
        sp_unique(self@)
    }

    pub fn new() -> (r: LobbyRegistry)
        ensures
            r@.len() == 0,
            r.wf(),
    {
        LobbyRegistry { codes: Vec::new() }
    }

    pub fn len(&self) -> (r: usize)
        ensures
            r == self@.len(),
    {
        self.codes.len()
    }

    /// Whether a lobby with this code is waiting.
    pub fn contains(&self, code: i32) -> (r: bool)
        ensures
            r == self@.contains(code),
    {
        let n = self.codes.len();
        let mut i: usize = 0;
        while i < n
            invariant
                i <= n,
                n == self@.len(),
                forall|m: int| 0 <= m < i ==> self@[m] != code,
            decreases n - i,
        {
            if self.codes[i] == code {
                return true;
            }
            i = i + 1;
        }
        false
    }

    /// Insert a code if it is new; report whether it went in.
    pub fn insert_code(&mut self, code: i32) -> (r: bool)
        requires
            old(self).wf(),
        ensures
            final(self).wf(),
            r == !old(self)@.contains(code),
            r ==> final(self)@ == old(self)@.push(code),
            !r ==> final(self)@ == old(self)@,
    {
        if self.contains(code) {
            false
        } else {
            self.codes.push(code);
            true
        }
    }

    /// Remove a code, if it is there; report whether it was.
    #[verifier::loop_isolation(false)]
    pub fn remove_code(&mut self, code: i32) -> (r: bool)
        requires
            old(self).wf(),
        ensures
            final(self).wf(),
            r == old(self)@.contains(code),
            !final(self)@.contains(code),
            forall|c: i32| c != code ==> (final(self)@.contains(c) <==> old(self)@.contains(c)),
            r ==> final(self)@.len() == old(self)@.len() - 1,
            !r ==> final(self)@ == old(self)@,
    {
        let ghost s0 = self@;
        let n = self.codes.len();
        let mut i: usize = 0;
        while i < n
            invariant
                i <= n,
                self@ == s0,
                forall|m: int| 0 <= m < i ==> self@[m] != code,
            decreases n - i,
        {
            if self.codes[i] == code {
                self.codes.remove(i);
                proof {
                    let ii = i as int;
                    s0.remove_ensures(ii);
                    assert(s0[ii] == code);
                    assert forall|m0: int| 0 <= m0 < s0.len() && m0 != ii implies s0[m0]
                        != code by {
                        if m0 < ii {
                            assert(s0[m0] != s0[ii]);
                        } else {
                            assert(s0[ii] != s0[m0]);
                        }
                    }
                    assert forall|m: int| 0 <= m < self@.len() implies #[trigger] self@[m]
                        != code by {
                        if m < ii {
                            assert(self@[m] == s0[m]);
                        } else {
                            assert(self@[m] == s0[m + 1]);
                        }
                    }
                    assert(!self@.contains(code));
                    assert forall|c: i32| c != code && s0.contains(c) implies self@.contains(
                        c,
                    ) by {
                        let m0 = choose|m0: int| 0 <= m0 < s0.len() && s0[m0] == c;
                        if m0 < ii {
                            assert(self@[m0] == c);
                        } else {
                            assert(m0 != ii);
                            assert(self@[m0 - 1] == c);
                        }
                    }
                    assert forall|c: i32| self@.contains(c) implies s0.contains(c) by {
                        let m = choose|m: int| 0 <= m < self@.len() && self@[m] == c;
                        if m < ii {
                            assert(s0[m] == c);
                        } else {
                            assert(s0[m + 1] == c);
                        }
                    }
                    assert forall|a: int, b: int| 0 <= a < b < self@.len() implies self@[a]
                        != self@[b] by {
                        let a0: int = if a < ii {
                            a
                        } else {
                            a + 1
                        };
                        let b0: int = if b < ii {
                            b
                        } else {
                            b + 1
                        };
                        assert(self@[a] == s0[a0] && self@[b] == s0[b0]);
                        assert(s0[a0] != s0[b0]);
                    }
                }
                return true;
            }
            i = i + 1;
        }
        false
    }

    /// Open a new lobby under a freshly drawn random code, redrawing on a
    /// collision with a waiting lobby. The draws are bounded, so on the
    /// (astronomically unlikely) run of collisions the attempt is given up
    /// and the registry is left as it was. Giving up takes a collision on
    /// every draw, so on an empty registry a lobby is always opened.
    pub fn register_new_lobby(&mut self) -> (r: Option<i32>)
        requires
            old(self).wf(),
        ensures
            final(self).wf(),
            (match r {
                Some(code) => !old(self)@.contains(code) && final(self)@ == old(self)@.push(code),
                None => final(self)@ == old(self)@ && old(self)@.len() > 0,
            }),
    {
        let mut tries: usize = 0;
        while tries < 16
            invariant
                self@ == old(self)@,
                self.wf(),
                tries > 0 ==> old(self)@.len() > 0,
            decreases 16 - tries,
        {
            let code = random_lobby_code();
            if self.insert_code(code) {
                return Some(code);
            }
            proof {
                // the draw collided, so some lobby is waiting
                assert(self@.contains(code));
                let w = choose|w: int| 0 <= w < self@.len() && self@[w] == code;
                assert(self@.len() > 0);
            }
            tries = tries + 1;
        }
        None
    }
}

/// Relies on rand::random::<i32>: a uniformly drawn 32-bit lobby code from
/// the thread-local generator. Nothing is promised of the value; the
/// registry re-draws if it collides.
#[verifier::external_body]
fn random_lobby_code() -> i32 {
    rand::random::<i32>()
}

/// Where a relay worker stands with its connection.
#[derive(Clone, Copy, PartialEq, Eq, Structural, Debug)]
pub enum WorkerState {
    /// Reading 5-byte commands from a fresh client.
    AwaitingCommand,
    /// The client created this lobby; the worker waits for a peer socket.
    Hosting { code: i32 },
    /// Both sockets are attached; bytes are funnelled until one closes.
    Funneling,
    /// The connection is done with.
    Finished,
}

/// What the caller observed on the connection.
pub enum WorkerEvent {
    /// A read completed with these bytes (short reads included).
    Command { data: Vec<u8> },
    /// The read failed.
    ReadFailed,
    /// The peer socket arrived over the handoff channel.
    PeerArrived,
    /// The funnel loop ended (a side closed or failed).
    FunnelClosed,
}

/// What the caller must do next with its sockets.
#[derive(Clone, Copy, PartialEq, Eq, Structural, Debug)]
pub enum WorkerEffect {
    /// Nothing beyond writing the reply.
    NoEffect,
    /// Hand the current client's socket to the host worker of this lobby.
    SendPeerToHost { code: i32 },
    /// Switch both sockets to non-blocking and start the funnel loop.
    BeginFunnel,
    /// Close the connection.
    CloseConnection,
}

/// The reply to write to the current client, and what to do then.
pub struct WorkerOutput {
    pub reply: Vec<u8>,
    pub effect: WorkerEffect,
}

/// One step of the relay worker's protocol: from the worker's state and the
/// event observed on the connection to the next state, the reply and the
/// side effect. A create inserts a fresh random code and answers it as four
/// little-endian bytes; a join answers 200 and hands the socket over when
/// the code is known, 400 (and keeps listening) when it is not; a malformed
/// command, a failed read or an unexpected event closes the connection;
/// a peer's arrival removes the lobby from the registry, notifies the host
/// with a single `0x01` byte and starts the funnel.
pub fn worker_step(state: WorkerState, event: &WorkerEvent, registry: &mut LobbyRegistry) -> (r: (
    WorkerState,
    WorkerOutput,
))
    requires
        old(registry).wf(),
    ensures
        final(registry).wf(),
        (match state {
            WorkerState::AwaitingCommand => (match event {
                WorkerEvent::Command { data } => (match sp_parse_command(data@) {
                    ClientCommand::CreateLobby => (match r.0 {
                        WorkerState::Hosting { code } => {
                            &&& !old(registry)@.contains(code)
                            &&& final(registry)@ == old(registry)@.push(code)
                            &&& r.1.reply@ == spec_u32_to_le_bytes(code as u32)
                            &&& r.1.effect == WorkerEffect::NoEffect
                        },
                        WorkerState::Finished => {
                            // giving up takes a collision on every draw, so
                            // a create against an empty registry always hosts
                            &&& old(registry)@.len() > 0
                            &&& final(registry)@ == old(registry)@
                            &&& r.1.reply@.len() == 0
                            &&& r.1.effect == WorkerEffect::CloseConnection
                        },
                        _ => false,
                    }),
                    ClientCommand::JoinLobby { code } => {
                        if old(registry)@.contains(code) {
                            &&& r.0 == WorkerState::Finished
                            &&& final(registry)@ == old(registry)@
                            &&& r.1.reply@ == spec_u32_to_le_bytes(JOIN_OK as u32)
                            &&& r.1.effect == (WorkerEffect::SendPeerToHost { code })
                        } else {
                            &&& r.0 == WorkerState::AwaitingCommand
                            &&& final(registry)@ == old(registry)@
                            &&& r.1.reply@ == spec_u32_to_le_bytes(JOIN_UNKNOWN as u32)
                            &&& r.1.effect == WorkerEffect::NoEffect
                        }
                    },
                    ClientCommand::Malformed => {
                        &&& r.0 == WorkerState::Finished
                        &&& final(registry)@ == old(registry)@
                        &&& r.1.reply@.len() == 0
                        &&& r.1.effect == WorkerEffect::CloseConnection
                    },
                }),
                _ => {
                    &&& r.0 == WorkerState::Finished
                    &&& final(registry)@ == old(registry)@
                    &&& r.1.reply@.len() == 0
                    &&& r.1.effect == WorkerEffect::CloseConnection
                },
            }),
            WorkerState::Hosting { code } => (match event {
                WorkerEvent::PeerArrived => {
                    &&& r.0 == WorkerState::Funneling
                    &&& !final(registry)@.contains(code)
                    &&& (forall|c: i32|
                        c != code ==> (final(registry)@.contains(c) <==> old(
                            registry,
                        )@.contains(c)))
                    &&& r.1.reply@ =~= seq![1u8]
                    &&& r.1.effect == WorkerEffect::BeginFunnel
                },
                _ => {
                    &&& r.0 == WorkerState::Finished
                    &&& final(registry)@ == old(registry)@
                    &&& r.1.reply@.len() == 0
                    &&& r.1.effect == WorkerEffect::CloseConnection
                },
            }),
            _ => {
                &&& r.0 == WorkerState::Finished
                &&& final(registry)@ == old(registry)@
                &&& r.1.reply@.len() == 0
                &&& r.1.effect == WorkerEffect::CloseConnection
            },
        }),
{
    match state {
        WorkerState::AwaitingCommand => {
            match event {
                WorkerEvent::Command { data } => {
                    let cmd = parse_command(data.as_slice());
                    match cmd {
                        ClientCommand::CreateLobby => {
                            match registry.register_new_lobby() {
                                Some(code) => {
                                    let out = WorkerOutput {
                                        reply: reply_i32_le(code),
                                        effect: WorkerEffect::NoEffect,
                                    };
                                    (WorkerState::Hosting { code }, out)
                                },
                                None => {
                                    let out = WorkerOutput {
                                        reply: Vec::new(),
                                        effect: WorkerEffect::CloseConnection,
                                    };
                                    (WorkerState::Finished, out)
                                },
                            }
                        },
                        ClientCommand::JoinLobby { code } => {
                            if registry.contains(code) {
                                let out = WorkerOutput {
                                    reply: reply_i32_le(JOIN_OK),
                                    effect: WorkerEffect::SendPeerToHost { code },
                                };
                                (WorkerState::Finished, out)
                            } else {
                                let out = WorkerOutput {
                                    reply: reply_i32_le(JOIN_UNKNOWN),
                                    effect: WorkerEffect::NoEffect,
                                };
                                (WorkerState::AwaitingCommand, out)
                            }
                        },
                        ClientCommand::Malformed => {
                            let out = WorkerOutput {
                                reply: Vec::new(),
                                effect: WorkerEffect::CloseConnection,
                            };
                            (WorkerState::Finished, out)
                        },
                    }
                },
                _ => {
                    let out = WorkerOutput {
                        reply: Vec::new(),
                        effect: WorkerEffect::CloseConnection,
                    };
                    (WorkerState::Finished, out)
                },
            }
        },
        WorkerState::Hosting { code } => {
            match event {
                WorkerEvent::PeerArrived => {
                    let _ = registry.remove_code(code);
                    let out = WorkerOutput {
                        reply: peer_joined_notice(),
                        effect: WorkerEffect::BeginFunnel,
                    };
                    (WorkerState::Funneling, out)
                },
                _ => {
                    let out = WorkerOutput {
                        reply: Vec::new(),
                        effect: WorkerEffect::CloseConnection,
                    };
                    (WorkerState::Finished, out)
                },
            }
        },
        _ => {
            let out = WorkerOutput { reply: Vec::new(), effect: WorkerEffect::CloseConnection };
            (WorkerState::Finished, out)
        },
    }
}

/// What one read attempt in the funnel loop produced.
#[derive(Clone, Copy, PartialEq, Eq, Structural, Debug)]
pub enum ReadOutcome {
    /// A full 8-byte record was read.
    Packet,
    /// The socket has nothing more right now.
    WouldBlock,
    /// A hard failure (closed, reset).
    Failed,
}

/// What the funnel loop does next for one direction.
#[derive(Clone, Copy, PartialEq, Eq, Structural, Debug)]
pub enum FunnelStep {
    /// Write the record to the other side verbatim and read again.
    Forward,
    /// This direction is drained for now; move on.
    DoneForNow,
    /// Shut both sockets down and end the funnel.
    ShutdownBoth,
}

/// The funnel is byte-transparent: a complete record is forwarded verbatim,
/// would-block ends the drain of this direction, and any other error shuts
/// the relay of this pair down.
pub fn funnel_step(outcome: &ReadOutcome) -> (r: FunnelStep)
    ensures
        outcome is Packet ==> r == FunnelStep::Forward,
        outcome is WouldBlock ==> r == FunnelStep::DoneForNow,
        outcome is Failed ==> r == FunnelStep::ShutdownBoth,
{
    match outcome {
        ReadOutcome::Packet => FunnelStep::Forward,
        ReadOutcome::WouldBlock => FunnelStep::DoneForNow,
        ReadOutcome::Failed => FunnelStep::ShutdownBoth,
    }
}

} // verus!
