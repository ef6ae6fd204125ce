//! The three server kinds and their transferable form.
//!
//! A server is a stateful subsystem doing periodic work. The work itself
//! (mixing audio, issuing draw calls, advancing a simulation) belongs to the
//! platform collaborators; what this module owns is the state the runtime
//! reasons about: how often a server has been run, whether it was allowed to
//! block, and — for the draw server — whether its rendering context is
//! currently bound to a thread. Moving a server between threads goes through
//! [`SendGameServer`], a sum type that carries exactly one server in a form
//! safe to move: the draw server's context must be unbound first and rebound
//! on the destination thread.

use vstd::prelude::*;

verus! {

use crate::error::ExecError;

/// The closed set of logical subsystems.
#[derive(Clone, Copy, Debug, PartialEq, Eq, Structural)]
pub enum ServerKind {
    Audio,
    Draw,
    Update,
}

/// Bookkeeping shared by every server: how many cycles it has run, and how
/// many of those were allowed to block.
#[derive(Clone, Copy, Debug, PartialEq, Eq, Structural)]
pub struct ServerState {
    /// Number of completed run cycles.
    pub cycles: u64,
    /// Number of run cycles that were allowed to block.
    pub blocking_cycles: u64,
}

impl ServerState {
    /// Both counters can still be advanced without overflow.
    pub open spec fn can_count(self) -> bool {
        self.cycles < u64::MAX && self.blocking_cycles < u64::MAX
    }

    /// The state after one more run cycle.
    pub open spec fn after_run(self, can_block: bool) -> ServerState {
        ServerState {
            cycles: (self.cycles + 1) as u64,
            blocking_cycles: if can_block {
                (self.blocking_cycles + 1) as u64
            } else {
                self.blocking_cycles
            },
        }
    }

    /// A fresh state with no cycles run.
    pub fn new() -> (r: ServerState)
        ensures
            r == (ServerState { cycles: 0, blocking_cycles: 0 }),
    {
        ServerState { cycles: 0, blocking_cycles: 0 }
    }

    /// Record one run cycle.
    pub fn record_run(&mut self, can_block: bool)
        requires
            old(self).can_count(),
        ensures
            *final(self) == old(self).after_run(can_block),
    {
        self.cycles = self.cycles + 1;
        if can_block {
            self.blocking_cycles = self.blocking_cycles + 1;
        }
    }
}

/// The audio server. Not thread-affine.
#[derive(Clone, Copy, Debug, PartialEq, Eq, Structural)]
pub struct AudioServer {
    pub state: ServerState,
}

/// The update (simulation) server. Not thread-affine.
#[derive(Clone, Copy, Debug, PartialEq, Eq, Structural)]
pub struct UpdateServer {
    pub state: ServerState,
}

/// The draw server. Thread-affine: it owns a rendering context that must be
/// bound to the thread that runs it, and unbound before the server may move.
#[derive(Clone, Copy, Debug, PartialEq, Eq, Structural)]
pub struct DrawServer {
    pub state: ServerState,
    /// Whether the rendering context is bound to the current thread.
    pub context_bound: bool,
}

impl AudioServer {
    pub fn new() -> (r: AudioServer)
        ensures
            r == (AudioServer { state: ServerState { cycles: 0, blocking_cycles: 0 } }),
    {
        AudioServer { state: ServerState::new() }
    }

    /// Run one cycle of audio work.
    pub fn run(&mut self, can_block: bool, frequency: u64) -> (r: Result<(), ExecError>)
        requires
            old(self).state.can_count(),
        ensures
            r is Ok,
            final(self).state == old(self).state.after_run(can_block),
    {
        let _ = frequency;
        self.state.record_run(can_block);
        Ok(())
    }

    /// Convert into the transferable form.
    pub fn to_send(self) -> (r: Result<SendGameServer, ExecError>)
        ensures
            r == Ok::<SendGameServer, ExecError>(SendGameServer::Audio(self)),
    {
        Ok(SendGameServer::Audio(self))
    }
}

impl UpdateServer {
    pub fn new() -> (r: UpdateServer)
        ensures
            r == (UpdateServer { state: ServerState { cycles: 0, blocking_cycles: 0 } }),
    {
        UpdateServer { state: ServerState::new() }
    }

    /// Run one cycle of simulation work.
    pub fn run(&mut self, can_block: bool, frequency: u64) -> (r: Result<(), ExecError>)
        requires
            old(self).state.can_count(),
        ensures
            r is Ok,
            final(self).state == old(self).state.after_run(can_block),
    {
        let _ = frequency;
        self.state.record_run(can_block);
        Ok(())
    }

    /// Convert into the transferable form.
    pub fn to_send(self) -> (r: Result<SendGameServer, ExecError>)
        ensures
            r == Ok::<SendGameServer, ExecError>(SendGameServer::Update(self)),
    {
        Ok(SendGameServer::Update(self))
    }
}

impl DrawServer {
    /// The draw server as the transferable form carries it: context unbound.
    pub open spec fn spec_unbound(self) -> DrawServer {
        DrawServer { state: self.state, context_bound: false }
    }

    /// The draw server as a container holds it: context bound.
    pub open spec fn spec_bound(self) -> DrawServer {
        DrawServer { state: self.state, context_bound: true }
    }

    pub fn new() -> (r: DrawServer)
        ensures
            r == (DrawServer {
                state: ServerState { cycles: 0, blocking_cycles: 0 },
                context_bound: true,
            }),
    {
        DrawServer { state: ServerState::new(), context_bound: true }
    }

    /// Run one cycle of draw work. The context must be bound to this thread.
    pub fn run(&mut self, can_block: bool, frequency: u64) -> (r: Result<(), ExecError>)
        requires
            old(self).state.can_count(),
            old(self).context_bound,
        ensures
            r is Ok,
            final(self).state == old(self).state.after_run(can_block),
            final(self).context_bound,
    {
        let _ = frequency;
        self.state.record_run(can_block);
        Ok(())
    }

    /// Convert into the transferable form, unbinding the rendering context.
    /// Fails if the context is not bound here and so cannot be detached.
    pub fn to_send(self) -> (r: Result<SendGameServer, ExecError>)
        ensures
            self.context_bound ==> r == Ok::<SendGameServer, ExecError>(
                SendGameServer::Draw(self.spec_unbound()),
            ),
            !self.context_bound ==> r == Err::<SendGameServer, ExecError>(
                ExecError::ContextBindError,
            ),
    {
        if self.context_bound {
            Ok(SendGameServer::Draw(DrawServer { state: self.state, context_bound: false }))
        } else {
            Err(ExecError::ContextBindError)
        }
    }
}

/// A server in a form safe to move across threads. Exactly one server, with
/// the draw server's context unbound.
#[derive(Clone, Copy, Debug, PartialEq, Eq, Structural)]
pub enum SendGameServer {
    Audio(AudioServer),
    Draw(DrawServer),
    Update(UpdateServer),
}

impl SendGameServer {
    /// The kind of the carried server.
    pub open spec fn spec_server_kind(self) -> ServerKind {
        match self {
            SendGameServer::Audio(_) => ServerKind::Audio,
            SendGameServer::Draw(_) => ServerKind::Draw,
            SendGameServer::Update(_) => ServerKind::Update,
        }
    }

    /// A transferable draw server must carry its context unbound.
    pub open spec fn wf(self) -> bool {
        match self {
            SendGameServer::Draw(d) => !d.context_bound,
            _ => true,
        }
    }

    /// The kind of the carried server.
    pub fn server_kind(&self) -> (r: ServerKind)
        ensures
            r == self.spec_server_kind(),
    {
        match *self {
            SendGameServer::Audio(_) => ServerKind::Audio,
            SendGameServer::Draw(_) => ServerKind::Draw,
            SendGameServer::Update(_) => ServerKind::Update,
        }
    }
}

} // verus!
