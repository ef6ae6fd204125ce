//! A container of zero-or-one server per kind, local to one runner.
//!
//! The container is the unit of server ownership: across the whole process a
//! given kind lives in exactly one container at a time, and relocation only
//! ever happens through checked take-then-emplace. Each cycle the container
//! runs every present server exactly once; a server may block (say, on a
//! vsync wait) only when it is the sole resident, so co-resident servers are
//! never starved by one blocking call.

use vstd::prelude::*;

verus! {

use crate::error::ExecError;
use crate::server::{AudioServer, DrawServer, SendGameServer, ServerKind, UpdateServer};

/// Owns zero or one instance of each server kind.
#[derive(Clone, Copy, Debug, PartialEq, Eq)]
pub struct ServerContainer {
    pub audio: Option<AudioServer>,
    pub draw: Option<DrawServer>,
    pub update: Option<UpdateServer>,
}

impl Default for ServerContainer {
    /// An empty container.
    fn default() -> (r: ServerContainer)
        ensures
            r == ServerContainer::spec_empty(),
    {
        ServerContainer { audio: None, draw: None, update: None }
    }
}

impl ServerContainer {
    /// The container with no servers.
    pub open spec fn spec_empty() -> ServerContainer {
        ServerContainer { audio: None, draw: None, update: None }
    }

    /// Whether the given kind is present.
    pub open spec fn spec_holds(self, kind: ServerKind) -> bool {
        match kind {
            ServerKind::Audio => self.audio is Some,
            ServerKind::Draw => self.draw is Some,
            ServerKind::Update => self.update is Some,
        }
    }

    /// How many servers are present.
    pub open spec fn present_count(self) -> int {
        (if self.audio is Some { 1int } else { 0int })
            + (if self.draw is Some { 1int } else { 0int })
            + (if self.update is Some { 1int } else { 0int })
    }

    /// Whether a lone resident may block: true iff at most one server is
    /// present.
    pub open spec fn spec_can_block(self) -> bool {
        self.present_count() <= 1
    }

    /// Every present server can still advance its cycle counters, and a
    /// present draw server has its context bound to this thread.
    pub open spec fn runnable(self) -> bool {
        &&& (self.audio matches Some(a) ==> a.state.can_count())
        &&& (self.draw matches Some(d) ==> d.state.can_count() && d.context_bound)
        &&& (self.update matches Some(u) ==> u.state.can_count())
    }

    /// The container after one cycle: every present server has run exactly
    /// once, allowed to block only if it was the sole resident.
    pub open spec fn spec_run_single(self) -> ServerContainer {
        let cb = self.spec_can_block();
        ServerContainer {
            audio: match self.audio {
                Some(a) => Some(AudioServer { state: a.state.after_run(cb) }),
                None => None,
            },
            draw: match self.draw {
                Some(d) => Some(
                    DrawServer { state: d.state.after_run(cb), context_bound: d.context_bound },
                ),
                None => None,
            },
            update: match self.update {
                Some(u) => Some(UpdateServer { state: u.state.after_run(cb) }),
                None => None,
            },
        }
    }

    /// The container and result of a take: the slot of `kind` is emptied, and
    /// a present server comes back in transferable form. Taking a draw server
    /// whose context cannot be detached fails.
    pub open spec fn spec_take(self, kind: ServerKind) -> (ServerContainer, Result<
        Option<SendGameServer>,
        ExecError,
    >) {
        match kind {
            ServerKind::Audio => (
                ServerContainer { audio: None, ..self },
                match self.audio {
                    Some(a) => Ok(Some(SendGameServer::Audio(a))),
                    None => Ok(None),
                },
            ),
            ServerKind::Draw => (
                ServerContainer { draw: None, ..self },
                match self.draw {
                    Some(d) => if d.context_bound {
                        Ok(Some(SendGameServer::Draw(d.spec_unbound())))
                    } else {
                        Err(ExecError::ContextBindError)
                    },
                    None => Ok(None),
                },
            ),
            ServerKind::Update => (
                ServerContainer { update: None, ..self },
                match self.update {
                    Some(u) => Ok(Some(SendGameServer::Update(u))),
                    None => Ok(None),
                },
            ),
        }
    }

    /// The container and result of an emplacement: the carried server fills
    /// its slot, the draw server's context being rebound on the way in.
    /// Emplacing a draw server whose context is still bound elsewhere fails
    /// and leaves the container unchanged.
    pub open spec fn spec_emplace(self, server: SendGameServer) -> (ServerContainer, Result<
        (),
        ExecError,
    >) {
        match server {
            SendGameServer::Audio(a) => (ServerContainer { audio: Some(a), ..self }, Ok(())),
            SendGameServer::Draw(d) => if !d.context_bound {
                (ServerContainer { draw: Some(d.spec_bound()), ..self }, Ok(()))
            } else {
                (self, Err(ExecError::ContextBindError))
            },
            SendGameServer::Update(u) => (ServerContainer { update: Some(u), ..self }, Ok(())),
        }
    }

    /// Run every present server exactly once, passing whether it may block on
    /// I/O. Blocking is permitted only when the container holds at most one
    /// server.
    pub fn run_single(&mut self, runner_frequency: u64) -> (r: Result<(), ExecError>)
        requires
            old(self).runnable(),
        ensures
            r is Ok,
            *final(self) == old(self).spec_run_single(),
    {
        let can_block = self.count_present() <= 1;
        if let Some(audio) = self.audio.as_mut() {
            audio.run(can_block, runner_frequency)?;
        }
        if let Some(draw) = self.draw.as_mut() {
            draw.run(can_block, runner_frequency)?;
        }
        if let Some(update) = self.update.as_mut() {
            update.run(can_block, runner_frequency)?;
        }
        Ok(())
    }

    /// How many servers are present.
    pub fn count_present(&self) -> (r: usize)
        ensures
            r == self.present_count(),
    {
        let mut count: usize = 0;
        if self.audio.is_some() {
            count = count + 1;
        }
        if self.draw.is_some() {
            count = count + 1;
        }
        if self.update.is_some() {
            count = count + 1;
        }
        count
    }

    /// True iff any server is present: drives the choice between busy-polling
    /// and idle-waiting.
    pub fn does_run(&self) -> (r: bool)
        ensures
            r == (self.spec_holds(ServerKind::Audio) || self.spec_holds(ServerKind::Update)
                || self.spec_holds(ServerKind::Draw)),
    {
        self.audio.is_some() || self.update.is_some() || self.draw.is_some()
    }
}

/// The take/emplace protocol shared by everything that owns servers. The
/// checked variants are the exclusive path for relocation: a take of an
/// absent kind is a normal error, a duplicate emplacement a fatal one.
pub trait ServerMover: Sized {
    /// Whether `stored()` faithfully reports this mover's contents. A mover
    /// that stands for a remote container — one owned by another thread —
    /// cannot report them, so it leaves this false and its contracts promise
    /// nothing; both movers of this crate own their containers and set it.
    open spec fn stored_known() -> bool {
        false
    }

    /// The servers this mover currently owns, where `stored_known()` holds.
    open spec fn stored(&self) -> ServerContainer {
        ServerContainer::spec_empty()
    }

    /// Remove and return the server of `kind` in transferable form; `None` if
    /// the kind is not present.
    fn take_server(&mut self, kind: ServerKind) -> (r: Result<Option<SendGameServer>, ExecError>)
        ensures
            Self::stored_known() ==> ({
                let (c, res) = old(self).stored().spec_take(kind);
                final(self).stored() == c && r == res
            }),
    ;

    /// Insert the carried server, converting it back to thread-affine form.
    fn emplace_server(&mut self, server: SendGameServer) -> (r: Result<(), ExecError>)
        ensures
            Self::stored_known() ==> ({
                let (c, res) = old(self).stored().spec_emplace(server);
                final(self).stored() == c && r == res
            }),
    ;

    /// As `take_server`, but an absent kind is reported as `ServerAbsent`.
    fn take_server_check(&mut self, kind: ServerKind) -> (r: Result<SendGameServer, ExecError>)
        ensures
            Self::stored_known() ==> ({
                let (c, res) = old(self).stored().spec_take(kind);
                final(self).stored() == c && r == match res {
                    Ok(Some(s)) => Ok(s),
                    Ok(None) => Err(ExecError::ServerAbsent(kind)),
                    Err(e) => Err(e),
                }
            }),
    {
        match self.take_server(kind)? {
            Some(server) => Ok(server),
            None => Err(ExecError::ServerAbsent(kind)),
        }
    }

    /// As `emplace_server`, but first checks that the kind is not already
    /// present; a duplicate is an invariant violation that the embedding
    /// program must treat as fatal, and leaves the mover unchanged.
    fn emplace_server_check(&mut self, server: SendGameServer) -> (r: Result<(), ExecError>)
        ensures
            Self::stored_known() && old(self).stored().spec_holds(server.spec_server_kind())
                ==> {
                &&& final(self).stored() == old(self).stored()
                &&& r == Err::<(), ExecError>(ExecError::InvariantViolation)
            },
            Self::stored_known() && !old(self).stored().spec_holds(server.spec_server_kind())
                ==> ({
                let (c, res) = old(self).stored().spec_emplace(server);
                final(self).stored() == c && r == res
            }),
    {
        if self.holds(server.server_kind()) {
            return Err(ExecError::InvariantViolation);
        }
        self.emplace_server(server)
    }

    /// Whether the kind is currently present, where `stored_known()` holds.
    fn holds(&self, kind: ServerKind) -> (r: bool)
        ensures
            Self::stored_known() ==> r == self.stored().spec_holds(kind),
    ;
}

impl ServerMover for ServerContainer {
    open spec fn stored_known() -> bool {
        true
    }

    open spec fn stored(&self) -> ServerContainer {
        *self
    }

    fn take_server(&mut self, kind: ServerKind) -> (r: Result<Option<SendGameServer>, ExecError>) {
        match kind {
            ServerKind::Audio => match self.audio.take() {
                Some(a) => match a.to_send() {
                    Ok(s) => Ok(Some(s)),
                    Err(e) => Err(e),
                },
                None => Ok(None),
            },
            ServerKind::Draw => match self.draw.take() {
                Some(d) => match d.to_send() {
                    Ok(s) => Ok(Some(s)),
                    Err(e) => Err(e),
                },
                None => Ok(None),
            },
            ServerKind::Update => match self.update.take() {
                Some(u) => match u.to_send() {
                    Ok(s) => Ok(Some(s)),
                    Err(e) => Err(e),
                },
                None => Ok(None),
            },
        }
    }

    fn emplace_server(&mut self, server: SendGameServer) -> (r: Result<(), ExecError>) {
        match server {
            SendGameServer::Audio(a) => {
                self.audio = Some(a);
                Ok(())
            },
            SendGameServer::Draw(d) => {
                if d.context_bound {
                    return Err(ExecError::ContextBindError);
                }
                self.draw = Some(DrawServer { state: d.state, context_bound: true });
                Ok(())
            },
            SendGameServer::Update(u) => {
                self.update = Some(u);
                Ok(())
            },
        }
    }

    fn holds(&self, kind: ServerKind) -> (r: bool) {
        match kind {
            ServerKind::Audio => self.audio.is_some(),
            ServerKind::Draw => self.draw.is_some(),
            ServerKind::Update => self.update.is_some(),
        }
    }
}

/// Taking an absent kind is a normal `ServerAbsent` result — never a panic —
/// and leaves the container as it was.
pub proof fn lemma_take_absent(c: ServerContainer, kind: ServerKind)
    requires
        !c.spec_holds(kind),
    ensures
        c.spec_take(kind) == (c, Ok::<Option<SendGameServer>, ExecError>(None)),
{
    let (c1, r) = c.spec_take(kind);
    assert(c1 == c);
}

/// With two or more servers resident, a cycle never lets any of them block:
/// every `blocking_cycles` counter is left untouched.
pub proof fn lemma_run_single_never_blocks_when_shared(c: ServerContainer)
    requires
        c.present_count() >= 2,
    ensures
        c.spec_run_single().audio matches Some(a) ==> a.state.blocking_cycles
            == c.audio->Some_0.state.blocking_cycles,
        c.spec_run_single().draw matches Some(d) ==> d.state.blocking_cycles
            == c.draw->Some_0.state.blocking_cycles,
        c.spec_run_single().update matches Some(u) ==> u.state.blocking_cycles
            == c.update->Some_0.state.blocking_cycles,
{
}

} // verus!
