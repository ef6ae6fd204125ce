//! Relocation of a server between runners.
//!
//! [`move_server`] is the exclusive path for changing which runner owns a
//! server: a checked take on the source followed by a checked emplacement on
//! the destination. A source that lacks the kind is a normal `ServerAbsent`
//! result; a destination that already holds it would be a fatal coordination
//! error, so the caller must rule it out. The embedding program resolves
//! runner ids to the main runner or to a worker's handle and calls this with
//! both movers; a worker-side mover carries out its half through the control
//! messages that [`crate::runner::Runner::process_messages`] interprets.

use vstd::prelude::*;

verus! {

use crate::container::{ServerContainer, ServerMover};
use crate::error::ExecError;
use crate::server::{SendGameServer, ServerKind, ServerState};

impl ServerContainer {
    /// The bookkeeping state of the server of `kind`, if present. Two
    /// containers with equal snapshots for every kind behave alike.
    pub open spec fn state_of(self, kind: ServerKind) -> Option<ServerState> {
        match kind {
            ServerKind::Audio => match self.audio {
                Some(a) => Some(a.state),
                None => None,
            },
            ServerKind::Draw => match self.draw {
                Some(d) => Some(d.state),
                None => None,
            },
            ServerKind::Update => match self.update {
                Some(u) => Some(u.state),
                None => None,
            },
        }
    }

    /// A present draw server has its context bound, so it can be detached.
    pub open spec fn draw_detachable(self) -> bool {
        self.draw matches Some(d) ==> d.context_bound
    }
}

/// Move the server of `kind` from one runner's container to another's: take
/// it from the source — `ServerAbsent` if not present — and emplace it into
/// the destination, which must not already hold the kind. The relocation is
/// pinned only for movers that own their containers (`stored_known`); for a
/// mover standing in for a remote runner the verified guarantee lives in the
/// worker's own `process_messages`.
pub fn move_server<F: ServerMover, T: ServerMover>(
    from: &mut F,
    to: &mut T,
    kind: ServerKind,
) -> (r: Result<(), ExecError>)
    requires
        !old(to).stored().spec_holds(kind),
        old(from).stored().draw_detachable(),
    ensures
        F::stored_known() && T::stored_known() && old(from).stored().spec_holds(kind) ==> {
            &&& r is Ok
            &&& final(from).stored() == old(from).stored().spec_take(kind).0
            &&& final(to).stored() == old(to).stored().spec_emplace(
                old(from).stored().spec_take(kind).1->Ok_0->Some_0,
            ).0
        },
        F::stored_known() && T::stored_known() && !old(from).stored().spec_holds(kind) ==> {
            &&& r == Err::<(), ExecError>(ExecError::ServerAbsent(kind))
            &&& final(from).stored() == old(from).stored()
            &&& final(to).stored() == old(to).stored()
        },
{
    let server = from.take_server_check(kind)?;
    to.emplace_server_check(server)
}

/// After a legal relocation the destination holds exactly the moved server —
/// with its bookkeeping state intact — and the source no longer does, while
/// every other kind stays where it was on both sides.
pub proof fn lemma_move_server_relocates(from: ServerContainer, to: ServerContainer, kind: ServerKind)
    requires
        from.spec_holds(kind),
        !to.spec_holds(kind),
        from.draw_detachable(),
    ensures
        ({
            let f1 = from.spec_take(kind).0;
            let moved = from.spec_take(kind).1->Ok_0->Some_0;
            let t1 = to.spec_emplace(moved).0;
            &&& from.spec_take(kind).1 is Ok
            &&& to.spec_emplace(moved).1 is Ok
            &&& !f1.spec_holds(kind)
            &&& t1.spec_holds(kind)
            &&& t1.state_of(kind) == from.state_of(kind)
            &&& forall|k: ServerKind| k != kind ==> f1.state_of(k) == from.state_of(k)
                && f1.spec_holds(k) == from.spec_holds(k)
            &&& forall|k: ServerKind| k != kind ==> t1.state_of(k) == to.state_of(k)
                && t1.spec_holds(k) == to.spec_holds(k)
        }),
{
}

/// Round trip: taking the sole server of a container and emplacing it into an
/// empty one reproduces that container exactly — so the new container
/// is indistinguishable from the old by `does_run` and by the outcome of any
/// run of cycles.
pub proof fn lemma_take_emplace_round_trip(a: ServerContainer, kind: ServerKind)
    requires
        a.spec_holds(kind),
        a.present_count() == 1,
        a.draw_detachable(),
    ensures
        ({
            let taken = a.spec_take(kind).1;
            let b = ServerContainer::spec_empty().spec_emplace(taken->Ok_0->Some_0).0;
            &&& taken is Ok
            &&& b == a
            &&& b.spec_run_single() == a.spec_run_single()
        }),
{
    let taken = a.spec_take(kind).1;
    let b = ServerContainer::spec_empty().spec_emplace(taken->Ok_0->Some_0).0;
    assert(b == a);
}

} // verus!
