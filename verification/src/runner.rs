//! Runners and the worker control protocol.
//!
//! A runner owns one [`ServerContainer`], a target frequency and pacing
//! state, and executes one cycle at a time. The main runner is embedded in
//! the controller's own event loop; a thread runner lives on a dedicated
//! worker thread whose loop the embedding program drives: it drains the
//! inbound control queue (blocking with a timeout only while the container is
//! empty), hands the drained batch to [`Runner::process_messages`], runs one
//! cycle, and performs the commanded pacing sleep.

use vstd::prelude::*;

verus! {

use crate::clock::ClockSync;
use crate::container::{ServerContainer, ServerMover};
use crate::error::ExecError;
use crate::server::{SendGameServer, ServerKind};

/// How long an idle worker blocks on its control queue before rechecking, in
/// milliseconds.
pub const DEFAULT_RECV_TIMEOUT_MS: u64 = 100;

/// A reply from a worker to the controller.
#[derive(Clone, Copy, Debug, PartialEq, Eq)]
pub enum FromRunnerMsg {
    /// The reply to a `RequestServer`: the taken server, or `None` if the
    /// kind was not present.
    MoveServer(Option<SendGameServer>),
}

/// A control message from the controller to a worker.
#[derive(Clone, Copy, Debug, PartialEq, Eq)]
pub enum ToRunnerMsg {
    /// Take the server of this kind and reply with `MoveServer`.
    RequestServer(ServerKind),
    /// Emplace this server; a duplicate kind is a fatal invariant violation.
    MoveServer(SendGameServer),
    /// Change the worker's target frequency, in cycles per second.
    SetFrequency(u64),
    /// Terminate the worker loop.
    Stop,
}

/// An execution context: a container of servers, a target frequency (cycles
/// per second, 0 = unthrottled) and pacing state.
#[derive(Clone, Copy, Debug, PartialEq, Eq)]
pub struct Runner {
    pub container: ServerContainer,
    pub sync: ClockSync,
    pub frequency: u64,
}

impl Default for Runner {
    /// An empty, unthrottled runner.
    fn default() -> (r: Runner)
        ensures
            r == Runner::spec_empty(),
    {
        Runner {
            container: ServerContainer { audio: None, draw: None, update: None },
            sync: ClockSync::new(),
            frequency: 0,
        }
    }
}

/// What one drained batch of control messages did to a worker.
pub struct WorkerStep {
    /// The worker loop must terminate (an orderly stop, or fatal).
    pub stop: bool,
    /// The invariant violation or take failure that made the stop fatal.
    pub fatal: Option<ExecError>,
    /// Replies to send back to the controller, in order.
    pub replies: Vec<FromRunnerMsg>,
}

/// The runner, replies, stop flag and fatal error after processing a batch of
/// control messages in arrival order. A `Stop` terminates processing; a
/// duplicate emplacement or a failed take is fatal and also terminates it.
pub open spec fn spec_process(r: Runner, msgs: Seq<ToRunnerMsg>) -> (Runner, Seq<FromRunnerMsg>, bool, Option<ExecError>)
    decreases msgs.len(),
{
    if msgs.len() == 0 {
        (r, Seq::<FromRunnerMsg>::empty(), false, None)
    } else {
        match msgs[0] {
            ToRunnerMsg::Stop => (r, Seq::<FromRunnerMsg>::empty(), true, None),
            ToRunnerMsg::SetFrequency(hz) => spec_process(
                Runner { frequency: hz, ..r },
                msgs.skip(1),
            ),
            ToRunnerMsg::MoveServer(server) => if r.container.spec_holds(
                server.spec_server_kind(),
            ) {
                (r, Seq::<FromRunnerMsg>::empty(), true, Some(ExecError::InvariantViolation))
            } else {
                let (c, res) = r.container.spec_emplace(server);
                match res {
                    Ok(_) => spec_process(Runner { container: c, ..r }, msgs.skip(1)),
                    Err(e) => (r, Seq::<FromRunnerMsg>::empty(), true, Some(e)),
                }
            },
            ToRunnerMsg::RequestServer(kind) => {
                let (c, res) = r.container.spec_take(kind);
                match res {
                    Ok(opt) => {
                        let (r2, replies, stop, fatal) = spec_process(
                            Runner { container: c, ..r },
                            msgs.skip(1),
                        );
                        (r2, seq![FromRunnerMsg::MoveServer(opt)] + replies, stop, fatal)
                    },
                    Err(e) => (Runner { container: c, ..r }, Seq::<FromRunnerMsg>::empty(), true, Some(e)),
                }
            },
        }
    }
}

impl Runner {
    /// An empty, unthrottled runner.
    pub open spec fn spec_empty() -> Runner {
        Runner {
            container: ServerContainer { audio: None, draw: None, update: None },
            sync: ClockSync::spec_new(),
            frequency: 0,
        }
    }

    /// Run one container cycle that ends at `now`, and decide how long the
    /// caller must sleep to hold the target frequency. The caller sleeps,
    /// then reports the wake time through [`Runner::observe_wake`].
    pub fn run_single(&mut self, now: u64) -> (r: Result<u64, ExecError>)
        requires
            old(self).container.runnable(),
            old(self).sync.sync_ok(now),
        ensures
            r is Ok,
            final(self).container == old(self).container.spec_run_single(),
            final(self).frequency == old(self).frequency,
            (final(self).sync, r->Ok_0) == old(self).sync.spec_sync(now, old(self).frequency),
    {
        self.container.run_single(self.frequency)?;
        Ok(self.sync.sync(now, self.frequency))
    }

    /// Report when the pacing sleep commanded by the last `run_single`
    /// actually ended; that time starts the next cycle.
    pub fn observe_wake(&mut self, woke: u64)
        requires
            old(self).sync.wake_ok(woke),
        ensures
            final(self).container == old(self).container,
            final(self).frequency == old(self).frequency,
            final(self).sync == old(self).sync.spec_observe(woke),
    {
        self.sync.observe_wake(woke);
    }

    /// Process one drained batch of control messages in arrival order.
    pub fn process_messages(&mut self, msgs: Vec<ToRunnerMsg>) -> (r: WorkerStep)
        ensures
            ({
                let (r2, replies, stop, fatal) = spec_process(*old(self), msgs@);
                &&& *final(self) == r2
                &&& r.replies@ == replies
                &&& r.stop == stop
                &&& r.fatal == fatal
            }),
    {
        let ghost target = spec_process(*self, msgs@);
        let mut replies: Vec<FromRunnerMsg> = Vec::new();
        let mut i: usize = 0;
        proof {
            assert(msgs@.skip(0) =~= msgs@);
            assert(replies@ + target.1 =~= target.1);
        }
        while i < msgs.len()
            invariant
                i <= msgs.len(),
                target == spec_process(*old(self), msgs@),
                ({
                    let (r2, rest, stop, fatal) = spec_process(*self, msgs@.skip(i as int));
                    &&& target.0 == r2
                    &&& target.1 == replies@ + rest
                    &&& target.2 == stop
                    &&& target.3 == fatal
                }),
            decreases msgs.len() - i,
        {
            proof {
                assert(msgs@.skip(i as int)[0] == msgs@[i as int]);
                assert(msgs@.skip(i as int).skip(1) =~= msgs@.skip(i + 1));
                assert(replies@ + Seq::<FromRunnerMsg>::empty() =~= replies@);
            }
            match msgs[i] {
                ToRunnerMsg::Stop => {
                    return WorkerStep { stop: true, fatal: None, replies };
                },
                ToRunnerMsg::SetFrequency(hz) => {
                    self.frequency = hz;
                },
                ToRunnerMsg::MoveServer(server) => {
                    match self.container.emplace_server_check(server) {
                        Ok(_) => {
                        },
                        Err(e) => {
                            return WorkerStep { stop: true, fatal: Some(e), replies };
                        },
                    }
                },
                ToRunnerMsg::RequestServer(kind) => {
                    let ghost old_replies = replies@;
                    match self.container.take_server(kind) {
                        Ok(opt) => {
                            replies.push(FromRunnerMsg::MoveServer(opt));
                            proof {
                                let rest = spec_process(*self, msgs@.skip(i + 1)).1;
                                assert(replies@ =~= old_replies + seq![
                                    FromRunnerMsg::MoveServer(opt),
                                ]);
                                assert(old_replies + (seq![FromRunnerMsg::MoveServer(opt)] + rest)
                                    =~= replies@ + rest);
                            }
                        },
                        Err(e) => {
                            return WorkerStep { stop: true, fatal: Some(e), replies };
                        },
                    }
                },
            }
            i = i + 1;
        }
        WorkerStep { stop: false, fatal: None, replies }
    }
}

/// Relocation into an occupied slot is fatal for the worker, never a silent
/// overwrite: a batch that opens with such an emplacement stops at once with
/// `InvariantViolation`, changes nothing, and sends no reply, whatever
/// follows in the batch.
pub proof fn lemma_process_duplicate_emplace_fatal(r: Runner, msgs: Seq<ToRunnerMsg>)
    requires
        msgs.len() > 0,
        msgs[0] matches ToRunnerMsg::MoveServer(server) && r.container.spec_holds(
            server.spec_server_kind(),
        ),
    ensures
        spec_process(r, msgs) == (
            r,
            Seq::<FromRunnerMsg>::empty(),
            true,
            Some(ExecError::InvariantViolation),
        ),
{
}

/// The runner embedded in the controller thread's own event loop; required
/// because the draw server is bound to the platform window and cannot run
/// elsewhere unless explicitly relocated.
#[derive(Clone, Copy, Debug, PartialEq, Eq)]
pub struct MainRunner {
    pub base: Runner,
}

impl MainRunner {
    /// Change the main runner's target frequency. It lives on the controller
    /// thread itself, so this is a direct write, not a control message.
    pub fn set_frequency(&mut self, frequency: u64)
        ensures
            final(self).base.frequency == frequency,
            final(self).base.container == old(self).base.container,
            final(self).base.sync == old(self).base.sync,
    {
        self.base.frequency = frequency;
    }
}

impl ServerMover for MainRunner {
    open spec fn stored_known() -> bool {
        true
    }

    open spec fn stored(&self) -> ServerContainer {
        self.base.container
    }

    fn take_server(&mut self, kind: ServerKind) -> (r: Result<Option<SendGameServer>, ExecError>) {
        self.base.container.take_server(kind)
    }

    fn emplace_server(&mut self, server: SendGameServer) -> (r: Result<(), ExecError>) {
        self.base.container.emplace_server(server)
    }

    fn holds(&self, kind: ServerKind) -> (r: bool) {
        self.base.container.holds(kind)
    }
}

/// A runner id, naming either the main runner or a worker.
pub type RunnerId = u8;

/// The reserved id of the main/controller runner.
pub const MAIN_RUNNER_ID: RunnerId = 3;

} // verus!
