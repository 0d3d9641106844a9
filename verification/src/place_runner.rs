use vstd::prelude::*;
use crate::{RunOptions, RunOptionsView};
use crate::broker::{model_queue, model_queue_all, CommandQueues};
use crate::decimal::{dec_rep, u64_to_string};
use crate::message::{Message, MessageView, RobloxEvent, RobloxEventView, RobloxMessage,
    RobloxMessageView};
use crate::relay::spec_observe_all;

verus! {

/// Lifecycle of one run: wait for the first instance, run, wind down
/// through the one common Draining state, stop. Every exit path (a Stop in
/// oneshot mode, cancellation, startup timeout, protocol violation) goes
/// through Draining exactly once.
#[derive(Clone, Copy, Debug, PartialEq, Eq, Structural)]
pub enum RunState {
    AwaitingFirstInstance,
    Running,
    Draining,
    Stopped,
}

/// What the control loop observed next: a broker message, the external
/// cancellation signal (which also stands for the sink going away), or the
/// startup timeout while no instance had started yet.
pub enum RunEvent {
    Received(Message),
    Cancelled,
    TimedOut,
}

/// Mathematical image of one control-loop observation.
pub enum RunEventView {
    Received(MessageView),
    Cancelled,
    TimedOut,
}

impl View for RunEvent {
    type V = RunEventView;

    open spec fn view(&self) -> RunEventView {
        match self {
            RunEvent::Received(message) => RunEventView::Received(message@),
            RunEvent::Cancelled => RunEventView::Cancelled,
            RunEvent::TimedOut => RunEventView::TimedOut,
        }
    }
}

/// What one step of the control loop decided.
#[derive(Clone, Copy, Debug, PartialEq, Eq, Structural)]
pub enum StepOutcome {
    /// Keep waiting on the next event.
    Continue,
    /// The run is over: wind down cleanly.
    Ended,
    /// The first message was not a Start: fatal, wind down and report.
    ProtocolError,
}

/// Everything one step does: the state it moves to, the commands it queues
/// (in order), the lines it forwards downstream (in order), and whether the
/// loop goes on.
pub struct StepModel {
    pub state: RunState,
    pub queue_ops: Seq<(Seq<char>, RobloxEventView)>,
    pub forward: Seq<RobloxMessageView>,
    pub outcome: StepOutcome,
}

/// Arguments for building a runner.
pub struct PlaceRunnerArgs {
    pub port: u16,
    pub script: String,
    pub opts: RunOptions,
}

/// The orchestrator: owns the run's state machine, consumes broker events,
/// queues commands, applies the timeout, cancellation and oneshot policy,
/// and triggers teardown.
pub struct PlaceRunner {
    port: u16,
    script: String,
    opts: RunOptions,
    state: RunState,
}

/// Mathematical image of the orchestrator.
pub struct PlaceRunnerView {
    pub port: u16,
    pub script: Seq<char>,
    pub opts: RunOptionsView,
    pub state: RunState,
}

impl View for PlaceRunner {
    type V = PlaceRunnerView;

    closed spec fn view(&self) -> PlaceRunnerView {
        PlaceRunnerView {
            port: self.port,
            script: self.script@,
            opts: self.opts@,
            state: self.state,
        }
    }
}

/// Whether the control loop is still live: teardown has not begun.
pub open spec fn live(r: PlaceRunnerView) -> bool {
    r.state == RunState::AwaitingFirstInstance || r.state == RunState::Running
}

/// The commands queued the moment an instance starts: RunScript first and,
/// in oneshot mode, Deregister right after, so the remote side can
/// disconnect voluntarily and the driver never has to kill a host process
/// it may not own.
pub open spec fn start_commands(r: PlaceRunnerView, server: Seq<char>) -> Seq<
    (Seq<char>, RobloxEventView),
> {
    let run_script = (
        server,
        RobloxEventView::RunScript { script: r.script, oneshot: r.opts.oneshot },
    );
    if r.opts.oneshot {
        seq![run_script, (server, RobloxEventView::Deregister { no_exit: r.opts.no_exit })]
    } else {
        seq![run_script]
    }
}

/// The orchestrator's transition function, the whole policy of one run:
/// a Start (first or later) queues the start commands and runs; a Stop ends
/// the run exactly when oneshot is active; a Messages batch is forwarded in
/// its internal order; cancellation and startup timeout end the run
/// cleanly; a Stop or Messages before the first Start is a protocol
/// violation. Every ending moves to Draining.
pub open spec fn spec_step(r: PlaceRunnerView, event: RunEventView) -> StepModel {
    match event {
        RunEventView::Received(message) => match message {
            MessageView::Start { server } => StepModel {
                state: RunState::Running,
                queue_ops: start_commands(r, server),
                forward: Seq::<RobloxMessageView>::empty(),
                outcome: StepOutcome::Continue,
            },
            MessageView::Stop { server: _ } => {
                if r.state == RunState::Running {
                    if r.opts.oneshot {
                        StepModel {
                            state: RunState::Draining,
                            queue_ops: Seq::<(Seq<char>, RobloxEventView)>::empty(),
                            forward: Seq::<RobloxMessageView>::empty(),
                            outcome: StepOutcome::Ended,
                        }
                    } else {
                        StepModel {
                            state: RunState::Running,
                            queue_ops: Seq::<(Seq<char>, RobloxEventView)>::empty(),
                            forward: Seq::<RobloxMessageView>::empty(),
                            outcome: StepOutcome::Continue,
                        }
                    }
                } else {
                    StepModel {
                        state: RunState::Draining,
                        queue_ops: Seq::<(Seq<char>, RobloxEventView)>::empty(),
                        forward: Seq::<RobloxMessageView>::empty(),
                        outcome: StepOutcome::ProtocolError,
                    }
                }
            },
            MessageView::Messages(batch) => {
                if r.state == RunState::Running {
                    StepModel {
                        state: RunState::Running,
                        queue_ops: Seq::<(Seq<char>, RobloxEventView)>::empty(),
                        forward: batch,
                        outcome: StepOutcome::Continue,
                    }
                } else {
                    StepModel {
                        state: RunState::Draining,
                        queue_ops: Seq::<(Seq<char>, RobloxEventView)>::empty(),
                        forward: Seq::<RobloxMessageView>::empty(),
                        outcome: StepOutcome::ProtocolError,
                    }
                }
            },
        },
        RunEventView::Cancelled => StepModel {
            state: RunState::Draining,
            queue_ops: Seq::<(Seq<char>, RobloxEventView)>::empty(),
            forward: Seq::<RobloxMessageView>::empty(),
            outcome: StepOutcome::Ended,
        },
        RunEventView::TimedOut => StepModel {
            state: RunState::Draining,
            queue_ops: Seq::<(Seq<char>, RobloxEventView)>::empty(),
            forward: Seq::<RobloxMessageView>::empty(),
            outcome: StepOutcome::Ended,
        },
    }
}

impl PlaceRunner {
    pub fn new(args: PlaceRunnerArgs) -> (r: Self)
        ensures
            r@.port == args.port,
            r@.script == args.script@,
            r@.opts == args.opts@,
            r@.state == RunState::AwaitingFirstInstance,
    {
        PlaceRunner {
            port: args.port,
            script: args.script,
            opts: args.opts,
            state: RunState::AwaitingFirstInstance,
        }
    }

    /// The state the run is in.
    pub fn state(&self) -> (s: RunState)
        ensures
            s == self@.state,
    {
        self.state
    }

    /// The port the broker should listen on.
    pub fn port(&self) -> (p: u16)
        ensures
            p == self@.port,
    {
        self.port
    }

    /// An instance started: immediately queue RunScript for it and, in
    /// oneshot mode, Deregister right after.
    pub fn handle_server_start(&self, queues: &mut CommandQueues, server: String)
        requires
            old(queues).wf(),
        ensures
            final(queues).wf(),
            final(queues)@ == model_queue_all(old(queues)@, start_commands(self@, server@)),
    {
        let ghost m0 = queues@;
        let ghost ops = start_commands(self@, server@);
        queues.queue_event(
            server.clone(),
            RobloxEvent::RunScript { script: self.script.clone(), oneshot: self.opts.oneshot },
        );
        if self.opts.oneshot {
            queues.queue_event(server, RobloxEvent::Deregister { no_exit: self.opts.no_exit });
            proof {
                let ops1 = seq![ops[0]];
                let empty = Seq::<(Seq<char>, RobloxEventView)>::empty();
                assert(ops.len() == 2);
                assert(ops.drop_last() =~= ops1);
                assert(ops1.drop_last() =~= empty);
                assert(model_queue_all(m0, empty) == m0);
                assert(ops1.last() == ops[0]);
                assert(model_queue_all(m0, ops1) == model_queue(m0, ops[0].0, ops[0].1));
                assert(ops.last() == ops[1]);
                assert(model_queue_all(m0, ops) == model_queue(
                    model_queue(m0, ops[0].0, ops[0].1),
                    ops[1].0,
                    ops[1].1,
                ));
            }
        } else {
            proof {
                let empty = Seq::<(Seq<char>, RobloxEventView)>::empty();
                assert(ops.len() == 1);
                assert(ops.drop_last() =~= empty);
                assert(model_queue_all(m0, empty) == m0);
                assert(ops.last() == ops[0]);
                assert(model_queue_all(m0, ops) == model_queue(m0, ops[0].0, ops[0].1));
            }
        }
    }

    /// One turn of the control loop: consume the event the loop observed,
    /// move the state machine, queue whatever commands the event calls for,
    /// and hand back the lines to forward downstream together with whether
    /// the loop goes on. The startup timeout is only ever raced while no
    /// instance has started yet.
    pub fn step(&mut self, queues: &mut CommandQueues, event: RunEvent) -> (r: (
        StepOutcome,
        Vec<RobloxMessage>,
    ))
        requires
            old(queues).wf(),
            live(old(self)@),
            event is TimedOut ==> old(self)@.state == RunState::AwaitingFirstInstance,
        ensures
            final(queues).wf(),
            final(self)@.port == old(self)@.port,
            final(self)@.script == old(self)@.script,
            final(self)@.opts == old(self)@.opts,
            final(self)@.state == spec_step(old(self)@, event@).state,
            r.0 == spec_step(old(self)@, event@).outcome,
            r.1.deep_view() == spec_step(old(self)@, event@).forward,
            final(queues)@ == model_queue_all(old(queues)@, spec_step(old(self)@, event@).queue_ops),
    {
        let ghost r0 = self@;
        let ghost m0 = queues@;
        let ghost ev = event@;
        match event {
            RunEvent::Received(message) => match message {
                Message::Start { server } => {
                    self.handle_server_start(queues, server);
                    self.state = RunState::Running;
                    let forward: Vec<RobloxMessage> = Vec::new();
                    proof {
                        assert(forward.deep_view() =~= Seq::<RobloxMessageView>::empty());
                    }
                    (StepOutcome::Continue, forward)
                },
                Message::Stop { server: _ } => {
                    let outcome: StepOutcome = if self.state == RunState::Running {
                        if self.opts.oneshot {
                            self.state = RunState::Draining;
                            StepOutcome::Ended
                        } else {
                            StepOutcome::Continue
                        }
                    } else {
                        self.state = RunState::Draining;
                        StepOutcome::ProtocolError
                    };
                    let forward: Vec<RobloxMessage> = Vec::new();
                    proof {
                        assert(forward.deep_view() =~= Seq::<RobloxMessageView>::empty());
                        assert(model_queue_all(m0, spec_step(r0, ev).queue_ops) == m0);
                    }
                    (outcome, forward)
                },
                Message::Messages(batch) => {
                    if self.state == RunState::Running {
                        proof {
                            assert(model_queue_all(m0, spec_step(r0, ev).queue_ops) == m0);
                        }
                        (StepOutcome::Continue, batch)
                    } else {
                        self.state = RunState::Draining;
                        let forward: Vec<RobloxMessage> = Vec::new();
                        proof {
                            assert(forward.deep_view() =~= Seq::<RobloxMessageView>::empty());
                            assert(model_queue_all(m0, spec_step(r0, ev).queue_ops) == m0);
                        }
                        (StepOutcome::ProtocolError, forward)
                    }
                },
            },
            RunEvent::Cancelled => {
                self.state = RunState::Draining;
                let forward: Vec<RobloxMessage> = Vec::new();
                proof {
                    assert(forward.deep_view() =~= Seq::<RobloxMessageView>::empty());
                    assert(model_queue_all(m0, spec_step(r0, ev).queue_ops) == m0);
                }
                (StepOutcome::Ended, forward)
            },
            RunEvent::TimedOut => {
                self.state = RunState::Draining;
                let forward: Vec<RobloxMessage> = Vec::new();
                proof {
                    assert(forward.deep_view() =~= Seq::<RobloxMessageView>::empty());
                    assert(model_queue_all(m0, spec_step(r0, ev).queue_ops) == m0);
                }
                (StepOutcome::Ended, forward)
            },
        }
    }

    /// Teardown, reached from every exit path through Draining and enabled
    /// nowhere else: close every broker queue and leave the runner Stopped,
    /// from where neither another step nor another teardown is possible.
    /// The caller removes the installed automation artifact alongside this
    /// call, so both happen exactly once per run.
    pub fn stop(&mut self, queues: &mut CommandQueues)
        requires
            old(self)@.state == RunState::Draining,
        ensures
            final(self)@.port == old(self)@.port,
            final(self)@.script == old(self)@.script,
            final(self)@.opts == old(self)@.opts,
            final(self)@.state == RunState::Stopped,
            final(queues).wf(),
            final(queues)@ == Map::<Seq<char>, Seq<RobloxEventView>>::empty(),
    {
        queues.stop();
        self.state = RunState::Stopped;
    }

    /// The argument list handed to the host application's launcher: the
    /// team-test variant names the place and universe; the server variant
    /// also names the creator and the client count. The caller copies the
    /// place file into place beside the plugins directory before launching
    /// the server variant.
    pub fn get_studio_args(&self) -> (r: Vec<String>)
        requires
            self@.opts.place_id is Some,
            self@.opts.universe_id is Some,
            !self@.opts.team_test ==> self@.opts.creator_id is Some
                && self@.opts.creator_type is Some,
        ensures
            r.deep_view() == spec_studio_args(self@.opts),
    {
        let mut r: Vec<String> = Vec::new();
        if self.opts.team_test {
            r.push(String::from_str("-task"));
            r.push(String::from_str("StartTeamTest"));
            r.push(String::from_str("-placeId"));
            r.push(u64_to_string(self.opts.place_id.unwrap()));
            r.push(String::from_str("-universeId"));
            r.push(u64_to_string(self.opts.universe_id.unwrap()));
            proof {
                assert(r.deep_view() =~= spec_studio_args(self@.opts));
            }
        } else {
            r.push(String::from_str("-task"));
            r.push(String::from_str("StartServer"));
            r.push(String::from_str("-placeId"));
            r.push(u64_to_string(self.opts.place_id.unwrap()));
            r.push(String::from_str("-universeId"));
            r.push(u64_to_string(self.opts.universe_id.unwrap()));
            r.push(String::from_str("-creatorId"));
            r.push(u64_to_string(self.opts.creator_id.unwrap()));
            r.push(String::from_str("-creatorType"));
            r.push(u64_to_string(self.opts.creator_type.unwrap() as u64));
            r.push(String::from_str("-numtestserverplayersuponstartup"));
            r.push(u64_to_string(self.opts.num_clients as u64));
            proof {
                assert(r.deep_view() =~= spec_studio_args(self@.opts));
            }
        }
        r
    }
}

/// The launcher argument list, as sequences of characters.
pub open spec fn spec_studio_args(o: RunOptionsView) -> Seq<Seq<char>> {
    if o.team_test {
        seq![
            "-task"@,
            "StartTeamTest"@,
            "-placeId"@,
            dec_rep(o.place_id.unwrap() as nat),
            "-universeId"@,
            dec_rep(o.universe_id.unwrap() as nat),
        ]
    } else {
        seq![
            "-task"@,
            "StartServer"@,
            "-placeId"@,
            dec_rep(o.place_id.unwrap() as nat),
            "-universeId"@,
            dec_rep(o.universe_id.unwrap() as nat),
            "-creatorId"@,
            dec_rep(o.creator_id.unwrap() as nat),
            "-creatorType"@,
            dec_rep(o.creator_type.unwrap() as nat),
            "-numtestserverplayersuponstartup"@,
            dec_rep(o.num_clients as nat),
        ]
    }
}

/// One whole run, replayed over the events its control loop observed: the
/// runner, the broker queues, every line forwarded downstream so far (in
/// forwarding order), and how many times teardown has run.
pub struct RunModel {
    pub runner: PlaceRunnerView,
    pub queues: Map<Seq<char>, Seq<RobloxEventView>>,
    pub forwarded: Seq<RobloxMessageView>,
    pub teardowns: nat,
}

/// A run about to begin: awaiting its first instance, nothing forwarded,
/// teardown not yet run.
pub open spec fn initial_run(r: PlaceRunnerView, q: Map<Seq<char>, Seq<RobloxEventView>>) -> RunModel {
    RunModel {
        runner: PlaceRunnerView { state: RunState::AwaitingFirstInstance, ..r },
        queues: q,
        forwarded: Seq::<RobloxMessageView>::empty(),
        teardowns: 0,
    }
}

/// The driver protocol around one observed event: while the run is live the
/// event goes through the state machine, and the moment the machine reaches
/// Draining the driver tears down — broker queues closed, artifact removed —
/// and the run is Stopped. Events observed after that change nothing.
pub open spec fn spec_run_once(model: RunModel, event: RunEventView) -> RunModel {
    if live(model.runner) {
        let s = spec_step(model.runner, event);
        let stepped = RunModel {
            runner: PlaceRunnerView { state: s.state, ..model.runner },
            queues: model_queue_all(model.queues, s.queue_ops),
            forwarded: model.forwarded + s.forward,
            teardowns: model.teardowns,
        };
        if s.state == RunState::Draining {
            RunModel {
                runner: PlaceRunnerView { state: RunState::Stopped, ..model.runner },
                queues: Map::<Seq<char>, Seq<RobloxEventView>>::empty(),
                forwarded: stepped.forwarded,
                teardowns: model.teardowns + 1,
            }
        } else {
            stepped
        }
    } else {
        model
    }
}

/// A whole run: the observed events applied in order.
pub open spec fn spec_run(model: RunModel, events: Seq<RunEventView>) -> RunModel
    decreases events.len(),
{
    if events.len() == 0 {
        model
    } else {
        spec_run_once(spec_run(model, events.drop_last()), events.last())
    }
}

/// Between events, a run is in one of exactly two conditions: still live
/// with teardown never run, or stopped with teardown run exactly once.
pub open spec fn run_inv(model: RunModel) -> bool {
    ||| live(model.runner) && model.teardowns == 0
    ||| model.runner.state == RunState::Stopped && model.teardowns == 1
}

/// Law: over any sequence of observed events, teardown — broker shutdown
/// and artifact removal — runs at most once, and it has run exactly once
/// whenever the run is over.
pub proof fn lemma_run_teardown_invariant(model: RunModel, events: Seq<RunEventView>)
    requires
        run_inv(model),
    ensures
        run_inv(spec_run(model, events)),
        spec_run(model, events).teardowns <= 1,
    decreases events.len(),
{
    if events.len() > 0 {
        lemma_run_teardown_invariant(model, events.drop_last());
    }
}

/// Law: a cancellation observed at any point of any run makes teardown run
/// exactly once — never zero times, never twice — no matter what else the
/// run observed before or after it.
pub proof fn lemma_cancellation_exactly_once(model: RunModel, events: Seq<RunEventView>)
    requires
        run_inv(model),
        exists|i: int| 0 <= i < events.len() && events[i] is Cancelled,
    ensures
        spec_run(model, events).teardowns == 1,
    decreases events.len(),
{
    let m1 = spec_run(model, events.drop_last());
    lemma_run_teardown_invariant(model, events.drop_last());
    if events.last() is Cancelled {
    } else {
        let i = choose|i: int| 0 <= i < events.len() && events[i] is Cancelled;
        assert(events.drop_last()[i] == events[i]);
        lemma_cancellation_exactly_once(model, events.drop_last());
    }
}

/// Law: over any whole run, the final exit code is 1 exactly when at least
/// one ScriptError line was forwarded downstream, and 0 otherwise.
pub proof fn lemma_run_exit_code(model: RunModel, events: Seq<RunEventView>)
    requires
        model.forwarded.len() == 0,
    ensures
        spec_observe_all(0, spec_run(model, events).forwarded) == if crate::relay::has_script_error(
            spec_run(model, events).forwarded,
        ) {
            1int
        } else {
            0int
        },
{
    crate::relay::lemma_exit_code_iff_script_error(spec_run(model, events).forwarded);
}

/// Law: in oneshot mode, a Start for a registered instance queues exactly
/// two commands for it, RunScript then Deregister, in that order, and
/// touches no other instance's queue and no registration.
pub proof fn lemma_oneshot_start_queues_two(
    r: PlaceRunnerView,
    m: Map<Seq<char>, Seq<RobloxEventView>>,
    server: Seq<char>,
)
    requires
        r.opts.oneshot,
        m.contains_key(server),
    ensures
        ({
            let m2 = model_queue_all(m, start_commands(r, server));
            &&& m2.dom() == m.dom()
            &&& m2[server] == m[server].push(
                RobloxEventView::RunScript { script: r.script, oneshot: true },
            ).push(RobloxEventView::Deregister { no_exit: r.opts.no_exit })
            &&& forall|k: Seq<char>| m.contains_key(k) && k != server ==> m2[k] == m[k]
        }),
{
    let ops = start_commands(r, server);
    let run_script = RobloxEventView::RunScript { script: r.script, oneshot: true };
    let dereg = RobloxEventView::Deregister { no_exit: r.opts.no_exit };
    let m1 = m.insert(server, m[server].push(run_script));
    let m2 = m1.insert(server, m1[server].push(dereg));
    let ops1 = seq![ops[0]];
    let empty = Seq::<(Seq<char>, RobloxEventView)>::empty();
    assert(ops.len() == 2);
    assert(ops.drop_last() =~= ops1);
    assert(ops1.drop_last() =~= empty);
    assert(model_queue_all(m, empty) == m);
    assert(ops1.last() == ops[0]);
    assert(ops[0].1 == run_script);
    assert(model_queue_all(m, ops1) == model_queue(m, ops[0].0, ops[0].1));
    assert(model_queue(m, server, run_script) == m1);
    assert(ops.last() == ops[1]);
    assert(model_queue_all(m, ops) == model_queue(m1, server, dereg));
    assert(m1.contains_key(server));
    assert(model_queue_all(m, ops) == m2);
    assert(m2.dom() =~= m.dom());
}

/// Law: while the run is live past its first Start, a Stop message ends
/// the run exactly when oneshot mode is active; otherwise the run goes on
/// unchanged. Either way a Stop queues nothing and forwards nothing.
pub proof fn lemma_stop_ends_run_iff_oneshot(r: PlaceRunnerView, server: Seq<char>)
    requires
        r.state == RunState::Running,
    ensures
        ({
            let s = spec_step(r, RunEventView::Received(MessageView::Stop { server }));
            &&& (s.outcome == StepOutcome::Ended) <==> r.opts.oneshot
            &&& (s.state == RunState::Draining) <==> r.opts.oneshot
            &&& !r.opts.oneshot ==> s.state == RunState::Running && s.outcome
                == StepOutcome::Continue
            &&& s.queue_ops.len() == 0
            &&& s.forward.len() == 0
        }),
{
}

/// Law: a startup timeout before any Start ends the run cleanly: nothing
/// is ever queued, nothing is forwarded, and the exit code over the (empty)
/// forwarded stream is 0.
pub proof fn lemma_timeout_is_clean(
    r: PlaceRunnerView,
    m: Map<Seq<char>, Seq<RobloxEventView>>,
)
    requires
        r.state == RunState::AwaitingFirstInstance,
    ensures
        ({
            let s = spec_step(r, RunEventView::TimedOut);
            &&& s.outcome == StepOutcome::Ended
            &&& s.state == RunState::Draining
            &&& s.queue_ops.len() == 0
            &&& s.forward.len() == 0
            &&& model_queue_all(m, s.queue_ops) == m
            &&& spec_observe_all(0, s.forward) == 0
        }),
{
}

/// Law: a run whose only observation is the startup timeout — no Start
/// arrived within the window — ends stopped with nothing ever forwarded,
/// an exit code of 0, and teardown run exactly once; and since the timeout
/// queues nothing, no RunScript command was ever queued.
pub proof fn lemma_timeout_run_is_clean(
    r: PlaceRunnerView,
    m: Map<Seq<char>, Seq<RobloxEventView>>,
)
    ensures
        ({
            let ended = spec_run(initial_run(r, m), seq![RunEventView::TimedOut]);
            &&& ended.runner.state == RunState::Stopped
            &&& ended.forwarded.len() == 0
            &&& ended.teardowns == 1
            &&& spec_observe_all(0, ended.forwarded) == 0
        }),
{
    let evs = seq![RunEventView::TimedOut];
    assert(evs.drop_last() =~= Seq::<RunEventView>::empty());
    assert(spec_run(initial_run(r, m), evs.drop_last()) == initial_run(r, m));
    assert(Seq::<RobloxMessageView>::empty() + Seq::<RobloxMessageView>::empty()
        =~= Seq::<RobloxMessageView>::empty());
}

/// Law: cancellation in any live state moves the run to Draining with
/// nothing queued and nothing forwarded; Draining is the only state where
/// teardown is enabled, stepping is not possible there, and after teardown
/// the runner is Stopped, where neither stepping nor teardown is enabled —
/// so broker shutdown and artifact removal happen exactly once, never zero
/// times and never twice.
pub proof fn lemma_cancellation_tears_down_once(
    r: PlaceRunnerView,
    m: Map<Seq<char>, Seq<RobloxEventView>>,
)
    requires
        live(r),
    ensures
        ({
            let s = spec_step(r, RunEventView::Cancelled);
            let drained = PlaceRunnerView { state: s.state, ..r };
            let stopped = PlaceRunnerView { state: RunState::Stopped, ..r };
            &&& s.state == RunState::Draining
            &&& s.outcome == StepOutcome::Ended
            &&& s.queue_ops.len() == 0
            &&& s.forward.len() == 0
            &&& model_queue_all(m, s.queue_ops) == m
            &&& !live(drained)
            &&& !live(stopped)
            &&& stopped.state != RunState::Draining
        }),
{
}

} // verus!
