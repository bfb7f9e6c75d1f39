use vstd::prelude::*;

verus! {

/// Which helper workers of the arpeggiator run: the one that receives
/// patterns, and the one that plays the output on a MIDI port.
#[derive(Clone, Copy, Debug, PartialEq, Eq, Structural)]
pub struct WorkerRouter {
    pub pattern_worker: bool,
    pub output_worker: bool,
}

/// What the main worker is told: a command from the plugin, or the outcome
/// of starting a helper.
#[derive(Clone, Copy, Debug, PartialEq, Eq, Structural)]
pub enum RouterEvent {
    SetPort(u16),
    /// Messages to play; the caller holds them.
    SendToOutput,
    SetSampleRate,
    SetBlockSize,
    PatternWorkerStopped,
    Stop,
    PatternWorkerStarted(u16),
    PatternWorkerFailed,
    OutputWorkerStarted,
    OutputWorkerFailed,
}

/// What the main worker does next.
#[derive(Clone, Copy, Debug, PartialEq, Eq, Structural)]
pub enum RouterAction {
    Nothing,
    /// Stop the helpers that run (as flagged), then start the pattern worker
    /// on this port and report how it went.
    Restart { stop_pattern_worker: bool, stop_output_worker: bool, port: u16 },
    /// Start the output worker for this port and report how it went.
    StartOutputWorker(u16),
    /// Stop the helpers that run (as flagged).
    StopWorkers { stop_pattern_worker: bool, stop_output_worker: bool },
    /// Hand the command over to the output worker.
    ForwardToOutput,
}

pub open spec fn stop_all(s: WorkerRouter) -> RouterAction {
    RouterAction::StopWorkers { stop_pattern_worker: s.pattern_worker, stop_output_worker: s.output_worker }
}

pub open spec fn none_running() -> WorkerRouter {
    WorkerRouter { pattern_worker: false, output_worker: false }
}

/// The main worker's next state and action on an event.
pub open spec fn router_step(s: WorkerRouter, e: RouterEvent) -> (WorkerRouter, RouterAction) {
    match e {
        RouterEvent::SetPort(port) => (
            none_running(),
            RouterAction::Restart {
                stop_pattern_worker: s.pattern_worker,
                stop_output_worker: s.output_worker,
                port,
            },
        ),
        RouterEvent::PatternWorkerStarted(port) => (
            WorkerRouter { pattern_worker: true, ..s },
            RouterAction::StartOutputWorker(port),
        ),
        RouterEvent::PatternWorkerFailed => (s, RouterAction::Nothing),
        RouterEvent::OutputWorkerStarted => (WorkerRouter { output_worker: true, ..s }, RouterAction::Nothing),
        RouterEvent::OutputWorkerFailed => (none_running(), stop_all(s)),
        RouterEvent::SendToOutput | RouterEvent::SetSampleRate => (
            s,
            if s.output_worker { RouterAction::ForwardToOutput } else { RouterAction::Nothing },
        ),
        RouterEvent::SetBlockSize => (s, RouterAction::Nothing),
        RouterEvent::PatternWorkerStopped | RouterEvent::Stop => (none_running(), stop_all(s)),
    }
}

impl WorkerRouter {
    /// No helper runs.
    pub fn new() -> (r: WorkerRouter)
        ensures
            r == none_running(),
    {
        WorkerRouter { pattern_worker: false, output_worker: false }
    }

    fn stop_all(&mut self) -> (r: RouterAction)
        ensures
            r == stop_all(*old(self)),
            *final(self) == none_running(),
    {
        let r = RouterAction::StopWorkers {
            stop_pattern_worker: self.pattern_worker,
            stop_output_worker: self.output_worker,
        };
        self.pattern_worker = false;
        self.output_worker = false;
        r
    }

    /// Takes an event and says what to do (see `router_step`).
    pub fn step(&mut self, e: RouterEvent) -> (r: RouterAction)
        ensures
            (*final(self), r) == router_step(*old(self), e),
    {
        match e {
            RouterEvent::SetPort(port) => {
                let r = RouterAction::Restart {
                    stop_pattern_worker: self.pattern_worker,
                    stop_output_worker: self.output_worker,
                    port,
                };
                self.pattern_worker = false;
                self.output_worker = false;
                r
            },
            RouterEvent::PatternWorkerStarted(port) => {
                self.pattern_worker = true;
                RouterAction::StartOutputWorker(port)
            },
            RouterEvent::PatternWorkerFailed => RouterAction::Nothing,
            RouterEvent::OutputWorkerStarted => {
                self.output_worker = true;
                RouterAction::Nothing
            },
            RouterEvent::OutputWorkerFailed => self.stop_all(),
            RouterEvent::SendToOutput | RouterEvent::SetSampleRate => {
                if self.output_worker {
                    RouterAction::ForwardToOutput
                } else {
                    RouterAction::Nothing
                }
            },
            RouterEvent::SetBlockSize => RouterAction::Nothing,
            RouterEvent::PatternWorkerStopped | RouterEvent::Stop => self.stop_all(),
        }
    }
}

/// A port change stops exactly the helpers that run and starts the pattern
/// worker on the new port; once both helpers have started, output is
/// forwarded.
pub proof fn lemma_port_change_restarts(s: WorkerRouter, p: u16)
    ensures
        router_step(s, RouterEvent::SetPort(p)) == (
            none_running(),
            RouterAction::Restart { stop_pattern_worker: s.pattern_worker, stop_output_worker: s.output_worker, port: p },
        ),
        ({
            let s1 = router_step(s, RouterEvent::SetPort(p)).0;
            let (s2, a2) = router_step(s1, RouterEvent::PatternWorkerStarted(p));
            let s3 = router_step(s2, RouterEvent::OutputWorkerStarted).0;
            &&& a2 == RouterAction::StartOutputWorker(p)
            &&& router_step(s3, RouterEvent::SendToOutput).1 == RouterAction::ForwardToOutput
        }),
{
}

/// Output is forwarded only while the output worker runs; stopping leaves
/// no helper running.
pub proof fn lemma_forward_only_when_running(s: WorkerRouter)
    ensures
        router_step(s, RouterEvent::SendToOutput).1 == RouterAction::ForwardToOutput <==> s.output_worker,
        router_step(s, RouterEvent::Stop).0 == none_running(),
        router_step(s, RouterEvent::OutputWorkerFailed).0 == none_running(),
{
}

} // verus!
