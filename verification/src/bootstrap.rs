//! Bringing the daemon up: probe its API, and where it does not answer,
//! look for its command-line tool, start it, and poll until it answers or
//! the polls run out. The caller carries out each step and hands back what
//! came of it.

use vstd::prelude::*;

verus! {

/// Seconds that a probe of the API may take.
pub const PROBE_TIMEOUT_SECS: u64 = 3;

/// Seconds to wait after a poll that got no answer.
pub const POLL_INTERVAL_SECS: u64 = 1;

/// Number of polls after the daemon was started.
pub const MAX_POLLS: u8 = 30;

/// The kind of system that the daemon is started on.
#[derive(Clone, Copy, PartialEq, Eq, Structural, Debug)]
pub enum Platform {
    /// The daemon is registered as a service, which is tried first.
    Windows,
    /// The daemon is started as a background process.
    Other,
}

/// Why the daemon could not be brought up.
#[derive(Clone, Copy, PartialEq, Eq, Structural, Debug)]
pub enum BootFailure {
    /// The command-line tool is not on the path.
    ToolMissing,
    /// The daemon could not be started.
    StartFailed,
    /// The daemon was started but did not answer in time.
    TimedOut,
}

/// How the bootstrap ended.
#[derive(Clone, Copy, PartialEq, Eq, Structural, Debug)]
pub enum BootOutcome {
    /// The API answered the first probe.
    AlreadyRunning,
    /// The daemon was started and answered a poll.
    Started,
    /// The daemon is not up.
    Failed(BootFailure),
}

/// What the caller is to do next.
#[derive(Clone, Copy, PartialEq, Eq, Structural, Debug)]
pub enum BootStep {
    /// Probe the API's version endpoint.
    Probe,
    /// Find out whether the command-line tool is on the path.
    LocateTool,
    /// Start the daemon's registered service.
    StartService,
    /// Launch the daemon detached, in a console of its own.
    LaunchDetached,
    /// Spawn the daemon as a background process.
    Spawn,
    /// Wait for the poll interval.
    Wait,
    /// Stop: the bootstrap has ended.
    Finish(BootOutcome),
}

/// What came of a step.
#[derive(Clone, Copy, PartialEq, Eq, Structural, Debug)]
pub enum BootEvent {
    /// The probe got an answer, whatever its status, or got none.
    Probed(bool),
    /// The tool was found, or was not.
    ToolFound(bool),
    /// The service was started, or was not.
    ServiceStarted(bool),
    /// The process was spawned, or could not be.
    Spawned(bool),
    /// The wait is over.
    Waited,
}

/// The bootstrap under way.
#[derive(Clone, Copy, PartialEq, Eq, Structural, Debug)]
pub struct Boot {
    pub platform: Platform,
    /// Whether the daemon has been started.
    pub launched: bool,
    /// Polls since the start that got no answer.
    pub polls: u8,
    /// The step that the caller is to carry out next.
    pub step: BootStep,
}

/// The bootstrap before its first step: a probe.
pub open spec fn initial(platform: Platform) -> Boot {
    Boot { platform, launched: false, polls: 0, step: BootStep::Probe }
}

/// Whether `event` is of the kind that `step` is waiting for.
pub open spec fn awaits(step: BootStep, event: BootEvent) -> bool {
    match step {
        BootStep::Probe => event is Probed,
        BootStep::LocateTool => event is ToolFound,
        BootStep::StartService => event is ServiceStarted,
        BootStep::LaunchDetached => event is Spawned,
        BootStep::Spawn => event is Spawned,
        BootStep::Wait => event is Waited,
        BootStep::Finish(_) => false,
    }
}

/// The bootstrap right after the daemon was started: the polls begin.
pub open spec fn once_launched(boot: Boot) -> Boot {
    Boot { launched: true, polls: 0, step: BootStep::Probe, ..boot }
}

/// The bootstrap at the given step, all else as it was.
pub open spec fn with_step(boot: Boot, step: BootStep) -> Boot {
    Boot { step, ..boot }
}

/// The bootstrap once `event` has come in. A probe that is answered ends
/// it with success. A first probe that is not sends the caller to look for
/// the tool; without the tool the bootstrap fails. With it the daemon is
/// started: as a service first on `Windows`, detached where that fails;
/// spawned elsewhere. After the start each poll that is not answered is
/// followed by a wait, and after `MAX_POLLS` of them the bootstrap fails
/// with `TimedOut`. An event of a kind that the step is not waiting for
/// leaves all as it is.
pub open spec fn boot_next(boot: Boot, event: BootEvent) -> Boot {
    match (boot.step, event) {
        (BootStep::Probe, BootEvent::Probed(true)) => with_step(boot,
            BootStep::Finish(
                if boot.launched {
                    BootOutcome::Started
                } else {
                    BootOutcome::AlreadyRunning
                },
            ),
        ),
        (BootStep::Probe, BootEvent::Probed(false)) => if !boot.launched {
            with_step(boot, BootStep::LocateTool)
        } else if boot.polls >= MAX_POLLS {
            with_step(boot, BootStep::Finish(BootOutcome::Failed(BootFailure::TimedOut)))
        } else {
            Boot { polls: (boot.polls + 1) as u8, step: BootStep::Wait, ..boot }
        },
        (BootStep::Wait, BootEvent::Waited) => if boot.polls >= MAX_POLLS {
            with_step(boot, BootStep::Finish(BootOutcome::Failed(BootFailure::TimedOut)))
        } else {
            with_step(boot, BootStep::Probe)
        },
        (BootStep::LocateTool, BootEvent::ToolFound(false)) => with_step(boot,
            BootStep::Finish(BootOutcome::Failed(BootFailure::ToolMissing)),
        ),
        (BootStep::LocateTool, BootEvent::ToolFound(true)) => if boot.platform is Windows {
            with_step(boot, BootStep::StartService)
        } else {
            with_step(boot, BootStep::Spawn)
        },
        (BootStep::StartService, BootEvent::ServiceStarted(true)) => once_launched(boot),
        (BootStep::StartService, BootEvent::ServiceStarted(false)) => with_step(boot,
            BootStep::LaunchDetached,
        ),
        (BootStep::LaunchDetached, BootEvent::Spawned(true)) => once_launched(boot),
        (BootStep::Spawn, BootEvent::Spawned(true)) => once_launched(boot),
        (BootStep::LaunchDetached, BootEvent::Spawned(false)) => with_step(boot,
            BootStep::Finish(BootOutcome::Failed(BootFailure::StartFailed)),
        ),
        (BootStep::Spawn, BootEvent::Spawned(false)) => with_step(boot,
            BootStep::Finish(BootOutcome::Failed(BootFailure::StartFailed)),
        ),
        _ => boot,
    }
}

/// An upper bound on the steps that are still to come, the pending one
/// counted.
pub open spec fn steps_ahead(boot: Boot) -> nat {
    match boot.step {
        BootStep::Finish(_) => 0,
        BootStep::Probe => if !boot.launched {
            66
        } else if boot.polls >= MAX_POLLS {
            1
        } else {
            (2 * (MAX_POLLS - boot.polls) + 1) as nat
        },
        BootStep::Wait => if boot.polls >= MAX_POLLS {
            1
        } else if !boot.launched {
            67
        } else {
            (2 * (MAX_POLLS - boot.polls) + 2) as nat
        },
        BootStep::LocateTool => 65,
        BootStep::StartService => 64,
        BootStep::LaunchDetached => 63,
        BootStep::Spawn => 63,
    }
}

/// An upper bound on the probes that are still to come, the pending one
/// counted.
pub open spec fn probes_ahead(boot: Boot) -> nat {
    match boot.step {
        BootStep::Finish(_) => 0,
        BootStep::Probe => if !boot.launched {
            31
        } else if boot.polls >= MAX_POLLS {
            1
        } else {
            (MAX_POLLS - boot.polls) as nat
        },
        BootStep::Wait => if boot.polls >= MAX_POLLS {
            0
        } else if !boot.launched {
            31
        } else {
            (MAX_POLLS - boot.polls) as nat
        },
        _ => 30,
    }
}

/// The number of probes that the caller is asked for when it starts from
/// `boot` and the events come in as listed.
pub open spec fn probes_sent(boot: Boot, events: Seq<BootEvent>) -> nat
    decreases events.len(),
{
    let own: nat = if boot.step is Probe {
        1
    } else {
        0
    };
    if events.len() == 0 {
        own
    } else if awaits(boot.step, events[0]) {
        own + probes_sent(boot_next(boot, events[0]), events.drop_first())
    } else {
        probes_sent(boot, events.drop_first())
    }
}

/// The number of steps that the caller is given when it starts from `boot`
/// and the events come in as listed.
pub open spec fn steps_given(boot: Boot, events: Seq<BootEvent>) -> nat
    decreases events.len(),
{
    if events.len() == 0 {
        1
    } else if awaits(boot.step, events[0]) {
        1 + steps_given(boot_next(boot, events[0]), events.drop_first())
    } else {
        steps_given(boot, events.drop_first())
    }
}

/// Every awaited event brings the end nearer, both in steps and in probes,
/// and no other event changes anything.
pub proof fn lemma_boot_moves_on(boot: Boot, event: BootEvent)
    ensures
        awaits(boot.step, event) ==> steps_ahead(boot_next(boot, event)) < steps_ahead(boot),
        awaits(boot.step, event) ==> probes_ahead(boot_next(boot, event)) + (if boot.step
            is Probe {
            1nat
        } else {
            0nat
        }) <= probes_ahead(boot),
        !awaits(boot.step, event) ==> boot_next(boot, event) == boot,
        boot_next(boot, event).platform == boot.platform,
{
}

/// A probe that is answered ends the bootstrap with success at once.
pub proof fn lemma_answer_ends_bootstrap(boot: Boot)
    requires
        boot.step is Probe,
    ensures
        boot_next(boot, BootEvent::Probed(true)).step == BootStep::Finish(
            if boot.launched {
                BootOutcome::Started
            } else {
                BootOutcome::AlreadyRunning
            },
        ),
{
}

/// However the events fall, the number of probes from `boot` on stays within
/// `probes_ahead`, and the number of steps within `steps_ahead` and the
/// last one.
pub proof fn lemma_bounded_from(boot: Boot, events: Seq<BootEvent>)
    ensures
        probes_sent(boot, events) <= probes_ahead(boot),
        steps_given(boot, events) <= steps_ahead(boot) + 1,
    decreases events.len(),
{
    if events.len() == 0 {
    } else if awaits(boot.step, events[0]) {
        lemma_boot_moves_on(boot, events[0]);
        lemma_bounded_from(boot_next(boot, events[0]), events.drop_first());
    } else {
        lemma_bounded_from(boot, events.drop_first());
    }
}

/// A bootstrap sends at most one probe before the start and `MAX_POLLS`
/// polls after it, and ends within 67 steps.
pub proof fn lemma_bootstrap_is_bounded(platform: Platform, events: Seq<BootEvent>)
    ensures
        probes_sent(initial(platform), events) <= MAX_POLLS + 1,
        steps_given(initial(platform), events) <= 67,
{
    lemma_bounded_from(initial(platform), events);
}

impl Boot {
    /// Begins the bootstrap: the first step is a probe.
    pub fn begin(platform: Platform) -> (boot: Boot)
        ensures
            boot == initial(platform),
    {
        Boot { platform, launched: false, polls: 0, step: BootStep::Probe }
    }

    /// The outcome, once the bootstrap has ended.
    pub fn outcome(&self) -> (o: Option<BootOutcome>)
        ensures
            o == match self.step {
                BootStep::Finish(outcome) => Some(outcome),
                _ => None,
            },
    {
        match self.step {
            BootStep::Finish(outcome) => Some(outcome),
            _ => None,
        }
    }

    /// Takes in what came of the pending step and returns the step that
    /// follows.
    pub fn advance(&mut self, event: BootEvent) -> (step: BootStep)
        ensures
            *final(self) == boot_next(*old(self), event),
            step == final(self).step,
    {
        let next = boot_after(*self, event);
        *self = next;
        next.step
    }
}

/// Computes the bootstrap as it is once `event` has come in.
pub fn boot_after(boot: Boot, event: BootEvent) -> (next: Boot)
    ensures
        next == boot_next(boot, event),
{
    let started = Boot {
        platform: boot.platform,
        launched: true,
        polls: 0,
        step: BootStep::Probe,
    };
    let timed_out = BootStep::Finish(BootOutcome::Failed(BootFailure::TimedOut));
    let step = match (boot.step, event) {
        (BootStep::Probe, BootEvent::Probed(true)) => {
            if boot.launched {
                BootStep::Finish(BootOutcome::Started)
            } else {
                BootStep::Finish(BootOutcome::AlreadyRunning)
            }
        },
        (BootStep::Probe, BootEvent::Probed(false)) => {
            if !boot.launched {
                BootStep::LocateTool
            } else if boot.polls >= MAX_POLLS {
                timed_out
            } else {
                return Boot {
                    platform: boot.platform,
                    launched: boot.launched,
                    polls: boot.polls + 1,
                    step: BootStep::Wait,
                };
            }
        },
        (BootStep::Wait, BootEvent::Waited) => {
            if boot.polls >= MAX_POLLS {
                timed_out
            } else {
                BootStep::Probe
            }
        },
        (BootStep::LocateTool, BootEvent::ToolFound(found)) => {
            if !found {
                BootStep::Finish(BootOutcome::Failed(BootFailure::ToolMissing))
            } else {
                match boot.platform {
                    Platform::Windows => BootStep::StartService,
                    Platform::Other => BootStep::Spawn,
                }
            }
        },
        (BootStep::StartService, BootEvent::ServiceStarted(ok)) => {
            if ok {
                return started;
            }
            BootStep::LaunchDetached
        },
        (BootStep::LaunchDetached, BootEvent::Spawned(ok)) => {
            if ok {
                return started;
            }
            BootStep::Finish(BootOutcome::Failed(BootFailure::StartFailed))
        },
        (BootStep::Spawn, BootEvent::Spawned(ok)) => {
            if ok {
                return started;
            }
            BootStep::Finish(BootOutcome::Failed(BootFailure::StartFailed))
        },
        (pending, _) => pending,
    };
    Boot { platform: boot.platform, launched: boot.launched, polls: boot.polls, step }
}

/// The text that reports a failed bootstrap on the given platform.
pub open spec fn boot_failure_text(failure: BootFailure, platform: Platform) -> Seq<char> {
    match failure {
        BootFailure::ToolMissing => "Ollama CLI not found. Please install Ollama and ensure it's in your PATH."@,
        BootFailure::StartFailed => match platform {
            Platform::Windows => "Failed to start Ollama on Windows."@,
            Platform::Other => "Failed to start Ollama."@,
        },
        BootFailure::TimedOut => "Failed to start Ollama service (timeout)."@,
    }
}

/// Gives the text that reports a failed bootstrap on the given platform.
pub fn describe_boot_failure(failure: BootFailure, platform: Platform) -> (r: &'static str)
    ensures
        r@ == boot_failure_text(failure, platform),
{
    match failure {
        BootFailure::ToolMissing => "Ollama CLI not found. Please install Ollama and ensure it's in your PATH.",
        BootFailure::StartFailed => match platform {
            Platform::Windows => "Failed to start Ollama on Windows.",
            Platform::Other => "Failed to start Ollama.",
        },
        BootFailure::TimedOut => "Failed to start Ollama service (timeout).",
    }
}

} // verus!
