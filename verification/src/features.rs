//! Optional features that the broadcaster switches on and off, and the automatic stream
//! category that is one of them.

use vstd::prelude::*;
use crate::config::{Config, flag_of};
use crate::text::{str_equal, to_string};

verus! {

/// What the host must do after a feature was switched: a feature that works in the
/// background asks for its worker to be started, or waited for.
#[derive(PartialEq, Eq, Structural, Clone, Copy, Debug)]
pub enum FeatureEffect {
    Nothing,
    SpawnWorker,
    JoinWorker,
}

/// A feature that can be switched on and off while the bot runs.
pub trait Feature {
    /// The feature's name, as the console knows it.
    spec fn feature_name(&self) -> Seq<char>;

    /// Whether the feature is switched on.
    spec fn enabled(&self) -> bool;

    /// The background work that switching the feature on asks for, in this state.
    spec fn start_effect(&self) -> FeatureEffect;

    /// The background work that switching the feature off asks for, in this state.
    spec fn stop_effect(&self) -> FeatureEffect;

    fn name(&self) -> (r: &str)
        ensures
            r@ == self.feature_name(),
    ;

    fn is_enabled(&self) -> (r: bool)
        ensures
            r == self.enabled(),
    ;

    /// Switches the feature on.
    fn start(&mut self) -> (effect: FeatureEffect)
        ensures
            effect == old(self).start_effect(),
            final(self).enabled(),
            final(self).feature_name() == old(self).feature_name(),
    ;

    /// Switches the feature off.
    fn stop(&mut self) -> (effect: FeatureEffect)
        ensures
            effect == old(self).stop_effect(),
            !final(self).enabled(),
            final(self).feature_name() == old(self).feature_name(),
    ;
}

/// Keeps the stream's category on the game that is in the foreground. A background worker
/// does the work while the feature is on; it ends once it finds the feature switched off.
pub struct AutoCategory {
    enabled: bool,
    worker_running: bool,
}

impl AutoCategory {
    /// A worker only runs while the feature is on.
    #[verifier::type_invariant]
    spec fn worker_implies_enabled(self) -> bool {
        self.worker_running ==> self.enabled
    }

    /// Whether the background worker has been started and not waited for.
    pub closed spec fn worker_running(&self) -> bool {
        self.worker_running
    }

    /// A new feature, on or off as `initial_state` says, with no worker yet.
    pub fn new(initial_state: bool) -> (r: Self)
        ensures
            r.enabled() == initial_state,
            !r.worker_running(),
    {
        AutoCategory { enabled: initial_state, worker_running: false }
    }
}

impl Feature for AutoCategory {
    open spec fn feature_name(&self) -> Seq<char> {
        "auto_category"@
    }

    closed spec fn enabled(&self) -> bool {
        self.enabled
    }

    /// A worker is asked for unless one runs already.
    open spec fn start_effect(&self) -> FeatureEffect {
        if self.worker_running() {
            FeatureEffect::Nothing
        } else {
            FeatureEffect::SpawnWorker
        }
    }

    /// A running worker is waited for; it ends once it finds the feature off.
    open spec fn stop_effect(&self) -> FeatureEffect {
        if self.worker_running() {
            FeatureEffect::JoinWorker
        } else {
            FeatureEffect::Nothing
        }
    }

    fn name(&self) -> (r: &str) {
        "auto_category"
    }

    fn is_enabled(&self) -> (r: bool) {
        self.enabled
    }

    /// Switches the feature on and asks for its worker, unless a worker already runs.
    fn start(&mut self) -> (effect: FeatureEffect)
        ensures
            final(self).worker_running(),
    {
        proof {
            use_type_invariant(&*self);
        }
        if self.worker_running {
            return FeatureEffect::Nothing;
        }
        self.enabled = true;
        self.worker_running = true;
        FeatureEffect::SpawnWorker
    }

    /// Switches the feature off and, where a worker was started, asks to wait for it.
    fn stop(&mut self) -> (effect: FeatureEffect)
        ensures
            !final(self).worker_running(),
    {
        let was_running = self.worker_running;
        self.worker_running = false;
        self.enabled = false;
        if was_running {
            FeatureEffect::JoinWorker
        } else {
            FeatureEffect::Nothing
        }
    }
}

/// All features, each on or off as the settings say.
pub fn init_features(config: &Config) -> (r: Vec<AutoCategory>)
    ensures
        r@.len() == 1,
        r@[0].enabled() == flag_of(config.features@, "auto_category"@),
        !r@[0].worker_running(),
{
    let mut features: Vec<AutoCategory> = Vec::new();
    let auto_enabled = config.feature_flag("auto_category");
    let auto_category = AutoCategory::new(auto_enabled);
    features.push(auto_category);
    features
}

/// The category that the stream shows when no program is in the foreground.
pub open spec fn default_category() -> Seq<char> {
    "Just Chatting"@
}

/// What the worker of the automatic category learns from the host.
pub enum WorkerEvent {
    /// The worker woke up; the feature is on or off.
    Wake { enabled: bool },
    /// Whether the broadcaster is live.
    LiveChecked { live: bool },
    /// The name of the program in the foreground, where one could be read.
    ActiveWindow { name: Option<String> },
    /// The stream's category was set.
    CategoryUpdated,
}

/// What the worker of the automatic category asks the host to do next.
pub enum WorkerAction {
    /// The feature was switched off: the worker ends.
    Exit,
    Sleep { secs: u64 },
    CheckLive,
    ReadActiveWindow,
    UpdateCategory { category: String },
}

/// Where the worker stands in its round: a round starts with a wake, asks whether the
/// broadcaster is live, and only then reads the program in the foreground.
#[derive(PartialEq, Eq, Structural, Clone, Copy, Debug)]
pub enum Phase {
    /// Between rounds: asleep, or just ended.
    Idle,
    /// Woken with the feature on; waiting to hear whether the broadcaster is live.
    AwaitingLive,
    /// The broadcaster is live; waiting for the program in the foreground.
    AwaitingWindow,
}

/// The phase after `event`, from the phase `p`: only an enabled wake leads to asking whether
/// the broadcaster is live, and only a positive answer to that question leads to reading the
/// program in the foreground; every other event closes the round.
pub open spec fn next_phase(p: Phase, event: WorkerEvent) -> Phase {
    match event {
        WorkerEvent::Wake { enabled } => if enabled { Phase::AwaitingLive } else { Phase::Idle },
        WorkerEvent::LiveChecked { live } => {
            if live && p == Phase::AwaitingLive { Phase::AwaitingWindow } else { Phase::Idle }
        },
        WorkerEvent::ActiveWindow { .. } => Phase::Idle,
        WorkerEvent::CategoryUpdated => Phase::Idle,
    }
}

/// The phase of a new worker after it has stepped through `events` in turn.
pub open spec fn phase_after(events: Seq<WorkerEvent>) -> Phase
    decreases events.len(),
{
    if events.len() == 0 {
        Phase::Idle
    } else {
        next_phase(phase_after(events.drop_last()), events.last())
    }
}

/// The worker of the automatic category: where it stands in its round, and the category it
/// set last.
pub struct CategoryWorker {
    phase: Phase,
    current_category: String,
}

impl CategoryWorker {
    /// The category that the worker set last (empty before the first).
    pub closed spec fn current(&self) -> Seq<char> {
        self.current_category@
    }

    /// Where the worker stands in its round.
    pub closed spec fn phase(&self) -> Phase {
        self.phase
    }

    /// A worker that has set no category yet, between rounds.
    pub fn new() -> (r: Self)
        ensures
            r.current() == Seq::<char>::empty(),
            r.phase() == Phase::Idle,
    {
        CategoryWorker { phase: Phase::Idle, current_category: String::new() }
    }

    /// The next thing to do, given what just happened: the worker ends once it wakes to find
    /// the feature off; it sleeps for a minute while the broadcaster is offline; once it has
    /// heard that the broadcaster is live, the program in the foreground (or "Just Chatting")
    /// becomes the category where it differs from the last. An event that does not answer
    /// what the worker asked for (which its host never sends) only puts it to sleep.
    pub fn step(&mut self, event: WorkerEvent) -> (action: WorkerAction)
        ensures
            final(self).phase() == next_phase(old(self).phase(), event),
            match event {
                WorkerEvent::Wake { enabled } => {
                    &&& final(self).current() == old(self).current()
                    &&& if enabled {
                        action is CheckLive
                    } else {
                        action is Exit
                    }
                },
                WorkerEvent::LiveChecked { live } => {
                    &&& final(self).current() == old(self).current()
                    &&& if live && old(self).phase() == Phase::AwaitingLive {
                        action is ReadActiveWindow
                    } else {
                        action matches WorkerAction::Sleep { secs } && secs == 60
                    }
                },
                WorkerEvent::ActiveWindow { name } => {
                    let category = match name {
                        Some(n) => n@,
                        None => default_category(),
                    };
                    if old(self).phase() == Phase::AwaitingWindow && category != old(self).current() {
                        &&& final(self).current() == category
                        &&& action matches WorkerAction::UpdateCategory { category: c } && c@ == category
                    } else {
                        &&& final(self).current() == old(self).current()
                        &&& action matches WorkerAction::Sleep { secs } && secs == 1
                    }
                },
                WorkerEvent::CategoryUpdated => {
                    &&& final(self).current() == old(self).current()
                    &&& action matches WorkerAction::Sleep { secs } && secs == 1
                },
            },
    {
        let was = self.phase;
        match event {
            WorkerEvent::Wake { enabled } => {
                if enabled {
                    self.phase = Phase::AwaitingLive;
                    WorkerAction::CheckLive
                } else {
                    self.phase = Phase::Idle;
                    WorkerAction::Exit
                }
            },
            WorkerEvent::LiveChecked { live } => {
                let asked = match was {
                    Phase::AwaitingLive => true,
                    _ => false,
                };
                if live && asked {
                    self.phase = Phase::AwaitingWindow;
                    WorkerAction::ReadActiveWindow
                } else {
                    self.phase = Phase::Idle;
                    WorkerAction::Sleep { secs: 60 }
                }
            },
            WorkerEvent::ActiveWindow { name } => {
                self.phase = Phase::Idle;
                let asked = match was {
                    Phase::AwaitingWindow => true,
                    _ => false,
                };
                if !asked {
                    return WorkerAction::Sleep { secs: 1 };
                }
                let category = match name {
                    Some(n) => n,
                    None => to_string("Just Chatting"),
                };
                if !str_equal(category.as_str(), self.current_category.as_str()) {
                    self.current_category = category.clone();
                    WorkerAction::UpdateCategory { category }
                } else {
                    WorkerAction::Sleep { secs: 1 }
                }
            },
            WorkerEvent::CategoryUpdated => {
                self.phase = Phase::Idle;
                WorkerAction::Sleep { secs: 1 }
            },
        }
    }
}

/// Law: a worker that has stepped through `events` from new can set a category on the next
/// event only where the two events before it were a wake that found the feature on and the
/// answer that the broadcaster is live. An offline answer therefore never leads to an update,
/// and the last category set is kept (as `step` states).
pub proof fn law_update_follows_live_check(events: Seq<WorkerEvent>)
    ensures
        phase_after(events) == Phase::AwaitingWindow ==> {
            &&& events.len() >= 2
            &&& events[events.len() - 1] matches WorkerEvent::LiveChecked { live } && live
            &&& events[events.len() - 2] matches WorkerEvent::Wake { enabled } && enabled
        },
{
    if events.len() > 0 && phase_after(events) == Phase::AwaitingWindow {
        let prev = events.drop_last();
        assert(phase_after(prev) == Phase::AwaitingLive);
        if prev.len() == 0 {
            assert(false);
        }
        assert(prev.last() == events[events.len() - 2]);
    }
}

} // verus!
