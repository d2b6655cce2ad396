//! The load coordinator: which instances run, and when.
//!
//! The scenarios of a configuration are started in their declared order. When
//! a scenario is started, all its repetitions are spawned at once, each under
//! its own scene label. The next scenario is started only when every instance
//! of the one before has been joined: the scenarios are separated by a
//! barrier.
//!
//! The coordinator is a state machine. Its driver calls `advance` to learn
//! what to do, spawns and awaits the instances, and reports every instance
//! that it has joined with `join`.
//!
//! An instance that crashes instead of running to its end is fatal to the
//! whole run: once such an instance has been joined, `advance` answers
//! `Command::Abort` and starts nothing more.

use crate::config::Config;
use crate::runner::indices;
use crate::scene::{label_scenes, scene_labels, texts};
use vstd::prelude::*;

verus! {

/// How an instance that the driver has joined came to its end.
#[derive(Debug, Clone, Copy, PartialEq, Eq, Structural)]
pub enum Exit {
    /// It ran through its scenario.
    Completed,
    /// It broke off, by a panic or the like.
    Crashed,
}

/// What the coordinator asks its driver to do.
#[derive(Debug, PartialEq, Eq)]
pub enum Command {
    /// Spawn one instance of the configuration's scenario number `senario` for
    /// each label in `scenes`.
    Spawn { senario: usize, scenes: Vec<String> },
    /// Join one of the instances that are running and report its exit.
    Await,
    /// Every scenario has been started and every instance joined.
    Done,
    /// An instance has crashed: give up the run.
    Abort,
}

/// The state of a run.
#[derive(Debug, Clone, Copy, PartialEq, Eq, Structural)]
pub struct Coordinator {
    /// The number of scenarios that have been started; also the index of the
    /// scenario that is started next.
    pub started: usize,
    /// The number of instances that have been spawned and not yet joined. They
    /// all belong to the scenario that was started last.
    pub outstanding: usize,
    /// An instance has crashed.
    pub aborted: bool,
}

/// What can happen to a coordinator: the driver asks for a command, or reports
/// an instance that it has joined.
pub enum Input {
    Advance,
    Join(Exit),
}

/// The number of instances that the scenarios from number `from` up to, not
/// including, number `to` run together.
pub open spec fn total_repetitions(config: &Config, from: int, to: int) -> nat
    decreases to - from,
{
    if from >= to {
        0
    } else {
        total_repetitions(config, from, to - 1) + config.senarios@[to - 1].repetitions()
    }
}

impl Coordinator {
    /// The next scenario can be started: the run has not been given up, no
    /// instance is outstanding, and a scenario is left.
    pub open spec fn can_start(&self, config: &Config) -> bool {
        !self.aborted && self.outstanding == 0 && self.started < config.senarios.len()
    }

    /// The coordinator after the driver has asked for a command: if the next
    /// scenario can be started, it is started and all its repetitions are
    /// outstanding; otherwise nothing changes.
    pub open spec fn advanced(self, config: &Config) -> Coordinator {
        if self.can_start(config) {
            Coordinator {
                started: (self.started + 1) as usize,
                outstanding: config.senarios@[self.started as int].repetitions() as usize,
                aborted: false,
            }
        } else {
            self
        }
    }

    /// A report of a joined instance counts: the run has not been given up and
    /// an instance is outstanding.
    pub open spec fn expects_join(&self) -> bool {
        !self.aborted && self.outstanding > 0
    }

    /// The coordinator after the driver has joined an instance. An instance
    /// that completed is no longer outstanding; one that crashed has the run
    /// given up. A report that does not count changes nothing.
    pub open spec fn joined(self, exit: Exit) -> Coordinator {
        if !self.expects_join() {
            self
        } else {
            match exit {
                Exit::Completed => Coordinator {
                    outstanding: (self.outstanding - 1) as usize,
                    ..self
                },
                Exit::Crashed => Coordinator { aborted: true, ..self },
            }
        }
    }

    /// The coordinator after `input`.
    pub open spec fn step(self, config: &Config, input: Input) -> Coordinator {
        match input {
            Input::Advance => self.advanced(config),
            Input::Join(exit) => self.joined(exit),
        }
    }

    /// The coordinator after all of `inputs`, one after the other.
    pub open spec fn replay(self, config: &Config, inputs: Seq<Input>) -> Coordinator
        decreases inputs.len(),
    {
        if inputs.len() == 0 {
            self
        } else {
            self.step(config, inputs[0]).replay(config, inputs.drop_first())
        }
    }

    /// The scenarios that are started in the course of `inputs`, in the order
    /// of their starts.
    pub open spec fn starts(self, config: &Config, inputs: Seq<Input>) -> Seq<int>
        decreases inputs.len(),
    {
        if inputs.len() == 0 {
            Seq::empty()
        } else {
            (if inputs[0] is Advance && self.can_start(config) {
                seq![self.started as int]
            } else {
                Seq::empty()
            }) + self.step(config, inputs[0]).starts(config, inputs.drop_first())
        }
    }

    /// The number of instances that complete and are joined in the course of
    /// `inputs`.
    pub open spec fn completions(self, config: &Config, inputs: Seq<Input>) -> nat
        decreases inputs.len(),
    {
        if inputs.len() == 0 {
            0
        } else {
            (if inputs[0] == Input::Join(Exit::Completed) && self.expects_join() {
                1nat
            } else {
                0nat
            }) + self.step(config, inputs[0]).completions(config, inputs.drop_first())
        }
    }

    /// A coordinator at the start of a run: nothing started, nothing
    /// outstanding.
    pub fn new() -> (coordinator: Coordinator)
        ensures
            coordinator == (Coordinator { started: 0, outstanding: 0, aborted: false }),
    {
        Coordinator { started: 0, outstanding: 0, aborted: false }
    }

    /// Says what the driver is to do now, and starts the next scenario if that
    /// is it. A scenario is started only when no instance is outstanding; its
    /// command carries one scene label for each of its repetitions.
    pub fn advance(&mut self, config: &Config) -> (command: Command)
        ensures
            *final(self) == old(self).advanced(config),
            match command {
                Command::Abort => old(self).aborted,
                Command::Await => old(self).expects_join(),
                Command::Spawn { senario, scenes } => {
                    &&& old(self).can_start(config)
                    &&& senario == old(self).started
                    &&& texts(scenes@) == scene_labels(
                        config.senarios@[senario as int].title@,
                        config.senarios@[senario as int].repetitions(),
                    )
                },
                Command::Done => {
                    &&& !old(self).aborted
                    &&& old(self).outstanding == 0
                    &&& old(self).started >= config.senarios.len()
                },
            },
    {
        if self.aborted {
            Command::Abort
        } else if self.outstanding > 0 {
            Command::Await
        } else if self.started < config.senarios.len() {
            let senario = self.started;
            let count = config.senarios[senario].repetition_count();
            let scenes = label_scenes(&config.senarios[senario].title, count);
            self.started = senario + 1;
            self.outstanding = count;
            Command::Spawn { senario, scenes }
        } else {
            Command::Done
        }
    }

    /// Takes in that the driver has joined an instance, and how it ended.
    pub fn join(&mut self, exit: Exit)
        ensures
            *final(self) == old(self).joined(exit),
    {
        if !self.aborted && self.outstanding > 0 {
            match exit {
                Exit::Completed => {
                    self.outstanding = self.outstanding - 1;
                },
                Exit::Crashed => {
                    self.aborted = true;
                },
            }
        }
    }
}

/// The barrier, for one step: while an instance is outstanding, asking for a
/// command starts nothing.
pub proof fn lemma_nothing_starts_before_all_joined(coordinator: Coordinator, config: &Config)
    requires
        coordinator.outstanding > 0,
    ensures
        coordinator.advanced(config) == coordinator,
        !coordinator.can_start(config),
{
}

/// Once an instance has crashed, the run stands still: nothing is started and
/// no report counts.
pub proof fn lemma_aborted_run_stands_still(
    coordinator: Coordinator,
    config: &Config,
    inputs: Seq<Input>,
)
    requires
        coordinator.aborted,
    ensures
        coordinator.replay(config, inputs) == coordinator,
        coordinator.starts(config, inputs) == Seq::<int>::empty(),
        coordinator.completions(config, inputs) == 0,
    decreases inputs.len(),
{
    if inputs.len() > 0 {
        lemma_aborted_run_stands_still(coordinator, config, inputs.drop_first());
    }
}

/// Whatever the driver does, the scenarios are started in their declared
/// order, none twice and none skipped, and every instance that was spawned is
/// either joined as completed or still outstanding.
pub proof fn lemma_run_keeps_account(coordinator: Coordinator, config: &Config, inputs: Seq<Input>)
    requires
        coordinator.started <= config.senarios.len(),
    ensures
        coordinator.started <= coordinator.replay(config, inputs).started <= config.senarios.len(),
        coordinator.starts(config, inputs) == indices(
            coordinator.started as int,
            coordinator.replay(config, inputs).started as int,
        ),
        coordinator.completions(config, inputs) + coordinator.replay(config, inputs).outstanding
            == coordinator.outstanding + total_repetitions(
            config,
            coordinator.started as int,
            coordinator.replay(config, inputs).started as int,
        ),
    decreases inputs.len(),
{
    let end = coordinator.replay(config, inputs);
    if inputs.len() == 0 {
        assert(coordinator.starts(config, inputs) =~= indices(
            coordinator.started as int,
            coordinator.started as int,
        ));
    } else {
        let next = coordinator.step(config, inputs[0]);
        lemma_run_keeps_account(next, config, inputs.drop_first());
        lemma_total_repetitions_splits(
            config,
            coordinator.started as int,
            next.started as int,
            end.started as int,
        );
        assert(total_repetitions(config, coordinator.started as int, coordinator.started as int)
            == 0);
        if next.started != coordinator.started {
            assert(total_repetitions(config, coordinator.started as int, next.started as int)
                == total_repetitions(
                config,
                coordinator.started as int,
                coordinator.started as int,
            ) + config.senarios@[coordinator.started as int].repetitions());
        }
        assert(coordinator.starts(config, inputs) =~= indices(
            coordinator.started as int,
            end.started as int,
        ));
    }
}

/// The instances of a range of scenarios are those of its first part and
/// those of the rest.
proof fn lemma_total_repetitions_splits(config: &Config, from: int, middle: int, to: int)
    requires
        from <= middle <= to,
    ensures
        total_repetitions(config, from, to) == total_repetitions(config, from, middle)
            + total_repetitions(config, middle, to),
    decreases to - middle,
{
    if middle < to {
        lemma_total_repetitions_splits(config, from, middle, to - 1);
    }
}

/// The barrier, for a whole run: at any moment at which a scenario can be
/// started, every instance of every scenario started before has completed and
/// been joined. So all repetitions of one scenario are over before any
/// repetition of the next begins.
pub proof fn lemma_barrier(config: &Config, inputs: Seq<Input>)
    requires
        (Coordinator { started: 0, outstanding: 0, aborted: false }).replay(
            config,
            inputs,
        ).can_start(config),
    ensures
        ({
            let fresh = Coordinator { started: 0, outstanding: 0, aborted: false };
            fresh.completions(config, inputs) == total_repetitions(
                config,
                0,
                fresh.replay(config, inputs).started as int,
            )
        }),
{
    let fresh = Coordinator { started: 0, outstanding: 0, aborted: false };
    lemma_run_keeps_account(fresh, config, inputs);
}

} // verus!
