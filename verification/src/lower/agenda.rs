//! The order in which tasks are done.
//!
//! Tasks wait on an agenda. Each turn takes the next one: it is performed, and
//! the tasks that it stands for come next. A task that needs another part of the
//! compiler is handed out; lowering goes on once its effect is there.

use crate::hir::Hir;
use crate::lower::defaults::defaults_fit;
use crate::lower::emit::extends;
use crate::lower::machine::{framed, scene, Machine, Scene, Step, StepView};
use crate::lower::machine_flow::{expandable, expansion};
use crate::lower::machine_names::codes_fit;
use crate::lower::machine_steps::step;
use crate::lower::plan::{Service, Task};
use crate::lower::state::Lowerer;
use crate::mir::builder::FunctionBuilder;
use vstd::prelude::*;

verus! {

/// Tasks that wait, the next one last.
pub struct Agenda<'t> {
    /// The tasks.
    pub waiting: Vec<Task<'t>>,
}

/// What comes after a turn.
pub enum Action<'t> {
    /// The next turn.
    Continue,
    /// Another part of the compiler has to act.
    Ask(Service<'t>),
    /// The next task cannot be done: its operands are not there.
    Stuck,
    /// Nothing: no task waits.
    Finished,
}

/// What a turn comes to: the state, the tasks that wait, and what comes after.
pub struct Turn<'t> {
    /// The state.
    pub scene: Scene,
    /// The tasks that wait, the next one last.
    pub waiting: Seq<Task<'t>>,
    /// What comes after.
    pub action: Action<'t>,
}

/// The turn that takes the next task.
pub open spec fn turn<'t>(s: Scene, lowerer: Lowerer, hir: Hir, waiting: Seq<Task<'t>>) -> Turn<
    't,
> {
    if waiting.len() == 0 {
        Turn { scene: s, waiting, action: Action::Finished }
    } else {
        let rest = waiting.drop_last();
        match waiting.last() {
            Task::Service(service) => Turn {
                scene: s,
                waiting: rest,
                action: Action::Ask(service),
            },
            task => {
                let more = expansion(lowerer, s.b, s.values, hir, task);
                match step(s, lowerer, hir, task) {
                    StepView::Done(after) => Turn {
                        scene: after,
                        waiting: match more {
                            Some(tasks) => rest + tasks.reverse(),
                            None => rest,
                        },
                        action: Action::Continue,
                    },
                    StepView::NotReady => Turn { scene: s, waiting, action: Action::Stuck },
                    StepView::Other => match more {
                        Some(tasks) => Turn {
                            scene: s,
                            waiting: rest + tasks.reverse(),
                            action: Action::Continue,
                        },
                        None => Turn { scene: s, waiting, action: Action::Stuck },
                    },
                }
            },
        }
    }
}

impl<'t> Agenda<'t> {
    /// An agenda with some tasks, to be done in order.
    pub fn new(tasks: Vec<Task<'t>>) -> (r: Agenda<'t>)
        ensures
            r.waiting@ == tasks@.reverse(),
    {
        let mut agenda = Agenda { waiting: Vec::new() };
        agenda.put_first(tasks);
        assert(agenda.waiting@ =~= tasks@.reverse());
        agenda
    }

    /// Puts tasks before all that wait.
    pub fn put_first(&mut self, tasks: Vec<Task<'t>>)
        ensures
            final(self).waiting@ == old(self).waiting@ + tasks@.reverse(),
    {
        let mut left = tasks;
        let ghost all = left@;
        assert(self.waiting@ =~= old(self).waiting@ + all.skip(left@.len() as int).reverse());
        while left.len() > 0
            invariant
                left@ == all.take(left@.len() as int),
                left@.len() <= all.len(),
                self.waiting@ == old(self).waiting@ + all.skip(left@.len() as int).reverse(),
            decreases left@.len(),
        {
            let ghost len = left@.len() as int;
            match left.pop() {
                Some(task) => {
                    self.waiting.push(task);
                },
                None => {},
            }
            assert(left@ =~= all.take(len - 1));
            assert(all.skip(len - 1).reverse() =~= all.skip(len).reverse().push(all[len - 1]));
            assert(self.waiting@ =~= old(self).waiting@ + all.skip(len - 1).reverse());
        }
        assert(all.skip(0) =~= all);
    }

    /// Takes the next task.
    pub fn advance<'b>(
        &mut self,
        machine: &mut Machine,
        lowerer: &mut Lowerer,
        builder: &mut FunctionBuilder<'b>,
        hir: &'t Hir,
    ) -> (r: Action<'t>)
        requires
            old(builder).wf(),
            expandable(*hir),
            defaults_fit(*hir),
            codes_fit(*old(lowerer)),
        ensures
            final(builder).wf(),
            codes_fit(*final(lowerer)),
            (Turn {
                scene: scene(*final(lowerer), *final(machine), final(builder)@),
                waiting: final(self).waiting@,
                action: r,
            }) == turn(
                scene(*old(lowerer), *old(machine), old(builder)@),
                *old(lowerer),
                *hir,
                old(self).waiting@,
            ),
            framed(*old(lowerer), *final(lowerer)),
            extends(old(builder)@, final(builder)@),
            *final(final(builder).func) == *final(old(builder).func),
    {
        let task = match self.waiting.pop() {
            Some(task) => task,
            None => {
                return Action::Finished;
            },
        };
        if let Task::Service(service) = task {
            return Action::Ask(service);
        }
        let more = machine.expand(&*lowerer, &*builder, hir, &task);
        match machine.perform(lowerer, builder, hir, &task) {
            Step::Done => {
                if let Some(tasks) = more {
                    self.put_first(tasks);
                }
                Action::Continue
            },
            Step::NotReady => {
                self.waiting.push(task);
                assert(self.waiting@ =~= old(self).waiting@);
                Action::Stuck
            },
            Step::Other => match more {
                Some(tasks) => {
                    self.put_first(tasks);
                    Action::Continue
                },
                None => {
                    self.waiting.push(task);
                    assert(self.waiting@ =~= old(self).waiting@);
                    Action::Stuck
                },
            },
        }
    }
}

} // verus!
