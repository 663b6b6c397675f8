//! What becomes of the answers of other parts of the compiler.
//!
//! Most services leave their results on the stack. Some find out something on
//! which lowering depends: whether there is a value, an error, or how many values
//! there are. They reply, and the reply is settled here.

use crate::lower::emit::extends;
use crate::lower::machine::{framed, scene, value_exists, Machine, Scene};
use crate::lower::plan::{ReturnItem, Service};
use crate::lower::state::{error_emitted, Complaint, Lowerer};
use crate::mir::builder::{ended, group_builder_steps, valued, FunctionBuilder};
use crate::mir::function::{has_value, next_value};
use crate::mir::inst::TermView;
use crate::mir::types::{ErrorGuaranteed, Span, Value, ValueId};
use vstd::prelude::*;

verus! {

/// What a service replies.
#[derive(Debug)]
pub enum Reply {
    /// Its results are on the stack.
    Left,
    /// A value.
    Value(ValueId),
    /// Nothing.
    Nothing,
    /// An error that was reported.
    Failed(ErrorGuaranteed),
    /// Values that are returned.
    Items(Vec<ReturnItem>),
}

/// What must not occur in a checked program.
#[derive(Clone, Copy, Debug, PartialEq, Eq, Structural)]
pub enum Bug {
    /// A call that yields nothing where a value is asked for.
    UnitCallAsValue,
    /// A call that yields a value where none is asked for.
    UnitCallWithValue,
}

/// What comes after a reply.
pub enum Settled<'t> {
    /// The next turn.
    Done,
    /// Another part of the compiler has to act.
    Ask(Service<'t>),
    /// Nothing: the program was not a checked one.
    Stop(Bug, Span),
    /// Nothing: the reply does not fit the service.
    Unfit,
}

/// Whether a service replies with more than that its results are on the stack.
pub open spec fn replies<'t>(service: Service<'t>) -> bool {
    match service {
        Service::Operator(_, _, _) | Service::Call(_) | Service::UnitCall(_)
        | Service::PackedArguments(_) | Service::PackedHash(_) | Service::ReturnItems(_, _)
        | Service::TopicHash(_, _) => true,
        _ => false,
    }
}

/// The state with a value pushed, if it is one of the function.
pub open spec fn pushed<'t>(s: Scene, value: ValueId) -> (Scene, Settled<'t>) {
    if has_value(s.b.func, value) {
        (Scene { values: s.values.push(value), ..s }, Settled::Done)
    } else {
        (s, Settled::Unfit)
    }
}

/// The state with the value that stands for an error pushed.
pub open spec fn error_pushed<'t>(s: Scene, guar: ErrorGuaranteed) -> (Scene, Settled<'t>) {
    (
        Scene {
            b: valued(s.b, Value::Error(guar)),
            values: s.values.push(next_value(s.b.func)),
            ..s
        },
        Settled::Done,
    )
}

/// What the reply of a service comes to.
pub open spec fn settlement<'t>(s: Scene, service: Service<'t>, reply: Reply) -> (
    Scene,
    Settled<'t>,
) {
    match (service, reply) {
        // The value of an operator, or a complaint.
        (Service::Operator(_, _, _), Reply::Value(value)) => pushed(s, value),
        (Service::Operator(_, _, span), Reply::Nothing) => {
            let (b, value) = error_emitted(s.b);
            (
                Scene {
                    b,
                    values: s.values.push(value),
                    complaints: s.complaints.push((span, Complaint::OperatorWithoutValue)),
                    ..s
                },
                Settled::Done,
            )
        },
        // A call has a value exactly where one is asked for.
        (Service::Call(_), Reply::Value(value)) => pushed(s, value),
        (Service::Call(expr), Reply::Nothing) => (
            s,
            Settled::Stop(Bug::UnitCallAsValue, expr.span),
        ),
        (Service::UnitCall(_), Reply::Nothing) => (s, Settled::Done),
        (Service::UnitCall(expr), Reply::Value(_)) => (
            s,
            Settled::Stop(Bug::UnitCallWithValue, expr.span),
        ),
        // The hash of packed arguments, or the value that stands for the error.
        (Service::PackedArguments(args), Reply::Nothing) => (
            s,
            Settled::Ask(Service::PackedHash(args)),
        ),
        (Service::PackedArguments(_), Reply::Failed(guar)) => error_pushed(s, guar),
        (Service::PackedHash(_), Reply::Value(value)) => pushed(s, value),
        (Service::PackedHash(_), Reply::Failed(guar)) => error_pushed(s, guar),
        // An outside caller gets nothing where nothing is returned.
        (Service::ReturnItems(_, external), Reply::Items(items)) => if external && items@.len()
            == 0 {
            (Scene { b: ended(s.b, TermView::Stop), ..s }, Settled::Done)
        } else {
            (s, Settled::Ask(Service::FinishItems(items)))
        },
        // The hash if there is one, else the value.
        (Service::TopicHash(_, _), Reply::Value(value)) => pushed(s, value),
        (Service::TopicHash(arg, parameter), Reply::Nothing) => (
            s,
            Settled::Ask(Service::ValueFor(arg, parameter)),
        ),
        (_, Reply::Left) => if replies(service) {
            (s, Settled::Unfit)
        } else {
            (s, Settled::Done)
        },
        _ => (s, Settled::Unfit),
    }
}

impl Machine {
    /// Pushes a value, if it is one of the function.
    fn push_reply<'b, 't>(
        &mut self,
        lowerer: &Lowerer,
        builder: &FunctionBuilder<'b>,
        value: ValueId,
    ) -> (r: Settled<'t>)
        requires
            builder.wf(),
        ensures
            (scene(*lowerer, *final(self), builder@), r) == pushed::<'t>(
                scene(*lowerer, *old(self), builder@),
                value,
            ),
    {
        if !value_exists(builder, value) {
            return Settled::Unfit;
        }
        let ghost before = scene(*lowerer, *self, builder@);
        self.values.push(value);
        assert(scene(*lowerer, *self, builder@) =~= (Scene {
            values: before.values.push(value),
            ..before
        }));
        Settled::Done
    }

    /// Settles the reply of a service.
    pub fn settle<'b, 't>(
        &mut self,
        lowerer: &mut Lowerer,
        builder: &mut FunctionBuilder<'b>,
        service: &Service<'t>,
        reply: Reply,
    ) -> (r: Settled<'t>)
        requires
            old(builder).wf(),
        ensures
            final(builder).wf(),
            (scene(*final(lowerer), *final(self), final(builder)@), r) == settlement(
                scene(*old(lowerer), *old(self), old(builder)@),
                *service,
                reply,
            ),
            framed(*old(lowerer), *final(lowerer)),
            extends(old(builder)@, final(builder)@),
            *final(final(builder).func) == *final(old(builder).func),
    {
        broadcast use group_builder_steps;

        let ghost expected = settlement(scene(*lowerer, *self, builder@), *service, reply).0;
        match (service, reply) {
            (Service::Operator(_, _, _), Reply::Value(value))
            | (Service::Call(_), Reply::Value(value))
            | (Service::PackedHash(_), Reply::Value(value))
            | (Service::TopicHash(_, _), Reply::Value(value)) => self.push_reply(
                &*lowerer,
                &*builder,
                value,
            ),
            (Service::Operator(_, _, span), Reply::Nothing) => {
                let value = lowerer.err_value(builder, *span, Complaint::OperatorWithoutValue);
                self.values.push(value);
                assert(scene(*lowerer, *self, builder@) =~= expected);
                Settled::Done
            },
            (Service::Call(expr), Reply::Nothing) => Settled::Stop(
                Bug::UnitCallAsValue,
                expr.span,
            ),
            (Service::UnitCall(_), Reply::Nothing) => Settled::Done,
            (Service::UnitCall(expr), Reply::Value(_)) => Settled::Stop(
                Bug::UnitCallWithValue,
                expr.span,
            ),
            (Service::PackedArguments(args), Reply::Nothing) => Settled::Ask(
                Service::PackedHash(*args),
            ),
            (Service::PackedArguments(_), Reply::Failed(guar))
            | (Service::PackedHash(_), Reply::Failed(guar)) => {
                let value = builder.error_value(guar);
                self.values.push(value);
                assert(scene(*lowerer, *self, builder@) =~= expected);
                Settled::Done
            },
            (Service::ReturnItems(_, external), Reply::Items(items)) => {
                if *external && items.len() == 0 {
                    builder.stop();
                    assert(scene(*lowerer, *self, builder@) =~= expected);
                    Settled::Done
                } else {
                    Settled::Ask(Service::FinishItems(items))
                }
            },
            (Service::TopicHash(arg, parameter), Reply::Nothing) => Settled::Ask(
                Service::ValueFor(*arg, *parameter),
            ),
            (Service::Operator(_, _, _), _)
            | (Service::Call(_), _)
            | (Service::UnitCall(_), _)
            | (Service::PackedArguments(_), _)
            | (Service::PackedHash(_), _)
            | (Service::ReturnItems(_, _), _)
            | (Service::TopicHash(_, _), _) => Settled::Unfit,
            (_, Reply::Left) => Settled::Done,
            _ => Settled::Unfit,
        }
    }
}

} // verus!
