//! What plans evaluate and run, in which order and under which conditions.
//!
//! Tasks are followed here without building anything: the values are
//! descriptions of what they stand for.

use crate::hir::{BinOp, Expr, ExprKind, Hir, HirFunctionId, LoopSource, Stmt, SwitchCase, UnOp};
use crate::lower::analysis::{has_update, ternary_arity};
use crate::lower::plan::{assignment_tasks, binary_tasks, unary_tasks, Arithmetic, Service, Task};
use crate::lower::plan_calls::ternary_tasks;
use crate::lower::plan_stmt::{case_tasks, loop_tasks, statement_tasks, stmt_tasks};
use crate::lower::state::Lowerer;
use crate::word::U256;
use vstd::prelude::*;

verus! {

/// What a value stands for.
pub enum Item {
    /// The value of an expression.
    Of(Expr),
    /// A constant.
    Number(U256),
    /// An operator applied to two values.
    Applied(BinOp, Arithmetic, Box<Item>, Box<Item>),
    /// An operator applied to one value.
    Turned(UnOp, Box<Item>),
    /// A checked sum.
    Sum(Box<Item>, Box<Item>),
    /// A checked difference.
    Difference(Box<Item>, Box<Item>),
    /// The result of a function with one argument.
    Called(HirFunctionId, Box<Item>),
    /// The result of a function with two arguments.
    CalledOnTwo(HirFunctionId, Box<Item>, Box<Item>),
    /// Fixed-size bytes of a width.
    Cleaned(u8, Box<Item>),
    /// The second value where the first holds, else the third.
    Choice(Box<Item>, Box<Item>, Box<Item>),
    /// Whether both hold.
    Both(Box<Item>, Box<Item>),
    /// Whether one holds.
    Either(Box<Item>, Box<Item>),
    /// Whether a value is that of a case and of no case before it, or of none where
    /// the case is the default.
    IsCase(Box<Item>, nat),
}

/// Values, the top one first.
pub enum Stack {
    /// Those that were there before.
    Before,
    /// One more.
    On(Item, Box<Stack>),
}

/// Under which conditions something happens.
pub enum Path {
    /// Wherever the plan is reached.
    Always,
    /// Where a value holds, or where it does not.
    When(Item, bool, Box<Path>),
}

/// What happens.
pub enum Deed {
    /// An expression is evaluated.
    Evaluates(Expr),
    /// An expression is assigned a value.
    Assigns(Expr, Item),
    /// A statement runs.
    Runs(Stmt),
    /// Statements run.
    RunsAll(Seq<Stmt>),
}

/// What has happened so far, the last first.
pub enum Log {
    /// Nothing.
    Start,
    /// One deed more.
    More(Box<Log>, Path, Deed),
}

/// Where the tasks of a plan have got to.
pub struct Course {
    /// The values.
    pub stack: Stack,
    /// What first arms left.
    pub kept: Stack,
    /// The present conditions.
    pub path: Path,
    /// What happened.
    pub log: Log,
    /// The value that the enclosing switch decides on.
    pub selector: Option<Item>,
}

/// The start of a plan.
pub open spec fn at_start() -> Course {
    Course {
        stack: Stack::Before,
        kept: Stack::Before,
        path: Path::Always,
        log: Log::Start,
        selector: None,
    }
}

/// The course with one more value.
pub open spec fn given(c: Course, item: Item) -> Course {
    Course { stack: Stack::On(item, Box::new(c.stack)), ..c }
}

/// The course with a deed under the present conditions.
pub open spec fn noted(c: Course, deed: Deed) -> Course {
    Course { log: Log::More(Box::new(c.log), c.path, deed), ..c }
}

/// The course after an expression is evaluated.
pub open spec fn evaluated(c: Course, expr: Expr) -> Course {
    given(noted(c, Deed::Evaluates(expr)), Item::Of(expr))
}

/// The course under one more condition.
pub open spec fn under(c: Course, item: Item, holds: bool) -> Course {
    Course { path: Path::When(item, holds, Box::new(c.path)), ..c }
}

/// The course after a service.
pub open spec fn served<'t>(c: Course, service: Service<'t>) -> Option<Course> {
    match service {
        Service::MemoryBytes(expr) | Service::MemoryArray(expr) => Some(evaluated(c, *expr)),
        Service::Binary(op, how) => match c.stack {
            Stack::On(b, rest) => match *rest {
                Stack::On(a, rest) => Some(
                    given(
                        Course { stack: *rest, ..c },
                        Item::Applied(op, how, Box::new(a), Box::new(b)),
                    ),
                ),
                _ => None,
            },
            _ => None,
        },
        Service::CheckedAdd(_, _) => match c.stack {
            Stack::On(b, rest) => match *rest {
                Stack::On(a, rest) => Some(
                    given(Course { stack: *rest, ..c }, Item::Sum(Box::new(a), Box::new(b))),
                ),
                _ => None,
            },
            _ => None,
        },
        Service::CheckedSub(_, _) => match c.stack {
            Stack::On(b, rest) => match *rest {
                Stack::On(a, rest) => Some(
                    given(Course { stack: *rest, ..c }, Item::Difference(Box::new(a), Box::new(b))),
                ),
                _ => None,
            },
            _ => None,
        },
        Service::Unary(op, _, _) => match c.stack {
            Stack::On(a, rest) => Some(
                given(Course { stack: *rest, ..c }, Item::Turned(op, Box::new(a))),
            ),
            _ => None,
        },
        Service::Operator(id, count, _) => match c.stack {
            Stack::On(b, rest) => if count == 1 {
                Some(given(Course { stack: *rest, ..c }, Item::Called(id, Box::new(b))))
            } else {
                match *rest {
                    Stack::On(a, rest) => Some(
                        given(
                            Course { stack: *rest, ..c },
                            Item::CalledOnTwo(id, Box::new(a), Box::new(b)),
                        ),
                    ),
                    _ => None,
                }
            },
            _ => None,
        },
        _ => None,
    }
}

/// The course after a task; none where the task is not followed here.
pub open spec fn followed<'t>(c: Course, task: Task<'t>) -> Option<Course> {
    match task {
        Task::Value(expr) => Some(evaluated(c, *expr)),
        Task::Constant(number) => Some(given(c, Item::Number(number))),
        Task::Service(service) => served(c, service),
        Task::Stmt(stmt) => Some(noted(c, Deed::Runs(*stmt))),
        Task::Statements(body, from) => Some(noted(c, Deed::RunsAll(body@.skip(from as int)))),
        Task::Duplicate => match c.stack {
            Stack::On(a, _) => Some(given(c, a)),
            _ => None,
        },
        Task::Discard => match c.stack {
            Stack::On(_, rest) => Some(Course { stack: *rest, ..c }),
            _ => None,
        },
        Task::Exchange => match c.stack {
            Stack::On(b, rest) => match *rest {
                Stack::On(a, rest) => Some(given(given(Course { stack: *rest, ..c }, b), a)),
                _ => None,
            },
            _ => None,
        },
        Task::CleanFixedBytes(width) => match c.stack {
            Stack::On(a, rest) => Some(
                given(Course { stack: *rest, ..c }, Item::Cleaned(width, Box::new(a))),
            ),
            _ => None,
        },
        Task::Assign(target) => match c.stack {
            Stack::On(a, rest) => Some(
                noted(Course { stack: *rest, ..c }, Deed::Assigns(*target, a)),
            ),
            _ => None,
        },
        // What comes after a condition runs where it holds.
        Task::ArmsBegin | Task::IfBegin(_) | Task::ForBranch => match c.stack {
            Stack::On(a, rest) => Some(under(Course { stack: *rest, ..c }, a, true)),
            _ => None,
        },
        Task::IfElse | Task::ForElse => match c.path {
            Path::When(a, _, outer) => Some(under(Course { path: *outer, ..c }, a, false)),
            _ => None,
        },
        Task::IfEnd => match c.path {
            Path::When(_, _, outer) => Some(Course { path: *outer, ..c }),
            _ => None,
        },
        Task::LoopEnd(back) => if back {
            Some(c)
        } else {
            match c.path {
                Path::When(_, _, outer) => Some(Course { path: *outer, ..c }),
                _ => None,
            }
        },
        Task::LoopBegin(_) | Task::ForBegin | Task::ForUpdate => Some(c),
        Task::ArmEnd(_, last) => match (c.stack, c.path) {
            (Stack::On(v, rest), Path::When(a, _, outer)) => if !last {
                Some(
                    under(
                        Course {
                            stack: *rest,
                            kept: Stack::On(v, Box::new(c.kept)),
                            path: *outer,
                            ..c
                        },
                        a,
                        false,
                    ),
                )
            } else {
                match c.kept {
                    Stack::On(first, kept) => Some(
                        given(
                            Course { stack: *rest, kept: *kept, path: *outer, ..c },
                            Item::Choice(Box::new(a), Box::new(first), Box::new(v)),
                        ),
                    ),
                    _ => None,
                }
            },
            _ => None,
        },
        // The right operand of `&&` is evaluated where the left one holds, that of
        // `||` where it does not.
        Task::ShortCircuitBegin(is_and) => match c.stack {
            Stack::On(a, rest) => Some(under(Course { stack: *rest, ..c }, a, is_and)),
            _ => None,
        },
        Task::ShortCircuitEnd(is_and) => match (c.stack, c.path) {
            (Stack::On(b, rest), Path::When(a, _, outer)) => Some(
                given(
                    Course { stack: *rest, path: *outer, ..c },
                    if is_and {
                        Item::Both(Box::new(a), Box::new(b))
                    } else {
                        Item::Either(Box::new(a), Box::new(b))
                    },
                ),
            ),
            _ => None,
        },
        Task::SwitchBegin(_) => match c.stack {
            Stack::On(a, rest) => Some(Course { stack: *rest, selector: Some(a), ..c }),
            _ => None,
        },
        Task::CaseBegin(index) => match c.selector {
            Some(a) => Some(under(c, Item::IsCase(Box::new(a), index as nat), true)),
            None => None,
        },
        Task::CaseEnd => match c.path {
            Path::When(_, _, outer) => Some(Course { path: *outer, ..c }),
            _ => None,
        },
        Task::SwitchEnd => Some(Course { selector: None, ..c }),
        _ => None,
    }
}

/// The course after the first `count` tasks.
pub open spec fn course<'t>(tasks: Seq<Task<'t>>, count: nat, from: Course) -> Option<Course>
    decreases count,
{
    if count == 0 {
        Some(from)
    } else {
        match course(tasks, (count - 1) as nat, from) {
            Some(c) => followed(c, tasks[count - 1]),
            None => None,
        }
    }
}

/// The course after all tasks.
pub open spec fn outcome<'t>(tasks: Seq<Task<'t>>, from: Course) -> Option<Course> {
    course(tasks, tasks.len(), from)
}

/// An operator that is not `&&` or `||` is applied to its left operand and its right
/// operand, which are evaluated in this order.
pub proof fn law_binary_plan<'t>(expr: Expr, lhs: Expr, op: BinOp, rhs: Expr)
    requires
        !(op is And),
        !(op is Or),
        expr.facts.user_operator is None,
        lhs.facts.fixed_bytes is None,
        rhs.facts.fixed_bytes is None,
        expr.facts.fixed_bytes is None,
    ensures
        ({
            let c = outcome(binary_tasks::<'t>(expr, lhs, op, rhs), at_start());
            &&& c == Some(
                given(
                    noted(noted(at_start(), Deed::Evaluates(lhs)), Deed::Evaluates(rhs)),
                    c->0.stack->0,
                ),
            )
            &&& c->0.stack->0 matches Item::Applied(applied, _, a, b) && applied == op && *a
                == Item::Of(lhs) && *b == Item::Of(rhs)
        }),
{
    reveal_with_fuel(course, 5);
}

/// `&&` evaluates its right operand where the left one holds and is whether both
/// hold; `||` evaluates it where the left one does not hold and is whether one holds.
pub proof fn law_logical_plan<'t>(expr: Expr, lhs: Expr, op: BinOp, rhs: Expr)
    requires
        op is And || op is Or,
        expr.facts.user_operator is None,
    ensures
        outcome(binary_tasks::<'t>(expr, lhs, op, rhs), at_start()) == Some(
            Course {
                log: Log::More(
                    Box::new(Log::More(Box::new(Log::Start), Path::Always, Deed::Evaluates(lhs))),
                    Path::When(Item::Of(lhs), op is And, Box::new(Path::Always)),
                    Deed::Evaluates(rhs),
                ),
                ..given(
                    at_start(),
                    if op is And {
                        Item::Both(Box::new(Item::Of(lhs)), Box::new(Item::Of(rhs)))
                    } else {
                        Item::Either(Box::new(Item::Of(lhs)), Box::new(Item::Of(rhs)))
                    },
                )
            },
        ),
{
    reveal_with_fuel(course, 5);
}

/// An operator that a function implements is a call of it, with the operands in
/// their order.
pub proof fn law_user_operator_plan<'t>(expr: Expr, lhs: Expr, op: BinOp, rhs: Expr)
    requires
        expr.facts.user_operator is Some,
    ensures
        outcome(binary_tasks::<'t>(expr, lhs, op, rhs), at_start()) == Some(
            given(
                noted(noted(at_start(), Deed::Evaluates(lhs)), Deed::Evaluates(rhs)),
                Item::CalledOnTwo(
                    expr.facts.user_operator->0,
                    Box::new(Item::Of(lhs)),
                    Box::new(Item::Of(rhs)),
                ),
            ),
        ),
{
    reveal_with_fuel(course, 4);
}

/// A variable is stepped up by one under `++` and down by one under `--`. The value
/// is the new one where the operator stands in front, and the old one where it stands
/// behind.
pub proof fn law_step_plan<'t>(expr: Expr, op: UnOp, operand: Expr)
    requires
        op is PreInc || op is PreDec || op is PostInc || op is PostDec,
        !expr.facts.unsupported_operator,
    ensures
        ({
            let old = Item::Of(operand);
            let one = Item::Number(U256 { l0: 1, l1: 0, l2: 0, l3: 0 });
            let new = if op is PreInc || op is PostInc {
                Item::Sum(Box::new(old), Box::new(one))
            } else {
                Item::Difference(Box::new(old), Box::new(one))
            };
            outcome(unary_tasks::<'t>(expr, op, operand), at_start()) == Some(
                given(
                    noted(
                        noted(at_start(), Deed::Evaluates(operand)),
                        Deed::Assigns(operand, new),
                    ),
                    if op is PreInc || op is PreDec {
                        new
                    } else {
                        old
                    },
                ),
            )
        }),
{
    reveal_with_fuel(course, 6);
}

/// Another operator with one operand is applied to it.
pub proof fn law_unary_plan<'t>(expr: Expr, op: UnOp, operand: Expr)
    requires
        op is Not || op is BitNot || op is Neg,
        !expr.facts.unsupported_operator,
        expr.facts.user_operator is None,
        expr.facts.fixed_bytes is None,
    ensures
        outcome(unary_tasks::<'t>(expr, op, operand), at_start()) == Some(
            given(
                noted(at_start(), Deed::Evaluates(operand)),
                Item::Turned(op, Box::new(Item::Of(operand))),
            ),
        ),
{
    reveal_with_fuel(course, 6);
}

/// A compound assignment evaluates its right side first, applies the operator to the
/// old value of its target and the right side, assigns the result to the target and
/// has it as its value.
pub proof fn law_compound_plan<'t>(
    lowerer: Lowerer,
    hir: Hir,
    expr: Expr,
    lhs: Expr,
    op: BinOp,
    rhs: Expr,
)
    ensures
        ({
            let c = outcome(
                assignment_tasks::<'t>(lowerer, hir, expr, lhs, Some(op), rhs),
                at_start(),
            );
            let new = c->0.stack->0;
            &&& c == Some(
                given(
                    noted(
                        noted(
                            noted(at_start(), Deed::Evaluates(rhs)),
                            Deed::Evaluates(lhs),
                        ),
                        Deed::Assigns(lhs, new),
                    ),
                    new,
                ),
            )
            &&& new matches Item::Applied(applied, _, a, b) && applied == op && *a == Item::Of(lhs)
                && *b == Item::Of(rhs)
        }),
{
    reveal_with_fuel(course, 7);
}

/// A plain assignment evaluates its right side, assigns it to its target and has it
/// as its value.
pub proof fn law_assignment_plan<'t>(lowerer: Lowerer, hir: Hir, expr: Expr, lhs: Expr, rhs: Expr)
    requires
        !(lhs.kind is Tuple),
        lhs.facts.variable is None,
    ensures
        outcome(assignment_tasks::<'t>(lowerer, hir, expr, lhs, None, rhs), at_start()) == Some(
            given(
                noted(
                    noted(at_start(), Deed::Evaluates(rhs)),
                    Deed::Assigns(lhs, Item::Of(rhs)),
                ),
                Item::Of(rhs),
            ),
        ),
{
    reveal_with_fuel(course, 4);
}

/// A conditional evaluates its condition, its first arm where the condition holds and
/// its second arm where it does not, and chooses between them by the condition.
pub proof fn law_ternary_plan<'t>(expr: Expr, cond: Expr, then_val: Expr, else_val: Expr)
    requires
        expr.kind == ExprKind::Ternary(Box::new(cond), Box::new(then_val), Box::new(else_val)),
        ternary_arity(expr) is None,
    ensures
        ({
            let decides = Item::Of(cond);
            let first = Path::When(decides, true, Box::new(Path::Always));
            let second = Path::When(decides, false, Box::new(Path::Always));
            outcome(ternary_tasks::<'t>(expr), at_start()) == Some(
                Course {
                    log: Log::More(
                        Box::new(
                            Log::More(
                                Box::new(
                                    Log::More(
                                        Box::new(Log::Start),
                                        Path::Always,
                                        Deed::Evaluates(cond),
                                    ),
                                ),
                                first,
                                Deed::Evaluates(then_val),
                            ),
                        ),
                        second,
                        Deed::Evaluates(else_val),
                    ),
                    ..given(
                        at_start(),
                        Item::Choice(
                            Box::new(decides),
                            Box::new(Item::Of(then_val)),
                            Box::new(Item::Of(else_val)),
                        ),
                    )
                },
            )
        }),
{
    reveal_with_fuel(course, 7);
}

/// An `if` evaluates its condition and runs its first statement where the condition
/// holds and its other one, if there is one, where it does not.
pub proof fn law_if_plan<'t>(
    lowerer: Lowerer,
    hir: Hir,
    cond: Expr,
    then_stmt: Stmt,
    else_stmt: Option<Stmt>,
)
    ensures
        ({
            let stmt = Stmt::If(
                cond,
                Box::new(then_stmt),
                match else_stmt {
                    Some(other) => Some(Box::new(other)),
                    None => None,
                },
            );
            let begun = Log::More(
                Box::new(Log::More(Box::new(Log::Start), Path::Always, Deed::Evaluates(cond))),
                Path::When(Item::Of(cond), true, Box::new(Path::Always)),
                Deed::Runs(then_stmt),
            );
            outcome(stmt_tasks::<'t>(lowerer, hir, stmt), at_start()) == Some(
                Course {
                    log: match else_stmt {
                        Some(other) => Log::More(
                            Box::new(begun),
                            Path::When(Item::Of(cond), false, Box::new(Path::Always)),
                            Deed::Runs(other),
                        ),
                        None => begun,
                    },
                    ..at_start()
                },
            )
        }),
{
    reveal_with_fuel(course, 7);
}

/// The log of statements that run one after the other.
pub open spec fn all_run(log: Log, path: Path, body: Seq<Stmt>, count: nat) -> Log
    decreases count,
{
    if count == 0 {
        log
    } else {
        Log::More(
            Box::new(all_run(log, path, body, (count - 1) as nat)),
            path,
            Deed::Runs(body[count - 1]),
        )
    }
}

/// The course after tasks that follow others.
proof fn lemma_course_join<'t>(
    first: Seq<Task<'t>>,
    second: Seq<Task<'t>>,
    count: nat,
    from: Course,
)
    requires
        count <= second.len(),
    ensures
        course(first + second, first.len() + count, from) == match outcome(first, from) {
            Some(mid) => course(second, count, mid),
            None => None,
        },
    decreases count,
{
    if count == 0 {
        lemma_course_prefix(first, first + second, first.len(), from);
    } else {
        lemma_course_join(first, second, (count - 1) as nat, from);
    }
}

/// The course after the first tasks does not depend on what follows.
proof fn lemma_course_prefix<'t>(
    tasks: Seq<Task<'t>>,
    longer: Seq<Task<'t>>,
    count: nat,
    from: Course,
)
    requires
        count <= tasks.len() <= longer.len(),
        forall|i: int| 0 <= i < count ==> tasks[i] == longer[i],
    ensures
        course(tasks, count, from) == course(longer, count, from),
    decreases count,
{
    if count > 0 {
        lemma_course_prefix(tasks, longer, (count - 1) as nat, from);
    }
}

/// Statements run in their order.
proof fn lemma_statements_run<'t>(body: Seq<Stmt>, count: nat, from: Course)
    requires
        count <= body.len(),
    ensures
        statement_tasks::<'t>(body, count).len() == count,
        outcome(statement_tasks::<'t>(body, count), from) == Some(
            Course { log: all_run(from.log, from.path, body, count), ..from },
        ),
    decreases count,
{
    if count > 0 {
        let less = (count - 1) as nat;
        lemma_statements_run(body, less, from);
        lemma_course_prefix(
            statement_tasks::<'t>(body, less),
            statement_tasks::<'t>(body, count),
            less,
            from,
        );
    }
}

/// A loop runs its body. A `for` loop with an update evaluates its condition; where
/// it holds, the statements of the body run in their order, and the update after
/// them; where it does not hold, the statement that leaves the loop runs.
pub proof fn law_loop_plan<'t>(
    body: Vec<Stmt>,
    source: LoopSource,
    cond: Expr,
    inner: Vec<Stmt>,
    else_stmt: Option<Box<Stmt>>,
)
    ensures
        !(source is For && has_update(body@)) ==> outcome(
            loop_tasks::<'t>(body, source),
            at_start(),
        ) == Some(noted(at_start(), Deed::RunsAll(body@.skip(0)))),
        source is For && has_update(body@) && body@[0] == Stmt::If(
            cond,
            Box::new(Stmt::Block(inner)),
            else_stmt,
        ) ==> ({
            let turn = Path::When(Item::Of(cond), true, Box::new(Path::Always));
            let begun = Log::More(Box::new(Log::Start), Path::Always, Deed::Evaluates(cond));
            let ran = all_run(begun, turn, inner@, inner@.len());
            outcome(loop_tasks::<'t>(body, source), at_start()) == Some(
                Course {
                    log: match else_stmt {
                        Some(other) => Log::More(
                            Box::new(ran),
                            Path::When(Item::Of(cond), false, Box::new(Path::Always)),
                            Deed::Runs(*other),
                        ),
                        None => ran,
                    },
                    ..at_start()
                },
            )
        }),
{
    reveal_with_fuel(course, 5);
    if source is For && has_update(body@) && body@[0] == Stmt::If(
        cond,
        Box::new(Stmt::Block(inner)),
        else_stmt,
    ) {
        let last = (inner@.len() - 1) as nat;
        let head = seq![Task::<'t>::LoopBegin(true)]
            .push(Task::ForBegin)
            .push(Task::Value(&cond))
            .push(Task::ForBranch);
        let middle = statement_tasks::<'t>(inner@, last);
        let update = seq![Task::<'t>::ForUpdate]
            .push(Task::Stmt(&inner@[last as int]))
            .push(Task::ForElse);
        let c1 = outcome(head, at_start())->0;
        lemma_statements_run(inner@, last, c1);
        lemma_course_join(head, middle, middle.len(), at_start());
        let c2 = outcome(middle, c1)->0;
        lemma_course_join(head + middle, update, 3, at_start());
        let turn = head + middle + update;
        let tasks = loop_tasks::<'t>(body, source);
        assert(tasks =~= match else_stmt {
            Some(other) => turn.push(Task::Stmt(&*other)).push(Task::LoopEnd(false)),
            None => turn.push(Task::LoopEnd(false)),
        });
        lemma_course_prefix(turn, tasks, turn.len(), at_start());
    }
}

/// The log of the first `count` cases of a switch.
pub open spec fn cases_run(log: Log, selector: Item, cases: Seq<SwitchCase>, count: nat) -> Log
    decreases count,
{
    if count == 0 {
        log
    } else {
        Log::More(
            Box::new(cases_run(log, selector, cases, (count - 1) as nat)),
            Path::When(
                Item::IsCase(Box::new(selector), (count - 1) as nat),
                true,
                Box::new(Path::Always),
            ),
            Deed::RunsAll(cases[count - 1].body@.skip(0)),
        )
    }
}

/// Cases run where the selector is theirs.
proof fn lemma_cases_run<'t>(cases: Seq<SwitchCase>, count: nat, from: Course)
    requires
        count <= cases.len(),
        cases.len() <= usize::MAX,
        from.selector is Some,
        from.path is Always,
    ensures
        outcome(case_tasks::<'t>(cases, count), from) == Some(
            Course { log: cases_run(from.log, from.selector->0, cases, count), ..from },
        ),
    decreases count,
{
    reveal_with_fuel(course, 4);
    if count > 0 {
        let less = (count - 1) as nat;
        lemma_cases_run(cases, less, from);
        let one = seq![Task::<'t>::CaseBegin(less as usize)]
            .push(Task::Statements(&cases[less as int].body, 0))
            .push(Task::CaseEnd);
        lemma_course_join(case_tasks::<'t>(cases, less), one, 3, from);
    }
}

/// A switch evaluates its selector and runs the body of each case where the case is
/// the one for it.
pub proof fn law_switch_plan<'t>(
    lowerer: Lowerer,
    hir: Hir,
    selector: Expr,
    cases: Vec<SwitchCase>,
)
    requires
        cases@.len() <= usize::MAX,
    ensures
        outcome(stmt_tasks::<'t>(lowerer, hir, Stmt::Switch(selector, cases)), at_start()) == Some(
            Course {
                log: cases_run(
                    Log::More(Box::new(Log::Start), Path::Always, Deed::Evaluates(selector)),
                    Item::Of(selector),
                    cases@,
                    cases@.len(),
                ),
                ..at_start()
            },
        ),
{
    reveal_with_fuel(course, 3);
    let head = seq![Task::<'t>::Value(&selector)].push(Task::SwitchBegin(&cases));
    let middle = case_tasks::<'t>(cases@, cases@.len());
    let c1 = outcome(head, at_start())->0;
    lemma_cases_run(cases@, cases@.len(), c1);
    lemma_course_join(head, middle, middle.len(), at_start());
    lemma_course_join(head + middle, seq![Task::<'t>::SwitchEnd], 1, at_start());
}

/// `break` goes to where the innermost loop is left to, and `continue` to where it
/// goes on.
pub proof fn law_jump_plans<'t>(lowerer: Lowerer, hir: Hir)
    requires
        lowerer.loop_stack@.len() > 0,
    ensures
        stmt_tasks::<'t>(lowerer, hir, Stmt::Break) == seq![
            Task::<'t>::Jump(lowerer.loop_stack@.last().break_target),
        ],
        stmt_tasks::<'t>(lowerer, hir, Stmt::Continue) == seq![
            Task::<'t>::Jump(lowerer.loop_stack@.last().continue_target),
        ],
{
}

} // verus!
