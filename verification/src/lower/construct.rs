//! Constructors: initial values of the state and the constructors of bases.

use crate::hir::{
    contract_fits, has_contracts, has_variables, hir_wf, ContractId, Expr, Hir, Modifier, VarKind,
    Variable, VariableId,
};
use crate::lower::inherit::{all_variables, collect_variables};
use crate::lower::plan::{Service, Task};
use crate::lower::state::{lookup, Complaint, Lowerer};
use crate::mir::types::Span;
use vstd::prelude::*;

verus! {

/// Whether a variable is initialized when its contract is constructed.
pub open spec fn has_state_initializer(var: Variable) -> bool {
    var.kind is State && !(var.mutability is Constant) && var.initializer is Some
}

/// Whether a contract without a constructor needs one made for it: to
/// initialize the state or to run the constructors of its bases.
pub open spec fn needs_constructor(hir: Hir, contract: ContractId) -> bool {
    let ids = all_variables(hir, contract);
    let bases = hir.contracts@[contract.0 as int].linearized_bases@;
    ||| exists|i: int|
        0 <= i < ids.len() && has_state_initializer(
            #[trigger] hir.variables@[ids[i].0 as int],
        )
    ||| exists|i: int|
        0 <= i < bases.len() && #[trigger] bases[i] != contract
            && hir.contracts@[bases[i].0 as int].ctor is Some
}

/// Returns whether a contract without a constructor needs one made for it.
pub fn needs_synthetic_constructor(hir: &Hir, contract_id: ContractId) -> (r: bool)
    requires
        hir_wf(*hir),
        contract_id.0 < hir.contracts@.len(),
    ensures
        r == needs_constructor(*hir, contract_id),
{
    proof {
        reveal(hir_wf);
        assert(contract_fits(*hir, hir.contracts@[contract_id.0 as int]));
    }
    let ids = collect_variables(hir, contract_id);
    let mut i: usize = 0;
    while i < ids.len()
        invariant
            i <= ids@.len(),
            ids@ == all_variables(*hir, contract_id),
            has_variables(*hir, ids@),
            forall|k: int|
                0 <= k < i ==> !has_state_initializer(
                    #[trigger] hir.variables@[ids@[k].0 as int],
                ),
        decreases ids@.len() - i,
    {
        assert(ids@[i as int].0 < hir.variables@.len());
        let var = &hir.variables[ids[i].0];
        if matches!(var.kind, VarKind::State) && !var.is_constant() && var.initializer.is_some() {
            assert(has_state_initializer(hir.variables@[ids@[i as int].0 as int]));
            return true;
        }
        i = i + 1;
    }
    let bases = &hir.contracts[contract_id.0].linearized_bases;
    let mut k: usize = 0;
    while k < bases.len()
        invariant
            k <= bases@.len(),
            bases@ == hir.contracts@[contract_id.0 as int].linearized_bases@,
            has_contracts(*hir, bases@),
            forall|m: int|
                0 <= m < k ==> #[trigger] bases@[m] == contract_id
                    || hir.contracts@[bases@[m].0 as int].ctor is None,
        decreases bases@.len() - k,
    {
        assert(bases@[k as int].0 < hir.contracts@.len());
        if bases[k] != contract_id && hir.contracts[bases[k].0].ctor.is_some() {
            return true;
        }
        k = k + 1;
    }
    false
}

/// The first of the arguments from an index on that a contract passes to a
/// base.
pub open spec fn arguments_from(
    hir: Hir,
    declaring: ContractId,
    base: ContractId,
    from: nat,
) -> Option<
    usize,
>
    decreases hir.contracts@[declaring.0 as int].base_args@.len() - from,
{
    let contract = hir.contracts@[declaring.0 as int];
    if from >= contract.base_args@.len() || from + 1 >= contract.linearized_bases@.len() {
        None
    } else if contract.linearized_bases@[(from + 1) as int] == base
        && contract.base_args@[from as int] is Some {
        Some(from as usize)
    } else {
        arguments_from(hir, declaring, base, from + 1)
    }
}

/// The arguments that a contract passes to a base, if it passes a list.
pub open spec fn arguments_of(hir: Hir, declaring: ContractId, base: ContractId) -> Option<usize> {
    match arguments_from(hir, declaring, base, 0) {
        Some(index) => match hir.contracts@[declaring.0 as int].base_args@[index as int] {
            Some(modifier) if modifier.args is Some => Some(index),
            _ => None,
        },
        None => None,
    }
}

/// Returns the arguments that a contract passes to a base, if it passes a list.
fn find_arguments(hir: &Hir, declaring: ContractId, base: ContractId) -> (r: Option<usize>)
    requires
        declaring.0 < hir.contracts@.len(),
    ensures
        r == arguments_of(*hir, declaring, base),
        r matches Some(index) ==> {
            &&& index < hir.contracts@[declaring.0 as int].base_args@.len()
            &&& hir.contracts@[declaring.0 as int].base_args@[index as int] matches Some(modifier)
            &&& modifier.args is Some
        },
{
    let contract = &hir.contracts[declaring.0];
    let mut i: usize = 0;
    while i < contract.base_args.len() && i + 1 < contract.linearized_bases.len()
        invariant
            i <= contract.base_args@.len(),
            *contract == hir.contracts@[declaring.0 as int],
            arguments_from(*hir, declaring, base, 0) == arguments_from(
                *hir,
                declaring,
                base,
                i as nat,
            ),
        decreases contract.base_args@.len() - i,
    {
        if contract.linearized_bases[i + 1] == base {
            if let Some(modifier) = &contract.base_args[i] {
                if modifier.args.is_some() {
                    return Some(i);
                }
                return None;
            }
        }
        i = i + 1;
    }
    None
}

/// The first contract from an index on that passes arguments to a base, and the
/// index of the arguments.
pub open spec fn provider_from(
    hir: Hir,
    contract: ContractId,
    base: ContractId,
    from: nat,
) -> Option<
    (ContractId, usize),
>
    decreases hir.contracts@[contract.0 as int].linearized_bases@.len() - from,
{
    let bases = hir.contracts@[contract.0 as int].linearized_bases@;
    if from >= bases.len() {
        None
    } else {
        match arguments_of(hir, bases[from as int], base) {
            Some(index) => Some((bases[from as int], index)),
            None => provider_from(hir, contract, base, from + 1),
        }
    }
}

/// The contract that passes arguments to a base: the most derived that does.
pub open spec fn provider_of(hir: Hir, contract: ContractId, base: ContractId) -> Option<
    (ContractId, usize),
> {
    provider_from(hir, contract, base, 0)
}

/// Returns the contract that passes arguments to a base, and their index.
fn find_provider(hir: &Hir, contract: ContractId, base: ContractId) -> (r: Option<
    (ContractId, usize),
>)
    requires
        hir_wf(*hir),
        contract.0 < hir.contracts@.len(),
    ensures
        r == provider_of(*hir, contract, base),
        r matches Some((declaring, index)) ==> {
            &&& declaring.0 < hir.contracts@.len()
            &&& index < hir.contracts@[declaring.0 as int].base_args@.len()
            &&& hir.contracts@[declaring.0 as int].base_args@[index as int] matches Some(modifier)
            &&& modifier.args is Some
        },
{
    proof {
        reveal(hir_wf);
        assert(contract_fits(*hir, hir.contracts@[contract.0 as int]));
    }
    let bases = &hir.contracts[contract.0].linearized_bases;
    let mut i: usize = 0;
    while i < bases.len()
        invariant
            i <= bases@.len(),
            has_contracts(*hir, bases@),
            bases@ == hir.contracts@[contract.0 as int].linearized_bases@,
            provider_of(*hir, contract, base) == provider_from(*hir, contract, base, i as nat),
        decreases bases@.len() - i,
    {
        assert(bases@[i as int].0 < hir.contracts@.len());
        if let Some(index) = find_arguments(hir, bases[i], base) {
            return Some((bases[i], index));
        }
        i = i + 1;
    }
    None
}

/// The arguments of the constructor of one base.
#[derive(Clone, Copy, Debug)]
pub struct BaseArguments {
    /// The base.
    pub base: ContractId,
    /// The contract that passes them and their index, if there are any.
    pub provider: Option<(ContractId, usize)>,
}

/// Whether the arguments of a base are among some.
pub open spec fn is_resolved(done: Seq<BaseArguments>, base: ContractId) -> bool {
    exists|i: int| 0 <= i < done.len() && (#[trigger] done[i]).base == base
}

/// The number of parameters of the constructor of a contract.
pub open spec fn parameter_count(hir: Hir, base: ContractId) -> nat {
    match hir.contracts@[base.0 as int].ctor {
        Some(ctor) => hir.functions@[ctor.0 as int].parameters@.len(),
        None => 0,
    }
}

/// The modifier with the arguments of a provider.
pub open spec fn passed_modifier(hir: Hir, provider: (ContractId, usize)) -> Modifier {
    hir.contracts@[provider.0.0 as int].base_args@[provider.1 as int]->0
}

/// As many different contracts as there are leave none for another.
pub proof fn lemma_distinct_contracts(hir: Hir, active: Seq<ContractId>, base: ContractId)
    requires
        active.no_duplicates(),
        has_contracts(hir, active),
        !active.contains(base),
        base.0 < hir.contracts@.len(),
    ensures
        active.len() < hir.contracts@.len(),
{
    let all = active.push(base);
    assert(all.no_duplicates());
    let numbers = all.map_values(|id: ContractId| id.0 as int);
    assert(numbers.no_duplicates()) by {
        assert forall|i: int, j: int|
            0 <= i < numbers.len() && 0 <= j < numbers.len() && i != j implies numbers[i]
            != numbers[j] by {
            assert(all[i] != all[j]);
        }
    }
    numbers.unique_seq_to_set();
    let range = vstd::set_lib::set_int_range(0, hir.contracts@.len() as int);
    vstd::set_lib::lemma_int_range(0, hir.contracts@.len() as int);
    assert(numbers.to_set().subset_of(range)) by {
        assert forall|n: int| numbers.to_set().contains(n) implies range.contains(n) by {
            let i = choose|i: int| 0 <= i < numbers.len() && numbers[i] == n;
            if i < active.len() {
                assert(active[i].0 < hir.contracts@.len());
            }
        }
    }
    vstd::set_lib::lemma_len_subset(numbers.to_set(), range);
}

/// What resolving arguments yields: the bases whose arguments are evaluated, in
/// order, and what stopped it.
pub type Resolution = (Seq<BaseArguments>, Option<(Span, Complaint)>);

/// The arguments of a base, after those that they depend on: arguments may
/// mention the constructor parameters of the contract that passes them.
pub open spec fn base_resolved(
    hir: Hir,
    contract: ContractId,
    base: ContractId,
    done: Seq<BaseArguments>,
    active: Seq<ContractId>,
) -> Resolution
    decreases hir.contracts@.len() - active.len(),
    when active.no_duplicates() && has_contracts(hir, active) && base.0 < hir.contracts@.len()
        && providers_declared(hir, contract)
{
    if is_resolved(done, base) {
        (done, None)
    } else if active.contains(base) {
        (done, Some((hir.contracts@[base.0 as int].span, Complaint::CyclicBaseArguments)))
    } else {
        match provider_of(hir, contract, base) {
            None => if parameter_count(hir, base) == 0 {
                (done.push(BaseArguments { base, provider: None }), None)
            } else {
                (
                    done,
                    Some(
                        (
                            hir.contracts@[contract.0 as int].span,
                            Complaint::MissingBaseArguments(base),
                        ),
                    ),
                )
            },
            Some(provider) => {
                proof {
                    lemma_distinct_contracts(hir, active, base);
                }
                let (done, problem) = if provider.0 != contract
                    && hir.contracts@[provider.0.0 as int].ctor is Some {
                    base_resolved(hir, contract, provider.0, done, active.push(base))
                } else {
                    (done, None)
                };
                let modifier = passed_modifier(hir, provider);
                if problem is Some {
                    (done, problem)
                } else if (modifier.args->0)@.len() != parameter_count(hir, base) {
                    (done, Some((modifier.span, Complaint::BaseArgumentCount)))
                } else {
                    (done.push(BaseArguments { base, provider: Some(provider) }), None)
                }
            },
        }
    }
}

/// Whether every contract that passes arguments is declared.
pub open spec fn providers_declared(hir: Hir, contract: ContractId) -> bool {
    forall|base: ContractId|
        (#[trigger] provider_of(hir, contract, base)) is Some ==> (provider_of(
            hir,
            contract,
            base,
        )->0).0.0 < hir.contracts@.len()
}

/// Whether base arguments name declared contracts and arguments.
pub open spec fn arguments_fit(hir: Hir, arguments: BaseArguments) -> bool {
    &&& arguments.base.0 < hir.contracts@.len()
    &&& hir.contracts@[arguments.base.0 as int].ctor is Some
    &&& arguments.provider matches Some((declaring, index)) ==> {
        &&& declaring.0 < hir.contracts@.len()
        &&& index < hir.contracts@[declaring.0 as int].base_args@.len()
        &&& hir.contracts@[declaring.0 as int].base_args@[index as int] matches Some(modifier)
        &&& modifier.args matches Some(args)
        &&& args@.len() == parameter_count(hir, arguments.base)
    }
    &&& arguments.provider is None ==> parameter_count(hir, arguments.base) == 0
}

/// Whether all of some base arguments fit.
pub open spec fn all_arguments_fit(hir: Hir, done: Seq<BaseArguments>) -> bool {
    forall|i: int| 0 <= i < done.len() ==> arguments_fit(hir, #[trigger] done[i])
}

/// Every contract that passes arguments is a base, and bases are declared.
pub proof fn lemma_providers_declared(hir: Hir, contract: ContractId)
    requires
        hir_wf(hir),
        contract.0 < hir.contracts@.len(),
    ensures
        providers_declared(hir, contract),
{
    reveal(hir_wf);
    assert(contract_fits(hir, hir.contracts@[contract.0 as int]));
    assert forall|base: ContractId|
        (#[trigger] provider_of(hir, contract, base)) is Some implies (provider_of(
        hir,
        contract,
        base,
    )->0).0.0 < hir.contracts@.len() by {
        lemma_provider_declared(hir, contract, base, 0);
    }
}

/// A contract that passes arguments is a base.
proof fn lemma_provider_declared(hir: Hir, contract: ContractId, base: ContractId, from: nat)
    requires
        has_contracts(hir, hir.contracts@[contract.0 as int].linearized_bases@),
    ensures
        provider_from(hir, contract, base, from) matches Some((declaring, _)) ==> declaring.0
            < hir.contracts@.len(),
    decreases hir.contracts@[contract.0 as int].linearized_bases@.len() - from,
{
    let bases = hir.contracts@[contract.0 as int].linearized_bases@;
    if from < bases.len() {
        assert(bases[from as int].0 < hir.contracts@.len());
        lemma_provider_declared(hir, contract, base, from + 1);
    }
}

/// Resolves the arguments of a base. Returns what stops it.
fn lower_base_constructor_arguments(
    hir: &Hir,
    contract: ContractId,
    base: ContractId,
    done: &mut Vec<BaseArguments>,
    active: &mut Vec<ContractId>,
) -> (r: Option<(Span, Complaint)>)
    requires
        hir_wf(*hir),
        contract.0 < hir.contracts@.len(),
        base.0 < hir.contracts@.len(),
        hir.contracts@[base.0 as int].ctor is Some,
        old(active)@.no_duplicates(),
        has_contracts(*hir, old(active)@),
        all_arguments_fit(*hir, old(done)@),
    ensures
        (final(done)@, r) == base_resolved(*hir, contract, base, old(done)@, old(active)@),
        final(active)@ == old(active)@,
        all_arguments_fit(*hir, final(done)@),
    decreases hir.contracts@.len() - old(active)@.len(),
{
    proof {
        lemma_providers_declared(*hir, contract);
        reveal(hir_wf);
        assert(contract_fits(*hir, hir.contracts@[base.0 as int]));
    }
    let mut i: usize = 0;
    while i < done.len()
        invariant
            i <= done@.len(),
            done@ == old(done)@,
            active@ == old(active)@,
            base.0 < hir.contracts@.len(),
            active@.no_duplicates(),
            has_contracts(*hir, active@),
            providers_declared(*hir, contract),
            all_arguments_fit(*hir, done@),
            forall|k: int| 0 <= k < i ==> (#[trigger] done@[k]).base != base,
        decreases done@.len() - i,
    {
        if done[i].base == base {
            assert(is_resolved(done@, base));
            return None;
        }
        i = i + 1;
    }
    assert(!is_resolved(done@, base));
    let mut k: usize = 0;
    while k < active.len()
        invariant
            k <= active@.len(),
            active@ == old(active)@,
            done@ == old(done)@,
            base.0 < hir.contracts@.len(),
            !is_resolved(done@, base),
            active@.no_duplicates(),
            has_contracts(*hir, active@),
            providers_declared(*hir, contract),
            all_arguments_fit(*hir, done@),
            forall|m: int| 0 <= m < k ==> #[trigger] active@[m] != base,
        decreases active@.len() - k,
    {
        if active[k] == base {
            assert(active@.contains(base));
            return Some((hir.contracts[base.0].span, Complaint::CyclicBaseArguments));
        }
        k = k + 1;
    }
    assert(!active@.contains(base));
    let count: usize = match hir.contracts[base.0].ctor {
        Some(ctor) => hir.functions[ctor.0].parameters.len(),
        None => 0,
    };
    match find_provider(hir, contract, base) {
        None => {
            if count == 0 {
                done.push(BaseArguments { base, provider: None });
                return None;
            }
            Some((hir.contracts[contract.0].span, Complaint::MissingBaseArguments(base)))
        },
        Some((declaring, index)) => {
            if declaring != contract && hir.contracts[declaring.0].ctor.is_some() {
                proof {
                    lemma_distinct_contracts(*hir, active@, base);
                }
                active.push(base);
                assert(active@.no_duplicates());
                let problem = lower_base_constructor_arguments(
                    hir,
                    contract,
                    declaring,
                    done,
                    active,
                );
                let _ = active.pop();
                assert(active@ =~= old(active)@);
                if problem.is_some() {
                    return problem;
                }
            }
            if let Some(modifier) = &hir.contracts[declaring.0].base_args[index] {
                if let Some(args) = &modifier.args {
                    if args.len() != count {
                        return Some((modifier.span, Complaint::BaseArgumentCount));
                    }
                }
            }
            done.push(BaseArguments { base, provider: Some((declaring, index)) });
            None
        },
    }
}

/// The arguments of the first `count` bases of a contract.
pub open spec fn bases_resolved(hir: Hir, contract: ContractId, count: nat) -> Resolution
    decreases count,
{
    let bases = hir.contracts@[contract.0 as int].linearized_bases@;
    if count <= 1 {
        (Seq::empty(), None)
    } else {
        let (done, problem) = bases_resolved(hir, contract, (count - 1) as nat);
        if problem is Some || hir.contracts@[bases[count - 1].0 as int].ctor is None {
            (done, problem)
        } else {
            base_resolved(hir, contract, bases[count - 1], done, Seq::empty())
        }
    }
}

/// The base constructor arguments of a contract, in the order in which they are
/// evaluated, and what stops it.
pub open spec fn constructor_arguments(hir: Hir, contract: ContractId) -> Resolution {
    bases_resolved(hir, contract, hir.contracts@[contract.0 as int].linearized_bases@.len())
}

/// Resolves the base constructor arguments of a contract. They are evaluated in
/// the order of the bases, each after the arguments it depends on.
pub fn resolve_base_arguments(hir: &Hir, contract: ContractId) -> (r: (
    Vec<BaseArguments>,
    Option<(Span, Complaint)>,
))
    requires
        hir_wf(*hir),
        contract.0 < hir.contracts@.len(),
    ensures
        (r.0@, r.1) == constructor_arguments(*hir, contract),
        all_arguments_fit(*hir, r.0@),
{
    proof {
        reveal(hir_wf);
        assert(contract_fits(*hir, hir.contracts@[contract.0 as int]));
    }
    let bases = &hir.contracts[contract.0].linearized_bases;
    let mut done: Vec<BaseArguments> = Vec::new();
    let mut problem: Option<(Span, Complaint)> = None;
    let mut i: usize = 1;
    assert(done@ =~= Seq::<BaseArguments>::empty());
    while i < bases.len()
        invariant
            1 <= i,
            i <= bases@.len() || i == 1,
            hir_wf(*hir),
            contract.0 < hir.contracts@.len(),
            bases@ == hir.contracts@[contract.0 as int].linearized_bases@,
            has_contracts(*hir, bases@),
            all_arguments_fit(*hir, done@),
            (done@, problem) == bases_resolved(*hir, contract, i as nat),
        decreases bases@.len() - i,
    {
        assert(bases@[i as int].0 < hir.contracts@.len());
        if problem.is_none() && hir.contracts[bases[i].0].ctor.is_some() {
            let mut active: Vec<ContractId> = Vec::new();
            assert(active@ =~= Seq::<ContractId>::empty());
            problem =
            lower_base_constructor_arguments(hir, contract, bases[i], &mut done, &mut active);
        }
        i = i + 1;
    }
    (done, problem)
}

/// The tasks that initialize a state variable.
pub open spec fn initializer_tasks<'a>(lowerer: Lowerer, id: VariableId, init: Expr) -> Seq<
    Task<'a>,
> {
    let store = match lookup(lowerer.immutable_slots@, id) {
        Some(offset) => Task::StoreImmutable(offset),
        None => match lookup(lowerer.storage_locations@, id) {
            Some(location) => Task::Service(Service::StoreLocation(location)),
            None => Task::Discard,
        },
    };
    seq![Task::Value(&init)].push(store)
}

/// The tasks that initialize the first `count` state variables of a list.
pub open spec fn state_tasks<'a>(
    lowerer: Lowerer,
    hir: Hir,
    ids: Seq<VariableId>,
    count: nat,
) -> Seq<Task<'a>>
    decreases count,
{
    if count == 0 {
        Seq::empty()
    } else {
        let front = state_tasks(lowerer, hir, ids, (count - 1) as nat);
        let var = hir.variables@[ids[count - 1].0 as int];
        if has_state_initializer(var) {
            front + initializer_tasks(lowerer, ids[count - 1], var.initializer->0)
        } else {
            front
        }
    }
}

/// The parameters of the constructor of a contract.
pub open spec fn constructor_parameters(hir: Hir, base: ContractId) -> Seq<VariableId> {
    match hir.contracts@[base.0 as int].ctor {
        Some(ctor) => hir.functions@[ctor.0 as int].parameters@,
        None => Seq::empty(),
    }
}

/// The tasks that evaluate the first `count` arguments of a base.
pub open spec fn argument_tasks<'a>(
    parameters: Seq<VariableId>,
    args: Seq<Expr>,
    count: nat,
) -> Seq<Task<'a>>
    decreases count,
{
    if count == 0 {
        Seq::empty()
    } else {
        argument_tasks(parameters, args, (count - 1) as nat)
            + seq![Task::Service(
                Service::ConstructorArgument(&args[count - 1], parameters[count - 1]),
            )]
            .push(Task::BindArgument(parameters[count - 1]))
    }
}

/// The tasks that evaluate the arguments of a base.
pub open spec fn base_argument_tasks<'a>(hir: Hir, arguments: BaseArguments) -> Seq<Task<'a>> {
    let parameters = constructor_parameters(hir, arguments.base);
    let evaluation = match arguments.provider {
        Some(provider) => argument_tasks(
            parameters,
            (passed_modifier(hir, provider).args->0)@,
            parameters.len(),
        ),
        None => Seq::empty(),
    };
    evaluation.push(Task::ResolveBase(arguments.base, parameters.len() as usize))
}

/// The tasks that evaluate the arguments of the first `count` bases.
pub open spec fn bases_argument_tasks<'a>(hir: Hir, done: Seq<BaseArguments>, count: nat) -> Seq<
    Task<'a>,
>
    decreases count,
{
    if count == 0 {
        Seq::empty()
    } else {
        bases_argument_tasks(hir, done, (count - 1) as nat) + base_argument_tasks(
            hir,
            done[count - 1],
        )
    }
}

/// The task that forgets the constructor parameters of a base.
pub open spec fn forget_task<'a>(hir: Hir, arguments: BaseArguments) -> Task<'a> {
    Task::ForgetParameters(
        &hir.functions@[(hir.contracts@[arguments.base.0 as int].ctor->0).0 as int].parameters,
    )
}

/// The tasks that run the constructors of the last `count` bases of a list, the
/// most basic first.
pub open spec fn base_body_tasks<'a>(
    hir: Hir,
    contract: ContractId,
    bases: Seq<ContractId>,
    count: nat,
) -> Seq<Task<'a>>
    decreases count,
{
    if count == 0 {
        Seq::empty()
    } else {
        let front = base_body_tasks(hir, contract, bases, (count - 1) as nat);
        let base = bases[bases.len() - count];
        match hir.contracts@[base.0 as int].ctor {
            Some(ctor) if base != contract => front.push(
                Task::Service(Service::BaseConstructor(ctor, base)),
            ),
            _ => front,
        }
    }
}

/// The tasks that construct a contract up to its own constructor body.
///
/// State variables are initialized from the most base contract to the most
/// derived one before any constructor argument is evaluated. Then come the
/// arguments of all bases, and last the bodies of the base constructors, from
/// the most base contract on. If some arguments cannot be resolved, the ones
/// before them are still evaluated, and nothing comes after.
pub open spec fn construction_tasks<'a>(lowerer: Lowerer, hir: Hir, contract: ContractId) -> Seq<
    Task<'a>,
> {
    let ids = all_variables(hir, contract);
    let bases = hir.contracts@[contract.0 as int].linearized_bases@;
    let (done, problem) = constructor_arguments(hir, contract);
    let evaluated = state_tasks(lowerer, hir, ids, ids.len()) + bases_argument_tasks(
        hir,
        done,
        done.len(),
    );
    match problem {
        Some((span, complaint)) => evaluated.push(Task::Report(complaint, span)),
        None => evaluated + done.map_values(|arguments: BaseArguments| forget_task(hir, arguments))
            + base_body_tasks(hir, contract, bases, bases.len()),
    }
}

/// Adds the tasks that initialize the state.
fn plan_state<'a>(tasks: &mut Vec<Task<'a>>, lowerer: &Lowerer, hir: &'a Hir, contract: ContractId)
    requires
        hir_wf(*hir),
        contract.0 < hir.contracts@.len(),
    ensures
        final(tasks)@ == old(tasks)@ + state_tasks::<'a>(
            *lowerer,
            *hir,
            all_variables(*hir, contract),
            all_variables(*hir, contract).len(),
        ),
{
    broadcast use vstd::std_specs::hash::group_hash_axioms;

    let ids = collect_variables(hir, contract);
    let mut i: usize = 0;
    assert(tasks@ =~= old(tasks)@ + state_tasks::<'a>(*lowerer, *hir, ids@, 0));
    while i < ids.len()
        invariant
            i <= ids@.len(),
            has_variables(*hir, ids@),
            vstd::std_specs::hash::obeys_key_model::<usize>(),
            vstd::std_specs::hash::builds_valid_hashers::<std::collections::hash_map::RandomState>(),
            tasks@ == old(tasks)@ + state_tasks::<'a>(*lowerer, *hir, ids@, i as nat),
        decreases ids@.len() - i,
    {
        broadcast use vstd::std_specs::hash::group_hash_axioms;

        let id = ids[i];
        assert(ids@[i as int].0 < hir.variables@.len());
        let var = &hir.variables[id.0];
        if matches!(var.kind, VarKind::State) && !var.is_constant() {
            if let Some(init) = &var.initializer {
                tasks.push(Task::Value(init));
                if let Some(offset) = lowerer.immutable_slots.get(&id.0) {
                    tasks.push(Task::StoreImmutable(*offset));
                } else if let Some(location) = lowerer.storage_locations.get(&id.0) {
                    tasks.push(Task::Service(Service::StoreLocation(*location)));
                } else {
                    tasks.push(Task::Discard);
                }
            }
        }
        i = i + 1;
        assert(tasks@ =~= old(tasks)@ + state_tasks::<'a>(*lowerer, *hir, ids@, i as nat));
    }
}

/// Adds the tasks that evaluate the arguments of a base.
fn plan_base_arguments<'a>(tasks: &mut Vec<Task<'a>>, hir: &'a Hir, arguments: BaseArguments)
    requires
        hir_wf(*hir),
        arguments_fit(*hir, arguments),
    ensures
        final(tasks)@ == old(tasks)@ + base_argument_tasks::<'a>(*hir, arguments),
{
    proof {
        reveal(hir_wf);
        assert(contract_fits(*hir, hir.contracts@[arguments.base.0 as int]));
    }
    if let Some(ctor) = hir.contracts[arguments.base.0].ctor {
        let parameters = &hir.functions[ctor.0].parameters;
        if let Some((declaring, index)) = arguments.provider {
            if let Some(modifier) = &hir.contracts[declaring.0].base_args[index] {
                if let Some(args) = &modifier.args {
                    let mut i: usize = 0;
                    assert(tasks@ =~= old(tasks)@ + argument_tasks::<'a>(
                        parameters@,
                        args@,
                        0,
                    ));
                    while i < parameters.len()
                        invariant
                            i <= parameters@.len(),
                            args@.len() == parameters@.len(),
                            tasks@ == old(tasks)@ + argument_tasks::<'a>(
                                parameters@,
                                args@,
                                i as nat,
                            ),
                        decreases parameters@.len() - i,
                    {
                        tasks.push(
                            Task::Service(Service::ConstructorArgument(&args[i], parameters[i])),
                        );
                        tasks.push(Task::BindArgument(parameters[i]));
                        i = i + 1;
                        assert(tasks@ =~= old(tasks)@ + argument_tasks::<'a>(
                            parameters@,
                            args@,
                            i as nat,
                        ));
                    }
                }
            }
        }
        tasks.push(Task::ResolveBase(arguments.base, parameters.len()));
        assert(tasks@ =~= old(tasks)@ + base_argument_tasks::<'a>(*hir, arguments));
    }
}

/// Adds the tasks that run the constructors of the bases.
fn plan_base_bodies<'a>(tasks: &mut Vec<Task<'a>>, hir: &'a Hir, contract: ContractId)
    requires
        hir_wf(*hir),
        contract.0 < hir.contracts@.len(),
    ensures
        final(tasks)@ == old(tasks)@ + base_body_tasks::<'a>(
            *hir,
            contract,
            hir.contracts@[contract.0 as int].linearized_bases@,
            hir.contracts@[contract.0 as int].linearized_bases@.len(),
        ),
{
    proof {
        reveal(hir_wf);
        assert(contract_fits(*hir, hir.contracts@[contract.0 as int]));
    }
    let bases = &hir.contracts[contract.0].linearized_bases;
    let mut i: usize = 0;
    assert(tasks@ =~= old(tasks)@ + base_body_tasks::<'a>(*hir, contract, bases@, 0));
    while i < bases.len()
        invariant
            i <= bases@.len(),
            has_contracts(*hir, bases@),
            tasks@ == old(tasks)@ + base_body_tasks::<'a>(*hir, contract, bases@, i as nat),
        decreases bases@.len() - i,
    {
        let base = bases[bases.len() - 1 - i];
        assert(bases@[bases@.len() - 1 - i].0 < hir.contracts@.len());
        if base != contract {
            if let Some(ctor) = hir.contracts[base.0].ctor {
                tasks.push(Task::Service(Service::BaseConstructor(ctor, base)));
            }
        }
        i = i + 1;
        assert(tasks@ =~= old(tasks)@ + base_body_tasks::<'a>(
            *hir,
            contract,
            bases@,
            i as nat,
        ));
    }
}

/// The tasks of the constructor made for a contract that declares none: it
/// constructs the contract and stops.
pub open spec fn synthetic_constructor_tasks<'a>(
    lowerer: Lowerer,
    hir: Hir,
    contract: ContractId,
) -> Seq<Task<'a>> {
    construction_tasks::<'a>(lowerer, hir, contract).push(Task::Stop)
}

/// Returns the tasks of the constructor made for a contract that declares none.
pub fn plan_synthetic_constructor<'a>(
    lowerer: &Lowerer,
    hir: &'a Hir,
    contract: ContractId,
) -> (r: Vec<Task<'a>>)
    requires
        hir_wf(*hir),
        contract.0 < hir.contracts@.len(),
    ensures
        r@ == synthetic_constructor_tasks::<'a>(*lowerer, *hir, contract),
{
    let mut tasks = plan_construction(lowerer, hir, contract);
    tasks.push(Task::Stop);
    tasks
}

/// Returns the tasks that construct a contract up to its own constructor body.
pub fn plan_construction<'a>(lowerer: &Lowerer, hir: &'a Hir, contract: ContractId) -> (r: Vec<
    Task<'a>,
>)
    requires
        hir_wf(*hir),
        contract.0 < hir.contracts@.len(),
    ensures
        r@ == construction_tasks::<'a>(*lowerer, *hir, contract),
{
    let mut tasks: Vec<Task<'a>> = Vec::new();
    plan_state(&mut tasks, lowerer, hir, contract);
    let ghost begin = tasks@;
    let (done, problem) = resolve_base_arguments(hir, contract);
    let mut i: usize = 0;
    assert(tasks@ =~= begin + bases_argument_tasks::<'a>(*hir, done@, 0));
    while i < done.len()
        invariant
            i <= done@.len(),
            hir_wf(*hir),
            all_arguments_fit(*hir, done@),
            tasks@ == begin + bases_argument_tasks::<'a>(*hir, done@, i as nat),
        decreases done@.len() - i,
    {
        assert(arguments_fit(*hir, done@[i as int]));
        plan_base_arguments(&mut tasks, hir, done[i]);
        i = i + 1;
        assert(tasks@ =~= begin + bases_argument_tasks::<'a>(*hir, done@, i as nat));
    }
    let ghost evaluated = tasks@;
    assert(begin =~= state_tasks::<'a>(
        *lowerer,
        *hir,
        all_variables(*hir, contract),
        all_variables(*hir, contract).len(),
    ));
    if let Some((span, complaint)) = problem {
        tasks.push(Task::Report(complaint, span));
        return tasks;
    }
    let ghost forgotten = done@.map_values(
        |arguments: BaseArguments| forget_task::<'a>(*hir, arguments),
    );
    let mut k: usize = 0;
    assert(tasks@ =~= evaluated + forgotten.take(0));
    while k < done.len()
        invariant
            k <= done@.len(),
            hir_wf(*hir),
            all_arguments_fit(*hir, done@),
            forgotten == done@.map_values(
                |arguments: BaseArguments| forget_task::<'a>(*hir, arguments),
            ),
            tasks@ == evaluated + forgotten.take(k as int),
        decreases done@.len() - k,
    {
        proof {
            reveal(hir_wf);
            assert(arguments_fit(*hir, done@[k as int]));
            assert(contract_fits(*hir, hir.contracts@[done@[k as int].base.0 as int]));
        }
        if let Some(ctor) = hir.contracts[done[k].base.0].ctor {
            tasks.push(Task::ForgetParameters(&hir.functions[ctor.0].parameters));
        }
        k = k + 1;
        assert(tasks@ =~= evaluated + forgotten.take(k as int));
    }
    assert(forgotten.take(done@.len() as int) =~= forgotten);
    plan_base_bodies(&mut tasks, hir, contract);
    tasks
}

} // verus!
