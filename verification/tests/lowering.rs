use solar_codegen::hir::{
    AbiFacts, BinOp, Builtin, Contract, ContractId, DataLocation, ElementaryType, EnumId, Event,
    EventId, Expr, ExprFacts, ExprKind, FieldEncoding, FunctionKind, Hir, HirFunction,
    HirFunctionId, Ident, IntegerInfo, ItemId, Lit, LoopSource, Modifier, Res, Stmt, Struct,
    StructId, SwitchCase, Symbol, TryClause, Ty, TypeKind, UnOp, VarKind, VarMut, Variable,
    VariableId,
};
use solar_codegen::lower::agenda::{Action, Agenda};
use solar_codegen::lower::analysis::{collect_assigned_vars_stmt, has_external_call};
use solar_codegen::lower::answers::{Bug, Reply, Settled};
use solar_codegen::lower::bytecode::contract_bytecode_dependencies;
use solar_codegen::lower::construct::{
    needs_synthetic_constructor, plan_synthetic_constructor, resolve_base_arguments,
};
use solar_codegen::lower::contract::{lower_contract, lower_contract_with_bytecodes, Work};
use solar_codegen::lower::emit::{
    emit_abi_field_clean_check, lower_type_conversion, ConversionSource,
};
use solar_codegen::lower::function::{BytesHelper, FunctionEntry};
use solar_codegen::lower::inherit::{
    collect_inherited_functions, collect_variables, immutable_order, storage_order,
};
use solar_codegen::lower::machine::Machine;
use solar_codegen::lower::plan::{Arithmetic, ReturnItem, Service, Task};
use solar_codegen::lower::state::{Complaint, InlineReturnCtx, Lowerer, StorageLocation};
use solar_codegen::lower::types::{
    abi_word_validator, event_topic, type_to_abi_string, AbiWordValidator,
};
use solar_codegen::mir::builder::FunctionBuilder;
use solar_codegen::mir::function::{Function, StateMutability, Visibility};
use solar_codegen::mir::inst::{InstKind, Terminator};
use solar_codegen::mir::types::{
    BlockId, ErrorGuaranteed, Immediate, MirType, Span, Value, ValueId,
};
use solar_codegen::word::U256;
use std::collections::{HashMap, HashSet};

const HERE: Span = Span { lo: 1, hi: 2 };

fn abi() -> AbiFacts {
    AbiFacts {
        head_size: 32,
        is_dynamic: false,
        word_elements: false,
        field: FieldEncoding::Word,
        encodable: true,
    }
}

fn uint() -> Ty {
    Ty::Elementary(ElementaryType::UInt(256))
}

fn facts(ty: Option<Ty>) -> ExprFacts {
    ExprFacts {
        ty,
        res: None,
        builtin: None,
        variable: None,
        function: None,
        exact_callee: None,
        field: None,
        variant: None,
        user_operator: None,
        unsupported_operator: false,
        error: None,
        fixed_bytes: None,
        calldata_bytes: false,
        storage_bytes: false,
        storage_element: false,
        memory_bytes: false,
        dynamic_array: false,
        word_elements: false,
        contract: false,
        slice_results: false,
        takes_memory_bytes: false,
        takes_memory_array: false,
        member_selector: 0,
        member_results: 0,
        named_abi: abi(),
        element_slots: 1,
        integer: None,
        signed: false,
        inner_span: Span { lo: 5, hi: 6 },
    }
}

fn expr(kind: ExprKind) -> Expr {
    Expr { kind, facts: facts(Some(uint())), span: HERE }
}

fn number(value: u64) -> Expr {
    expr(ExprKind::Lit(Lit::Number(U256::from_u64(value))))
}

fn name(id: usize) -> Expr {
    let res = Res::Item(ItemId::Variable(VariableId(id)));
    let mut named = expr(ExprKind::Ident(vec![res]));
    named.facts.res = Some(res);
    named.facts.variable = Some(VariableId(id));
    named
}

fn ident(text: &str) -> Ident {
    Ident { text: text.to_string(), symbol: Symbol(4), span: Span { lo: 7, hi: 8 } }
}

fn unit(kind: ExprKind) -> Expr {
    Expr { kind, facts: facts(Some(Ty::Tuple(Vec::new()))), span: HERE }
}

fn assign(lhs: Expr, rhs: Expr) -> Stmt {
    Stmt::Expr(expr(ExprKind::Assign(Box::new(lhs), None, Box::new(rhs))))
}

fn variable(text: &str, kind: VarKind) -> Variable {
    Variable {
        name: Some(text.to_string()),
        kind,
        mutability: VarMut::Mutable,
        declared: TypeKind::Elementary(ElementaryType::UInt(256)),
        ty: uint(),
        location: None,
        initializer: None,
        indexed: false,
        storage_ref: false,
        takes_memory_bytes: false,
        takes_memory_array: false,
        abi: abi(),
        ty_span: Span { lo: 3, hi: 4 },
        span: HERE,
    }
}

fn empty_hir() -> Hir {
    Hir {
        variables: Vec::new(),
        structs: Vec::new(),
        enums: Vec::new(),
        functions: Vec::new(),
        contracts: Vec::new(),
        events: Vec::new(),
        errors: Vec::new(),
        names: Vec::new(),
    }
}

fn function(text: &str, selector: u32, contract: usize) -> HirFunction {
    HirFunction {
        name: Some(text.to_string()),
        kind: FunctionKind::Function,
        visibility: Visibility::Public,
        state_mutability: StateMutability::NonPayable,
        parameters: Vec::new(),
        results: Vec::new(),
        modifiers: Vec::new(),
        body: Some(Vec::new()),
        contract: Some(ContractId(contract)),
        selector,
    }
}

fn contract(text: &str, bases: Vec<usize>) -> Contract {
    let count = bases.len();
    Contract {
        name: text.to_string(),
        is_interface: false,
        linearized_bases: bases.into_iter().map(ContractId).collect(),
        base_args: (0..count).map(|_| None).collect(),
        ctor: None,
        variables: Vec::new(),
        functions: Vec::new(),
        interface_id: 0,
        span: HERE,
    }
}

/// How many values a service takes and leaves, before its reply is settled.
fn effect(service: &Service) -> (usize, usize) {
    match service {
        Service::Binary(_, _) | Service::CheckedAdd(_, _) | Service::CheckedSub(_, _) => (2, 1),
        Service::Operator(_, count, _) | Service::FinishCurrent(count) => (*count, 0),
        Service::Call(_) | Service::PackedArguments(_) | Service::PackedHash(_) => (0, 0),
        Service::ReturnItems(_, _) | Service::FinishItems(_) | Service::TopicHash(_, _) => (0, 0),
        Service::StorageStruct(_, _) | Service::LoadLocation(_) | Service::OffsetPtr(_) => (1, 1),
        Service::ClearValueAt(_) | Service::AllocateBytes => (1, 1),
        Service::PanicIf(_) | Service::StoreLocation(_) => (1, 0),
        Service::FinishReturn(results) => (results.len(), 0),
        Service::UnitCall(_) => (0, 0),
        Service::EncodeData(_, count) => (*count, 2),
        Service::ValueFor(_, _) => (0, 1),
        Service::ReturndataBytes => (0, 1),
        _ => panic!("a service that no test asks for"),
    }
}

/// What a service replies.
fn reply(service: &Service, made_up: ValueId) -> Reply {
    match service {
        Service::Operator(_, _, _) | Service::Call(_) | Service::PackedHash(_) => {
            Reply::Value(made_up)
        }
        Service::UnitCall(_) | Service::PackedArguments(_) | Service::TopicHash(_, _) => {
            Reply::Nothing
        }
        Service::ReturnItems(None, _) => Reply::Items(Vec::new()),
        Service::ReturnItems(Some(_), _) => {
            Reply::Items(vec![ReturnItem { value: made_up, ty: uint() }])
        }
        _ => Reply::Left,
    }
}

/// Runs tasks until nothing waits. Values that other parts would compute are
/// made up; what they are asked for is returned.
fn run<'t>(
    lowerer: &mut Lowerer,
    func: &mut Function,
    hir: &'t Hir,
    tasks: Vec<Task<'t>>,
) -> (Vec<Service<'t>>, Machine) {
    let mut machine = Machine::new();
    let mut builder = FunctionBuilder::new(func);
    let mut agenda = Agenda::new(tasks);
    let mut asked = Vec::new();
    loop {
        match agenda.advance(&mut machine, lowerer, &mut builder, hir) {
            Action::Continue => {}
            Action::Finished => return (asked, machine),
            Action::Stuck => panic!("stuck with {} tasks", agenda.waiting.len()),
            Action::Ask(first) => {
                let mut next = Some(first);
                while let Some(service) = next.take() {
                    let (takes, leaves) = effect(&service);
                    assert!(takes <= machine.values.len());
                    machine.values.truncate(machine.values.len() - takes);
                    let made_up = builder.undef(MirType::uint256());
                    for _ in 0..leaves {
                        machine.values.push(made_up);
                    }
                    let reply = reply(&service, made_up);
                    match machine.settle(lowerer, &mut builder, &service, reply) {
                        Settled::Done => {}
                        Settled::Ask(service) => next = Some(service),
                        Settled::Stop(bug, _) => panic!("{:?}", bug),
                        Settled::Unfit => panic!("a reply that does not fit"),
                    }
                    asked.push(service);
                }
            }
        }
    }
}

fn lower(hir: &Hir, body: &Vec<Stmt>) -> (Lowerer, Function) {
    let mut lowerer = Lowerer::new("C".to_string(), false, true);
    let mut func = Function::new("f".to_string());
    let (asked, machine) = run(&mut lowerer, &mut func, hir, vec![Task::Statements(body, 0)]);
    assert!(asked.is_empty());
    assert!(machine.control.is_empty());
    assert!(machine.values.is_empty());
    (lowerer, func)
}

fn constant(func: &Function, id: ValueId) -> Option<U256> {
    match func.values[id.0] {
        Value::Immediate(Immediate::UInt256(value)) => Some(value),
        _ => None,
    }
}

#[test]
fn topics_are_hashes_of_signatures() {
    let mut hir = empty_hir();
    let mut from = variable("from", VarKind::Other);
    from.declared = TypeKind::Elementary(ElementaryType::Address(false));
    let mut to = variable("to", VarKind::Other);
    to.declared = TypeKind::Elementary(ElementaryType::Address(true));
    hir.variables = vec![from, to, variable("value", VarKind::Other)];
    let event = Event {
        name: "Transfer".to_string(),
        parameters: vec![VariableId(0), VariableId(1), VariableId(2)],
        selector: U256::zero(),
        anonymous: false,
    };
    let topic = event_topic(&hir, &event);
    assert_eq!(
        topic,
        U256 {
            l3: 0xddf2_52ad_1be2_c89b,
            l2: 0x69c2_b068_fc37_8daa,
            l1: 0x952b_a7f1_63c4_a116,
            l0: 0x28f5_5a4d_f523_b3ef,
        }
    );
}

#[test]
fn validators_fit_their_types() {
    let mut hir = empty_hir();
    hir.enums = vec![5];
    let of = |ty: Ty| abi_word_validator(&hir, &ty);
    let elementary = |elem: ElementaryType| of(Ty::Elementary(elem));
    assert!(matches!(elementary(ElementaryType::UInt(256)), None));
    assert!(matches!(elementary(ElementaryType::FixedBytes(32)), None));
    match elementary(ElementaryType::UInt(8)) {
        Some(AbiWordValidator::Mask(mask)) => assert_eq!(mask, U256::from_u64(0xff)),
        _ => panic!("no mask"),
    }
    match elementary(ElementaryType::FixedBytes(1)) {
        Some(AbiWordValidator::Mask(mask)) => assert_eq!(mask, U256::from_u64(0xff).shl(248)),
        _ => panic!("no mask"),
    }
    assert!(matches!(elementary(ElementaryType::Int(16)), Some(AbiWordValidator::SignExtend(1))));
    assert!(matches!(elementary(ElementaryType::Bool), Some(AbiWordValidator::Bool)));
    assert!(matches!(of(Ty::Enum(EnumId(0))), Some(AbiWordValidator::EnumRange(5))));
    assert!(matches!(of(Ty::Udvt(Box::new(uint()))), None));
}

#[test]
fn conversions_keep_what_fits() {
    let mut hir = empty_hir();
    hir.enums = vec![5];
    let mut func = Function::new("f".to_string());
    let mut builder = FunctionBuilder::new(&mut func);
    let value = builder.imm_u64(300);
    let plain = ConversionSource { fixed_bytes: None, slice: None };
    let byte = TypeKind::Elementary(ElementaryType::UInt(8));
    let (narrow, count) = lower_type_conversion(&mut builder, &hir, &byte, plain, value);
    assert_eq!(count, None);
    let variant = TypeKind::Custom(ItemId::Enum(EnumId(0)));
    assert_eq!(lower_type_conversion(&mut builder, &hir, &variant, plain, value), (value, Some(5)));
    let item = TypeKind::Custom(ItemId::Contract(ContractId(0)));
    assert_eq!(lower_type_conversion(&mut builder, &hir, &item, plain, value), (value, None));
    assert_ne!(narrow, value);
    assert_eq!(func.insts.len(), 1);
    assert!(matches!(func.insts[0].kind, InstKind::And(_, _)));
}

#[test]
fn fields_that_are_not_clean_revert() {
    let mut func = Function::new("f".to_string());
    let mut builder = FunctionBuilder::new(&mut func);
    let value = builder.imm_u64(2);
    emit_abi_field_clean_check(&mut builder, value, None);
    emit_abi_field_clean_check(&mut builder, value, Some(AbiWordValidator::Bool));
    assert_eq!(func.blocks.len(), 3);
    assert!(matches!(func.blocks[0].terminator, Some(Terminator::Branch { .. })));
    assert!(matches!(func.blocks[1].terminator, Some(Terminator::Revert { .. })));
    assert!(func.blocks[2].terminator.is_none());
}

fn family() -> Hir {
    let mut hir = empty_hir();
    let mut fixed = variable("fixed", VarKind::State);
    fixed.mutability = VarMut::Immutable;
    let mut known = variable("known", VarKind::State);
    known.mutability = VarMut::Constant;
    hir.variables = vec![
        variable("base", VarKind::State),
        variable("derived", VarKind::State),
        fixed,
        known,
    ];
    hir.functions = vec![function("f", 7, 1), function("f", 7, 0), function("g", 8, 0)];
    let mut base = contract("Base", vec![0]);
    base.variables = vec![VariableId(0)];
    base.functions = vec![HirFunctionId(1), HirFunctionId(2)];
    let mut derived = contract("Derived", vec![1, 0]);
    derived.variables = vec![VariableId(1), VariableId(2), VariableId(3)];
    derived.functions = vec![HirFunctionId(0)];
    hir.contracts = vec![base, derived];
    hir
}

fn at(slot: u64) -> StorageLocation {
    StorageLocation { slot: U256::from_u64(slot), offset: 0, size: 32 }
}

#[test]
fn derived_functions_override_inherited_ones() {
    let hir = family();
    assert_eq!(
        collect_inherited_functions(&hir, ContractId(1)),
        vec![HirFunctionId(0), HirFunctionId(2)]
    );
    assert_eq!(
        collect_inherited_functions(&hir, ContractId(0)),
        vec![HirFunctionId(1), HirFunctionId(2)]
    );
}

#[test]
fn base_variables_come_first() {
    let hir = family();
    assert_eq!(collect_variables(&hir, ContractId(1))[0], VariableId(0));
    assert_eq!(storage_order(&hir, ContractId(1)), vec![VariableId(0), VariableId(1)]);
    assert_eq!(immutable_order(&hir, ContractId(1)), vec![VariableId(2)]);
}

#[test]
fn contracts_get_their_state() {
    let hir = family();
    let (lowerer, work) = lower_contract(&hir, ContractId(1), &vec![at(0), at(1)], false, true);
    assert_eq!(lowerer.storage_slots.get(&0), Some(&U256::from_u64(0)));
    assert_eq!(lowerer.storage_slots.get(&1), Some(&U256::from_u64(1)));
    assert_eq!(lowerer.immutable_slots.get(&2), Some(&0));
    assert_eq!(lowerer.next_immutable_offset, 32);
    assert_eq!(lowerer.contract_id, Some(ContractId(1)));
    assert!(!lowerer.check_expr_errors);
    assert_eq!(work.len(), 2);
    assert!(matches!(work[0], Work::Function(HirFunctionId(0))));
    let module = lowerer.finish();
    assert_eq!(module.name, "Derived");
    assert_eq!(module.immutables.len(), 1);
    assert!(!module.is_interface);
}

#[test]
fn initialized_state_asks_for_a_constructor() {
    let mut hir = family();
    hir.variables[0].initializer = Some(number(5));
    hir.contracts[0].is_interface = true;
    let (lowerer, work) = lower_contract(&hir, ContractId(0), &vec![at(0)], true, true);
    assert!(matches!(work[0], Work::Constructor(ContractId(0))));
    assert_eq!(work.len(), 3);
    assert!(lowerer.check_expr_errors);
    assert!(lowerer.finish().is_interface);
}

#[test]
fn immutables_lie_a_word_apart() {
    let mut hir = family();
    hir.variables[1].mutability = VarMut::Immutable;
    let (lowerer, _) = lower_contract(&hir, ContractId(1), &vec![at(0)], false, true);
    assert_eq!(lowerer.immutable_slots.get(&1), Some(&0));
    assert_eq!(lowerer.immutable_slots.get(&2), Some(&32));
    assert_eq!(lowerer.next_immutable_offset, 64);
    assert_eq!(lowerer.storage_slots.get(&1), None);
}

#[test]
fn variables_in_memory_lie_apart() {
    let mut lowerer = Lowerer::new("C".to_string(), false, true);
    let first = lowerer.alloc_local_memory(VariableId(0));
    let second = lowerer.alloc_local_memory(VariableId(1));
    assert_eq!(second, first + 32);
    lowerer.set_local(VariableId(2), ValueId(0));
    assert_eq!(lowerer.get_local_memory_offset(VariableId(0)), Some(first));
    assert_eq!(lowerer.get_local_memory_offset(VariableId(2)), None);
}

/// A contract whose base passes an argument on to its own base.
fn constructed() -> Hir {
    let mut hir = empty_hir();
    hir.variables = vec![variable("a", VarKind::Parameter), variable("b", VarKind::Parameter)];
    let mut first = function("constructor", 0, 0);
    first.kind = FunctionKind::Constructor;
    first.parameters = vec![VariableId(0)];
    let mut second = function("constructor", 0, 1);
    second.kind = FunctionKind::Constructor;
    second.parameters = vec![VariableId(1)];
    hir.functions = vec![first, second];
    let mut bottom = contract("Bottom", vec![0]);
    bottom.ctor = Some(HirFunctionId(0));
    let mut middle = contract("Middle", vec![1, 0]);
    middle.ctor = Some(HirFunctionId(1));
    middle.base_args[0] = Some(Modifier { args: Some(vec![number(5)]), span: HERE });
    let mut top = contract("Top", vec![2, 1, 0]);
    top.base_args[0] = Some(Modifier { args: Some(vec![number(7)]), span: HERE });
    hir.contracts = vec![bottom, middle, top];
    hir
}

#[test]
fn base_arguments_are_evaluated_once() {
    let hir = constructed();
    assert!(needs_synthetic_constructor(&hir, ContractId(2)));
    let (done, problem) = resolve_base_arguments(&hir, ContractId(2));
    let found: Vec<(ContractId, Option<(ContractId, usize)>)> =
        done.iter().map(|one| (one.base, one.provider)).collect();
    assert_eq!(
        found,
        vec![
            (ContractId(1), Some((ContractId(2), 0))),
            (ContractId(0), Some((ContractId(1), 0))),
        ]
    );
    assert_eq!(problem, None);
}

#[test]
fn base_arguments_that_are_missing_are_complained_about() {
    let mut hir = constructed();
    hir.contracts[2].base_args[0] = Some(Modifier { args: None, span: HERE });
    let (done, problem) = resolve_base_arguments(&hir, ContractId(2));
    assert!(done.is_empty());
    assert_eq!(problem, Some((HERE, Complaint::MissingBaseArguments(ContractId(1)))));
    hir.contracts[2].base_args[0] =
        Some(Modifier { args: Some(vec![number(1), number(2)]), span: HERE });
    let (_, problem) = resolve_base_arguments(&hir, ContractId(2));
    assert_eq!(problem, Some((HERE, Complaint::BaseArgumentCount)));
    hir.contracts[0].linearized_bases.push(ContractId(1));
    hir.contracts[0].base_args = vec![Some(Modifier { args: Some(vec![number(3)]), span: HERE })];
    hir.contracts[2].base_args[0] = None;
    let (_, problem) = resolve_base_arguments(&hir, ContractId(2));
    assert_eq!(problem, Some((HERE, Complaint::CyclicBaseArguments)));
}

#[test]
fn creation_code_is_kept_for_new_expressions() {
    let hir = family();
    let mut codes = HashMap::new();
    codes.insert(0usize, vec![1u8, 2]);
    let locations = vec![at(0), at(1)];
    let (lowerer, _) =
        lower_contract_with_bytecodes(&hir, ContractId(1), &locations, codes, false, true);
    assert_eq!(lowerer.contract_bytecodes.get(&0), Some(&vec![1u8, 2]));
}

#[test]
fn new_expressions_depend_on_bytecode() {
    let mut hir = family();
    let created = expr(ExprKind::New(TypeKind::Custom(ItemId::Contract(ContractId(0)))));
    let call = expr(ExprKind::Call(Box::new(created), Vec::new(), Vec::new()));
    hir.functions[0].body = Some(vec![Stmt::Expr(call)]);
    let found = contract_bytecode_dependencies(&hir, ContractId(1));
    assert_eq!(found, HashSet::from([0usize]));
    assert!(contract_bytecode_dependencies(&hir, ContractId(0)).is_empty());
}

#[test]
fn branches_meet_again() {
    let hir = empty_hir();
    let body = vec![Stmt::If(
        number(1),
        Box::new(Stmt::Return(None)),
        Some(Box::new(Stmt::Block(Vec::new()))),
    )];
    let (_, func) = lower(&hir, &body);
    assert_eq!(func.blocks.len(), 4);
    match &func.blocks[0].terminator {
        Some(Terminator::Branch { then_block, else_block, .. }) => {
            assert_eq!((*then_block, *else_block), (BlockId(1), BlockId(3)));
        }
        other => panic!("{:?}", other),
    }
    assert!(matches!(func.blocks[1].terminator, Some(Terminator::Return { .. })));
    assert!(matches!(func.blocks[3].terminator, Some(Terminator::Jump(BlockId(2)))));
    assert!(func.blocks[2].terminator.is_none());
}

#[test]
fn statements_after_control_has_left_are_dropped() {
    let hir = empty_hir();
    let body = vec![Stmt::Return(None), Stmt::Expr(number(3))];
    let (_, func) = lower(&hir, &body);
    assert!(func.values.is_empty());
}

#[test]
fn public_functions_stop_when_they_return_nothing() {
    let hir = empty_hir();
    let body = vec![Stmt::Return(Some(unit(ExprKind::Tuple(Vec::new()))))];
    let mut lowerer = Lowerer::new("C".to_string(), false, true);
    let mut func = Function::new("f".to_string());
    func.attributes.visibility = Visibility::Public;
    let tasks = vec![Task::Statements(&body, 0)];
    let (asked, _) = run(&mut lowerer, &mut func, &hir, tasks);
    assert!(asked.is_empty());
    assert!(matches!(func.blocks[0].terminator, Some(Terminator::Stop)));
}

#[test]
fn loops_jump_back_and_break_leaves_them() {
    let hir = empty_hir();
    let body = vec![Stmt::Loop(
        vec![Stmt::If(
            number(1),
            Box::new(Stmt::Block(vec![Stmt::Continue])),
            Some(Box::new(Stmt::Break)),
        )],
        LoopSource::While,
    )];
    let (lowerer, func) = lower(&hir, &body);
    assert!(lowerer.loop_stack.is_empty());
    assert!(matches!(func.blocks[0].terminator, Some(Terminator::Jump(BlockId(1)))));
    assert!(matches!(func.blocks[3].terminator, Some(Terminator::Jump(BlockId(1)))));
    assert!(matches!(func.blocks[5].terminator, Some(Terminator::Jump(BlockId(2)))));
    assert!(matches!(func.blocks[4].terminator, Some(Terminator::Jump(BlockId(1)))));
}

#[test]
fn continue_reaches_the_update_of_a_for_loop() {
    let hir = empty_hir();
    let body = vec![Stmt::Loop(
        vec![Stmt::If(
            number(1),
            Box::new(Stmt::Block(vec![Stmt::Continue, Stmt::Expr(number(9))])),
            Some(Box::new(Stmt::Break)),
        )],
        LoopSource::For,
    )];
    let (_, func) = lower(&hir, &body);
    // The start, the exit, the update, the turn and the end.
    assert_eq!(func.blocks.len(), 6);
    assert!(matches!(func.blocks[4].terminator, Some(Terminator::Jump(BlockId(3)))));
    assert!(matches!(func.blocks[3].terminator, Some(Terminator::Jump(BlockId(1)))));
    assert!(matches!(func.blocks[5].terminator, Some(Terminator::Jump(BlockId(2)))));
}

#[test]
fn switches_go_to_their_cases() {
    let hir = empty_hir();
    let body = vec![Stmt::Switch(
        number(4),
        vec![
            SwitchCase {
                constant: Some(Lit::Number(U256::from_u64(4))),
                constant_span: HERE,
                body: vec![Stmt::Return(None)],
                span: HERE,
            },
            SwitchCase { constant: None, constant_span: HERE, body: Vec::new(), span: HERE },
        ],
    )];
    let (_, func) = lower(&hir, &body);
    match &func.blocks[0].terminator {
        Some(Terminator::Switch { default, cases, .. }) => {
            assert_eq!(*default, BlockId(3));
            assert_eq!(cases.len(), 1);
            assert_eq!(cases[0].1, BlockId(2));
            assert_eq!(constant(&func, cases[0].0), Some(U256::from_u64(4)));
        }
        other => panic!("{:?}", other),
    }
    assert!(matches!(func.blocks[2].terminator, Some(Terminator::Return { .. })));
    assert!(matches!(func.blocks[3].terminator, Some(Terminator::Jump(BlockId(1)))));
}

#[test]
fn variables_that_never_change_stay_values() {
    let mut hir = empty_hir();
    let mut local = variable("x", VarKind::Local);
    local.initializer = Some(number(6));
    hir.variables = vec![local];
    let body = vec![Stmt::DeclSingle(VariableId(0)), Stmt::Expr(name(0))];
    let (lowerer, func) = lower(&hir, &body);
    let value = lowerer.get_local(VariableId(0)).unwrap();
    assert_eq!(constant(&func, value), Some(U256::from_u64(6)));
    assert!(func.insts.is_empty());
}

#[test]
fn variables_that_change_live_in_memory() {
    let mut hir = empty_hir();
    let mut local = variable("x", VarKind::Local);
    local.initializer = Some(number(6));
    hir.variables = vec![local];
    let body = vec![Stmt::DeclSingle(VariableId(0)), assign(name(0), number(7))];
    let mut lowerer = Lowerer::new("C".to_string(), false, true);
    lowerer.assigned_vars.insert(0);
    let mut func = Function::new("f".to_string());
    let tasks = vec![Task::Statements(&body, 0)];
    let (asked, _) = run(&mut lowerer, &mut func, &hir, tasks);
    assert!(asked.is_empty());
    assert_eq!(lowerer.get_local_memory_offset(VariableId(0)), Some(0x80));
    assert_eq!(lowerer.next_local_memory_offset, 0xa0);
    let stores: Vec<Option<U256>> = func
        .insts
        .iter()
        .filter_map(|inst| match inst.kind {
            InstKind::MStore(_, value) => Some(constant(&func, value)),
            _ => None,
        })
        .collect();
    assert_eq!(stores, vec![Some(U256::from_u64(6)), Some(U256::from_u64(7))]);
}

#[test]
fn uninitialized_variables_are_zero() {
    let mut hir = empty_hir();
    hir.variables = vec![variable("x", VarKind::Local)];
    let (lowerer, func) = lower(&hir, &vec![Stmt::DeclSingle(VariableId(0))]);
    assert_eq!(lowerer.get_local(VariableId(0)), None);
    assert!(func.values.is_empty());
    let body = vec![Stmt::DeclSingle(VariableId(0)), Stmt::Expr(name(0))];
    let (_, func) = lower(&hir, &body);
    assert_eq!(func.values.len(), 1);
    assert_eq!(constant(&func, ValueId(0)), Some(U256::zero()));
}

#[test]
fn variables_without_a_default_are_complained_about() {
    let mut hir = empty_hir();
    let mut local = variable("x", VarKind::Local);
    local.ty = Ty::Mapping(Box::new(uint()), Box::new(uint()));
    hir.variables = vec![local];
    let body = vec![Stmt::DeclSingle(VariableId(0))];
    let (lowerer, func) = lower(&hir, &body);
    assert_eq!(lowerer.complaints, vec![(HERE, Complaint::LocalInitializer)]);
    assert_eq!(func.values[0], Value::Error(ErrorGuaranteed));
}

#[test]
fn items_that_are_no_values_are_complained_about() {
    let hir = empty_hir();
    let mut named = expr(ExprKind::Ident(vec![Res::Namespace]));
    named.facts.res = Some(Res::Namespace);
    let body = vec![Stmt::Expr(named), Stmt::Expr(expr(ExprKind::Lit(Lit::Rational)))];
    let (lowerer, _) = lower(&hir, &body);
    assert_eq!(
        lowerer.complaints,
        vec![(HERE, Complaint::NamespaceValue), (HERE, Complaint::FractionalLiteral)]
    );
}

#[test]
fn expressions_that_refer_to_errors_stand_for_them() {
    let hir = empty_hir();
    let mut broken = number(1);
    broken.facts.error = Some(ErrorGuaranteed);
    let body = vec![Stmt::Expr(broken)];
    let mut lowerer = Lowerer::new("C".to_string(), true, true);
    let mut func = Function::new("f".to_string());
    let tasks = vec![Task::Statements(&body, 0)];
    run(&mut lowerer, &mut func, &hir, tasks);
    assert_eq!(func.values, vec![Value::Error(ErrorGuaranteed)]);
    assert!(lowerer.check_expr_errors);
}

#[test]
fn logical_operators_skip_their_right_side() {
    let hir = empty_hir();
    let both = expr(ExprKind::Binary(Box::new(number(0)), BinOp::And, Box::new(number(1))));
    let (_, func) = lower(&hir, &vec![Stmt::Expr(both)]);
    assert!(func.blocks.len() >= 3);
    assert!(matches!(func.blocks[0].terminator, Some(Terminator::Branch { .. })));
    assert!(func.insts.iter().any(|inst| matches!(inst.kind, InstKind::Phi(_))));
}

#[test]
fn conditionals_pass_their_value_through_scratch_memory() {
    let hir = empty_hir();
    let choice = expr(ExprKind::Ternary(
        Box::new(number(1)),
        Box::new(number(2)),
        Box::new(number(3)),
    ));
    let (_, func) = lower(&hir, &vec![Stmt::Expr(choice)]);
    assert_eq!(func.blocks.len(), 4);
    let stores = func.insts.iter().filter(|inst| matches!(inst.kind, InstKind::MStore(_, _)));
    assert_eq!(stores.count(), 2);
    assert!(matches!(func.insts[2].kind, InstKind::MLoad(_)));
    assert_eq!(func.blocks[3].instructions.len(), 1);
}

#[test]
fn tuples_are_exchanged_after_both_sides_are_evaluated() {
    let mut hir = empty_hir();
    let mut x = variable("x", VarKind::Local);
    x.initializer = Some(number(1));
    let mut y = variable("y", VarKind::Local);
    y.initializer = Some(number(2));
    hir.variables = vec![x, y];
    let pair = |a: Expr, b: Expr| expr(ExprKind::Tuple(vec![Some(a), Some(b)]));
    let lhs = pair(name(0), name(1));
    let rhs = pair(name(1), name(0));
    let body = vec![
        Stmt::DeclSingle(VariableId(0)),
        Stmt::DeclSingle(VariableId(1)),
        assign(lhs, rhs),
    ];
    let (lowerer, func) = lower(&hir, &body);
    let value = |id: usize| constant(&func, lowerer.get_local(VariableId(id)).unwrap());
    assert_eq!(value(0), Some(U256::from_u64(2)));
    assert_eq!(value(1), Some(U256::from_u64(1)));
}

#[test]
fn other_parts_are_asked_in_order() {
    let hir = empty_hir();
    let sum = expr(ExprKind::Binary(Box::new(number(1)), BinOp::Other(0), Box::new(number(2))));
    let call = unit(ExprKind::Call(Box::new(number(0)), Vec::new(), Vec::new()));
    let body = vec![Stmt::Expr(sum), Stmt::Expr(call)];
    let mut lowerer = Lowerer::new("C".to_string(), false, true);
    let mut func = Function::new("f".to_string());
    let tasks = vec![Task::Statements(&body, 0)];
    let (asked, _) = run(&mut lowerer, &mut func, &hir, tasks);
    assert_eq!(asked.len(), 2);
    assert!(matches!(asked[0], Service::Binary(_, _)));
    assert!(matches!(asked[1], Service::UnitCall(_)));
}

#[test]
fn tasks_without_operands_are_refused() {
    let hir = empty_hir();
    let mut lowerer = Lowerer::new("C".to_string(), false, true);
    let mut func = Function::new("f".to_string());
    let mut builder = FunctionBuilder::new(&mut func);
    let mut machine = Machine::new();
    let mut agenda = Agenda::new(vec![Task::LoadStorage, Task::Discard]);
    let action = agenda.advance(&mut machine, &mut lowerer, &mut builder, &hir);
    assert!(matches!(action, Action::Stuck));
    assert_eq!(agenda.waiting.len(), 2);
    assert!(matches!(agenda.waiting[1], Task::LoadStorage));
    assert!(func.insts.is_empty());
}

#[test]
fn storage_is_loaded_from_its_slot() {
    let hir = empty_hir();
    let mut lowerer = Lowerer::new("C".to_string(), false, true);
    let mut func = Function::new("f".to_string());
    let tasks = vec![
        Task::Constant(U256::from_u64(3)),
        Task::LoadStorage,
        Task::Constant(U256::from_u64(4)),
        Task::StoreStorage,
    ];
    run(&mut lowerer, &mut func, &hir, tasks);
    assert!(matches!(func.insts[0].kind, InstKind::SLoad(ValueId(0))));
    assert!(matches!(func.insts[1].kind, InstKind::SStore(ValueId(2), ValueId(1))));
}

#[test]
fn structs_in_storage_are_copied_to_an_object() {
    let mut hir = empty_hir();
    let mut state = variable("s", VarKind::State);
    state.declared = TypeKind::Custom(ItemId::Struct(StructId(0)));
    state.ty = Ty::Struct(StructId(0));
    hir.variables = vec![state, variable("x", VarKind::StructField)];
    hir.structs =
        vec![Struct { fields: vec![VariableId(1)], slot_offsets: vec![0], memory_words: 1 }];
    let body = vec![Stmt::Expr(name(0))];
    let mut lowerer = Lowerer::new("C".to_string(), false, true);
    lowerer.storage_locations.insert(0, at(3));
    let mut func = Function::new("f".to_string());
    let (asked, _) = run(&mut lowerer, &mut func, &hir, vec![Task::Statements(&body, 0)]);
    assert_eq!(constant(&func, ValueId(0)), Some(U256::from_u64(32)));
    assert!(matches!(func.insts[0].kind, InstKind::Alloc { .. }));
    assert_eq!(asked.len(), 1);
    assert!(matches!(asked[0], Service::StorageStruct(VariableId(0), StructId(0))));
}

#[test]
fn pushing_keeps_the_slot_of_the_element() {
    let hir = empty_hir();
    let mut lowerer = Lowerer::new("C".to_string(), false, true);
    let mut func = Function::new("f".to_string());
    let tasks = vec![
        Task::Constant(U256::from_u64(3)),
        Task::PushBegin,
        Task::Discard,
        Task::PushedElement(1),
        Task::PushEnd,
    ];
    let (_, machine) = run(&mut lowerer, &mut func, &hir, tasks);
    assert_eq!(machine.values.len(), 1);
    let last = func.insts.last().unwrap();
    assert!(matches!(last.kind, InstKind::SStore(ValueId(0), _)));
    assert!(func.insts.iter().any(|inst| matches!(inst.kind, InstKind::Keccak256(_, _))));
}

#[test]
fn short_strings_revert_through_one_helper() {
    let hir = empty_hir();
    let text = vec![b'n', b'o'];
    let mut lowerer = Lowerer::new("C".to_string(), false, true);
    let mut func = Function::new("f".to_string());
    let mut builder = FunctionBuilder::new(&mut func);
    let second = builder.create_block();
    drop(builder);
    let tasks = vec![
        Task::HelperRevert(&text),
        Task::Jump(second),
        Task::HelperRevert(&text),
    ];
    run(&mut lowerer, &mut func, &hir, tasks);
    assert_eq!(lowerer.module.functions.len(), 1);
    assert_eq!(lowerer.module.functions[0].name, "__revert_error");
    assert!(lowerer.module.functions[0].attributes.no_inline);
    assert_eq!(constant(&func, ValueId(0)), Some(U256::from_u64(2)));
    assert_eq!(constant(&func, ValueId(1)), Some(U256::from_u64(0x6e6f).shl(240)));
    assert!(matches!(func.insts[0].kind, InstKind::InternalCall { .. }));
}

#[test]
fn the_bytes_helper_is_built_once() {
    let mut lowerer = Lowerer::new("C".to_string(), false, true);
    let mut func = match lowerer.ensure_load_storage_bytes_helper() {
        BytesHelper::Open(func, slot) => {
            assert_eq!(slot, ValueId(0));
            func
        }
        BytesHelper::Known(_) => panic!("known"),
    };
    assert!(lowerer.synthesizing_helper);
    assert_eq!(func.params.len(), 1);
    let mut builder = FunctionBuilder::new(&mut func);
    builder.ret(vec![ValueId(0)]);
    let id = lowerer.close_load_storage_bytes_helper(func);
    assert!(!lowerer.synthesizing_helper);
    match lowerer.ensure_load_storage_bytes_helper() {
        BytesHelper::Known(known) => assert_eq!(known, id),
        BytesHelper::Open(_, _) => panic!("open"),
    }
}

#[test]
fn functions_in_progress_are_set_aside() {
    let mut hir = family();
    hir.functions[0].contract = Some(ContractId(1));
    let mut lowerer = Lowerer::new("C".to_string(), false, true);
    lowerer.set_local(VariableId(0), ValueId(9));
    let suspended = match lowerer.enter_function(&hir, HirFunctionId(0)) {
        FunctionEntry::Open(suspended) => suspended,
        _ => panic!("not open"),
    };
    assert_eq!(lowerer.get_local(VariableId(0)), None);
    assert_eq!(lowerer.current_contract_id, Some(ContractId(1)));
    assert!(matches!(
        lowerer.enter_function(&hir, HirFunctionId(0)),
        FunctionEntry::StandIn(_)
    ));
    lowerer.leave_function(HirFunctionId(0), suspended);
    assert_eq!(lowerer.get_local(VariableId(0)), Some(ValueId(9)));
    assert_eq!(lowerer.current_contract_id, None);
}

#[test]
fn inlining_stops_at_a_cycle_and_at_a_depth() {
    let mut lowerer = Lowerer::new("C".to_string(), false, true);
    assert!(lowerer.try_enter_inline(HirFunctionId(0)));
    assert!(!lowerer.try_enter_inline(HirFunctionId(0)));
    for k in 1..32 {
        assert!(lowerer.try_enter_inline(HirFunctionId(k)));
    }
    assert!(!lowerer.try_enter_inline(HirFunctionId(32)));
    lowerer.exit_inline();
    assert!(lowerer.try_enter_inline(HirFunctionId(32)));
}

#[test]
fn inlined_bodies_deliver_to_where_they_were_called() {
    let hir = empty_hir();
    let mut lowerer = Lowerer::new("C".to_string(), false, true);
    let mut func = Function::new("f".to_string());
    let mut builder = FunctionBuilder::new(&mut func);
    let exit = builder.create_block();
    drop(builder);
    lowerer.inline_returns =
        Some(InlineReturnCtx { exit_block: exit, return_vars: vec![VariableId(4)] });
    let value = number(8);
    let tasks = vec![Task::Return(Some(&value))];
    let (asked, _) = run(&mut lowerer, &mut func, &hir, tasks);
    assert!(asked.is_empty());
    assert!(matches!(func.blocks[0].terminator, Some(Terminator::Jump(BlockId(1)))));
    let delivered = lowerer.get_local(VariableId(4)).unwrap();
    assert_eq!(constant(&func, delivered), Some(U256::from_u64(8)));
}

#[test]
fn events_are_logged_with_their_indexed_values_as_topics() {
    let mut hir = empty_hir();
    let mut indexed = variable("a", VarKind::Other);
    indexed.indexed = true;
    hir.variables = vec![indexed, variable("b", VarKind::Other)];
    hir.events = vec![Event {
        name: "E".to_string(),
        parameters: vec![VariableId(0), VariableId(1)],
        selector: U256::zero(),
        anonymous: false,
    }];
    let mut callee = expr(ExprKind::Ident(Vec::new()));
    callee.facts.res = Some(Res::Item(ItemId::Event(EventId(0))));
    let call =
        unit(ExprKind::Call(Box::new(callee), vec![number(1), number(2)], Vec::new()));
    let body = vec![Stmt::Emit(call)];
    let mut lowerer = Lowerer::new("C".to_string(), false, true);
    let mut func = Function::new("f".to_string());
    let tasks = vec![Task::Statements(&body, 0)];
    let (_, machine) = run(&mut lowerer, &mut func, &hir, tasks);
    assert!(machine.values.is_empty());
    let log = func.insts.last().unwrap();
    assert!(matches!(log.kind, InstKind::Log2(_, _, _, _)), "{:?}", log.kind);
}

#[test]
fn failed_calls_reach_their_handlers() {
    let mut hir = empty_hir();
    hir.variables = vec![variable("code", VarKind::Local)];
    let clause = |text: Option<&str>, args: Vec<VariableId>| TryClause {
        name: text.map(ident),
        args,
        body: Vec::new(),
        span: HERE,
    };
    let call = number(1);
    let body = vec![Stmt::Try(
        call,
        vec![
            clause(None, Vec::new()),
            clause(Some("Panic"), vec![VariableId(0)]),
            clause(None, Vec::new()),
        ],
    )];
    let (lowerer, func) = lower(&hir, &body);
    assert!(lowerer.complaints.is_empty());
    assert!(lowerer.get_local(VariableId(0)).is_some());
    assert!(matches!(func.blocks[0].terminator, Some(Terminator::Branch { .. })));
    let reverts = func
        .blocks
        .iter()
        .filter(|block| matches!(block.terminator, Some(Terminator::Revert { .. })));
    assert_eq!(reverts.count(), 1);
}

#[test]
fn handlers_with_other_names_are_complained_about() {
    let hir = empty_hir();
    let clause = |text: Option<&str>| TryClause {
        name: text.map(ident),
        args: Vec::new(),
        body: Vec::new(),
        span: HERE,
    };
    let body = vec![Stmt::Try(number(1), vec![clause(None), clause(Some("Other"))])];
    let (lowerer, _) = lower(&hir, &body);
    assert_eq!(lowerer.complaints, vec![(HERE, Complaint::UnknownHandler(Symbol(4)))]);
}

#[test]
fn builtins_have_instructions_of_their_own() {
    let hir = empty_hir();
    let mut sender = expr(ExprKind::Ident(vec![Res::Builtin(Builtin::MsgSender)]));
    sender.facts.res = Some(Res::Builtin(Builtin::MsgSender));
    sender.facts.builtin = Some(Builtin::MsgSender);
    let (_, func) = lower(&hir, &vec![Stmt::Expr(sender)]);
    assert!(matches!(func.insts[0].kind, InstKind::Caller));
    assert_eq!(func.insts[0].result_ty, Some(MirType::Address));
}

#[test]
fn slices_of_other_things_are_complained_about() {
    let hir = empty_hir();
    let slice = expr(ExprKind::Slice(Box::new(number(1)), None, None));
    let (lowerer, _) = lower(&hir, &vec![Stmt::Expr(slice)]);
    assert_eq!(lowerer.complaints, vec![(HERE, Complaint::SliceOfOther)]);
}

#[test]
fn slices_are_cut_within_bounds() {
    let hir = empty_hir();
    let mut bytes = number(0x80);
    bytes.facts.calldata_bytes = true;
    let slice = expr(ExprKind::Slice(
        Box::new(bytes),
        Some(Box::new(number(1))),
        Some(Box::new(number(2))),
    ));
    let (lowerer, func) = lower(&hir, &vec![Stmt::Expr(slice)]);
    assert!(lowerer.complaints.is_empty());
    let slices = func.insts.iter().filter(|inst| matches!(inst.kind, InstKind::MakeSlice { .. }));
    assert_eq!(slices.count(), 2);
    let reverts = func
        .blocks
        .iter()
        .filter(|block| matches!(block.terminator, Some(Terminator::Revert { .. })));
    assert_eq!(reverts.count(), 2);
}

#[test]
fn deleting_an_array_zeroes_it_in_place() {
    let mut hir = empty_hir();
    let mut local = variable("x", VarKind::Local);
    local.ty = Ty::Ref(
        Box::new(Ty::Array(Box::new(uint()), U256::from_u64(2))),
        DataLocation::Memory,
    );
    local.location = Some(DataLocation::Memory);
    hir.variables = vec![local];
    let body = vec![Stmt::Expr(unit(ExprKind::Delete(Box::new(name(0)))))];
    let mut lowerer = Lowerer::new("C".to_string(), false, true);
    let mut func = Function::new("f".to_string());
    let mut builder = FunctionBuilder::new(&mut func);
    let array = builder.imm_u64(0x100);
    drop(builder);
    lowerer.set_local(VariableId(0), array);
    let tasks = vec![Task::Statements(&body, 0)];
    run(&mut lowerer, &mut func, &hir, tasks);
    let addresses: Vec<ValueId> = func
        .insts
        .iter()
        .filter_map(|inst| match inst.kind {
            InstKind::MStore(addr, _) => Some(addr),
            _ => None,
        })
        .collect();
    assert_eq!(addresses.len(), 2);
    assert_eq!(addresses[0], array);
}

#[test]
fn anonymous_events_have_no_signature_topic() {
    let mut hir = empty_hir();
    for text in ["a", "b", "c", "d"] {
        let mut indexed = variable(text, VarKind::Other);
        indexed.indexed = true;
        hir.variables.push(indexed);
    }
    hir.events = vec![Event {
        name: "E".to_string(),
        parameters: (0..4).map(VariableId).collect(),
        selector: U256::zero(),
        anonymous: true,
    }];
    let mut callee = expr(ExprKind::Ident(Vec::new()));
    callee.facts.res = Some(Res::Item(ItemId::Event(EventId(0))));
    let args = (1..5).map(number).collect();
    let body = vec![Stmt::Emit(unit(ExprKind::Call(Box::new(callee), args, Vec::new())))];
    let mut lowerer = Lowerer::new("C".to_string(), false, true);
    let mut func = Function::new("f".to_string());
    let tasks = vec![Task::Statements(&body, 0)];
    let (asked, machine) = run(&mut lowerer, &mut func, &hir, tasks);
    // A topic is a hash if there is one: here each is the value.
    assert_eq!(asked.len(), 8);
    assert!(matches!(asked[0], Service::TopicHash(_, VariableId(0))));
    assert!(matches!(asked[1], Service::ValueFor(_, VariableId(0))));
    assert!(matches!(asked[7], Service::ValueFor(_, VariableId(3))));
    assert!(machine.values.is_empty());
    let log = func.insts.last().unwrap();
    assert!(matches!(log.kind, InstKind::Log4(_, _, _, _, _, _)), "{:?}", log.kind);
}

#[test]
fn fixed_arrays_keep_their_length_in_signatures() {
    let element = || Box::new(TypeKind::Elementary(ElementaryType::UInt(256)));
    let fixed = TypeKind::Array(element(), Some(U256::from_u64(3)));
    assert_eq!(type_to_abi_string(&fixed), "uint256[3]");
    let open = TypeKind::Array(element(), None);
    assert_eq!(type_to_abi_string(&open), "uint256[]");
    let nested = TypeKind::Array(Box::new(fixed), Some(U256::from_u64(120)));
    assert_eq!(type_to_abi_string(&nested), "uint256[3][120]");
}

fn assigned(hir: &Hir, stmt: &Stmt) -> Vec<usize> {
    let mut found = HashSet::new();
    collect_assigned_vars_stmt(hir, stmt, &mut found);
    let mut ids: Vec<usize> = found.into_iter().collect();
    ids.sort();
    ids
}

#[test]
fn initial_values_assign_variables() {
    let mut hir = empty_hir();
    let mut y = variable("y", VarKind::Local);
    y.initializer = Some(expr(ExprKind::Unary(UnOp::PostInc, Box::new(name(0)))));
    hir.variables = vec![variable("x", VarKind::Local), y, variable("z", VarKind::Local)];
    assert_eq!(assigned(&hir, &Stmt::DeclSingle(VariableId(1))), vec![0]);
    assert_eq!(assigned(&hir, &Stmt::DeclSingle(VariableId(2))), Vec::<usize>::new());
    let init = expr(ExprKind::Assign(Box::new(name(2)), None, Box::new(number(1))));
    let several = Stmt::DeclMulti(vec![Some(VariableId(0)), None], init);
    assert_eq!(assigned(&hir, &several), vec![2]);
}

#[test]
fn deleted_variables_and_call_options_are_assigned() {
    let hir = empty_hir();
    let deleted = Stmt::Expr(unit(ExprKind::Delete(Box::new(name(3)))));
    assert_eq!(assigned(&hir, &deleted), vec![3]);
    let option = expr(ExprKind::Assign(Box::new(name(5)), None, Box::new(number(1))));
    let argument = expr(ExprKind::Assign(Box::new(name(6)), None, Box::new(number(1))));
    let call = expr(ExprKind::Call(Box::new(name(4)), vec![argument], vec![option]));
    assert_eq!(assigned(&hir, &Stmt::Expr(call)), vec![5, 6]);
}

#[test]
fn assembly_complaints_name_the_component() {
    let mut hir = empty_hir();
    hir.variables = vec![variable("x", VarKind::Local)];
    hir.names = vec![String::new(); 5];
    let member = || expr(ExprKind::YulMember(Box::new(number(1)), ident("slot")));
    let at = Span { lo: 7, hi: 8 };
    let (lowerer, _) = lower(&hir, &vec![assign(member(), number(2))]);
    assert_eq!(lowerer.complaints, vec![(at, Complaint::YulTarget(Symbol(4)))]);
    let (lowerer, _) = lower(&hir, &vec![Stmt::Expr(member())]);
    assert_eq!(lowerer.complaints, vec![(at, Complaint::YulMember(Symbol(4)))]);
}

#[test]
fn builtin_complaints_name_the_builtin() {
    let hir = empty_hir();
    let mut named = expr(ExprKind::Ident(Vec::new()));
    named.facts.res = Some(Res::Builtin(Builtin::Other(Symbol(2))));
    let (lowerer, _) = lower(&hir, &vec![Stmt::Expr(named)]);
    let complaint = Complaint::BuiltinValue(Builtin::Other(Symbol(2)));
    assert_eq!(lowerer.complaints, vec![(HERE, complaint)]);
}

#[test]
fn calls_in_call_options_leave_the_contract() {
    let mut hir = empty_hir();
    let mut other = variable("other", VarKind::State);
    other.declared = TypeKind::Custom(ItemId::Contract(ContractId(0)));
    hir.variables = vec![other];
    let external = || {
        let member = expr(ExprKind::Member(Box::new(name(0)), "price".to_string()));
        expr(ExprKind::Call(Box::new(member), Vec::new(), Vec::new()))
    };
    let call = |args: Vec<Expr>, options: Vec<Expr>| {
        expr(ExprKind::Call(Box::new(number(1)), args, options))
    };
    assert!(has_external_call(&hir, &external()));
    assert!(has_external_call(&hir, &call(vec![external()], Vec::new())));
    assert!(has_external_call(&hir, &call(Vec::new(), vec![number(1), external()])));
    assert!(!has_external_call(&hir, &call(vec![number(2)], vec![number(1)])));
}

#[test]
fn switch_constants_are_complained_about_where_they_stand() {
    let hir = empty_hir();
    let at = Span { lo: 20, hi: 21 };
    let body = vec![Stmt::Switch(
        number(4),
        vec![SwitchCase {
            constant: Some(Lit::Rational),
            constant_span: at,
            body: Vec::new(),
            span: HERE,
        }],
    )];
    let (lowerer, _) = lower(&hir, &body);
    assert_eq!(lowerer.complaints, vec![(at, Complaint::FractionalLiteral)]);
}

#[test]
fn made_constructors_stop() {
    let mut hir = family();
    let lowerer = Lowerer::new("C".to_string(), false, true);
    let without = plan_synthetic_constructor(&lowerer, &hir, ContractId(0)).len();
    hir.variables[0].initializer = Some(number(5));
    let (mut lowerer, _) = lower_contract(&hir, ContractId(0), &vec![at(0)], false, true);
    let tasks = plan_synthetic_constructor(&lowerer, &hir, ContractId(0));
    assert!(matches!(tasks.last(), Some(Task::Stop)));
    assert_eq!(tasks.len(), without + 2);
    let mut func = Function::new("constructor".to_string());
    let (asked, machine) = run(&mut lowerer, &mut func, &hir, tasks);
    assert!(matches!(asked[0], Service::StoreLocation(_)));
    assert!(machine.values.is_empty());
    assert!(matches!(func.blocks[0].terminator, Some(Terminator::Stop)));
}

#[test]
fn no_creation_code_is_as_good_as_none() {
    let hir = family();
    let locations = vec![at(0), at(1)];
    let (plain, works) = lower_contract(&hir, ContractId(1), &locations, false, true);
    let codes = HashMap::new();
    let (coded, same) =
        lower_contract_with_bytecodes(&hir, ContractId(1), &locations, codes, false, true);
    assert_eq!(works.len(), same.len());
    assert_eq!(plain.storage_slots, coded.storage_slots);
    assert_eq!(plain.immutable_slots, coded.immutable_slots);
    assert!(plain.contract_bytecodes.is_empty() && coded.contract_bytecodes.is_empty());
    let (first, second) = (plain.finish(), coded.finish());
    assert_eq!(first.name, "Derived");
    assert_eq!(second.name, "Derived");
    assert!(!first.is_interface && !second.is_interface);
    assert_eq!(first.immutables.len(), second.immutables.len());
}

#[test]
fn operators_know_their_integer_type() {
    let hir = empty_hir();
    let func = Function::new("f".to_string());
    let lowerer = Lowerer::new("C".to_string(), false, true);
    let byte = Some(IntegerInfo { bits: 8, signed: false });
    let short = Some(IntegerInfo { bits: 16, signed: true });
    let binary = |own: Option<IntegerInfo>, lhs: Option<IntegerInfo>, signed: bool| {
        let mut left = number(1);
        left.facts.integer = lhs;
        left.facts.signed = signed;
        let mut sum =
            expr(ExprKind::Binary(Box::new(left), BinOp::Other(0), Box::new(number(2))));
        sum.facts.integer = own;
        let tasks = lowerer.plan_value(&func, &hir, &sum);
        match tasks[2] {
            Task::Service(Service::Binary(BinOp::Other(0), how)) => how,
            _ => panic!("no operation"),
        }
    };
    let how = |integer: Option<IntegerInfo>, is_signed: bool| Arithmetic {
        integer,
        is_signed,
        span: HERE,
        unsupported: false,
    };
    assert_eq!(binary(byte, short, true), how(byte, false));
    assert_eq!(binary(None, short, false), how(short, true));
    assert_eq!(binary(None, None, true), how(None, true));
    assert_eq!(binary(None, None, false), how(None, false));
}

#[test]
fn assignments_with_an_operator_compute_in_the_type_of_their_target() {
    let hir = empty_hir();
    let func = Function::new("f".to_string());
    let lowerer = Lowerer::new("C".to_string(), false, true);
    let short = Some(IntegerInfo { bits: 16, signed: true });
    let mut target = name(0);
    target.facts.integer = short;
    target.span = Span { lo: 30, hi: 31 };
    let sum = expr(ExprKind::Assign(
        Box::new(target),
        Some(BinOp::Other(0)),
        Box::new(number(2)),
    ));
    let tasks = lowerer.plan_value(&func, &hir, &sum);
    assert_eq!(tasks.len(), 6);
    // The right side is evaluated first and applied second.
    assert!(matches!(tasks[0], Task::Value(Expr { kind: ExprKind::Lit(_), .. })));
    assert!(matches!(tasks[1], Task::Value(Expr { kind: ExprKind::Ident(_), .. })));
    assert!(matches!(tasks[2], Task::Exchange));
    match tasks[3] {
        Task::Service(Service::Binary(BinOp::Other(0), how)) => {
            assert_eq!((how.integer, how.is_signed), (short, true));
            assert_eq!(how.span, Span { lo: 30, hi: 31 });
        }
        _ => panic!("no operation"),
    }
    assert!(matches!(tasks[4], Task::Duplicate));
    assert!(matches!(tasks[5], Task::Assign(_)));
}

#[test]
fn variables_are_stepped_by_one() {
    let hir = empty_hir();
    let func = Function::new("f".to_string());
    let lowerer = Lowerer::new("C".to_string(), false, true);
    let byte = Some(IntegerInfo { bits: 8, signed: false });
    let step = |op: UnOp| {
        let mut target = name(0);
        target.facts.integer = byte;
        expr(ExprKind::Unary(op, Box::new(target)))
    };
    let up = step(UnOp::PostInc);
    let tasks = lowerer.plan_value(&func, &hir, &up);
    assert!(matches!(tasks[1], Task::Duplicate));
    match tasks[3] {
        Task::Service(Service::CheckedAdd(integer, span)) => {
            assert_eq!((integer, span), (byte, HERE));
        }
        _ => panic!("no addition"),
    }
    let down = step(UnOp::PreDec);
    let tasks = lowerer.plan_value(&func, &hir, &down);
    assert!(matches!(tasks[2], Task::Service(Service::CheckedSub(_, _))));
    assert!(matches!(tasks[3], Task::Duplicate));
}

/// Settles a reply in an empty function that holds one value.
fn settled<'t>(service: &Service<'t>, reply: Reply) -> (Settled<'t>, Lowerer, Machine, Function) {
    let mut lowerer = Lowerer::new("C".to_string(), false, true);
    let mut func = Function::new("f".to_string());
    let mut machine = Machine::new();
    let mut builder = FunctionBuilder::new(&mut func);
    builder.imm_u64(7);
    let after = machine.settle(&mut lowerer, &mut builder, service, reply);
    (after, lowerer, machine, func)
}

#[test]
fn operators_without_a_value_are_complained_about() {
    let at = Span { lo: 40, hi: 41 };
    let service = Service::Operator(HirFunctionId(0), 2, at);
    let (after, lowerer, machine, func) = settled(&service, Reply::Nothing);
    assert!(matches!(after, Settled::Done));
    assert_eq!(lowerer.complaints, vec![(at, Complaint::OperatorWithoutValue)]);
    assert_eq!(func.values[1], Value::Error(ErrorGuaranteed));
    assert_eq!(machine.values, vec![ValueId(1)]);
    let (after, lowerer, machine, _) = settled(&service, Reply::Value(ValueId(0)));
    assert!(matches!(after, Settled::Done));
    assert!(lowerer.complaints.is_empty());
    assert_eq!(machine.values, vec![ValueId(0)]);
}

#[test]
fn calls_have_a_value_exactly_where_one_is_asked_for() {
    let call = expr(ExprKind::Call(Box::new(number(0)), Vec::new(), Vec::new()));
    let (after, _, machine, _) = settled(&Service::Call(&call), Reply::Value(ValueId(0)));
    assert!(matches!(after, Settled::Done));
    assert_eq!(machine.values, vec![ValueId(0)]);
    let (after, _, machine, _) = settled(&Service::Call(&call), Reply::Nothing);
    assert!(matches!(after, Settled::Stop(Bug::UnitCallAsValue, HERE)));
    assert!(machine.values.is_empty());
    let (after, _, _, _) = settled(&Service::UnitCall(&call), Reply::Nothing);
    assert!(matches!(after, Settled::Done));
    let (after, _, _, _) = settled(&Service::UnitCall(&call), Reply::Value(ValueId(0)));
    assert!(matches!(after, Settled::Stop(Bug::UnitCallWithValue, HERE)));
}

#[test]
fn outside_callers_get_nothing_where_nothing_is_returned() {
    let (after, _, _, func) = settled(&Service::ReturnItems(None, true), Reply::Items(Vec::new()));
    assert!(matches!(after, Settled::Done));
    assert!(matches!(func.blocks[0].terminator, Some(Terminator::Stop)));
    let (after, _, _, func) = settled(&Service::ReturnItems(None, false), Reply::Items(Vec::new()));
    match after {
        Settled::Ask(Service::FinishItems(items)) => assert!(items.is_empty()),
        _ => panic!("not finished"),
    }
    assert!(func.blocks[0].terminator.is_none());
    let value = number(1);
    let items = vec![ReturnItem { value: ValueId(0), ty: uint() }];
    let service = Service::ReturnItems(Some(&value), true);
    let (after, _, _, func) = settled(&service, Reply::Items(items));
    match after {
        Settled::Ask(Service::FinishItems(items)) => assert_eq!(items[0].value, ValueId(0)),
        _ => panic!("not finished"),
    }
    assert!(func.blocks[0].terminator.is_none());
}

#[test]
fn topics_without_a_hash_are_values() {
    let value = number(1);
    let service = Service::TopicHash(&value, VariableId(3));
    let (after, _, machine, _) = settled(&service, Reply::Value(ValueId(0)));
    assert!(matches!(after, Settled::Done));
    assert_eq!(machine.values, vec![ValueId(0)]);
    let (after, _, machine, _) = settled(&service, Reply::Nothing);
    assert!(matches!(after, Settled::Ask(Service::ValueFor(_, VariableId(3)))));
    assert!(machine.values.is_empty());
}

#[test]
fn packed_arguments_that_fail_stand_for_the_error() {
    let args = vec![number(1)];
    let (after, _, _, _) = settled(&Service::PackedArguments(&args), Reply::Nothing);
    match after {
        Settled::Ask(Service::PackedHash(hashed)) => assert_eq!(hashed.len(), 1),
        _ => panic!("not hashed"),
    }
    let failed = || Reply::Failed(ErrorGuaranteed);
    let (after, lowerer, machine, func) = settled(&Service::PackedArguments(&args), failed());
    assert!(matches!(after, Settled::Done));
    assert!(lowerer.complaints.is_empty());
    assert_eq!(func.values[1], Value::Error(ErrorGuaranteed));
    assert_eq!(machine.values, vec![ValueId(1)]);
    let (after, _, machine, func) = settled(&Service::PackedHash(&args), failed());
    assert!(matches!(after, Settled::Done));
    assert_eq!(func.values[1], Value::Error(ErrorGuaranteed));
    assert_eq!(machine.values, vec![ValueId(1)]);
    let (after, _, machine, _) = settled(&Service::PackedHash(&args), Reply::Value(ValueId(0)));
    assert!(matches!(after, Settled::Done));
    assert_eq!(machine.values, vec![ValueId(0)]);
}

#[test]
fn replies_that_do_not_fit_are_refused() {
    let value = number(1);
    let call = Service::Call(&value);
    let (after, _, machine, func) = settled(&call, Reply::Value(ValueId(5)));
    assert!(matches!(after, Settled::Unfit));
    assert!(machine.values.is_empty());
    assert_eq!(func.values.len(), 1);
    assert!(matches!(settled(&call, Reply::Left).0, Settled::Unfit));
    assert!(matches!(settled(&Service::BoundsCheck, Reply::Left).0, Settled::Done));
    assert!(matches!(settled(&Service::BoundsCheck, Reply::Nothing).0, Settled::Unfit));
}

#[test]
fn returned_values_are_finished_by_another_part() {
    let hir = empty_hir();
    let body = vec![Stmt::Return(Some(number(8)))];
    let mut lowerer = Lowerer::new("C".to_string(), false, true);
    let mut func = Function::new("f".to_string());
    let (asked, machine) = run(&mut lowerer, &mut func, &hir, vec![Task::Statements(&body, 0)]);
    assert_eq!(asked.len(), 2);
    assert!(matches!(asked[0], Service::ReturnItems(Some(_), false)));
    match &asked[1] {
        Service::FinishItems(items) => assert_eq!(items.len(), 1),
        _ => panic!("not finished"),
    }
    assert!(machine.values.is_empty());
}
