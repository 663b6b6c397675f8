use solar_codegen::mir::function::{Function, StateMutability};
use solar_codegen::mir::inst::{InstKind, Terminator};
use solar_codegen::mir::module::Module;
use solar_codegen::mir::parser::module::parse;
use solar_codegen::mir::parser::state::Parser;
use solar_codegen::mir::parser::token::{LitKind, ParseError, Problem, Punct, Token, TokenKind};
use solar_codegen::mir::types::{
    AbiType, Arg, BlockId, EffectKind, FunctionId, Immediate, MemoryRegion, MirType, SliceLocation,
    Span, StorageAlias, Value, ValueId,
};
use solar_codegen::word::U256;

fn punct(text: &str) -> Option<(Punct, usize)> {
    let marks = [
        (">>>", Punct::Sar),
        (">>", Punct::Shr),
        ("=>", Punct::FatArrow),
        ("->", Punct::Arrow),
        ("@", Punct::At),
        (".", Punct::Dot),
        (",", Punct::Comma),
        (":", Punct::Colon),
        ("=", Punct::Eq),
        ("<", Punct::Lt),
        (">", Punct::Gt),
        ("!", Punct::Not),
        ("-", Punct::Minus),
        ("(", Punct::OpenParen),
        (")", Punct::CloseParen),
        ("{", Punct::OpenBrace),
        ("}", Punct::CloseBrace),
        ("[", Punct::OpenBracket),
        ("]", Punct::CloseBracket),
    ];
    for (mark, kind) in marks {
        if text.starts_with(mark) {
            return Some((kind, mark.len()));
        }
    }
    None
}

fn tokens(text: &str) -> Vec<Token> {
    let mut found = Vec::new();
    let bytes = text.as_bytes();
    let mut at = 0;
    while at < bytes.len() {
        let start = at;
        let first = bytes[at];
        if first.is_ascii_whitespace() {
            at += 1;
            continue;
        }
        let kind = if first.is_ascii_alphabetic() || first == b'_' {
            while at < bytes.len() && (bytes[at].is_ascii_alphanumeric() || bytes[at] == b'_') {
                at += 1;
            }
            TokenKind::Ident(text[start..at].to_string())
        } else if first.is_ascii_digit() {
            while at < bytes.len() && bytes[at].is_ascii_alphanumeric() {
                at += 1;
            }
            TokenKind::Literal(LitKind::Integer, text[start..at].to_string())
        } else if let Some((mark, len)) = punct(&text[at..]) {
            at += len;
            TokenKind::Punct(mark)
        } else {
            at += 1;
            TokenKind::Other
        };
        found.push(Token { kind, span: Span { lo: start as u32, hi: at as u32 } });
    }
    found
}

fn phases() -> Vec<String> {
    vec!["semantic".to_string(), "evm-shaped".to_string()]
}

fn module(text: &str) -> Module {
    match parse(&tokens(text), &phases()) {
        Ok(module) => module,
        Err(error) => panic!("{:?}", error),
    }
}

fn failure(text: &str) -> ParseError {
    match parse(&tokens(text), &phases()) {
        Ok(_) => panic!("accepted: {}", text),
        Err(error) => error,
    }
}

fn body(text: &str) -> String {
    format!("@module M fn @f() {{ bb0: {} }}", text)
}

fn rejected(text: &str, problem: Problem) {
    assert_eq!(failure(text).problem, problem, "{}", text);
}

#[test]
fn counter_is_parsed() {
    let parsed = module(
        "@module Counter fn @increment() { bb0: v0 = sload 0 v1 = add v0, 1 sstore 0, v1 stop }",
    );
    assert_eq!(parsed.name, "Counter");
    assert!(parsed.phase.is_none());
    assert_eq!(parsed.functions.len(), 1);
    let func = &parsed.functions[0];
    assert_eq!(func.name, "increment");
    assert_eq!(func.blocks.len(), 1);
    assert_eq!(func.blocks[0].instructions.len(), 3);
    assert!(matches!(func.insts[0].kind, InstKind::SLoad(_)));
    assert!(matches!(func.insts[1].kind, InstKind::Add(_, _)));
    assert!(matches!(func.insts[2].kind, InstKind::SStore(_, _)));
    assert_eq!(func.insts[0].result_ty, Some(MirType::UInt(256)));
    assert_eq!(func.insts[2].result_ty, None);
    assert!(matches!(func.blocks[0].terminator, Some(Terminator::Stop)));
}

#[test]
fn signature_and_attributes_are_parsed() {
    let parsed = module(
        "@module M @phase evm-shaped \
         fn @f.body(arg0: u8, arg1: calldataslice) -> (bool, i16) \
         [selector=0xa9059cbb, payable, receive, fallback] { bb0: ret }",
    );
    assert_eq!(parsed.phase, Some("evm-shaped".to_string()));
    let func = &parsed.functions[0];
    assert_eq!(func.name, "f.body");
    assert_eq!(func.params, vec![MirType::UInt(8), MirType::Slice(SliceLocation::Calldata)]);
    assert_eq!(func.return_types, vec![MirType::Bool, MirType::Int(16)]);
    assert_eq!(func.selector, Some(0xa905_9cbb));
    assert_eq!(func.attributes.state_mutability, StateMutability::Payable);
    assert!(func.attributes.is_receive);
    assert!(func.attributes.is_fallback);
}

#[test]
fn blocks_keep_the_order_of_their_definitions() {
    let parsed = module(
        "@module M fn @f(arg0: bool) { bb7: jumpi arg0, bb2, bb9 bb9: stop bb2: jump bb9 }",
    );
    let func = &parsed.functions[0];
    assert_eq!(func.blocks.len(), 3);
    match &func.blocks[0].terminator {
        Some(Terminator::Branch { then_block, else_block, .. }) => {
            assert_eq!(*then_block, BlockId(2));
            assert_eq!(*else_block, BlockId(1));
        }
        other => panic!("{:?}", other),
    }
    assert!(matches!(func.blocks[1].terminator, Some(Terminator::Stop)));
    assert!(matches!(func.blocks[2].terminator, Some(Terminator::Jump(BlockId(1)))));
    assert_eq!(func.blocks[1].predecessors.len(), 2);
    assert_eq!(func.blocks[2].predecessors.len(), 1);
    assert_eq!(func.blocks[2].predecessors.get(0), BlockId(0));
}

#[test]
fn values_may_be_used_before_their_definition() {
    let parsed = module(
        "@module M fn @f() { bb0: jump bb1 bb1: v0 = phi [bb0: 0], [bb1: v1] v1 = add v0, 1 \
         jump bb1 }",
    );
    let func = &parsed.functions[0];
    let result = match &func.insts[1].kind {
        InstKind::Add(_, _) => ValueId(
            func.values
                .iter()
                .position(|value| matches!(value, Value::Inst(id) if id.0 == 1))
                .unwrap(),
        ),
        other => panic!("{:?}", other),
    };
    match &func.insts[0].kind {
        InstKind::Phi(incoming) => {
            assert_eq!(incoming.len(), 2);
            assert_eq!(incoming[1], (BlockId(1), result));
        }
        other => panic!("{:?}", other),
    }
}

#[test]
fn arguments_stand_for_parameters() {
    let parsed = module(
        "@module M fn @f(arg0: u8, arg1: bool) { bb0: sstore arg1, arg0 sstore arg1, arg1 stop }",
    );
    let func = &parsed.functions[0];
    let (first, second) = match func.insts[0].kind {
        InstKind::SStore(slot, value) => (value, slot),
        _ => panic!("no store"),
    };
    assert_eq!(func.values[first.0], Value::Arg(Arg { index: 0, ty: MirType::UInt(8) }));
    assert_eq!(func.values[second.0], Value::Arg(Arg { index: 1, ty: MirType::Bool }));
    match func.insts[1].kind {
        InstKind::SStore(slot, value) => assert_eq!((slot, value), (second, second)),
        _ => panic!("no store"),
    }
}

#[test]
fn arguments_without_parameters_are_words() {
    let parsed = module("@module M fn @f() { bb0: sstore arg2, 0 sstore arg0, arg2 stop }");
    let func = &parsed.functions[0];
    let third = match func.insts[0].kind {
        InstKind::SStore(slot, _) => slot,
        _ => panic!("no store"),
    };
    assert_eq!(func.values[third.0], Value::Arg(Arg { index: 2, ty: MirType::UInt(256) }));
    match func.insts[1].kind {
        InstKind::SStore(slot, value) => {
            assert_eq!(value, third);
            assert_eq!(func.values[slot.0], Value::Arg(Arg { index: 0, ty: MirType::UInt(256) }));
        }
        _ => panic!("no store"),
    }
}

#[test]
fn switch_and_returns_are_parsed() {
    let parsed = module(
        "@module M fn @f(arg0: u256) -> u256 { bb0: switch arg0, default bb1, [1 => bb1, 2 => bb2] \
         bb1: ret arg0 bb2: returndata 0, 32 }",
    );
    let func = &parsed.functions[0];
    match &func.blocks[0].terminator {
        Some(Terminator::Switch { default, cases, .. }) => {
            assert_eq!(*default, BlockId(1));
            assert_eq!(cases.len(), 2);
            assert_eq!(cases[1].1, BlockId(2));
            assert!(matches!(
                func.values[cases[0].0.0],
                Value::Immediate(Immediate::UInt256(value)) if value == U256::from_u64(1)
            ));
        }
        other => panic!("{:?}", other),
    }
    match &func.blocks[1].terminator {
        Some(Terminator::Return { values }) => assert_eq!(values.len(), 1),
        other => panic!("{:?}", other),
    }
    assert_eq!(func.blocks[1].predecessors.len(), 2);
}

#[test]
fn calls_of_functions_are_resolved() {
    let parsed = module(
        "@module M fn @f() { bb0: v0 = internal_call @g, 1, 5 tail_call g1, v0 } \
         fn @g(arg0: u256) -> u256 { bb0: ret arg0 }",
    );
    let func = &parsed.functions[0];
    match &func.insts[0].kind {
        InstKind::InternalCall { function, args, return_count } => {
            assert_eq!(*function, FunctionId(1));
            assert_eq!(args.len(), 1);
            assert_eq!(*return_count, 1);
        }
        other => panic!("{:?}", other),
    }
    match &func.blocks[0].terminator {
        Some(Terminator::TailCall { function, .. }) => assert_eq!(*function, FunctionId(1)),
        other => panic!("{:?}", other),
    }
}

#[test]
fn metadata_is_parsed() {
    let parsed = module(&body(
        "v0 = sload 3 !metadata(unchecked, storage=slot(3), effect=storage_read, loop_depth=2, \
         hir=7, memory=heap) stop",
    ));
    let metadata = &parsed.functions[0].insts[0].metadata;
    assert!(metadata.unchecked);
    assert!(!metadata.deferred_alloc);
    assert_eq!(metadata.storage_alias, Some(StorageAlias::Slot(U256::from_u64(3))));
    assert_eq!(metadata.effect, Some(EffectKind::StorageRead));
    assert_eq!(metadata.memory_region, Some(MemoryRegion::Heap));
    assert_eq!(metadata.loop_depth, 2);
}

#[test]
fn equal_layouts_are_shared() {
    let parsed = module(
        "@module M fn @f() [abi_returns=[array<2, tuple<word, memory_array<word>>>]] { bb0: stop } \
         fn @g() [abi_returns=[array<2, tuple<word, memory_array<word>>>]] { bb0: stop } \
         fn @h() [abi_returns=[calldata_bytes]] { bb0: stop }",
    );
    assert_eq!(parsed.abi_layouts.len(), 2);
    let first = parsed.functions[0].abi_returns.as_ref().unwrap();
    let second = parsed.functions[1].abi_returns.as_ref().unwrap();
    assert!(std::sync::Arc::ptr_eq(first, second));
    match &first.types[0] {
        AbiType::FixedArray { element, len } => {
            assert_eq!(*len, 2);
            match &**element {
                AbiType::Tuple(fields) => assert_eq!(fields.len(), 2),
                other => panic!("{:?}", other),
            }
        }
        other => panic!("{:?}", other),
    }
}

#[test]
fn modules_are_rejected() {
    rejected("", Problem::Expected(Punct::At));
    rejected("@modul M", Problem::ExpectedKeyword);
    rejected("@module 5", Problem::ExpectedIdent);
    rejected("@module M @phase other", Problem::UnknownPhase);
    rejected("@module M @stage other", Problem::UnknownModuleAttribute);
    rejected("@module M fn @f() { bb0: tail_call @g }", Problem::UnknownFunction);
    rejected(
        "@module M fn @f() { bb0: tail_call @f } fn @f() { bb0: stop }",
        Problem::AmbiguousFunction,
    );
}

#[test]
fn heads_are_rejected() {
    rejected("@module M fn @f(x: u8) { bb0: stop }", Problem::ExpectedArgName);
    rejected("@module M fn @f(argx: u8) { bb0: stop }", Problem::InvalidArgIndex);
    rejected("@module M fn @f(arg1: u8) { bb0: stop }", Problem::ArgOutOfOrder(0));
    rejected("@module M fn @f(arg0: u999999) { bb0: stop }", Problem::InvalidUnsignedType);
    rejected("@module M fn @f(arg0: ix) { bb0: stop }", Problem::InvalidSignedType);
    rejected("@module M fn @f(arg0: bytesx) { bb0: stop }", Problem::InvalidBytesType);
    rejected("@module M fn @f(arg0: word) { bb0: stop }", Problem::UnknownType);
    rejected("@module M fn @f() [other] { bb0: stop }", Problem::UnknownFunctionAttribute);
    rejected("@module M fn @f() [abi_returns=[other]] { bb0: stop }", Problem::UnknownAbiType);
    rejected("@module M fn @f() {", Problem::UnterminatedBody);
    rejected("@module M fn @f() { stop }", Problem::OutsideBlock);
    rejected("@module M fn @f() { }", Problem::NoBlock);
}

#[test]
fn blocks_are_rejected() {
    rejected(&body("stop bb0: stop"), Problem::DuplicateBlock(0));
    rejected(&body("jump bb1"), Problem::UnknownBlock(1));
    rejected(&body("jump x"), Problem::ExpectedBlock);
    rejected(&body("jump bbx"), Problem::InvalidBlock);
}

#[test]
fn values_are_rejected() {
    rejected(&body("ret v3"), Problem::UndefinedValue(3));
    rejected(&body("v0 = sload 0 v0 = sload 1 stop"), Problem::DuplicateValue(0));
    rejected(
        "@module M fn @f(arg0: u256) { bb0: sstore arg1, 0 stop }",
        Problem::ArgOutOfRange(1),
    );
    rejected(&body("sstore argx, 0 stop"), Problem::InvalidArg);
    rejected(&body("sstore vx, 0 stop"), Problem::InvalidValue);
    rejected(&body("sstore x, 0 stop"), Problem::ExpectedValue);
}

#[test]
fn metadata_is_rejected() {
    rejected(&body("v0 = sload 0 !metadata(other) stop"), Problem::UnknownMetadataKey);
    rejected(&body("v0 = sload 0 !metadata(storage=x(0)) stop"), Problem::UnknownStorageMetadata);
    rejected(&body("v0 = sload 0 !metadata(memory=x) stop"), Problem::UnknownMemoryMetadata);
    rejected(&body("v0 = sload 0 !metadata(effect=x) stop"), Problem::UnknownEffectMetadata);
    rejected(
        &body("v0 = sload 0 !metadata(loop_depth=65536) stop"),
        Problem::DoesNotFit { value: U256::from_u64(65536), bits: 16 },
    );
}

#[test]
fn allocations_are_rejected() {
    rejected(&body("v0 = alloc raw, odd, zeroed, panic, 32 stop"), Problem::UnknownAlignment);
    rejected(&body("v0 = alloc raw, word, odd, panic, 32 stop"), Problem::UnknownInitialization);
    rejected(&body("v0 = alloc raw, word, zeroed, odd, 32 stop"), Problem::UnknownFailure);
    rejected(&body("v0 = alloc odd, word, zeroed, panic, 32 stop"), Problem::UnknownMemoryObjectLayout);
    rejected(&body("clear_storage odd<word>, 0 stop"), Problem::UnknownStorageLayout);
}

#[test]
fn other_operands_are_rejected() {
    rejected(&body("frobnicate 0"), Problem::UnknownInstruction);
    rejected(&body("v0 = sstore 0, 0 stop"), Problem::NoResult);
    rejected(&body("v0 = loadimmutable x stop"), Problem::ExpectedInteger);
}

#[test]
fn encodings_are_checked() {
    rejected(&body("v0 = abi_encode [word], other 1 stop"), Problem::UnexpectedOperandGroup);
    rejected(
        &body("v0 = abi_encode [word, word], args 1 stop"),
        Problem::AbiEncodeArity { types: 2, args: 1 },
    );
    let parsed = module(&body("v0 = abi_encode [word], selector 5, args 1 stop"));
    assert!(matches!(parsed.functions[0].insts[0].kind, InstKind::AbiEncode { .. }));
}

#[test]
fn errors_tell_their_place() {
    let error = failure("@module M @phase other");
    assert_eq!(error.text, "other");
    assert_eq!(error.span, Span { lo: 17, hi: 22 });
}

#[test]
fn rejected_lines_append_nothing() {
    let text = tokens("v0 = mstore 0, 1");
    let mut parser = Parser {
        tokens: &text,
        pos: 0,
        pending_gt: 0,
        pending_function_ref: None,
        function_refs: Vec::new(),
        arg_values: Vec::new(),
        block_labels: Vec::new(),
        block_order: Vec::new(),
        value_labels: Vec::new(),
        abi_layouts: Vec::new(),
        storage_layouts: Vec::new(),
        func: Function::new(String::new()),
        block: BlockId(0),
    };
    assert!(parser.parse_instruction_or_terminator().is_err());
    assert!(parser.func.insts.is_empty());
    assert!(parser.func.blocks[0].instructions.is_empty());
    assert!(parser.func.blocks[0].terminator.is_none());
}
