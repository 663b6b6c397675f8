use solar_codegen::mir::builder::FunctionBuilder;
use solar_codegen::mir::function::Function;
use solar_codegen::mir::inst::{InstKind, Terminator};
use solar_codegen::mir::list::{value_list, BlockList};
use solar_codegen::mir::types::{
    BlockId, EffectKind, ErrorGuaranteed, Immediate, InstId, MemoryRegion, MirType, SliceLocation,
    StorageAlias, Value, ValueId,
};
use solar_codegen::word::U256;

#[test]
fn a_sum_is_built() {
    let mut func = Function::new("f".to_string());
    let mut builder = FunctionBuilder::new(&mut func);
    let a = builder.add_param(MirType::uint256());
    let b = builder.imm_u64(2);
    let c = builder.add(a, b);
    builder.add_return(MirType::uint256());
    builder.ret(vec![c]);
    assert_eq!(func.params, vec![MirType::UInt(256)]);
    assert_eq!(func.return_types, vec![MirType::UInt(256)]);
    assert_eq!(func.values.len(), 3);
    assert_eq!(func.insts.len(), 1);
    assert!(matches!(func.insts[0].kind, InstKind::Add(ValueId(0), ValueId(1))));
    assert_eq!(func.insts[0].result_ty, Some(MirType::UInt(256)));
    assert_eq!(func.values[2], Value::Inst(InstId(0)));
    assert_eq!(func.blocks[0].instructions, vec![InstId(0)]);
    match &func.blocks[0].terminator {
        Some(Terminator::Return { values }) => {
            assert_eq!(values.len(), 1);
            assert_eq!(values.get(0), ValueId(2));
        }
        other => panic!("{:?}", other),
    }
}

#[test]
fn constants_of_every_kind_are_made() {
    let mut func = Function::new("f".to_string());
    let mut builder = FunctionBuilder::new(&mut func);
    builder.imm_u256(U256::max());
    builder.imm_u64(7);
    builder.imm_bool(true);
    builder.undef(MirType::Address);
    builder.error_value(ErrorGuaranteed);
    assert_eq!(func.values[0], Value::Immediate(Immediate::UInt256(U256::max())));
    assert_eq!(func.values[1], Value::Immediate(Immediate::UInt256(U256::from_u64(7))));
    assert_eq!(func.values[2], Value::Immediate(Immediate::Bool(true)));
    assert_eq!(func.values[3], Value::Undef(MirType::Address));
    assert_eq!(func.values[4], Value::Error(ErrorGuaranteed));
    assert!(func.insts.is_empty());
}

#[test]
fn storage_accesses_know_their_slot() {
    let mut func = Function::new("f".to_string());
    let mut builder = FunctionBuilder::new(&mut func);
    let slot = builder.imm_u64(5);
    let loaded = builder.sload(slot);
    let one = builder.imm_u64(1);
    let next = builder.add(loaded, one);
    builder.sstore(next, loaded);
    builder.sload(loaded);
    assert_eq!(func.insts[0].metadata.storage_alias, Some(StorageAlias::Slot(U256::from_u64(5))));
    assert_eq!(func.insts[0].metadata.effect, Some(EffectKind::StorageRead));
    assert_eq!(
        func.insts[2].metadata.storage_alias,
        Some(StorageAlias::Offset { base: loaded, offset: U256::from_u64(1) })
    );
    assert_eq!(func.insts[2].metadata.effect, Some(EffectKind::StorageWrite));
    assert_eq!(func.insts[3].metadata.storage_alias, Some(StorageAlias::Symbolic(loaded)));
}

#[test]
fn memory_accesses_know_their_region() {
    let mut func = Function::new("f".to_string());
    let mut builder = FunctionBuilder::new(&mut func);
    let low = builder.imm_u64(0);
    let high = builder.imm_u64(0x80);
    builder.mload(low);
    builder.mstore(high, low);
    let frame = builder.internal_frame_addr(32);
    builder.mload(frame);
    assert_eq!(func.insts[0].metadata.memory_region, Some(MemoryRegion::Scratch));
    assert_eq!(func.insts[1].metadata.memory_region, Some(MemoryRegion::Unknown));
    assert_eq!(func.insts[3].metadata.memory_region, Some(MemoryRegion::InternalFrame));
}

#[test]
fn branches_record_their_predecessors() {
    let mut func = Function::new("f".to_string());
    let mut builder = FunctionBuilder::new(&mut func);
    let cond = builder.imm_bool(false);
    let yes = builder.create_block();
    let no = builder.create_block();
    builder.branch(cond, yes, no);
    builder.switch_to_block(yes);
    builder.jump(no);
    builder.switch_to_block(no);
    builder.stop();
    assert_eq!(builder.current_block(), no);
    assert_eq!(func.blocks[1].predecessors.len(), 1);
    assert_eq!(func.blocks[2].predecessors.len(), 2);
    assert_eq!(func.blocks[2].predecessors.get(0), BlockId(0));
    assert_eq!(func.blocks[2].predecessors.get(1), BlockId(1));
}

#[test]
fn a_new_terminator_keeps_recorded_edges() {
    let mut func = Function::new("f".to_string());
    let mut builder = FunctionBuilder::new(&mut func);
    let first = builder.create_block();
    let second = builder.create_block();
    builder.jump(first);
    builder.jump(second);
    assert_eq!(func.blocks[1].predecessors.len(), 1);
    assert_eq!(func.blocks[2].predecessors.len(), 1);
    assert!(matches!(func.blocks[0].terminator, Some(Terminator::Jump(block)) if block == second));
}

#[test]
fn phis_take_more_edges() {
    let mut func = Function::new("f".to_string());
    let mut builder = FunctionBuilder::new(&mut func);
    let zero = builder.imm_u64(0);
    let header = builder.create_block();
    builder.jump(header);
    builder.switch_to_block(header);
    let index = builder.phi(vec![(BlockId(0), zero)]);
    let next = builder.add(index, zero);
    builder.jump(header);
    builder.add_phi_incoming(index, header, next);
    match &func.insts[0].kind {
        InstKind::Phi(incoming) => {
            assert_eq!(*incoming, vec![(BlockId(0), zero), (header, next)]);
        }
        other => panic!("{:?}", other),
    }
}

#[test]
fn slices_have_their_location_in_their_type() {
    let mut func = Function::new("f".to_string());
    let mut builder = FunctionBuilder::new(&mut func);
    let zero = builder.imm_u64(0);
    let slice = builder.make_slice(zero, zero, SliceLocation::Memory);
    builder.slice_len(slice);
    assert_eq!(func.insts[0].result_ty, Some(MirType::Slice(SliceLocation::Memory)));
    assert_eq!(func.insts[1].result_ty, Some(MirType::UInt(256)));
}

#[test]
fn lists_keep_what_is_pushed() {
    let values: Vec<ValueId> = (0..5).map(ValueId).collect();
    let list = value_list(&values);
    assert_eq!(list.len(), 5);
    assert_eq!(list.get(4), ValueId(4));
    let mut blocks = BlockList::new();
    assert_eq!(blocks.len(), 0);
    for k in 0..6 {
        blocks.push(BlockId(k));
    }
    assert_eq!(blocks.len(), 6);
    assert_eq!(blocks.get(0), BlockId(0));
    assert_eq!(blocks.get(5), BlockId(5));
}
