use solar_codegen::mir::builder::FunctionBuilder;
use solar_codegen::mir::function::Function;
use solar_codegen::mir::inst::{InstKind, Terminator};
use solar_codegen::mir::types::{BlockId, MirType, ValueId};
use solar_codegen::mir::utils::{
    is_memory_inst, remap_block_order, repair_reachability_phis, replace_inst_uses,
    replace_inst_uses_canonicalized, replace_terminator_uses,
    replace_terminator_uses_canonicalized, resolve_replacement, retain_blocks, split_edge,
    u256_to_u64,
};
use solar_codegen::word::U256;
use std::collections::HashMap;

/// A loop: the entry jumps to a header, which branches to itself or the exit.
fn looping() -> Function {
    let mut func = Function::new("f".to_string());
    let mut builder = FunctionBuilder::new(&mut func);
    let cond = builder.add_param(MirType::Bool);
    let zero = builder.imm_u64(0);
    let header = builder.create_block();
    let exit = builder.create_block();
    builder.jump(header);
    builder.switch_to_block(header);
    let index = builder.phi(vec![(BlockId(0), zero)]);
    builder.branch(cond, header, exit);
    builder.add_phi_incoming(index, header, zero);
    builder.switch_to_block(exit);
    builder.stop();
    func
}

fn incoming(func: &Function) -> Vec<(BlockId, ValueId)> {
    match &func.insts[0].kind {
        InstKind::Phi(incoming) => incoming.clone(),
        other => panic!("{:?}", other),
    }
}

#[test]
fn splitting_an_edge_adds_a_block_on_it() {
    let mut func = looping();
    let middle = split_edge(&mut func, BlockId(0), BlockId(1));
    assert_eq!(middle, BlockId(3));
    assert!(matches!(func.blocks[0].terminator, Some(Terminator::Jump(BlockId(3)))));
    assert!(matches!(func.blocks[3].terminator, Some(Terminator::Jump(BlockId(1)))));
    assert_eq!(func.blocks[3].predecessors.get(0), BlockId(0));
    let from: Vec<BlockId> = incoming(&func).iter().map(|edge| edge.0).collect();
    assert_eq!(from, vec![BlockId(3), BlockId(1)]);
}

#[test]
fn splitting_a_self_loop_moves_the_back_edge() {
    let mut func = looping();
    let middle = split_edge(&mut func, BlockId(1), BlockId(1));
    match &func.blocks[1].terminator {
        Some(Terminator::Branch { then_block, else_block, .. }) => {
            assert_eq!(*then_block, middle);
            assert_eq!(*else_block, BlockId(2));
        }
        other => panic!("{:?}", other),
    }
    let from: Vec<BlockId> = incoming(&func).iter().map(|edge| edge.0).collect();
    assert_eq!(from, vec![BlockId(0), middle]);
}

#[test]
fn splitting_an_edge_with_two_arms_retargets_both() {
    let mut func = Function::new("f".to_string());
    let mut builder = FunctionBuilder::new(&mut func);
    let cond = builder.add_param(MirType::Bool);
    let next = builder.create_block();
    builder.branch(cond, next, next);
    builder.switch_to_block(next);
    builder.stop();
    assert_eq!(func.blocks[1].predecessors.len(), 2);
    let middle = split_edge(&mut func, BlockId(0), next);
    match &func.blocks[0].terminator {
        Some(Terminator::Branch { then_block, else_block, .. }) => {
            assert_eq!((*then_block, *else_block), (middle, middle));
        }
        other => panic!("{:?}", other),
    }
}

#[test]
fn reordering_renames_blocks_everywhere() {
    let mut func = looping();
    let renamed = remap_block_order(&mut func, &vec![BlockId(0), BlockId(2), BlockId(1)]);
    assert_eq!(renamed, vec![BlockId(0), BlockId(2), BlockId(1)]);
    assert!(matches!(func.blocks[0].terminator, Some(Terminator::Jump(BlockId(2)))));
    assert!(matches!(func.blocks[1].terminator, Some(Terminator::Stop)));
    let from: Vec<BlockId> = incoming(&func).iter().map(|edge| edge.0).collect();
    assert_eq!(from, vec![BlockId(0), BlockId(2)]);
    let back = remap_block_order(&mut func, &renamed);
    assert_eq!(back, renamed);
    assert!(matches!(func.blocks[0].terminator, Some(Terminator::Jump(BlockId(1)))));
}

#[test]
fn retaining_drops_the_other_blocks() {
    let mut func = Function::new("f".to_string());
    let mut builder = FunctionBuilder::new(&mut func);
    let lost = builder.create_block();
    let kept = builder.create_block();
    builder.jump(kept);
    builder.switch_to_block(lost);
    builder.stop();
    builder.switch_to_block(kept);
    builder.stop();
    retain_blocks(&mut func, &vec![BlockId(0), kept]);
    assert_eq!(func.blocks.len(), 2);
    assert!(matches!(func.blocks[0].terminator, Some(Terminator::Jump(BlockId(1)))));
}

#[test]
fn retaining_nothing_leaves_no_block() {
    let mut func = looping();
    retain_blocks(&mut func, &Vec::new());
    assert!(func.blocks.is_empty());
}

#[test]
fn repairing_drops_edges_that_are_gone() {
    let mut func = looping();
    assert!(!repair_reachability_phis(&mut func));
    func.blocks[1].terminator = Some(Terminator::Jump(BlockId(2)));
    assert!(repair_reachability_phis(&mut func));
    assert_eq!(func.blocks[1].predecessors.len(), 1);
    assert_eq!(incoming(&func).len(), 1);
    assert!(!repair_reachability_phis(&mut func));
}

#[test]
fn replacements_are_followed_to_their_end() {
    let mut replacements = HashMap::new();
    replacements.insert(3usize, ValueId(2));
    replacements.insert(2usize, ValueId(1));
    assert_eq!(resolve_replacement(ValueId(3), &replacements), ValueId(1));
    assert_eq!(resolve_replacement(ValueId(0), &replacements), ValueId(0));

    let mut kind = InstKind::Add(ValueId(3), ValueId(0));
    assert_eq!(replace_inst_uses(&mut kind, &replacements), 1);
    assert!(matches!(kind, InstKind::Add(ValueId(2), ValueId(0))));
    let mut kind = InstKind::Add(ValueId(3), ValueId(2));
    assert_eq!(replace_inst_uses_canonicalized(&mut kind, &replacements), 2);
    assert!(matches!(kind, InstKind::Add(ValueId(1), ValueId(1))));

    let mut term = Terminator::Revert { offset: ValueId(3), size: ValueId(3) };
    assert_eq!(replace_terminator_uses(&mut term, &replacements), 2);
    assert!(matches!(term, Terminator::Revert { offset: ValueId(2), size: ValueId(2) }));
    assert_eq!(replace_terminator_uses_canonicalized(&mut term, &replacements), 2);
    assert!(matches!(term, Terminator::Revert { offset: ValueId(1), size: ValueId(1) }));
    assert_eq!(replace_terminator_uses(&mut term, &replacements), 0);
}

#[test]
fn small_numbers_are_told_from_large_ones() {
    assert_eq!(u256_to_u64(U256::from_u64(u64::MAX)), Some(u64::MAX));
    assert_eq!(u256_to_u64(U256 { l0: 0, l1: 1, l2: 0, l3: 0 }), None);
    assert!(is_memory_inst(&InstKind::MLoad(ValueId(0))));
    assert!(!is_memory_inst(&InstKind::SLoad(ValueId(0))));
}
