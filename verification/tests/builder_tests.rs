//! Ordered accumulation of instructions through the builders.

use bak::builder::Builder;
use bak::builder::InstrBuilder;
use bak::builder::SSABuilder;
use bak::builder::SSAInstrBuilder;
use bak::ir::last_shown_dst;
use bak::ir::Dst;
use bak::ir::DstType;
use bak::ir::DstsAsSlice;
use bak::ir::Instr;
use bak::ir::Op;
use bak::ir::OpCopy;
use bak::ir::RegFile;
use bak::ir::SSAValueAllocator;
use bak::ir::SrcType;
use bak::ir::SrcsAsSlice;
use bak::ir::Src;

fn dst_first_idx(instr: &Instr) -> u32 {
    match &instr.op {
        Op::Copy(c) => match &c.dst {
            Dst::SSA(r) => r.comp(0).idx(),
            Dst::Null => 0,
        },
    }
}

#[test]
fn instructions_keep_append_order() {
    let mut a = SSAValueAllocator::new();
    let d1 = a.alloc_vec(RegFile::GPR, 1);
    let d2 = a.alloc_vec(RegFile::GPR, 1);
    let d3 = a.alloc_vec(RegFile::GPR, 1);
    let mut b = InstrBuilder::new();
    b.copy_to(Dst::from(d1), Src::from(0u32));
    b.copy_to(Dst::from(d2), Src::from(0u32));
    b.copy_to(Dst::from(d3), Src::from(0u32));
    let instrs = b.into_vec();
    assert_eq!(instrs.len(), 3);
    assert_eq!(dst_first_idx(&instrs[0]), 1);
    assert_eq!(dst_first_idx(&instrs[1]), 2);
    assert_eq!(dst_first_idx(&instrs[2]), 3);
}

#[test]
fn push_instr_and_push_op_append() {
    let mut b = InstrBuilder::new();
    b.push_op(Op::Copy(OpCopy { dst: Dst::Null, src: Src::from(0u32) }));
    b.push_instr(Instr::new_boxed(Op::Copy(OpCopy { dst: Dst::Null, src: Src::from(0u32) })));
    let instrs = b.into_vec();
    assert_eq!(instrs.len(), 2);
}

#[test]
fn ssa_builder_copy_allocates_general_purpose() {
    let a = SSAValueAllocator::new();
    let mut b = SSAInstrBuilder::new(a);
    let r1 = b.copy(Src::from(0u32));
    let r2 = b.copy(Src::from(0u32));
    assert_eq!(r1.comps(), 1);
    assert_eq!(r1.comp(0).idx(), 1);
    assert_eq!(r1.comp(0).file(), RegFile::GPR);
    assert_eq!(r2.comp(0).idx(), 2);
    let (instrs, taken) = b.into_parts();
    assert_eq!(instrs.len(), 2);
    assert_eq!(dst_first_idx(&instrs[0]), 1);
    assert_eq!(dst_first_idx(&instrs[1]), 2);
    let mut taken = taken;
    let next = taken.alloc_value(RegFile::GPR);
    assert_eq!(next.idx(), 3);
}

#[test]
fn copy_op_exposes_operand_views() {
    let op = OpCopy { dst: Dst::Null, src: Src::from(0u32) };
    assert_eq!(op.srcs_as_slice().len(), 1);
    assert_eq!(op.src_types(), vec![SrcType::GPR]);
    assert_eq!(op.dsts_as_slice().len(), 1);
    assert_eq!(op.dst_types(), vec![DstType::Vec]);
    let wrapped = Op::Copy(op);
    assert_eq!(wrapped.src_types(), vec![SrcType::GPR]);
    assert_eq!(wrapped.dst_types(), vec![DstType::Vec]);
}

#[test]
fn source_operands_are_not_predicate_typed() {
    let s = Src::from(7u32);
    assert!(!s.is_predicate());
}

#[test]
fn last_shown_dst_finds_last_non_null() {
    let mut a = SSAValueAllocator::new();
    let d = a.alloc_vec(RegFile::GPR, 1);
    assert_eq!(last_shown_dst(&[]), 0);
    assert_eq!(last_shown_dst(&[Dst::Null, Dst::Null]), 0);
    assert_eq!(last_shown_dst(&[Dst::Null, Dst::SSA(d), Dst::Null]), 1);
    assert_eq!(last_shown_dst(&[Dst::SSA(d), Dst::Null, Dst::SSA(d)]), 2);
}
