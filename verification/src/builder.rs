//! Ordered accumulation of instructions into a block. Instructions are only
//! created and appended through these builders; nothing else splices
//! instructions into a block.

use vstd::prelude::*;

use crate::ir::fresh_vals;
use crate::ir::Dst;
use crate::ir::Instr;
use crate::ir::Op;
use crate::ir::OpCopy;
use crate::ir::RegFile;
use crate::ir::SSARef;
use crate::ir::SSAValueAllocator;
use crate::ir::Src;
use crate::ir::MAX_SSA_IDX;

verus! {

/// The instruction-appending half of the builder contract.
pub trait Builder {
    /// The instructions appended so far, in program order.
    spec fn instrs_seq(&self) -> Seq<Instr>;

    /// Appends `instr` in O(1) amortized time, preserving program order.
    fn push_instr(&mut self, instr: Box<Instr>)
        ensures
            final(self).instrs_seq() == old(self).instrs_seq().push(*instr),
    ;

    /// Synthesizes and appends a copy of `src` into `dst`.
    fn copy_to(&mut self, dst: Dst, src: Src)
        ensures
            final(self).instrs_seq() == old(self).instrs_seq().push(
                (Instr { op: Op::Copy(OpCopy { dst, src }) }),
            ),
    ;

    /// Appends a new instruction holding `op`.
    fn push_op(&mut self, op: Op)
        ensures
            final(self).instrs_seq() == old(self).instrs_seq().push((Instr { op })),
    ;
}

/// A builder that can also allocate SSA values: the bridge used whenever
/// lowering must name an arbitrary operand.
pub trait SSABuilder: Builder {
    /// How many SSA values the underlying allocator has handed out.
    spec fn ssa_count(&self) -> u32;

    /// Allocates `comps` fresh values in `file`, packed into one reference.
    fn alloc_ssa(&mut self, file: RegFile, comps: u8) -> (r: SSARef)
        requires
            1 <= comps <= 4,
            old(self).ssa_count() + comps <= MAX_SSA_IDX,
        ensures
            final(self).ssa_count() == old(self).ssa_count() + comps,
            final(self).instrs_seq() == old(self).instrs_seq(),
            r == SSARef::spec_new_ref(
                fresh_vals(file, old(self).ssa_count() as int, comps as int),
            ),
            r@ == fresh_vals(file, old(self).ssa_count() as int, comps as int),
    ;

    /// Allocates a one-component destination (predicate file if `src` is
    /// predicate-typed, general-purpose otherwise), appends a copy of
    /// `src` into it, and returns the new value.
    fn copy(&mut self, src: Src) -> (r: SSARef)
        requires
            old(self).ssa_count() < MAX_SSA_IDX,
        ensures
            final(self).ssa_count() == old(self).ssa_count() + 1,
            r == SSARef::spec_new_ref(
                fresh_vals(
                    if src.spec_is_predicate() {
                        RegFile::Pred
                    } else {
                        RegFile::GPR
                    },
                    old(self).ssa_count() as int,
                    1,
                ),
            ),
            r@ == fresh_vals(
                if src.spec_is_predicate() {
                    RegFile::Pred
                } else {
                    RegFile::GPR
                },
                old(self).ssa_count() as int,
                1,
            ),
            final(self).instrs_seq() == old(self).instrs_seq().push(
                (Instr { op: Op::Copy(OpCopy { dst: Dst::SSA(r), src }) }),
            ),
    ;
}

/// A plain instruction accumulator.
pub struct InstrBuilder {
    pub(crate) instrs: Vec<Instr>,
}

impl InstrBuilder {
    pub fn new() -> (r: InstrBuilder)
        ensures
            r.instrs_seq() == Seq::<Instr>::empty(),
    {
        InstrBuilder { instrs: Vec::new() }
    }

    /// Hands the accumulated instructions over, in append order.
    pub fn into_vec(self) -> (r: Vec<Instr>)
        ensures
            r@ == self.instrs_seq(),
    {
        self.instrs
    }
}

impl Builder for InstrBuilder {
    open(crate) spec fn instrs_seq(&self) -> Seq<Instr> {
        self.instrs@
    }

    fn push_instr(&mut self, instr: Box<Instr>) {
        self.instrs.push(*instr);
    }

    fn copy_to(&mut self, dst: Dst, src: Src) {
        self.push_op(Op::Copy(OpCopy { dst, src }));
    }

    fn push_op(&mut self, op: Op) {
        self.push_instr(Instr::new_boxed(op));
    }
}

/// An instruction accumulator that owns the function's SSA value allocator
/// for the duration of one block.
pub struct SSAInstrBuilder {
    pub(crate) b: InstrBuilder,
    pub(crate) ssa_alloc: SSAValueAllocator,
}

impl SSAInstrBuilder {
    /// Binds a fresh accumulator to the function's allocator.
    pub fn new(ssa_alloc: SSAValueAllocator) -> (r: SSAInstrBuilder)
        ensures
            r.ssa_count() == ssa_alloc.count_of(),
            r.instrs_seq() == Seq::<Instr>::empty(),
    {
        SSAInstrBuilder { b: InstrBuilder::new(), ssa_alloc }
    }

    /// Hands back the accumulated instructions and the allocator.
    pub fn into_parts(self) -> (r: (Vec<Instr>, SSAValueAllocator))
        ensures
            r.0@ == self.instrs_seq(),
            r.1.count_of() == self.ssa_count(),
    {
        let SSAInstrBuilder { b, ssa_alloc } = self;
        (b.into_vec(), ssa_alloc)
    }
}

impl Builder for SSAInstrBuilder {
    open(crate) spec fn instrs_seq(&self) -> Seq<Instr> {
        self.b.instrs_seq()
    }

    fn push_instr(&mut self, instr: Box<Instr>) {
        self.b.push_instr(instr);
    }

    fn copy_to(&mut self, dst: Dst, src: Src) {
        self.b.copy_to(dst, src);
    }

    fn push_op(&mut self, op: Op) {
        self.b.push_op(op);
    }
}

impl SSABuilder for SSAInstrBuilder {
    open(crate) spec fn ssa_count(&self) -> u32 {
        self.ssa_alloc.count_of()
    }

    fn alloc_ssa(&mut self, file: RegFile, comps: u8) -> (r: SSARef) {
        self.ssa_alloc.alloc_vec(file, comps)
    }

    fn copy(&mut self, src: Src) -> (r: SSARef) {
        let dst = if src.is_predicate() {
            self.ssa_alloc.alloc_vec(RegFile::Pred, 1)
        } else {
            self.ssa_alloc.alloc_vec(RegFile::GPR, 1)
        };
        self.b.copy_to(Dst::from(dst), src);
        dst
    }
}

} // verus!
