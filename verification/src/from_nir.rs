//! Lowering of the source IR into the internal IR: one lowering per
//! function, walking the control-flow list in program order and
//! dispatching every contained instruction by kind.
//!
//! The whole pass is specified by a fold over the source structure: each
//! spec-level `..._step` function states what one dispatch does to the
//! lowering state, and each executable function is proved to realize the
//! corresponding fold, reporting the first failure as a typed error.

use vstd::prelude::*;

use std::collections::HashMap;

use crate::builder::Builder;
use crate::builder::SSABuilder;
use crate::builder::SSAInstrBuilder;
use crate::ir::fresh_vals;
use crate::ir::BasicBlock;
use crate::ir::BlockV;
use crate::ir::Cfg;
use crate::ir::Dst;
use crate::ir::Function;
use crate::ir::Instr;
use crate::ir::Label;
use crate::ir::LabelAllocator;
use crate::ir::Op;
use crate::ir::OpCopy;
use crate::ir::PhiAllocator;
use crate::ir::RegFile;
use crate::ir::SSARef;
use crate::ir::SSAValue;
use crate::ir::SSAValueAllocator;
use crate::ir::Shader;
use crate::ir::Src;
use crate::ir::MAX_SSA_IDX;
use crate::nir::NirBlock;
use crate::nir::NirCfNode;
use crate::nir::NirDef;
use crate::nir::NirFunction;
use crate::nir::NirFunctionImpl;
use crate::nir::NirInstr;
use crate::nir::NirLoadConst;
use crate::nir::NirShader;
use crate::Error;

verus! {

broadcast use vstd::std_specs::hash::group_hash_axioms;

/// The lookup table from a source definition's identity to the internal
/// values registered for it, as a mathematical map.
pub open(crate) spec fn view_defs(m: Map<u32, Vec<SSAValue>>) -> Map<u32, Seq<SSAValue>> {
    Map::new(|k: u32| m.dom().contains(k), |k: u32| m[k]@)
}

proof fn lemma_view_defs_insert(m: Map<u32, Vec<SSAValue>>, k: u32, v: Vec<SSAValue>)
    ensures
        view_defs(m.insert(k, v)) == view_defs(m).insert(k, v@),
{
    assert(view_defs(m.insert(k, v)) =~= view_defs(m).insert(k, v@));
}

/// Number of 32-bit-granular values a definition of `bit_size` bits and
/// `num_components` components occupies: the total bit count rounded up to
/// whole 32-bit registers.
pub open spec fn spec_regs_for(bit_size: u8, num_components: u8) -> int {
    (bit_size * num_components + 31) / 32
}

/// The single instruction that materializes `v`: a copy whose destination
/// is the one-component reference naming `v`.
pub open(crate) spec fn copy_into(v: SSAValue) -> Instr {
    Instr { op: Op::Copy(OpCopy { dst: Dst::SSA(SSARef::spec_new_ref(seq![v])), src: Src {  } }) }
}

/// The `n` copies that materialize the components of a constant when the
/// allocator has already handed out `start` indices.
pub open(crate) spec fn copies_from(start: int, n: int) -> Seq<Instr> {
    Seq::new(n as nat, |i: int| copy_into(SSAValue::spec_new(RegFile::GPR, (start + i + 1) as u32)))
}

/// State threaded through the lowering of one block's instruction list.
pub ghost struct BlockSt {
    /// First failure, if any; once set, the walk stops.
    pub err: Option<Error>,
    /// How many SSA values the function's allocator has handed out.
    pub count: int,
    /// Which internal values each source definition maps to.
    pub defs: Map<u32, Seq<SSAValue>>,
    /// The instructions emitted so far, in program order.
    pub emitted: Seq<Instr>,
}

/// What dispatching one load-constant instruction does to the lowering
/// state. Only 32-bit constants have a lowering rule; each component is
/// materialized through a fresh general-purpose value, and the resulting
/// values are registered for the instruction's definition.
pub open(crate) spec fn load_const_step(lc: NirLoadConst, s: BlockSt) -> BlockSt {
    let n = lc.def.num_components as int;
    if lc.def.bit_size != 32 {
        BlockSt { err: Some(Error::UnsupportedInput), count: s.count, defs: s.defs, emitted: s.emitted }
    } else if lc.values@.len() < n {
        BlockSt {
            err: Some(Error::HostContractViolation),
            count: s.count,
            defs: s.defs,
            emitted: s.emitted,
        }
    } else if s.count + n > MAX_SSA_IDX {
        BlockSt {
            err: Some(Error::InvariantViolation),
            count: s.count,
            defs: s.defs,
            emitted: s.emitted,
        }
    } else if s.defs.contains_key(lc.def.index) {
        BlockSt {
            err: Some(Error::InvariantViolation),
            count: s.count,
            defs: s.defs,
            emitted: s.emitted,
        }
    } else {
        BlockSt {
            err: None,
            count: s.count + n,
            defs: s.defs.insert(lc.def.index, fresh_vals(RegFile::GPR, s.count, n)),
            emitted: s.emitted + copies_from(s.count, n),
        }
    }
}

/// What dispatching one source instruction does to the lowering state.
/// The kinds other than load-constant are recognized dispatch points whose
/// lowering rules are not implemented yet; they emit nothing.
pub open(crate) spec fn instr_step(ni: NirInstr, s: BlockSt) -> BlockSt {
    match ni {
        NirInstr::LoadConst(lc) => load_const_step(lc, s),
        _ => s,
    }
}

/// The fold of [`instr_step`] over a block's instruction list, stopping at
/// the first failure.
pub open(crate) spec fn lower_instrs(instrs: Seq<NirInstr>, s: BlockSt) -> BlockSt
    decreases instrs.len(),
{
    if s.err is Some || instrs.len() == 0 {
        s
    } else {
        lower_instrs(instrs.drop_first(), instr_step(instrs[0], s))
    }
}

/// State threaded through the lowering of one function's control-flow
/// list.
pub ghost struct FnSt {
    /// First failure, if any; once set, the walk stops.
    pub err: Option<Error>,
    /// How many SSA values the function's allocator has handed out.
    pub ssa_count: int,
    /// Which internal values each source definition maps to.
    pub defs: Map<u32, Seq<SSAValue>>,
    /// How many labels the (shader-wide) label allocator has issued.
    pub label_count: int,
    /// The label resolved for each source block identity seen so far.
    pub labels: Map<u32, Label>,
    /// The control-flow-graph nodes built so far, in insertion order.
    pub blocks: Seq<BlockV>,
}

/// Whether a node keyed by `k` is already among `blocks`.
pub open spec fn has_block_key(blocks: Seq<BlockV>, k: u32) -> bool {
    exists|i: int| 0 <= i < blocks.len() && blocks[i].key == k
}

/// What lowering one source block does to the function's lowering state:
/// resolve the block's label by source identity (stable across repeated
/// references), lower its instructions in order, then seal them into a new
/// control-flow-graph node. A source identity that already keys a node,
/// and label-allocator exhaustion, are invariant violations.
pub open(crate) spec fn block_step(nb: NirBlock, s: FnSt) -> FnSt {
    if has_block_key(s.blocks, nb.index) {
        FnSt {
            err: Some(Error::InvariantViolation),
            ssa_count: s.ssa_count,
            defs: s.defs,
            label_count: s.label_count,
            labels: s.labels,
            blocks: s.blocks,
        }
    } else if !s.labels.contains_key(nb.index) && s.label_count >= u32::MAX {
        FnSt {
            err: Some(Error::InvariantViolation),
            ssa_count: s.ssa_count,
            defs: s.defs,
            label_count: s.label_count,
            labels: s.labels,
            blocks: s.blocks,
        }
    } else {
        let lbl = if s.labels.contains_key(nb.index) {
            s.labels[nb.index]
        } else {
            Label::spec_at(s.label_count as u32)
        };
        let labels2 = s.labels.insert(nb.index, lbl);
        let lc2 = if s.labels.contains_key(nb.index) {
            s.label_count
        } else {
            s.label_count + 1
        };
        let b = lower_instrs(
            nb.instrs@,
            BlockSt { err: None, count: s.ssa_count, defs: s.defs, emitted: Seq::empty() },
        );
        if b.err is Some {
            FnSt {
                err: b.err,
                ssa_count: b.count,
                defs: b.defs,
                label_count: lc2,
                labels: labels2,
                blocks: s.blocks,
            }
        } else {
            FnSt {
                err: None,
                ssa_count: b.count,
                defs: b.defs,
                label_count: lc2,
                labels: labels2,
                blocks: s.blocks.push(BlockV { key: nb.index, label: lbl, instrs: b.emitted }),
            }
        }
    }
}

/// What lowering one control-flow node does to the function's lowering
/// state. If and loop nodes are recognized but their body lowering is a
/// documented gap; they change nothing.
pub open(crate) spec fn cf_node_step(node: NirCfNode, s: FnSt) -> FnSt {
    match node {
        NirCfNode::Block(nb) => block_step(nb, s),
        NirCfNode::If => s,
        NirCfNode::Loop => s,
    }
}

/// The fold of [`cf_node_step`] over a control-flow list, stopping at the
/// first failure.
pub open(crate) spec fn lower_cf_list(nodes: Seq<NirCfNode>, s: FnSt) -> FnSt
    decreases nodes.len(),
{
    if s.err is Some || nodes.len() == 0 {
        s
    } else {
        lower_cf_list(nodes.drop_first(), cf_node_step(nodes[0], s))
    }
}

/// The fresh lowering state for one function: fresh SSA allocator, fresh
/// definition table, fresh block-label map; only the shader-wide label
/// allocator carries over.
pub open(crate) spec fn init_fn_st(label_count: int) -> FnSt {
    FnSt {
        err: None,
        ssa_count: 0,
        defs: Map::empty(),
        label_count,
        labels: Map::empty(),
        blocks: Seq::empty(),
    }
}

/// The complete lowering of one function body.
pub open(crate) spec fn lower_function(nfi: NirFunctionImpl, label_count: int) -> FnSt {
    lower_cf_list(nfi.body@, init_fn_st(label_count))
}

/// The mathematical image of one lowered function.
pub ghost struct FnV {
    /// How many SSA values its allocator handed out.
    pub ssa_count: int,
    /// Its control-flow-graph nodes, in insertion order.
    pub blocks: Seq<BlockV>,
}

/// State threaded through the lowering of a shader's function list.
pub ghost struct ShaderSt {
    /// First failure, if any; once set, the walk stops.
    pub err: Option<Error>,
    /// How many labels the shader-wide label allocator has issued.
    pub label_count: int,
    /// The functions lowered so far, in order.
    pub funcs: Seq<FnV>,
}

/// What lowering one source function does to the shader's lowering state.
/// Functions without a body are skipped.
pub open(crate) spec fn function_step(nf: NirFunction, s: ShaderSt) -> ShaderSt {
    match nf.func_impl {
        Option::None => s,
        Option::Some(nfi) => {
            let f = lower_function(nfi, s.label_count);
            if f.err is Some {
                ShaderSt { err: f.err, label_count: f.label_count, funcs: s.funcs }
            } else {
                ShaderSt {
                    err: None,
                    label_count: f.label_count,
                    funcs: s.funcs.push(FnV { ssa_count: f.ssa_count, blocks: f.blocks }),
                }
            }
        },
    }
}

/// The fold of [`function_step`] over a shader's function list, stopping
/// at the first failure.
pub open(crate) spec fn lower_functions(nfs: Seq<NirFunction>, s: ShaderSt) -> ShaderSt
    decreases nfs.len(),
{
    if s.err is Some || nfs.len() == 0 {
        s
    } else {
        lower_functions(nfs.drop_first(), function_step(nfs[0], s))
    }
}

/// The complete lowering of a source shader, starting from a fresh label
/// allocator.
pub open(crate) spec fn lower_shader(ns: NirShader) -> ShaderSt {
    lower_functions(ns.functions@, ShaderSt { err: None, label_count: 0, funcs: Seq::empty() })
}

/// Whether the lowered function `f` is the one the fold describes.
pub open(crate) spec fn function_matches(f: Function, v: FnV) -> bool {
    &&& f.ssa_alloc.count_of() as int == v.ssa_count
    &&& f.blocks@ == v.blocks
}

/// The mathematical image of a list of lowered functions.
pub open(crate) spec fn funcs_view(fs: Seq<Function>) -> Seq<FnV> {
    Seq::new(
        fs.len(),
        |i: int| FnV { ssa_count: fs[i].ssa_alloc.count_of() as int, blocks: fs[i].blocks@ },
    )
}

/// Tracks, per merge point, which definition feeds which slot. Merge-point
/// lowering is a documented gap; the table is created fresh per function
/// and threaded through the walk so that shape is already in place.
pub struct PhiAllocMap {
    pub(crate) phi_alloc: PhiAllocator,
    pub(crate) map: HashMap<(u32, u8), u32>,
}

impl PhiAllocMap {
    /// The table's entries.
    pub open(crate) spec fn entries(self) -> Map<(u32, u8), u32> {
        self.map@
    }

    /// How many phi slots have been issued.
    pub open(crate) spec fn phi_count(self) -> u32 {
        self.phi_alloc.count_of()
    }

    /// A fresh, empty table over `phi_alloc`.
    pub fn new(phi_alloc: PhiAllocator) -> (r: PhiAllocMap)
        ensures
            r.entries() == Map::<(u32, u8), u32>::empty(),
            r.phi_count() == phi_alloc.count_of(),
    {
        PhiAllocMap { phi_alloc, map: HashMap::new() }
    }
}

/// One walk over a source shader, lowering each of its functions in turn.
/// The control-flow graph, block-label map and definition table are
/// created fresh for every function; the label allocator spans the whole
/// shader so synthesized blocks never collide with source ones.
pub struct ShaderFromNir {
    pub(crate) cfg: Cfg,
    pub(crate) label_alloc: LabelAllocator,
    pub(crate) block_label: HashMap<u32, Label>,
    pub(crate) ssa_map: HashMap<u32, Vec<SSAValue>>,
}

impl ShaderFromNir {
    /// The definition table as a mathematical map.
    pub open(crate) spec fn defs(self) -> Map<u32, Seq<SSAValue>> {
        view_defs(self.ssa_map@)
    }

    /// The control-flow-graph nodes built so far for the current function.
    pub open(crate) spec fn cfg_v(self) -> Seq<BlockV> {
        self.cfg@
    }

    /// Whether the control-flow graph under construction keys every
    /// source block identity at most once.
    pub open(crate) spec fn cfg_wf(self) -> bool {
        self.cfg.wf()
    }

    /// The label resolved for each source block identity seen so far.
    pub open(crate) spec fn labels_v(self) -> Map<u32, Label> {
        self.block_label@
    }

    /// How many labels the shader-wide allocator has issued.
    pub open(crate) spec fn label_count(self) -> u32 {
        self.label_alloc.count_of()
    }

    /// The walker's current state as the function-level lowering state.
    pub open(crate) spec fn lowering_st(self, a: SSAValueAllocator) -> FnSt {
        FnSt {
            err: None,
            ssa_count: a.count_of() as int,
            defs: self.defs(),
            label_count: self.label_alloc.count_of() as int,
            labels: self.block_label@,
            blocks: self.cfg@,
        }
    }

    /// `s` with its failure field cleared: what the walker's own fields
    /// show after a step, any failure being carried in the return value
    /// instead.
    pub open(crate) spec fn cleared(s: FnSt) -> FnSt {
        FnSt {
            err: None,
            ssa_count: s.ssa_count,
            defs: s.defs,
            label_count: s.label_count,
            labels: s.labels,
            blocks: s.blocks,
        }
    }

    pub fn new() -> (r: ShaderFromNir)
        ensures
            r.cfg_v() == Seq::<BlockV>::empty(),
            r.cfg_wf(),
            r.label_count() == 0,
            r.labels_v() == Map::<u32, Label>::empty(),
            r.defs() == Map::<u32, Seq<SSAValue>>::empty(),
    {
        let r = ShaderFromNir {
            cfg: Cfg::new(),
            label_alloc: LabelAllocator::new(),
            block_label: HashMap::new(),
            ssa_map: HashMap::new(),
        };
        proof {
            assert(r.defs() =~= Map::<u32, Seq<SSAValue>>::empty());
        }
        r
    }

    /// Resolves the label for a source block identity, allocating one the
    /// first time the identity is seen. The label is stable: repeated
    /// lookups by the same identity within one lowering return the same
    /// label. Label-allocator exhaustion is an invariant violation.
    pub fn get_block_label(&mut self, block: &NirBlock) -> (r: Result<Label, Error>)
        ensures
            final(self).cfg_v() == old(self).cfg_v(),
            final(self).defs() == old(self).defs(),
            match r {
                Ok(l) => {
                    &&& old(self).labels_v().contains_key(block.index) ==> {
                        &&& l == old(self).labels_v()[block.index]
                        &&& final(self).labels_v() == old(self).labels_v()
                        &&& final(self).label_count() == old(self).label_count()
                    }
                    &&& !old(self).labels_v().contains_key(block.index) ==> {
                        &&& old(self).label_count() < u32::MAX
                        &&& l == Label::spec_at(old(self).label_count())
                        &&& final(self).labels_v() == old(self).labels_v().insert(block.index, l)
                        &&& final(self).label_count() == old(self).label_count() + 1
                    }
                    &&& final(self).labels_v().contains_key(block.index)
                    &&& final(self).labels_v()[block.index] == l
                },
                Err(e) => {
                    &&& e == Error::InvariantViolation
                    &&& !old(self).labels_v().contains_key(block.index)
                    &&& old(self).label_count() == u32::MAX
                    &&& final(self).labels_v() == old(self).labels_v()
                    &&& final(self).label_count() == old(self).label_count()
                },
            },
    {
        let existing = self.block_label.get(&block.index);
        match existing {
            Some(l) => Ok(*l),
            None => {
                if self.label_alloc.count == u32::MAX {
                    Err(Error::InvariantViolation)
                } else {
                    let l = self.label_alloc.alloc_label();
                    self.block_label.insert(block.index, l);
                    Ok(l)
                }
            },
        }
    }

    /// Registers the internal values produced for a source definition.
    /// For non-predicate definitions the value count must equal
    /// ⌈bit size × component count / 32⌉ — vectors are represented with
    /// 32-bit-granular components regardless of element width. A count
    /// mismatch, or registering the same definition twice (the source IR
    /// guarantees single assignment), is an invariant violation,
    /// whatever the payload.
    pub fn set_ssa(&mut self, def: &NirDef, vec: Vec<SSAValue>) -> (r: Result<(), Error>)
        ensures
            final(self).cfg_v() == old(self).cfg_v(),
            final(self).labels_v() == old(self).labels_v(),
            final(self).label_count() == old(self).label_count(),
            match r {
                Ok(_) => {
                    &&& def.bit_size != 1 ==> vec@.len() == spec_regs_for(
                        def.bit_size,
                        def.num_components,
                    )
                    &&& !old(self).defs().contains_key(def.index)
                    &&& final(self).defs() == old(self).defs().insert(def.index, vec@)
                },
                Err(e) => {
                    &&& e == Error::InvariantViolation
                    &&& (def.bit_size != 1 && vec@.len() != spec_regs_for(
                        def.bit_size,
                        def.num_components,
                    )) || old(self).defs().contains_key(def.index)
                    &&& final(self).defs() == old(self).defs()
                },
            },
    {
        if def.bit_size != 1 {
            proof {
                assert((def.bit_size as int) * (def.num_components as int) <= 255 * 255)
                    by (nonlinear_arith)
                    requires
                        def.bit_size <= 255 && def.num_components <= 255,
                ;
            }
            let bits: u32 = (def.bit_size as u32) * (def.num_components as u32);
            let expected: u32 = (bits + 31) / 32;
            if vec.len() != expected as usize {
                return Err(Error::InvariantViolation);
            }
        }
        if self.ssa_map.contains_key(&def.index) {
            proof {
                assert(self.defs().contains_key(def.index));
            }
            return Err(Error::InvariantViolation);
        }
        proof {
            assert(!self.defs().contains_key(def.index));
            lemma_view_defs_insert(self.ssa_map@, def.index, vec);
        }
        self.ssa_map.insert(def.index, vec);
        Ok(())
    }

    /// Lowers one load-constant instruction through `b`: for each vector
    /// component, the raw 32-bit pattern is materialized via a copy into a
    /// fresh general-purpose value, and the resulting values are registered
    /// for the instruction's definition. Bit widths other than 32 have no
    /// lowering rule.
    pub fn parse_load_const(
        &mut self,
        b: &mut SSAInstrBuilder,
        load_const: &NirLoadConst,
    ) -> (r: Result<(), Error>)
        ensures
            final(self).cfg_v() == old(self).cfg_v(),
            final(self).labels_v() == old(self).labels_v(),
            final(self).label_count() == old(self).label_count(),
            ({
                let s1 = load_const_step(
                    *load_const,
                    BlockSt {
                        err: None,
                        count: old(b).ssa_count() as int,
                        defs: old(self).defs(),
                        emitted: old(b).instrs_seq(),
                    },
                );
                match r {
                    Ok(_) => {
                        &&& s1.err is None
                        &&& final(b).ssa_count() as int == s1.count
                        &&& final(b).instrs_seq() == s1.emitted
                        &&& final(self).defs() == s1.defs
                    },
                    Err(e) => {
                        &&& s1.err == Some(e)
                        &&& final(b).ssa_count() == old(b).ssa_count()
                        &&& final(b).instrs_seq() == old(b).instrs_seq()
                        &&& final(self).defs() == old(self).defs()
                    },
                }
            }),
    {
        let n: u8 = load_const.def.num_components;
        if load_const.def.bit_size != 32 {
            return Err(Error::UnsupportedInput);
        }
        if load_const.values.len() < n as usize {
            return Err(Error::HostContractViolation);
        }
        if (b.ssa_alloc.count as u64) + (n as u64) > MAX_SSA_IDX as u64 {
            return Err(Error::InvariantViolation);
        }
        if self.ssa_map.contains_key(&load_const.def.index) {
            return Err(Error::InvariantViolation);
        }
        let ghost count0 = b.ssa_count() as int;
        let ghost emitted0 = b.instrs_seq();
        let mut dst: Vec<SSAValue> = Vec::new();
        let mut c: u8 = 0;
        while c < n
            invariant
                c <= n,
                count0 + n <= MAX_SSA_IDX,
                b.ssa_count() as int == count0 + c,
                b.instrs_seq() == emitted0 + copies_from(count0, c as int),
                dst@ == fresh_vals(RegFile::GPR, count0, c as int),
                c < n ==> (c as usize) < load_const.values@.len(),
                n <= load_const.values@.len(),
            decreases n - c,
        {
            let imm_u32: u32 = load_const.values[c as usize];
            let rf = b.copy(Src::from(imm_u32));
            dst.push(rf.comp(0));
            proof {
                assert(fresh_vals(RegFile::GPR, count0 + c, 1) =~= seq![
                    SSAValue::spec_new(RegFile::GPR, (count0 + c + 1) as u32),
                ]);
                assert(dst@ =~= fresh_vals(RegFile::GPR, count0, c + 1));
                assert(b.instrs_seq() =~= emitted0 + copies_from(count0, c + 1));
            }
            c += 1;
        }
        proof {
            assert((32 * (n as int) + 31) / 32 == n as int);
        }
        let res = self.set_ssa(&load_const.def, dst);
        match res {
            Ok(_) => Ok(()),
            Err(_) => {
                proof {
                    assert(false);
                }
                Err(Error::InvariantViolation)
            },
        }
    }

    /// Walks one block's instruction list in program order, dispatching
    /// every contained instruction by kind through `b`.
    #[verifier::loop_isolation(false)]
    fn parse_block_instrs(
        &mut self,
        b: &mut SSAInstrBuilder,
        nb: &NirBlock,
    ) -> (r: Result<(), Error>)
        ensures
            final(self).cfg_v() == old(self).cfg_v(),
            final(self).labels_v() == old(self).labels_v(),
            final(self).label_count() == old(self).label_count(),
            ({
                let s1 = lower_instrs(
                    nb.instrs@,
                    BlockSt {
                        err: None,
                        count: old(b).ssa_count() as int,
                        defs: old(self).defs(),
                        emitted: old(b).instrs_seq(),
                    },
                );
                &&& final(b).ssa_count() as int == s1.count
                &&& final(b).instrs_seq() == s1.emitted
                &&& final(self).defs() == s1.defs
                &&& match r {
                    Ok(_) => s1.err is None,
                    Err(e) => s1.err == Some(e),
                }
            }),
    {
        let ghost s0 = BlockSt {
            err: None,
            count: b.ssa_count() as int,
            defs: self.defs(),
            emitted: b.instrs_seq(),
        };
        let ghost cfg0 = self.cfg_v();
        let ghost labels0 = self.labels_v();
        let ghost lc0 = self.label_count();
        proof {
            assert(nb.instrs@.skip(0) =~= nb.instrs@);
        }
        let mut i: usize = 0;
        while i < nb.instrs.len()
            invariant
                0 <= i <= nb.instrs@.len(),
                self.cfg_v() == cfg0,
                self.labels_v() == labels0,
                self.label_count() == lc0,
                lower_instrs(nb.instrs@, s0) == lower_instrs(
                    nb.instrs@.skip(i as int),
                    BlockSt {
                        err: None,
                        count: b.ssa_count() as int,
                        defs: self.defs(),
                        emitted: b.instrs_seq(),
                    },
                ),
            decreases nb.instrs@.len() - i,
        {
            let ghost cur = BlockSt {
                err: None,
                count: b.ssa_count() as int,
                defs: self.defs(),
                emitted: b.instrs_seq(),
            };
            proof {
                assert(nb.instrs@.skip(i as int).len() > 0);
                assert(nb.instrs@.skip(i as int)[0] == nb.instrs@[i as int]);
                assert(nb.instrs@.skip(i as int).drop_first() =~= nb.instrs@.skip(i + 1));
            }
            let ni = &nb.instrs[i];
            match ni {
                NirInstr::LoadConst(lc) => {
                    let res = self.parse_load_const(b, lc);
                    match res {
                        Ok(_) => {
                            proof {
                                let stepped = load_const_step(*lc, cur);
                                assert(instr_step(nb.instrs@[i as int], cur) == stepped);
                                assert(BlockSt {
                                    err: None,
                                    count: b.ssa_count() as int,
                                    defs: self.defs(),
                                    emitted: b.instrs_seq(),
                                } == stepped);
                            }
                        },
                        Err(e) => {
                            proof {
                                let stepped = load_const_step(*lc, cur);
                                assert(stepped.err == Some(e));
                                assert(lower_instrs(
                                    nb.instrs@.skip(i as int).drop_first(),
                                    stepped,
                                ) == stepped);
                                assert(lower_instrs(nb.instrs@, s0) == stepped);
                            }
                            return Err(e);
                        },
                    }
                },
                _ => {
                    proof {
                        assert(instr_step(nb.instrs@[i as int], cur) == cur);
                    }
                },
            }
            i += 1;
        }
        proof {
            assert(nb.instrs@.skip(nb.instrs@.len() as int) =~= Seq::<NirInstr>::empty());
        }
        Ok(())
    }

    /// Lowers one source block: resolves its label by source identity
    /// (stable across repeated references, such as loop back-edges), opens
    /// a fresh builder over the function's allocator, dispatches every
    /// contained instruction by kind, then seals the instruction sequence
    /// and label into a basic block inserted into the graph under the
    /// source block identity. A source identity that already keys a node
    /// is an invariant violation.
    pub fn parse_block(
        &mut self,
        ssa_alloc: &mut SSAValueAllocator,
        phi_map: &mut PhiAllocMap,
        nb: &NirBlock,
    ) -> (r: Result<(), Error>)
        ensures
            final(phi_map).entries() == old(phi_map).entries(),
            final(phi_map).phi_count() == old(phi_map).phi_count(),
            old(self).cfg_wf() ==> final(self).cfg_wf(),
            ({
                let s1 = block_step(*nb, old(self).lowering_st(*old(ssa_alloc)));
                &&& final(self).lowering_st(*final(ssa_alloc)) == ShaderFromNir::cleared(s1)
                &&& match r {
                    Ok(_) => s1.err is None,
                    Err(e) => s1.err == Some(e),
                }
            }),
    {
        let ghost st_in = self.lowering_st(*ssa_alloc);
        if self.cfg.contains_key(nb.index) {
            proof {
                assert(has_block_key(st_in.blocks, nb.index));
                assert(ShaderFromNir::cleared(block_step(*nb, st_in)) == st_in);
            }
            return Err(Error::InvariantViolation);
        }
        proof {
            assert(!has_block_key(st_in.blocks, nb.index));
        }
        let label = match self.get_block_label(nb) {
            Ok(l) => l,
            Err(e) => {
                proof {
                    assert(ShaderFromNir::cleared(block_step(*nb, st_in)) == st_in);
                }
                return Err(e);
            },
        };
        proof {
            if st_in.labels.contains_key(nb.index) {
                assert(st_in.labels.insert(nb.index, label) =~= st_in.labels);
            }
        }
        let mut local = SSAValueAllocator::new();
        std::mem::swap(&mut local, ssa_alloc);
        let mut b = SSAInstrBuilder::new(local);
        let ghost b0 = BlockSt {
            err: None,
            count: st_in.ssa_count,
            defs: st_in.defs,
            emitted: Seq::empty(),
        };
        let res = self.parse_block_instrs(&mut b, nb);
        let parts = b.into_parts();
        let instrs = parts.0;
        let mut taken = parts.1;
        std::mem::swap(&mut taken, ssa_alloc);
        match res {
            Ok(_) => {
                let bb = BasicBlock { label, instrs };
                self.cfg.add_node(nb.index, bb);
                proof {
                    let s1 = block_step(*nb, st_in);
                    assert(self.lowering_st(*ssa_alloc) == ShaderFromNir::cleared(s1));
                }
                Ok(())
            },
            Err(e) => {
                proof {
                    let s1 = block_step(*nb, st_in);
                    assert(self.lowering_st(*ssa_alloc) == ShaderFromNir::cleared(s1));
                }
                Err(e)
            },
        }
    }

    /// Walks a control-flow list in program order, lowering each block.
    /// If and loop nodes are recognized structurally; their body lowering
    /// is a documented gap and changes nothing.
    #[verifier::loop_isolation(false)]
    pub fn parse_cf_list(
        &mut self,
        ssa_alloc: &mut SSAValueAllocator,
        phi_map: &mut PhiAllocMap,
        list: &[NirCfNode],
    ) -> (r: Result<(), Error>)
        ensures
            final(phi_map).entries() == old(phi_map).entries(),
            final(phi_map).phi_count() == old(phi_map).phi_count(),
            old(self).cfg_wf() ==> final(self).cfg_wf(),
            ({
                let s1 = lower_cf_list(list@, old(self).lowering_st(*old(ssa_alloc)));
                &&& final(self).lowering_st(*final(ssa_alloc)) == ShaderFromNir::cleared(s1)
                &&& match r {
                    Ok(_) => s1.err is None,
                    Err(e) => s1.err == Some(e),
                }
            }),
    {
        let ghost st0 = self.lowering_st(*ssa_alloc);
        proof {
            assert(list@.skip(0) =~= list@);
        }
        let mut i: usize = 0;
        while i < list.len()
            invariant
                0 <= i <= list@.len(),
                old(self).cfg_wf() ==> self.cfg_wf(),
                phi_map.entries() == old(phi_map).entries(),
                phi_map.phi_count() == old(phi_map).phi_count(),
                lower_cf_list(list@, st0) == lower_cf_list(
                    list@.skip(i as int),
                    self.lowering_st(*ssa_alloc),
                ),
            decreases list@.len() - i,
        {
            proof {
                assert(list@.skip(i as int)[0] == list@[i as int]);
                assert(list@.skip(i as int).drop_first() =~= list@.skip(i + 1));
            }
            let ghost cur = self.lowering_st(*ssa_alloc);
            let node = &list[i];
            match node {
                NirCfNode::Block(nb) => {
                    let res = self.parse_block(ssa_alloc, phi_map, nb);
                    match res {
                        Ok(_) => {
                            proof {
                                let stepped = block_step(*nb, cur);
                                assert(ShaderFromNir::cleared(stepped) == stepped);
                            }
                        },
                        Err(e) => {
                            proof {
                                let stepped = block_step(*nb, cur);
                                assert(lower_cf_list(
                                    list@.skip(i as int).drop_first(),
                                    stepped,
                                ) == stepped);
                                assert(lower_cf_list(list@, st0) == stepped);
                            }
                            return Err(e);
                        },
                    }
                },
                NirCfNode::If => {
                    proof {
                        assert(cf_node_step(list@[i as int], cur) == cur);
                    }
                },
                NirCfNode::Loop => {
                    proof {
                        assert(cf_node_step(list@[i as int], cur) == cur);
                    }
                },
            }
            i += 1;
        }
        proof {
            assert(list@.skip(list@.len() as int) =~= Seq::<NirCfNode>::empty());
        }
        Ok(())
    }

    /// Lowers one source function body into a fresh internal function:
    /// fresh SSA allocator, fresh phi bookkeeping, fresh definition table,
    /// fresh block-label map and fresh control-flow graph; only the
    /// shader-wide label allocator carries over.
    pub fn parse_function_impl(&mut self, nfi: &NirFunctionImpl) -> (r: Result<Function, Error>)
        ensures
            ({
                let s1 = lower_function(*nfi, old(self).label_count() as int);
                &&& final(self).label_count() as int == s1.label_count
                &&& final(self).labels_v() == s1.labels
                &&& final(self).defs() == s1.defs
                &&& final(self).cfg_wf()
                &&& match r {
                    Ok(f) => {
                        &&& s1.err is None
                        &&& function_matches(
                            f,
                            FnV { ssa_count: s1.ssa_count, blocks: s1.blocks },
                        )
                        &&& f.blocks.wf()
                        &&& final(self).cfg_v() == Seq::<BlockV>::empty()
                    },
                    Err(e) => {
                        &&& s1.err == Some(e)
                        &&& final(self).cfg_v() == s1.blocks
                    },
                }
            }),
    {
        self.cfg = Cfg::new();
        self.block_label = HashMap::new();
        self.ssa_map = HashMap::new();
        let mut ssa_alloc = SSAValueAllocator::new();
        let phi_alloc = PhiAllocator::new();
        let mut phi_map = PhiAllocMap::new(phi_alloc);
        proof {
            assert(self.defs() =~= Map::<u32, Seq<SSAValue>>::empty());
            assert(self.lowering_st(ssa_alloc) == init_fn_st(old(self).label_count() as int));
        }
        let res = self.parse_cf_list(&mut ssa_alloc, &mut phi_map, nfi.body.as_slice());
        match res {
            Err(e) => Err(e),
            Ok(_) => {
                let mut blocks = Cfg::new();
                std::mem::swap(&mut blocks, &mut self.cfg);
                Ok(Function { ssa_alloc, blocks })
            },
        }
    }

    /// Lowers every source function that has a body, in program order.
    #[verifier::loop_isolation(false)]
    pub fn parse_shader(self, nir: &NirShader) -> (r: Result<Shader, Error>)
        ensures
            ({
                let s1 = lower_functions(
                    nir.functions@,
                    ShaderSt { err: None, label_count: self.label_count() as int, funcs: Seq::empty() },
                );
                match r {
                    Ok(sh) => {
                        &&& s1.err is None
                        &&& sh.functions@.len() == s1.funcs.len()
                        &&& forall|i: int|
                            0 <= i < s1.funcs.len() ==> function_matches(
                                #[trigger] sh.functions@[i],
                                s1.funcs[i],
                            )
                        &&& forall|i: int|
                            0 <= i < s1.funcs.len() ==> (#[trigger] sh.functions@[i]).blocks.wf()
                    },
                    Err(e) => s1.err == Some(e),
                }
            }),
    {
        let mut me = self;
        let ghost st0 = ShaderSt {
            err: None,
            label_count: me.label_count() as int,
            funcs: Seq::empty(),
        };
        let mut functions: Vec<Function> = Vec::new();
        proof {
            assert(nir.functions@.skip(0) =~= nir.functions@);
            assert(funcs_view(functions@) =~= Seq::<FnV>::empty());
        }
        let mut i: usize = 0;
        while i < nir.functions.len()
            invariant
                0 <= i <= nir.functions@.len(),
                lower_functions(nir.functions@, st0) == lower_functions(
                    nir.functions@.skip(i as int),
                    ShaderSt {
                        err: None,
                        label_count: me.label_count() as int,
                        funcs: funcs_view(functions@),
                    },
                ),
                forall|j: int| 0 <= j < functions@.len() ==> (#[trigger] functions@[j]).blocks.wf(),
            decreases nir.functions@.len() - i,
        {
            proof {
                assert(nir.functions@.skip(i as int)[0] == nir.functions@[i as int]);
                assert(nir.functions@.skip(i as int).drop_first() =~= nir.functions@.skip(i + 1));
            }
            let ghost cur = ShaderSt {
                err: None,
                label_count: me.label_count() as int,
                funcs: funcs_view(functions@),
            };
            let nf = &nir.functions[i];
            match nf.get_impl() {
                Some(nfi) => {
                    let res = me.parse_function_impl(nfi);
                    match res {
                        Ok(f) => {
                            functions.push(f);
                            proof {
                                let f_st = lower_function(*nfi, cur.label_count);
                                assert(funcs_view(functions@) =~= cur.funcs.push(
                                    FnV { ssa_count: f_st.ssa_count, blocks: f_st.blocks },
                                ));
                            }
                        },
                        Err(e) => {
                            proof {
                                let stepped = function_step(nir.functions@[i as int], cur);
                                assert(lower_functions(
                                    nir.functions@.skip(i as int).drop_first(),
                                    stepped,
                                ) == stepped);
                                assert(lower_functions(nir.functions@, st0) == stepped);
                            }
                            return Err(e);
                        },
                    }
                },
                None => {
                    proof {
                        assert(function_step(nir.functions@[i as int], cur) == cur);
                    }
                },
            }
            i += 1;
        }
        proof {
            assert(nir.functions@.skip(nir.functions@.len() as int) =~= Seq::<NirFunction>::empty());
        }
        Ok(Shader { functions })
    }
}

/// Lowers a source shader into the internal IR, reporting the first
/// failure as a typed error instead of aborting.
pub fn bak_shader_from_nir(ns: &NirShader) -> (r: Result<Shader, Error>)
    ensures
        ({
            let s1 = lower_shader(*ns);
            match r {
                Ok(sh) => {
                    &&& s1.err is None
                    &&& sh.functions@.len() == s1.funcs.len()
                    &&& forall|i: int|
                        0 <= i < s1.funcs.len() ==> function_matches(
                            #[trigger] sh.functions@[i],
                            s1.funcs[i],
                        )
                    &&& forall|i: int|
                        0 <= i < s1.funcs.len() ==> (#[trigger] sh.functions@[i]).blocks.wf()
                },
                Err(e) => s1.err == Some(e),
            }
        }),
{
    ShaderFromNir::new().parse_shader(ns)
}

} // verus!
