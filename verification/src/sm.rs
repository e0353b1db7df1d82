//! The per-target encoder: turns lowered instructions into a fixed-width
//! instruction-word stream, one 4-word group per instruction, in program
//! order, with no padding or framing.

use vstd::prelude::*;

use crate::ir::BlockV;
use crate::ir::Dst;
use crate::ir::Instr;
use crate::ir::Op;
use crate::ir::OpCopy;
use crate::ir::Shader;
use crate::Error;

verus! {

/// Number of 32-bit words in one encoded instruction.
pub const WORDS_PER_INSTR: u32 = 4;

/// Opcode word of a copy instruction.
pub const COPY_OPCODE: u32 = 1;

/// The destination descriptor word: the destination's component count,
/// 0 for a discarded result.
pub open(crate) spec fn dst_comps_word(d: Dst) -> u32 {
    match d {
        Dst::Null => 0,
        Dst::SSA(r) => r@.len() as u32,
    }
}

/// The destination register word: the packed identity of the first
/// destination component, 0 for a discarded result.
pub open(crate) spec fn dst_reg_word(d: Dst) -> u32 {
    match d {
        Dst::Null => 0,
        Dst::SSA(r) => r@[0].raw(),
    }
}

/// The 4-word group that encodes one operation.
pub open(crate) spec fn encode_op(op: Op) -> Seq<u32> {
    match op {
        Op::Copy(c) => seq![COPY_OPCODE, dst_comps_word(c.dst), dst_reg_word(c.dst), 0u32],
    }
}

/// The words of one block: the concatenation, in append order, of each
/// instruction's 4-word group.
pub open(crate) spec fn encode_instrs(instrs: Seq<Instr>) -> Seq<u32>
    decreases instrs.len(),
{
    if instrs.len() == 0 {
        Seq::empty()
    } else {
        encode_instrs(instrs.drop_last()) + encode_op(instrs.last().op)
    }
}

/// The words of one function: its blocks in insertion order.
pub open(crate) spec fn encode_blocks(bs: Seq<BlockV>) -> Seq<u32>
    decreases bs.len(),
{
    if bs.len() == 0 {
        Seq::empty()
    } else {
        encode_blocks(bs.drop_last()) + encode_instrs(bs.last().instrs)
    }
}

/// Total instruction count across `bs`, in program order.
pub open spec fn total_instrs(bs: Seq<BlockV>) -> int
    decreases bs.len(),
{
    if bs.len() == 0 {
        0
    } else {
        total_instrs(bs.drop_last()) + bs.last().instrs.len()
    }
}

proof fn lemma_encode_instrs_len(instrs: Seq<Instr>)
    ensures
        encode_instrs(instrs).len() == WORDS_PER_INSTR * instrs.len(),
    decreases instrs.len(),
{
    if instrs.len() > 0 {
        lemma_encode_instrs_len(instrs.drop_last());
    }
}

/// Word-count law: a function's encoding holds exactly 4 words per
/// instruction, over all blocks in program order.
pub proof fn lemma_encode_blocks_len(bs: Seq<BlockV>)
    ensures
        encode_blocks(bs).len() == WORDS_PER_INSTR * total_instrs(bs),
    decreases bs.len(),
{
    if bs.len() > 0 {
        lemma_encode_blocks_len(bs.drop_last());
        lemma_encode_instrs_len(bs.last().instrs);
    }
}

/// Fills the 4-word buffer of one instruction, positioned at the
/// instruction's index in the output (`ip` is the output length in words
/// when the instruction starts).
struct SMEncoder {
    ip: usize,
    inst: [u32; 4],
}

/// The copy encoder: opcode, destination descriptor, destination register,
/// and a reserved word.
fn encode_copy(c: &OpCopy, e: &mut SMEncoder)
    ensures
        final(e).inst@ == encode_op(Op::Copy(*c)),
        final(e).ip == old(e).ip,
{
    let comps_w: u32;
    let reg_w: u32;
    match &c.dst {
        Dst::Null => {
            comps_w = 0;
            reg_w = 0;
        },
        Dst::SSA(r) => {
            comps_w = r.comps() as u32;
            reg_w = r.comp(0).packed;
        },
    }
    e.inst = [COPY_OPCODE, comps_w, reg_w, 0];
    proof {
        assert(e.inst@ =~= encode_op(Op::Copy(*c)));
    }
}

/// Dispatches one instruction to its kind-specific encoder. Every kind of
/// the catalogue has one; a kind without an encoder would be unsupported
/// input.
fn encode_instr(instr: &Instr, e: &mut SMEncoder)
    ensures
        final(e).inst@ == encode_op(instr.op),
        final(e).ip == old(e).ip,
{
    match &instr.op {
        Op::Copy(c) => encode_copy(c, e),
    }
}

/// A target shader model: the per-operation encoding rules of one GPU
/// generation.
pub struct ShaderModel {}

impl ShaderModel {
    /// Encodes a one-function shader into its instruction-word stream:
    /// blocks in insertion order, instructions in append order, one 4-word
    /// group per instruction, no padding, alignment or framing. A shader
    /// with zero or several functions is unsupported input, and is
    /// reported rather than encoded.
    #[verifier::loop_isolation(false)]
    pub fn encode_shader(&self, shader: &Shader) -> (r: Result<Vec<u32>, Error>)
        ensures
            match r {
                Ok(words) => {
                    &&& shader.functions@.len() == 1
                    &&& words@ == encode_blocks(shader.functions@[0].blocks@)
                    &&& words@.len() == WORDS_PER_INSTR * total_instrs(shader.functions@[0].blocks@)
                },
                Err(e) => {
                    &&& e == Error::UnsupportedInput
                    &&& shader.functions@.len() != 1
                },
            },
    {
        if shader.functions.len() != 1 {
            return Err(Error::UnsupportedInput);
        }
        let func = &shader.functions[0];
        let ghost bs = func.blocks@;
        let mut encoded: Vec<u32> = Vec::new();
        proof {
            assert(bs.take(0) =~= Seq::<BlockV>::empty());
        }
        let mut bi: usize = 0;
        while bi < func.blocks.len()
            invariant
                0 <= bi <= bs.len(),
                encoded@ == encode_blocks(bs.take(bi as int)),
            decreases bs.len() - bi,
        {
            let bb = func.blocks.block_at(bi);
            let ghost instrs = bb.instrs@;
            proof {
                assert(instrs.take(0) =~= Seq::<Instr>::empty());
            }
            let mut ii: usize = 0;
            while ii < bb.instrs.len()
                invariant
                    0 <= ii <= instrs.len(),
                    encoded@ == encode_blocks(bs.take(bi as int)) + encode_instrs(
                        instrs.take(ii as int),
                    ),
                decreases instrs.len() - ii,
            {
                let instr = &bb.instrs[ii];
                let mut e = SMEncoder { ip: encoded.len(), inst: [0, 0, 0, 0] };
                encode_instr(instr, &mut e);
                encoded.push(e.inst[0]);
                encoded.push(e.inst[1]);
                encoded.push(e.inst[2]);
                encoded.push(e.inst[3]);
                proof {
                    assert(instrs.take(ii + 1).drop_last() =~= instrs.take(ii as int));
                    assert(instrs.take(ii + 1).last() == instrs[ii as int]);
                    assert(encoded@ =~= encode_blocks(bs.take(bi as int)) + encode_instrs(
                        instrs.take(ii + 1),
                    ));
                }
                ii += 1;
            }
            proof {
                assert(instrs.take(instrs.len() as int) =~= instrs);
                assert(bs.take(bi + 1).drop_last() =~= bs.take(bi as int));
                assert(bs.take(bi + 1).last() == bs[bi as int]);
                assert(encoded@ =~= encode_blocks(bs.take(bi + 1)));
            }
            bi += 1;
        }
        proof {
            assert(bs.take(bs.len() as int) =~= bs);
            lemma_encode_blocks_len(bs);
        }
        Ok(encoded)
    }
}

} // verus!
