//! A plain-data model of the source IR handed over by the frontend: an
//! already-SSA-form shader as a tree of functions, control-flow nodes,
//! blocks and instructions. The host-integration layer converts the
//! frontend's intrusive lists into these finite ordered sequences before
//! they reach the core; the core never mutates them.

use vstd::prelude::*;

verus! {

/// A source-level SSA definition: its identity and its shape.
#[derive(Clone, Copy, Debug, Eq, PartialEq, Structural)]
pub struct NirDef {
    /// Identity of the definition within its function.
    pub index: u32,
    /// Number of vector components.
    pub num_components: u8,
    /// Width of one component in bits.
    pub bit_size: u8,
}

/// A load-constant instruction: one raw 32-bit pattern per component.
#[derive(Clone, Debug, Eq, PartialEq)]
pub struct NirLoadConst {
    pub def: NirDef,
    pub values: Vec<u32>,
}

/// One source instruction, dispatched by kind. Only load-constant carries
/// payload the core reads so far; the other kinds are dispatch points whose
/// lowering rules are the extension contract.
#[derive(Clone, Debug, Eq, PartialEq)]
pub enum NirInstr {
    Alu,
    Deref,
    Jump,
    Tex,
    Intrinsic,
    LoadConst(NirLoadConst),
    Undef,
    Phi,
}

/// A source basic block: its identity and its instructions in program
/// order.
#[derive(Clone, Debug, Eq, PartialEq)]
pub struct NirBlock {
    pub index: u32,
    pub instrs: Vec<NirInstr>,
}

/// One node of a control-flow list. If and loop nodes are recognized
/// structurally; their body lowering is a documented gap.
#[derive(Clone, Debug, Eq, PartialEq)]
pub enum NirCfNode {
    Block(NirBlock),
    If,
    Loop,
}

impl NirCfNode {
    /// The block behind this node, if it is one.
    pub fn as_block(&self) -> (r: Option<&NirBlock>)
        ensures
            match r {
                Some(b) => *self matches NirCfNode::Block(nb) && *b == nb,
                None => !(*self matches NirCfNode::Block(_)),
            },
    {
        match self {
            NirCfNode::Block(b) => Some(b),
            _ => None,
        }
    }
}

/// The body of a function that has one: its control-flow list in program
/// order.
#[derive(Clone, Debug, Eq, PartialEq)]
pub struct NirFunctionImpl {
    pub body: Vec<NirCfNode>,
}

/// A source function, possibly without a body.
#[derive(Clone, Debug, Eq, PartialEq)]
pub struct NirFunction {
    pub func_impl: Option<NirFunctionImpl>,
}

impl NirFunction {
    /// The function's body, if it has one.
    pub fn get_impl(&self) -> (r: Option<&NirFunctionImpl>)
        ensures
            match r {
                Some(fi) => self.func_impl matches Some(f) && *fi == f,
                None => self.func_impl is None,
            },
    {
        match &self.func_impl {
            Some(fi) => Some(fi),
            None => None,
        }
    }
}

/// A source shader: its functions in program order.
#[derive(Clone, Debug, Eq, PartialEq)]
pub struct NirShader {
    pub functions: Vec<NirFunction>,
}

} // verus!
