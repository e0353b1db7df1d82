//! Lowering of the modeled source IR: definition registration, label
//! stability, per-kind dispatch and the two end-to-end constant scenarios.

use bak::builder::SSAInstrBuilder;
use bak::from_nir::bak_shader_from_nir;
use bak::from_nir::PhiAllocMap;
use bak::from_nir::ShaderFromNir;
use bak::ir::Dst;
use bak::ir::Op;
use bak::ir::PhiAllocator;
use bak::ir::RegFile;
use bak::ir::SSAValue;
use bak::ir::SSAValueAllocator;
use bak::nir::NirBlock;
use bak::nir::NirCfNode;
use bak::nir::NirDef;
use bak::nir::NirFunction;
use bak::nir::NirFunctionImpl;
use bak::nir::NirInstr;
use bak::nir::NirLoadConst;
use bak::nir::NirShader;
use bak::Error;

fn one_function_shader(instrs: Vec<NirInstr>) -> NirShader {
    let nb = NirBlock { index: 0, instrs };
    NirShader {
        functions: vec![NirFunction {
            func_impl: Some(NirFunctionImpl { body: vec![NirCfNode::Block(nb)] }),
        }],
    }
}

fn load_const(index: u32, bit_size: u8, num_components: u8, values: Vec<u32>) -> NirInstr {
    NirInstr::LoadConst(NirLoadConst {
        def: NirDef { index, num_components, bit_size },
        values,
    })
}

#[test]
fn set_ssa_requires_packed_value_count() {
    // 64-bit, 2 components: 128 bits need 4 registers, not 3.
    let mut s = ShaderFromNir::new();
    let def = NirDef { index: 0, num_components: 2, bit_size: 64 };
    let vals = vec![
        SSAValue::new(RegFile::GPR, 1),
        SSAValue::new(RegFile::GPR, 2),
        SSAValue::new(RegFile::GPR, 3),
    ];
    assert_eq!(s.set_ssa(&def, vals), Err(Error::InvariantViolation));
}

#[test]
fn set_ssa_accepts_packed_value_count() {
    // 16-bit, 2 components: 32 bits fit one register.
    let mut s = ShaderFromNir::new();
    let def = NirDef { index: 3, num_components: 2, bit_size: 16 };
    assert_eq!(s.set_ssa(&def, vec![SSAValue::new(RegFile::GPR, 1)]), Ok(()));
}

#[test]
fn set_ssa_skips_count_check_for_predicates() {
    let mut s = ShaderFromNir::new();
    let def = NirDef { index: 9, num_components: 4, bit_size: 1 };
    assert_eq!(s.set_ssa(&def, vec![SSAValue::new(RegFile::Pred, 1)]), Ok(()));
}

#[test]
fn set_ssa_rejects_double_definition() {
    let mut s = ShaderFromNir::new();
    let def = NirDef { index: 5, num_components: 1, bit_size: 32 };
    assert_eq!(s.set_ssa(&def, vec![SSAValue::new(RegFile::GPR, 1)]), Ok(()));
    // same definition again, with a different payload
    assert_eq!(
        s.set_ssa(&def, vec![SSAValue::new(RegFile::GPR, 2)]),
        Err(Error::InvariantViolation)
    );
    // and with the original payload
    assert_eq!(
        s.set_ssa(&def, vec![SSAValue::new(RegFile::GPR, 1)]),
        Err(Error::InvariantViolation)
    );
}

#[test]
fn block_labels_are_stable_within_one_lowering() {
    let mut s = ShaderFromNir::new();
    let b7 = NirBlock { index: 7, instrs: vec![] };
    let b9 = NirBlock { index: 9, instrs: vec![] };
    let l7 = s.get_block_label(&b7).unwrap();
    let l9 = s.get_block_label(&b9).unwrap();
    assert_ne!(l7, l9);
    assert_eq!(s.get_block_label(&b7).unwrap(), l7);
    assert_eq!(s.get_block_label(&b9).unwrap(), l9);
    assert_eq!(s.get_block_label(&b7).unwrap(), l7);
}

#[test]
fn load_const_rejects_other_bit_sizes() {
    let mut s = ShaderFromNir::new();
    let mut b = SSAInstrBuilder::new(SSAValueAllocator::new());
    let NirInstr::LoadConst(lc) = load_const(0, 16, 1, vec![7]) else {
        unreachable!()
    };
    assert_eq!(s.parse_load_const(&mut b, &lc), Err(Error::UnsupportedInput));
}

#[test]
fn load_const_rejects_short_value_list() {
    let mut s = ShaderFromNir::new();
    let mut b = SSAInstrBuilder::new(SSAValueAllocator::new());
    let NirInstr::LoadConst(lc) = load_const(0, 32, 3, vec![7, 8]) else {
        unreachable!()
    };
    assert_eq!(s.parse_load_const(&mut b, &lc), Err(Error::HostContractViolation));
}

#[test]
fn duplicate_block_identity_is_rejected() {
    let mut s = ShaderFromNir::new();
    let mut ssa_alloc = SSAValueAllocator::new();
    let mut phi_map = PhiAllocMap::new(PhiAllocator::new());
    let nb = NirBlock { index: 4, instrs: vec![] };
    assert_eq!(s.parse_block(&mut ssa_alloc, &mut phi_map, &nb), Ok(()));
    let again = NirBlock { index: 4, instrs: vec![] };
    assert_eq!(
        s.parse_block(&mut ssa_alloc, &mut phi_map, &again),
        Err(Error::InvariantViolation)
    );
}

#[test]
fn if_and_loop_nodes_are_recognized_and_skipped() {
    let mut s = ShaderFromNir::new();
    let fi = NirFunctionImpl {
        body: vec![
            NirCfNode::If,
            NirCfNode::Block(NirBlock { index: 0, instrs: vec![] }),
            NirCfNode::Loop,
        ],
    };
    let f = s.parse_function_impl(&fi).unwrap();
    assert_eq!(f.blocks.len(), 1);
}

#[test]
fn functions_without_a_body_are_skipped() {
    let ns = NirShader {
        functions: vec![
            NirFunction { func_impl: None },
            NirFunction { func_impl: Some(NirFunctionImpl { body: vec![] }) },
        ],
    };
    let sh = bak_shader_from_nir(&ns).unwrap();
    assert_eq!(sh.functions.len(), 1);
}

#[test]
fn scenario_one_component_constant() {
    // One block whose sole instruction loads the 32-bit constant 7 into a
    // 1-component definition: one copy in one basic block.
    let ns = one_function_shader(vec![load_const(0, 32, 1, vec![7])]);
    let sh = bak_shader_from_nir(&ns).unwrap();
    assert_eq!(sh.functions.len(), 1);
    let f = &sh.functions[0];
    assert_eq!(f.blocks.len(), 1);
    let bb = f.blocks.block_at(0);
    assert_eq!(bb.instrs.len(), 1);
    let Op::Copy(c) = &bb.instrs[0].op;
    let Dst::SSA(r) = &c.dst else { panic!("copy without a destination") };
    assert_eq!(r.comps(), 1);
    assert_eq!(r.comp(0).idx(), 1);
    assert_eq!(r.comp(0).file(), RegFile::GPR);
}

#[test]
fn scenario_two_component_constant() {
    // bit size 32, 2 components, values [3, 5]: two copies, and the
    // registered value count 2 matches one 32-bit register per component.
    let ns = one_function_shader(vec![load_const(0, 32, 2, vec![3, 5])]);
    let sh = bak_shader_from_nir(&ns).unwrap();
    let f = &sh.functions[0];
    assert_eq!(f.blocks.len(), 1);
    let bb = f.blocks.block_at(0);
    assert_eq!(bb.instrs.len(), 2);
    for (i, instr) in bb.instrs.iter().enumerate() {
        let Op::Copy(c) = &instr.op;
        let Dst::SSA(r) = &c.dst else { panic!("copy without a destination") };
        assert_eq!(r.comps(), 1);
        assert_eq!(r.comp(0).idx(), (i + 1) as u32);
        assert_eq!(r.comp(0).file(), RegFile::GPR);
    }
}

#[test]
fn scenario_two_component_constant_consumes_two_values() {
    let ns = one_function_shader(vec![load_const(0, 32, 2, vec![3, 5])]);
    let mut sh = bak_shader_from_nir(&ns).unwrap();
    let mut f = sh.functions.pop().unwrap();
    // the next allocation continues after the two consumed indices
    assert_eq!(f.ssa_alloc.alloc_value(RegFile::GPR).idx(), 3);
}

#[test]
fn double_definition_across_instructions() {
    let ns = one_function_shader(vec![
        load_const(2, 32, 1, vec![1]),
        load_const(2, 32, 1, vec![2]),
    ]);
    assert!(matches!(bak_shader_from_nir(&ns), Err(Error::InvariantViolation)));
}

#[test]
fn unsupported_bit_size_fails_the_whole_lowering() {
    let ns = one_function_shader(vec![load_const(0, 64, 1, vec![1, 2])]);
    assert!(matches!(bak_shader_from_nir(&ns), Err(Error::UnsupportedInput)));
}

#[test]
fn block_identities_key_the_graph() {
    let ns = NirShader {
        functions: vec![NirFunction {
            func_impl: Some(NirFunctionImpl {
                body: vec![
                    NirCfNode::Block(NirBlock { index: 12, instrs: vec![] }),
                    NirCfNode::Block(NirBlock { index: 3, instrs: vec![] }),
                ],
            }),
        }],
    };
    let sh = bak_shader_from_nir(&ns).unwrap();
    let f = &sh.functions[0];
    assert_eq!(f.blocks.len(), 2);
    assert_eq!(f.blocks.key_at(0), 12);
    assert_eq!(f.blocks.key_at(1), 3);
    assert_ne!(f.blocks.block_at(0).label, f.blocks.block_at(1).label);
}

#[test]
fn cf_nodes_expose_their_blocks() {
    let node = NirCfNode::Block(NirBlock { index: 2, instrs: vec![] });
    assert_eq!(node.as_block().unwrap().index, 2);
    assert!(NirCfNode::If.as_block().is_none());
    assert!(NirCfNode::Loop.as_block().is_none());
}

#[test]
fn functions_expose_their_bodies() {
    let nf = NirFunction { func_impl: Some(NirFunctionImpl { body: vec![] }) };
    assert!(nf.get_impl().is_some());
    let none = NirFunction { func_impl: None };
    assert!(none.get_impl().is_none());
}
