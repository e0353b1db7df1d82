//! Per-target encoding of lowered shaders into instruction words.

use bak::from_nir::bak_shader_from_nir;
use bak::ir::Cfg;
use bak::ir::Function;
use bak::ir::SSAValueAllocator;
use bak::ir::Shader;
use bak::nir::NirBlock;
use bak::nir::NirCfNode;
use bak::nir::NirDef;
use bak::nir::NirFunction;
use bak::nir::NirFunctionImpl;
use bak::nir::NirInstr;
use bak::nir::NirLoadConst;
use bak::nir::NirShader;
use bak::sm::ShaderModel;
use bak::Error;

fn load_const(index: u32, num_components: u8, values: Vec<u32>) -> NirInstr {
    NirInstr::LoadConst(NirLoadConst {
        def: NirDef { index, num_components, bit_size: 32 },
        values,
    })
}

fn shader_of_blocks(blocks: Vec<NirBlock>) -> NirShader {
    NirShader {
        functions: vec![NirFunction {
            func_impl: Some(NirFunctionImpl {
                body: blocks.into_iter().map(NirCfNode::Block).collect(),
            }),
        }],
    }
}

#[test]
fn empty_shader_is_unsupported() {
    let sm = ShaderModel {};
    let shader = Shader { functions: vec![] };
    assert!(matches!(sm.encode_shader(&shader), Err(Error::UnsupportedInput)));
}

#[test]
fn two_function_shader_is_unsupported() {
    let sm = ShaderModel {};
    let f1 = Function { ssa_alloc: SSAValueAllocator::new(), blocks: Cfg::new() };
    let f2 = Function { ssa_alloc: SSAValueAllocator::new(), blocks: Cfg::new() };
    let shader = Shader { functions: vec![f1, f2] };
    assert!(matches!(sm.encode_shader(&shader), Err(Error::UnsupportedInput)));
}

#[test]
fn word_count_is_four_per_instruction() {
    // three copy instructions spread over two blocks: 12 words
    let ns = shader_of_blocks(vec![
        NirBlock { index: 0, instrs: vec![load_const(0, 2, vec![3, 5])] },
        NirBlock { index: 1, instrs: vec![load_const(1, 1, vec![9])] },
    ]);
    let sh = bak_shader_from_nir(&ns).unwrap();
    let sm = ShaderModel {};
    let words = sm.encode_shader(&sh).unwrap();
    assert_eq!(words.len(), 12);
}

#[test]
fn scenario_one_constant_encodes_one_chunk() {
    // the scenario of a single 32-bit constant 7: exactly one 4-word chunk
    let ns = shader_of_blocks(vec![NirBlock { index: 0, instrs: vec![load_const(0, 1, vec![7])] }]);
    let sh = bak_shader_from_nir(&ns).unwrap();
    let sm = ShaderModel {};
    let words = sm.encode_shader(&sh).unwrap();
    // copy opcode, 1-component destination, register word of the first
    // general-purpose value (file tag 0, index 1), reserved word
    assert_eq!(words, vec![1, 1, 1, 0]);
}

#[test]
fn encoded_register_words_carry_the_packed_identity() {
    let ns = shader_of_blocks(vec![NirBlock { index: 0, instrs: vec![load_const(0, 2, vec![3, 5])] }]);
    let sh = bak_shader_from_nir(&ns).unwrap();
    let sm = ShaderModel {};
    let words = sm.encode_shader(&sh).unwrap();
    assert_eq!(words, vec![1, 1, 1, 0, 1, 1, 2, 0]);
}

#[test]
fn empty_function_encodes_to_nothing() {
    let ns = shader_of_blocks(vec![NirBlock { index: 0, instrs: vec![] }]);
    let sh = bak_shader_from_nir(&ns).unwrap();
    let sm = ShaderModel {};
    let words = sm.encode_shader(&sh).unwrap();
    assert!(words.is_empty());
}

#[test]
fn shader_level_hook_emits_nothing() {
    let ns = shader_of_blocks(vec![NirBlock { index: 0, instrs: vec![load_const(0, 1, vec![7])] }]);
    let sh = bak_shader_from_nir(&ns).unwrap();
    assert!(sh.encode().is_empty());
}
