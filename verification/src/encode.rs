//! Target-independent encoding hook on [`Shader`].

use vstd::prelude::*;

use crate::ir::Shader;

verus! {

impl Shader {
    /// Target-independent encoding hook. Per-target encoding lives in
    /// [`crate::sm::ShaderModel::encode_shader`]; this hook emits nothing.
    pub fn encode(&self) -> (r: Vec<u32>)
        ensures
            r@ == Seq::<u32>::empty(),
    {
        let encoded = Vec::new();
        encoded
    }
}

} // verus!
