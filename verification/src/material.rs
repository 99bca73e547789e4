//! What a material binds to its samplers.

use vstd::prelude::*;
use crate::terrain::TextureResource;

verus! {

/// The texture bound to a sampler of a material; none where the sampler is
/// to fall back on its default.
#[derive(Clone, Debug, PartialEq, Eq)]
pub struct MaterialTextureBinding {
    pub value: Option<TextureResource>,
}

impl Default for MaterialTextureBinding {
    /// A binding without a texture.
    fn default() -> (r: Self)
        ensures
            r.value is None,
    {
        MaterialTextureBinding { value: None }
    }
}

} // verus!
