//! The registry of loaded asset packs, partitioned once at load time
//! into the opaque and transparent render buckets.

use vstd::prelude::*;

use crate::material::AlphaMode;
use crate::model::Model;

verus! {

/// The loaded asset packs, split by render bucket.
pub struct AssetRegistry {
    pub opaque_models: Vec<Model>,
    pub transparent_models: Vec<Model>,
}

/// A pack belongs to the transparent bucket exactly when any of its
/// primitives uses blend-mode alpha.
pub open spec fn spec_is_transparent(m: Model) -> bool {
    exists|k: int|
        0 <= k < m.packed_primitives.per_primitives@.len()
            && (#[trigger] m.packed_primitives.per_primitives@[k]).material.alpha_mode
            == AlphaMode::Blend
}

impl AssetRegistry {
    /// An empty registry.
    pub fn new() -> (r: AssetRegistry)
        ensures
            r.opaque_models@.len() == 0,
            r.transparent_models@.len() == 0,
    {
        AssetRegistry { opaque_models: Vec::new(), transparent_models: Vec::new() }
    }

    /// Files one pack into its bucket: the transparent one exactly when
    /// some primitive blends, the opaque one otherwise. The other bucket
    /// is left untouched.
    pub fn register(&mut self, model: Model)
        ensures
            if spec_is_transparent(model) {
                &&& final(self).transparent_models@ == old(self).transparent_models@.push(model)
                &&& final(self).opaque_models@ == old(self).opaque_models@
            } else {
                &&& final(self).opaque_models@ == old(self).opaque_models@.push(model)
                &&& final(self).transparent_models@ == old(self).transparent_models@
            },
    {
        let mut transparent = false;
        let pps = &model.packed_primitives.per_primitives;
        let mut k: usize = 0;
        while k < pps.len()
            invariant
                k <= pps@.len(),
                pps@ == model.packed_primitives.per_primitives@,
                transparent == exists|t: int|
                    0 <= t < k && (#[trigger] pps@[t]).material.alpha_mode == AlphaMode::Blend,
            decreases pps@.len() - k,
        {
            if pps[k].material.alpha_mode == AlphaMode::Blend {
                transparent = true;
            }
            k = k + 1;
        }
        if transparent {
            self.transparent_models.push(model);
        } else {
            self.opaque_models.push(model);
        }
    }
}

} // verus!
