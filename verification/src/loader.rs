//! Document-level loading: resolves the hierarchy, parses the animation
//! clips, assembles every mesh, and packs the result into a model.

use vstd::prelude::*;

use crate::animation::{spec_channel_ok, spec_channel_matches, Animation};
use crate::document::{spec_images_supported, DocMesh, DocPrimitive, Document};
use crate::layout::{spec_layout_ok, spec_mesh_nodes, NodeLayout};
use crate::mesh::{spec_animations_wf, spec_prim_matches, spec_prim_ok, Mesh};
use crate::model::{spec_mesh_list_wf, Model, ModelError};

verus! {

/// The number of primitives in the first `m` meshes.
pub open spec fn spec_prims_before(meshes: Seq<DocMesh>, m: int) -> int
    decreases m,
{
    if m <= 0 {
        0
    } else {
        spec_prims_before(meshes, m - 1) + meshes[m - 1].primitives@.len()
    }
}

/// Every channel of every clip of the document parses.
pub open spec fn spec_channels_all_ok(anims: Seq<crate::document::DocAnimation>) -> bool {
    forall|a: int, c: int|
        0 <= a < anims.len() && 0 <= c < anims[a].channels@.len() ==> spec_channel_ok(
            #[trigger] anims[a].channels@[c],
        )
}

/// Every primitive of every mesh of the document assembles.
pub open spec fn spec_prims_all_ok(meshes: Seq<DocMesh>) -> bool {
    forall|m: int, j: int|
        0 <= m < meshes.len() && 0 <= j < meshes[m].primitives@.len() ==> spec_prim_ok(
            #[trigger] meshes[m].primitives@[j],
        )
}

/// A document the loader accepts: at least one scene, a structurally
/// valid hierarchy, parsable animation channels, assemblable primitives,
/// and a total primitive count that fits the identifier space.
pub open spec fn spec_document_ok(doc: Document) -> bool {
    &&& doc.scenes@.len() > 0
    &&& spec_layout_ok(doc.nodes@, doc.meshes@.len() as int)
    &&& spec_channels_all_ok(doc.animations@)
    &&& spec_prims_all_ok(doc.meshes@)
    &&& spec_prims_before(doc.meshes@, doc.meshes@.len() as int) <= usize::MAX
}

/// One source primitive's counts fit the draw path's 32-bit counters.
pub open spec fn spec_doc_prim_fits(dp: DocPrimitive) -> bool {
    &&& (match dp.positions {
        Some(v) => v@.len() <= u32::MAX,
        None => true,
    })
    &&& (match dp.indices {
        Some(v) => v@.len() <= u32::MAX,
        None => true,
    })
}

/// Every source primitive's counts fit the draw path's counters.
pub open spec fn spec_doc_fits(meshes: Seq<DocMesh>) -> bool {
    forall|m: int, j: int|
        0 <= m < meshes.len() && 0 <= j < meshes[m].primitives@.len() ==> spec_doc_prim_fits(
            #[trigger] meshes[m].primitives@[j],
        )
}

/// What a successful preparation hands back: the resolved layout, the
/// parsed clips (clip by clip, channel by channel), and each mesh
/// assembled against them, with primitive identifiers counted across
/// meshes in document order.
#[verifier::opaque]
pub open spec fn spec_prepared(
    layout: NodeLayout,
    animations: Seq<Animation>,
    meshes: Seq<Mesh>,
    doc: Document,
) -> bool {
    &&& layout.wf()
    &&& layout.nodes@.len() == doc.nodes@.len()
    &&& layout.mesh_nodes@.len() == doc.meshes@.len()
    &&& forall|m: int|
        0 <= m < doc.meshes@.len() ==> (#[trigger] layout.mesh_nodes@[m])@ == spec_mesh_nodes(
            doc.nodes@,
            m,
        )
    &&& forall|k: int|
        0 <= k < doc.nodes@.len() ==> (#[trigger] layout.nodes@[k]).transform_local
            == doc.nodes@[k].local_transform
    &&& animations.len() == doc.animations@.len()
    &&& forall|a: int|
        0 <= a < animations.len() ==> (#[trigger] animations[a]).channels@.len()
            == doc.animations@[a].channels@.len()
    &&& forall|a: int, c: int|
        0 <= a < animations.len() && 0 <= c < animations[a].channels@.len()
            ==> (#[trigger] animations[a].channels@[c]).wf() && spec_channel_matches(
            animations[a].channels@[c],
            doc.animations@[a].channels@[c],
        )
    &&& meshes.len() == doc.meshes@.len()
    &&& forall|m: int|
        0 <= m < meshes.len() ==> (#[trigger] meshes[m]).primitives@.len()
            == doc.meshes@[m].primitives@.len()
    &&& forall|m: int, j: int|
        0 <= m < meshes.len() && 0 <= j < meshes[m].primitives@.len()
            ==> (#[trigger] meshes[m].primitives@[j]).wf() && spec_prim_matches(
            meshes[m].primitives@[j],
            doc.meshes@[m].primitives@[j],
            layout,
            m,
            animations,
            spec_prims_before(doc.meshes@, m) + j,
        )
}

/// The total primitive count dominates every prefix.
proof fn lemma_prims_before_mono(meshes: Seq<DocMesh>, a: int, b: int)
    requires
        0 <= a <= b <= meshes.len(),
    ensures
        spec_prims_before(meshes, a) <= spec_prims_before(meshes, b),
    decreases b - a,
{
    if a < b {
        lemma_prims_before_mono(meshes, a + 1, b);
    }
}

/// Resolves the hierarchy, parses every clip, and assembles every mesh
/// of a document. Succeeds exactly on documents the loader accepts; a
/// document with no scene fails with `NoScene`, any other rejection with
/// `InvalidGltf`.
pub fn prepare_document(doc: &Document) -> (r: Result<
    (NodeLayout, Vec<Animation>, Vec<Mesh>),
    ModelError,
>)
    ensures
        match r {
            Ok(parts) => {
                &&& spec_document_ok(*doc)
                &&& spec_prepared(parts.0, parts.1@, parts.2@, *doc)
                &&& spec_animations_wf(parts.1@)
                &&& spec_mesh_list_wf(parts.2@)
            },
            Err(e) => {
                &&& !spec_document_ok(*doc)
                &&& (if doc.scenes@.len() == 0 {
                    e == ModelError::NoScene
                } else {
                    e == ModelError::InvalidGltf
                })
            },
        },
{
    if doc.scenes.len() == 0 {
        return Err(ModelError::NoScene);
    }
    let node_layout = match NodeLayout::from_document(&doc.nodes, doc.meshes.len()) {
        Ok(l) => l,
        Err(e) => {
            return Err(e);
        },
    };
    let mut animations: Vec<Animation> = Vec::new();
    let mut a: usize = 0;
    while a < doc.animations.len()
        invariant
            a <= doc.animations@.len(),
            doc.scenes@.len() > 0,
            animations@.len() == a,
            forall|t: int, c: int|
                0 <= t < a && 0 <= c < doc.animations@[t].channels@.len() ==> spec_channel_ok(
                    #[trigger] doc.animations@[t].channels@[c],
                ),
            forall|t: int|
                0 <= t < a ==> (#[trigger] animations@[t]).channels@.len()
                    == doc.animations@[t].channels@.len(),
            forall|t: int, c: int|
                0 <= t < a && 0 <= c < animations@[t].channels@.len()
                    ==> (#[trigger] animations@[t].channels@[c]).wf() && spec_channel_matches(
                    animations@[t].channels@[c],
                    doc.animations@[t].channels@[c],
                ),
        decreases doc.animations@.len() - a,
    {
        match Animation::parse(&doc.animations[a]) {
            Ok(an) => {
                animations.push(an);
            },
            Err(e) => {
                proof {
                    assert(!spec_channels_all_ok(doc.animations@));
                }
                return Err(e);
            },
        }
        a = a + 1;
    }
    let mut meshes: Vec<Mesh> = Vec::new();
    let mut base: usize = 0;
    let mut m: usize = 0;
    while m < doc.meshes.len()
        invariant
            m <= doc.meshes@.len(),
            doc.scenes@.len() > 0,
            node_layout.wf(),
            node_layout.mesh_nodes@.len() == doc.meshes@.len(),
            spec_animations_wf(animations@),
            meshes@.len() == m,
            base == spec_prims_before(doc.meshes@, m as int),
            forall|t: int, j: int|
                0 <= t < m && 0 <= j < doc.meshes@[t].primitives@.len() ==> spec_prim_ok(
                    #[trigger] doc.meshes@[t].primitives@[j],
                ),
            forall|t: int|
                0 <= t < m ==> (#[trigger] meshes@[t]).primitives@.len()
                    == doc.meshes@[t].primitives@.len(),
            forall|t: int, j: int|
                0 <= t < m && 0 <= j < meshes@[t].primitives@.len()
                    ==> (#[trigger] meshes@[t].primitives@[j]).wf() && spec_prim_matches(
                    meshes@[t].primitives@[j],
                    doc.meshes@[t].primitives@[j],
                    node_layout,
                    t,
                    animations@,
                    spec_prims_before(doc.meshes@, t) + j,
                ),
        decreases doc.meshes@.len() - m,
    {
        let dm = &doc.meshes[m];
        if dm.primitives.len() > usize::MAX - base {
            proof {
                lemma_prims_before_mono(doc.meshes@, m as int + 1, doc.meshes@.len() as int);
                assert(!spec_document_ok(*doc));
            }
            return Err(ModelError::InvalidGltf);
        }
        match Mesh::parse(&node_layout, m, dm, &animations, base) {
            Ok(mesh) => {
                meshes.push(mesh);
            },
            Err(e) => {
                proof {
                    assert(!spec_prims_all_ok(doc.meshes@));
                }
                return Err(e);
            },
        }
        base = base + dm.primitives.len();
        m = m + 1;
    }
    proof {
        lemma_prims_before_mono(doc.meshes@, doc.meshes@.len() as int, doc.meshes@.len() as int);
        assert(spec_prims_before(doc.meshes@, doc.meshes@.len() as int) <= usize::MAX);
        reveal(spec_prepared);
        reveal(crate::model::spec_mesh_list_wf);
    }
    Ok((node_layout, animations, meshes))
}

/// The packed model carries exactly the flattened primitives of the
/// assembled meshes: one slot per primitive, in order, the slots tiling
/// the shared vertex and index buffers back to back, the pack box the
/// plain union of the mesh boxes, and an empty staging cache.
pub open spec fn spec_model_packs(model: Model, meshes: Seq<Mesh>) -> bool {
    let flat = crate::model::spec_flat_prims(meshes);
    &&& model.wf()
    &&& model.cached_model_render@.len() == 0
    &&& model.packed_primitives.per_primitives@.len() == flat.len()
    &&& forall|j: int|
        0 <= j < flat.len() ==> crate::model::spec_packed_matches(
            #[trigger] model.packed_primitives.per_primitives@[j],
            flat[j],
        )
    &&& crate::model::spec_contiguous(
        model.packed_primitives.per_primitives@,
        model.packed_primitives.vertex_buffer@.len() as int,
        model.packed_primitives.index_buffer@.len() as int,
    )
    &&& model.packed_primitives.aabb == crate::mesh::spec_aabb_unions(
        Seq::new(meshes.len(), |m: int| meshes[m].aabb),
    )
}

/// The model is the packing of some preparation of the document: there
/// are a resolved layout, parsed clips and assembled meshes that match
/// the document (`spec_prepared`) and that the model packs
/// (`spec_model_packs`).
#[verifier::opaque]
pub open spec fn spec_loaded(model: Model, doc: Document) -> bool {
    exists|layout: NodeLayout, animations: Seq<Animation>, meshes: Seq<Mesh>|
        #[trigger] spec_prepared(layout, animations, meshes, doc) && spec_model_packs(
            model,
            meshes,
        )
}

impl Model {
    /// Loads one parsed document end to end: hierarchy, clips, mesh
    /// assembly and packing. Succeeds exactly on documents the loader
    /// accepts whose primitive counts fit the draw path's counters.
    ///
    /// Tangent-space generation is not part of this path: a caller that
    /// wants generated tangents assembles with `prepare_document`, runs
    /// the generator over each primitive that asks for it, and packs
    /// with `from_meshes`.
    pub fn from_document(doc: &Document, model_index: usize) -> (r: Result<Model, ModelError>)
        requires
            spec_images_supported(doc.images@),
        ensures
            r is Ok <==> spec_document_ok(*doc) && spec_doc_fits(doc.meshes@),
            match r {
                Ok(model) => {
                    &&& model.wf()
                    &&& model.index == model_index
                    &&& model.cached_model_render@.len() == 0
                    &&& model.packed_primitives.per_primitives@.len() == spec_prims_before(
                        doc.meshes@,
                        doc.meshes@.len() as int,
                    )
                    &&& spec_loaded(model, *doc)
                    &&& model.textures@.len() == doc.images@.len()
                    &&& forall|j: int|
                        0 <= j < doc.images@.len()
                            ==> (#[trigger] model.textures@[j]).rgba@
                            == crate::model::spec_texture_rgba(doc.images@[j])
                            && model.textures@[j].width == doc.images@[j].width
                            && model.textures@[j].height == doc.images@[j].height
                },
                Err(e) => {
                    if doc.scenes@.len() == 0 {
                        e == ModelError::NoScene
                    } else {
                        e == ModelError::InvalidGltf
                    }
                },
            },
    {
        let (node_layout, animations, meshes) = match prepare_document(doc) {
            Ok(parts) => parts,
            Err(e) => {
                return Err(e);
            },
        };
        let ghost layout_g = node_layout;
        let ghost anims_g = animations@;
        let ghost meshes_g = meshes@;
        let scene_count = doc.scenes.len();
        match Model::from_meshes(model_index, scene_count, meshes, &doc.images) {
            Ok(model) => {
                proof {
                    reveal(spec_prepared);
                    lemma_flat_len(meshes_g, doc.meshes@);
                    assert(model.packed_primitives.per_primitives@.len() == spec_prims_before(
                        doc.meshes@,
                        doc.meshes@.len() as int,
                    ));
                    // Success also certifies that every source
                    // primitive's counts fit.
                    assert forall|mm: int, j: int|
                        0 <= mm < doc.meshes@.len() && 0 <= j
                            < doc.meshes@[mm].primitives@.len() implies spec_doc_prim_fits(
                        #[trigger] doc.meshes@[mm].primitives@[j],
                    ) by {
                        lemma_flat_at(meshes_g, mm, j);
                        assert(spec_prim_matches(
                            meshes_g[mm].primitives@[j],
                            doc.meshes@[mm].primitives@[j],
                            layout_g,
                            mm,
                            anims_g,
                            spec_prims_before(doc.meshes@, mm) + j,
                        ));
                    }
                    assert(spec_model_packs(model, meshes_g));
                    assert(spec_loaded(model, *doc)) by {
                        reveal(spec_loaded);
                        assert(spec_prepared(layout_g, anims_g, meshes_g, *doc)
                            && spec_model_packs(model, meshes_g));
                    }
                }
                Ok(model)
            },
            Err(e) => {
                proof {
                    reveal(spec_prepared);
                    let flat = crate::model::spec_flat_prims(meshes_g);
                    let k = choose|k: int|
                        0 <= k < flat.len() && !crate::model::spec_prim_fits(#[trigger] flat[k]);
                    lemma_flat_decompose(meshes_g, k);
                    let pair = choose|mm: int, j: int|
                        0 <= mm < meshes_g.len() && 0 <= j < meshes_g[mm].primitives@.len()
                            && crate::model::spec_flat_prims(meshes_g)[k]
                            == #[trigger] meshes_g[mm].primitives@[j];
                    assert(!spec_doc_prim_fits(doc.meshes@[pair.0].primitives@[pair.1]));
                    assert(!spec_doc_fits(doc.meshes@));
                }
                Err(e)
            },
        }
    }
}

/// Flattening a mesh list yields one primitive per source primitive.
proof fn lemma_flat_len(meshes: Seq<Mesh>, dms: Seq<DocMesh>)
    requires
        meshes.len() == dms.len(),
        forall|m: int|
            0 <= m < meshes.len() ==> (#[trigger] meshes[m]).primitives@.len()
                == dms[m].primitives@.len(),
    ensures
        crate::model::spec_flat_prims(meshes).len() == spec_prims_before(
            dms,
            dms.len() as int,
        ),
    decreases meshes.len(),
{
    if meshes.len() > 0 {
        assert forall|t: int|
            0 <= t < meshes.drop_last().len() implies (#[trigger] meshes.drop_last()[t])
                .primitives@.len() == dms.drop_last()[t].primitives@.len() by {
            assert(meshes.drop_last()[t] == meshes[t]);
            assert(dms.drop_last()[t] == dms[t]);
        }
        lemma_flat_len(meshes.drop_last(), dms.drop_last());
        lemma_prims_before_stable(dms, dms.len() as int - 1);
        assert(meshes.last() == meshes[meshes.len() - 1]);
        assert(spec_prims_before(dms, dms.len() as int) == spec_prims_before(
            dms,
            dms.len() as int - 1,
        ) + dms[dms.len() - 1].primitives@.len());
    }
}

/// Dropping the last mesh leaves earlier prefix counts unchanged.
proof fn lemma_prims_before_stable(dms: Seq<DocMesh>, m: int)
    requires
        0 <= m < dms.len(),
    ensures
        forall|t: int|
            0 <= t <= m ==> spec_prims_before(dms.drop_last(), t) == #[trigger] spec_prims_before(
                dms,
                t,
            ),
    decreases m,
{
    if m > 0 {
        lemma_prims_before_stable(dms, m - 1);
    }
    assert forall|t: int|
        0 <= t <= m implies spec_prims_before(dms.drop_last(), t) == #[trigger] spec_prims_before(
            dms,
            t,
        ) by {
        if t == 0 {
            assert(spec_prims_before(dms.drop_last(), 0) == 0);
            assert(spec_prims_before(dms, 0) == 0);
        } else if t == m {
            assert(dms.drop_last()[m - 1] == dms[m - 1]);
            assert(spec_prims_before(dms.drop_last(), m) == spec_prims_before(
                dms.drop_last(),
                m - 1,
            ) + dms.drop_last()[m - 1].primitives@.len());
            assert(spec_prims_before(dms, m) == spec_prims_before(dms, m - 1)
                + dms[m - 1].primitives@.len());
        }
    }
}

/// The flattened primitive at a mesh-relative position.
proof fn lemma_flat_at(meshes: Seq<Mesh>, m: int, j: int)
    requires
        0 <= m < meshes.len(),
        0 <= j < meshes[m].primitives@.len(),
    ensures
        exists|k: int|
            0 <= k < crate::model::spec_flat_prims(meshes).len()
                && #[trigger] crate::model::spec_flat_prims(meshes)[k]
                == meshes[m].primitives@[j],
    decreases meshes.len(),
{
    crate::model::lemma_flat_prims_contains(meshes, m, j);
}

/// Every flattened primitive comes from some mesh.
proof fn lemma_flat_decompose(meshes: Seq<Mesh>, k: int)
    requires
        0 <= k < crate::model::spec_flat_prims(meshes).len(),
    ensures
        exists|m: int, j: int|
            0 <= m < meshes.len() && 0 <= j < meshes[m].primitives@.len()
                && crate::model::spec_flat_prims(meshes)[k] == #[trigger] meshes[m].primitives@[j],
    decreases meshes.len(),
{
    let flat = crate::model::spec_flat_prims(meshes);
    let pre = crate::model::spec_flat_prims(meshes.drop_last());
    if k < pre.len() {
        lemma_flat_decompose(meshes.drop_last(), k);
        let pair = choose|m: int, j: int|
            0 <= m < meshes.drop_last().len() && 0 <= j
                < meshes.drop_last()[m].primitives@.len()
                && crate::model::spec_flat_prims(meshes.drop_last())[k]
                == #[trigger] meshes.drop_last()[m].primitives@[j];
        assert(meshes.drop_last()[pair.0] == meshes[pair.0]);
        assert(flat[k] == pre[k]);
        assert(crate::model::spec_flat_prims(meshes)[k]
            == meshes[pair.0].primitives@[pair.1]);
    } else {
        let m = meshes.len() - 1;
        let j = k - pre.len();
        assert(flat[k] == meshes.last().primitives@[j]);
        assert(crate::model::spec_flat_prims(meshes)[k] == meshes[m].primitives@[j]);
    }
}

} // verus!
