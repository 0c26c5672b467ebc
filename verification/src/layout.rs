//! The node hierarchy of one document: parent links, node depths, the
//! mesh-to-instancing-nodes index, and world-transform resolution.

use vstd::prelude::*;

use crate::document::DocNode;
use crate::mathx::{mat4_mul, mat_mul, Mat4B};
use crate::model::ModelError;

verus! {

/// Handle of a mesh within one document.
#[derive(Debug, Copy, Clone, PartialEq, Eq, Hash, Structural)]
pub struct MeshIndex(pub u32);

/// Handle of a node within one document.
#[derive(Debug, Copy, Clone, PartialEq, Eq, Hash, Structural)]
pub struct NodeIndex(pub u32);

/// One resolved node: its transforms, its parent (if any), its distance
/// from its root, and its children.
#[derive(Debug, Clone)]
pub struct NodeData {
    pub index: NodeIndex,
    pub transform_local: Mat4B,
    pub transform_global: Mat4B,
    pub parent: Option<u32>,
    pub depth: u32,
    pub children_index: Vec<u32>,
}

/// The resolved hierarchy of one document.
pub struct NodeLayout {
    /// For each mesh, the nodes instancing it, in document order.
    pub mesh_nodes: Vec<Vec<u32>>,
    /// For each node, the mesh it instances, if any.
    pub node_mesh: Vec<Option<u32>>,
    pub nodes: Vec<NodeData>,
}

/// The parent a document's child lists give node `c`: the highest-indexed
/// node that lists `c` as a child (a later declaration overrides an
/// earlier one), or none.
pub open spec fn spec_parent(nodes: Seq<DocNode>, c: int) -> Option<int>
    decreases nodes.len(),
{
    if nodes.len() == 0 {
        None
    } else if nodes.last().children@.contains(c as u32) {
        Some(nodes.len() - 1)
    } else {
        spec_parent(nodes.drop_last(), c)
    }
}

/// The depth of node `i` above its root, following `spec_parent` links,
/// or none if `fuel` steps do not reach a root.
pub open spec fn spec_depth_of(nodes: Seq<DocNode>, i: int, fuel: int) -> Option<int>
    decreases fuel,
{
    if fuel <= 0 {
        None
    } else {
        match spec_parent(nodes, i) {
            None => Some(0),
            Some(p) => match spec_depth_of(nodes, p, fuel - 1) {
                None => None,
                Some(d) => Some(d + 1),
            },
        }
    }
}

/// Every child reference stays inside the node table and every mesh
/// reference inside the mesh table.
pub open spec fn spec_refs_ok(nodes: Seq<DocNode>, mesh_count: int) -> bool {
    &&& forall|k: int, j: int|
        0 <= k < nodes.len() && 0 <= j < nodes[k].children@.len()
            ==> (#[trigger] nodes[k].children@[j]) < nodes.len()
    &&& forall|k: int|
        0 <= k < nodes.len() ==> match (#[trigger] nodes[k]).mesh {
            Some(m) => m < mesh_count,
            None => true,
        }
}

/// The parent graph is a forest: every node reaches a root.
pub open spec fn spec_acyclic(nodes: Seq<DocNode>) -> bool {
    forall|i: int|
        0 <= i < nodes.len() ==> (#[trigger] spec_depth_of(nodes, i, nodes.len() as int)).is_some()
}

/// A structurally valid hierarchy: references in range, the parent graph
/// a forest, and node indices narrow enough for their handles.
pub open spec fn spec_layout_ok(nodes: Seq<DocNode>, mesh_count: int) -> bool {
    &&& nodes.len() <= u32::MAX
    &&& spec_refs_ok(nodes, mesh_count)
    &&& spec_acyclic(nodes)
}

/// The nodes instancing mesh `m`, in document order.
pub open spec fn spec_mesh_nodes(nodes: Seq<DocNode>, m: int) -> Seq<u32>
    decreases nodes.len(),
{
    if nodes.len() == 0 {
        Seq::empty()
    } else if (match nodes.last().mesh {
        Some(mm) => mm as int == m,
        None => false,
    }) {
        spec_mesh_nodes(nodes.drop_last(), m).push((nodes.len() - 1) as u32)
    } else {
        spec_mesh_nodes(nodes.drop_last(), m)
    }
}

/// A larger fuel never changes a successful depth resolution.
proof fn lemma_depth_fuel_mono(nodes: Seq<DocNode>, i: int, f: int, g: int)
    requires
        spec_depth_of(nodes, i, f).is_some(),
        g >= f,
    ensures
        spec_depth_of(nodes, i, g) == spec_depth_of(nodes, i, f),
    decreases f,
{
    match spec_parent(nodes, i) {
        None => {}
        Some(p) => {
            lemma_depth_fuel_mono(nodes, p, f - 1, g - 1);
        }
    }
}

/// No more nodes instance a mesh than the table holds.
proof fn lemma_mesh_nodes_len(nodes: Seq<DocNode>, m: int)
    ensures
        spec_mesh_nodes(nodes, m).len() <= nodes.len(),
    decreases nodes.len(),
{
    if nodes.len() > 0 {
        lemma_mesh_nodes_len(nodes.drop_last(), m);
    }
}

/// Every index `spec_mesh_nodes` lists is a node of the table.
proof fn lemma_mesh_nodes_in_range(nodes: Seq<DocNode>, m: int)
    ensures
        forall|j: int|
            0 <= j < spec_mesh_nodes(nodes, m).len()
                ==> (#[trigger] spec_mesh_nodes(nodes, m)[j]) < nodes.len(),
    decreases nodes.len(),
{
    if nodes.len() > 0 {
        lemma_mesh_nodes_in_range(nodes.drop_last(), m);
        let prev = spec_mesh_nodes(nodes.drop_last(), m);
        assert forall|j: int|
            0 <= j < spec_mesh_nodes(nodes, m).len() implies (#[trigger] spec_mesh_nodes(
            nodes,
            m,
        )[j]) < nodes.len() by {
            if j < prev.len() {
                assert(spec_mesh_nodes(nodes, m)[j] == prev[j]);
            }
        }
    }
}

impl NodeLayout {
    /// The layout's internal consistency: parent links in range, depths
    /// decreasing toward roots, handles matching positions, the global
    /// transform mirroring the local one, and the mesh index tables in
    /// range.
    pub open spec fn wf(self) -> bool {
        &&& self.nodes@.len() <= u32::MAX
        &&& self.node_mesh@.len() == self.nodes@.len()
        &&& forall|k: int|
            0 <= k < self.nodes@.len() ==> (#[trigger] self.nodes@[k]).index == NodeIndex(
                k as u32,
            )
        &&& forall|k: int|
            0 <= k < self.nodes@.len() ==> (#[trigger] self.nodes@[k]).transform_global
                == self.nodes@[k].transform_local
        &&& forall|k: int|
            0 <= k < self.nodes@.len() ==> match (#[trigger] self.nodes@[k]).parent {
                Some(p) => p < self.nodes@.len() && self.nodes@[p as int].depth + 1
                    == self.nodes@[k].depth,
                None => self.nodes@[k].depth == 0,
            }
        &&& forall|m: int, j: int|
            0 <= m < self.mesh_nodes@.len() && 0 <= j < self.mesh_nodes@[m]@.len()
                ==> (#[trigger] self.mesh_nodes@[m]@[j]) < self.nodes@.len()
        &&& forall|m: int|
            0 <= m < self.mesh_nodes@.len() ==> (#[trigger] self.mesh_nodes@[m])@.len()
                <= self.nodes@.len()
    }

    /// Builds the layout from a document's node table. Fails exactly when
    /// the hierarchy is structurally invalid: a child or mesh reference
    /// out of range, a cycle in the parent graph, or too many nodes for
    /// their handles.
    pub fn from_document(nodes: &Vec<DocNode>, mesh_count: usize) -> (r: Result<
        NodeLayout,
        ModelError,
    >)
        ensures
            match r {
                Ok(l) => {
                    &&& spec_layout_ok(nodes@, mesh_count as int)
                    &&& l.wf()
                    &&& l.nodes@.len() == nodes@.len()
                    &&& forall|k: int|
                        0 <= k < nodes@.len() ==> (#[trigger] l.nodes@[k]).transform_local
                            == nodes@[k].local_transform
                    &&& forall|k: int|
                        0 <= k < nodes@.len() ==> (#[trigger] l.nodes@[k]).parent == (
                        match spec_parent(nodes@, k) {
                            Some(p) => Some(p as u32),
                            None => None,
                        })
                    &&& forall|k: int|
                        0 <= k < nodes@.len() ==> (#[trigger] l.nodes@[k]).children_index@
                            == nodes@[k].children@
                    &&& l.mesh_nodes@.len() == mesh_count
                    &&& forall|m: int|
                        0 <= m < mesh_count ==> (#[trigger] l.mesh_nodes@[m])@
                            == spec_mesh_nodes(nodes@, m)
                    &&& forall|k: int|
                        0 <= k < nodes@.len() ==> (#[trigger] l.node_mesh@[k]) == nodes@[k].mesh
                },
                Err(e) => {
                    &&& e == ModelError::InvalidGltf
                    &&& !spec_layout_ok(nodes@, mesh_count as int)
                },
            },
    {
        let n = nodes.len();
        if n > u32::MAX as usize {
            assert(!spec_layout_ok(nodes@, mesh_count as int));
            return Err(ModelError::InvalidGltf);
        }
        // Validate child and mesh references, and derive the parent of
        // each node; a later declaration overrides an earlier one.
        let mut parent: Vec<Option<u32>> = Vec::new();
        let mut k: usize = 0;
        while k < n
            invariant
                k <= n,
                n == nodes@.len(),
                parent@.len() == k,
                forall|c: int| 0 <= c < k ==> (#[trigger] parent@[c]) is None,
            decreases n - k,
        {
            parent.push(None);
            k = k + 1;
        }
        proof {
            assert(nodes@.subrange(0, 0).len() == 0);
            assert(forall|c: int|
                0 <= c < n ==> (#[trigger] parent@[c]) == (
                match spec_parent(nodes@.subrange(0, 0), c) {
                    Some(p) => Some(p as u32),
                    None => None,
                }));
        }
        let mut i: usize = 0;
        while i < n
            invariant
                i <= n,
                n == nodes@.len() <= u32::MAX,
                parent@.len() == n,
                forall|c: int|
                    0 <= c < n ==> (#[trigger] parent@[c]) == (
                    match spec_parent(nodes@.subrange(0, i as int), c) {
                        Some(p) => Some(p as u32),
                        None => None,
                    }),
                forall|k: int, j: int|
                    0 <= k < i && 0 <= j < nodes@[k].children@.len()
                        ==> (#[trigger] nodes@[k].children@[j]) < n,
                forall|k: int|
                    0 <= k < i ==> match (#[trigger] nodes@[k]).mesh {
                        Some(m) => m < mesh_count,
                        None => true,
                    },
            decreases n - i,
        {
            match nodes[i].mesh {
                Some(m) => {
                    if m as usize >= mesh_count {
                        assert(!spec_refs_ok(nodes@, mesh_count as int));
                        return Err(ModelError::InvalidGltf);
                    }
                },
                None => {},
            }
            let children = &nodes[i].children;
            let mut j: usize = 0;
            while j < children.len()
                invariant
                    j <= children@.len(),
                    children@ == nodes@[i as int].children@,
                    i < n,
                    n == nodes@.len() <= u32::MAX,
                    parent@.len() == n,
                    forall|c: int|
                        0 <= c < n && !nodes@[i as int].children@.subrange(0, j as int).contains(
                            c as u32,
                        ) ==> (#[trigger] parent@[c]) == (
                        match spec_parent(nodes@.subrange(0, i as int), c) {
                            Some(p) => Some(p as u32),
                            None => None,
                        }),
                    forall|c: int|
                        0 <= c < n && nodes@[i as int].children@.subrange(0, j as int).contains(
                            c as u32,
                        ) ==> (#[trigger] parent@[c]) == Some(i as u32),
                    forall|jj: int|
                        0 <= jj < j ==> (#[trigger] nodes@[i as int].children@[jj]) < n,
                decreases children@.len() - j,
            {
                let c = children[j];
                if c as usize >= n {
                    assert(!spec_refs_ok(nodes@, mesh_count as int)) by {
                        assert(nodes@[i as int].children@[j as int] >= n);
                    }
                    return Err(ModelError::InvalidGltf);
                }
                parent[c as usize] = Some(i as u32);
                proof {
                    let ch = nodes@[i as int].children@;
                    assert(ch.subrange(0, j as int + 1)
                        =~= ch.subrange(0, j as int).push(ch[j as int]));
                    assert(ch.subrange(0, j as int + 1)[j as int] == c);
                    assert(ch.subrange(0, j as int + 1).contains(c));
                    assert forall|c2: u32|
                        ch.subrange(0, j as int + 1).contains(c2) && c2 != c
                            implies ch.subrange(0, j as int).contains(c2) by {
                        let idx = choose|idx: int|
                            0 <= idx < j as int + 1 && #[trigger] ch.subrange(
                                0,
                                j as int + 1,
                            )[idx] == c2;
                        if idx < j as int {
                            assert(ch.subrange(0, j as int)[idx] == c2);
                        }
                    }
                    assert forall|c2: u32| ch.subrange(0, j as int).contains(c2)
                        implies ch.subrange(0, j as int + 1).contains(c2) by {
                        let idx = choose|idx: int|
                            0 <= idx < j as int && #[trigger] ch.subrange(0, j as int)[idx] == c2;
                        assert(ch.subrange(0, j as int + 1)[idx] == c2);
                    }
                }
                j = j + 1;
            }
            proof {
                // Extending the processed prefix by one node re-parents
                // exactly that node's children.
                let pre = nodes@.subrange(0, i as int);
                let post = nodes@.subrange(0, i as int + 1);
                assert(post.drop_last() =~= pre);
                assert(post.last() == nodes@[i as int]);
                assert(nodes@[i as int].children@.subrange(0, children@.len() as int)
                    =~= nodes@[i as int].children@);
                assert(forall|c: int|
                    0 <= c < n ==> (#[trigger] parent@[c]) == (
                    match spec_parent(post, c) {
                        Some(p) => Some(p as u32),
                        None => None,
                    }));
            }
            i = i + 1;
        }
        proof {
            assert(nodes@.subrange(0, n as int) =~= nodes@);
            assert(spec_refs_ok(nodes@, mesh_count as int));
        }
        // Resolve each node's depth by walking the parent links; a walk
        // that has not reached a root after `n` steps found a cycle.
        let mut depths: Vec<u32> = Vec::new();
        let mut i: usize = 0;
        while i < n
            invariant
                i <= n,
                n == nodes@.len() <= u32::MAX,
                parent@.len() == n,
                forall|c: int|
                    0 <= c < n ==> (#[trigger] parent@[c]) == (
                    match spec_parent(nodes@, c) {
                        Some(p) => Some(p as u32),
                        None => None,
                    }),
                depths@.len() == i,
                forall|k: int|
                    0 <= k < i ==> Some((#[trigger] depths@[k]) as int) == spec_depth_of(
                        nodes@,
                        k,
                        n as int,
                    ),
            decreases n - i,
        {
            let mut cur: usize = i;
            let mut steps: usize = 0;
            let mut found: Option<u32> = None;
            while found.is_none() && steps < n
                invariant
                    n == nodes@.len() <= u32::MAX,
                    parent@.len() == n,
                    forall|c: int|
                        0 <= c < n ==> (#[trigger] parent@[c]) == (
                        match spec_parent(nodes@, c) {
                            Some(p) => Some(p as u32),
                            None => None,
                        }),
                    steps <= n,
                    cur < n,
                    i < n,
                    match found {
                        None => spec_depth_of(nodes@, i as int, n as int) == (
                        match spec_depth_of(nodes@, cur as int, n as int - steps as int) {
                            Some(d) => Some(d + steps as int),
                            None => None::<int>,
                        }),
                        Some(d) => Some(d as int) == spec_depth_of(nodes@, i as int, n as int),
                    },
                decreases n - steps, (if found.is_none() { 1int } else { 0int }),
            {
                match parent[cur] {
                    None => {
                        assert(spec_parent(nodes@, cur as int) is None);
                        assert(n as int - steps as int >= 1);
                        found = Some(steps as u32);
                    },
                    Some(p) => {
                        proof {
                            lemma_parent_in_range(nodes@, cur as int);
                        }
                        cur = p as usize;
                        steps = steps + 1;
                    },
                }
            }
            match found {
                Some(d) => {
                    depths.push(d);
                },
                None => {
                    assert(spec_depth_of(nodes@, i as int, n as int).is_none());
                    assert(!spec_acyclic(nodes@));
                    return Err(ModelError::InvalidGltf);
                },
            }
            i = i + 1;
        }
        // Index the nodes instancing each mesh, in document order.
        let mut mesh_nodes: Vec<Vec<u32>> = Vec::new();
        let mut m: usize = 0;
        while m < mesh_count
            invariant
                m <= mesh_count,
                n == nodes@.len() <= u32::MAX,
                mesh_nodes@.len() == m,
                forall|mm: int|
                    0 <= mm < m ==> (#[trigger] mesh_nodes@[mm])@ == spec_mesh_nodes(nodes@, mm),
            decreases mesh_count - m,
        {
            let mut list: Vec<u32> = Vec::new();
            let mut k: usize = 0;
            while k < n
                invariant
                    k <= n,
                    n == nodes@.len() <= u32::MAX,
                    m < mesh_count,
                    list@ == spec_mesh_nodes(nodes@.subrange(0, k as int), m as int),
                decreases n - k,
            {
                let is_m = match nodes[k].mesh {
                    Some(mm) => mm as usize == m,
                    None => false,
                };
                proof {
                    assert(nodes@.subrange(0, k as int + 1).drop_last()
                        =~= nodes@.subrange(0, k as int));
                }
                if is_m {
                    list.push(k as u32);
                }
                k = k + 1;
            }
            proof {
                assert(nodes@.subrange(0, n as int) =~= nodes@);
            }
            mesh_nodes.push(list);
            m = m + 1;
        }
        // Assemble the node records and the node-to-mesh table.
        let mut node_mesh: Vec<Option<u32>> = Vec::new();
        let mut out_nodes: Vec<NodeData> = Vec::new();
        let mut k: usize = 0;
        while k < n
            invariant
                k <= n,
                n == nodes@.len() <= u32::MAX,
                parent@.len() == n,
                depths@.len() == n,
                forall|c: int|
                    0 <= c < n ==> (#[trigger] parent@[c]) == (
                    match spec_parent(nodes@, c) {
                        Some(p) => Some(p as u32),
                        None => None,
                    }),
                forall|c: int|
                    0 <= c < n ==> Some((#[trigger] depths@[c]) as int) == spec_depth_of(
                        nodes@,
                        c,
                        n as int,
                    ),
                out_nodes@.len() == k,
                node_mesh@.len() == k,
                forall|c: int|
                    0 <= c < k ==> {
                        let nd = #[trigger] out_nodes@[c];
                        &&& nd.index == NodeIndex(c as u32)
                        &&& nd.transform_local == nodes@[c].local_transform
                        &&& nd.transform_global == nodes@[c].local_transform
                        &&& nd.parent == parent@[c]
                        &&& nd.depth == depths@[c]
                        &&& nd.children_index@ == nodes@[c].children@
                    },
                forall|c: int| 0 <= c < k ==> (#[trigger] node_mesh@[c]) == nodes@[c].mesh,
            decreases n - k,
        {
            out_nodes.push(NodeData {
                index: NodeIndex(k as u32),
                transform_local: nodes[k].local_transform,
                transform_global: nodes[k].local_transform,
                parent: parent[k],
                depth: depths[k],
                children_index: nodes[k].children.clone(),
            });
            node_mesh.push(nodes[k].mesh);
            k = k + 1;
        }
        let l = NodeLayout { mesh_nodes, node_mesh, nodes: out_nodes };
        proof {
            // The stored depths satisfy the local parent rule, so the
            // layout is well-formed.
            assert forall|kk: int| 0 <= kk < l.nodes@.len() implies match (
            #[trigger] l.nodes@[kk]).parent {
                Some(p) => p < l.nodes@.len() && l.nodes@[p as int].depth + 1
                    == l.nodes@[kk].depth,
                None => l.nodes@[kk].depth == 0,
            } by {
                match spec_parent(nodes@, kk) {
                    None => {},
                    Some(p) => {
                        lemma_parent_in_range(nodes@, kk);
                        assert(spec_depth_of(nodes@, kk, n as int) == (
                        match spec_depth_of(nodes@, p, n as int - 1) {
                            None => None::<int>,
                            Some(d) => Some(d + 1),
                        }));
                        lemma_depth_fuel_mono(nodes@, p, n as int - 1, n as int);
                    },
                }
            }
            assert forall|m2: int, j2: int|
                0 <= m2 < l.mesh_nodes@.len() && 0 <= j2 < l.mesh_nodes@[m2]@.len()
                    implies (#[trigger] l.mesh_nodes@[m2]@[j2]) < l.nodes@.len() by {
                lemma_mesh_nodes_in_range(nodes@, m2);
            }
            assert forall|m2: int| 0 <= m2 < l.mesh_nodes@.len() implies (
            #[trigger] l.mesh_nodes@[m2])@.len() <= l.nodes@.len() by {
                lemma_mesh_nodes_len(nodes@, m2);
            }
            assert forall|ii: int| 0 <= ii < nodes@.len() implies (#[trigger] spec_depth_of(
                nodes@,
                ii,
                nodes@.len() as int,
            )).is_some() by {
                assert(Some(depths@[ii] as int) == spec_depth_of(nodes@, ii, n as int));
            }
            assert(spec_acyclic(nodes@));
        }
        Ok(l)
    }

    /// The accumulated transform of the chain from node `i` up to its
    /// root, wrapped around an inner matrix: each ancestor's transform is
    /// composed on the left, innermost parent first.
    pub open spec fn spec_lift(self, i: int, m: Seq<u32>) -> Seq<u32>
        decreases self.nodes@[i].depth,
    {
        match self.nodes@[i].parent {
            None => m,
            Some(p) => {
                if 0 <= p < self.nodes@.len() && self.nodes@[p as int].depth < self.nodes@[i].depth {
                    self.spec_lift(p as int, mat_mul(self.nodes@[p as int].transform_global@, m))
                } else {
                    m
                }
            },
        }
    }

    /// Node `i`'s world transform: its local transform wrapped in every
    /// ancestor's, the root's outermost.
    pub open spec fn spec_world(self, i: int) -> Seq<u32> {
        self.spec_lift(i, self.nodes@[i].transform_global@)
    }

    /// Resolves a node's world transform by walking the parent chain and
    /// composing each parent's transform on the left.
    pub fn get_node_transform(&self, node_index: NodeIndex) -> (r: Mat4B)
        requires
            self.wf(),
            node_index.0 < self.nodes@.len(),
        ensures
            r@ == self.spec_world(node_index.0 as int),
    {
        let mut index: usize = node_index.0 as usize;
        let mut transform: Mat4B = self.nodes[index].transform_global;
        while self.nodes[index].parent.is_some()
            invariant
                self.wf(),
                index < self.nodes@.len(),
                self.spec_world(node_index.0 as int) == self.spec_lift(index as int, transform@),
            decreases self.nodes@[index as int].depth,
        {
            let parent_index = self.nodes[index].parent.unwrap();
            let parent = &self.nodes[parent_index as usize];
            transform = mat4_mul(&parent.transform_global, &transform);
            index = parent_index as usize;
        }
        transform
    }
}

/// Transform resolution down a three-level chain: with a root `r`, its
/// child `a` and grandchild `b` carrying local transforms `R`, `A` and
/// `B`, the grandchild's world transform is `R * (A * B)` — each parent's
/// transform composed on the left, innermost parent first.
pub proof fn lemma_world_three_level_chain(l: NodeLayout, r: int, a: int, b: int)
    requires
        l.wf(),
        0 <= r < l.nodes@.len(),
        0 <= a < l.nodes@.len(),
        0 <= b < l.nodes@.len(),
        l.nodes@[r].parent is None,
        l.nodes@[a].parent == Some(r as u32),
        l.nodes@[b].parent == Some(a as u32),
    ensures
        l.spec_world(b) == mat_mul(
            l.nodes@[r].transform_local@,
            mat_mul(l.nodes@[a].transform_local@, l.nodes@[b].transform_local@),
        ),
{
    let gr = l.nodes@[r].transform_global@;
    let ga = l.nodes@[a].transform_global@;
    let gb = l.nodes@[b].transform_global@;
    assert(l.spec_world(b) == l.spec_lift(b, gb));
    assert(l.spec_lift(b, gb) == l.spec_lift(a, mat_mul(ga, gb)));
    assert(l.spec_lift(a, mat_mul(ga, gb)) == l.spec_lift(r, mat_mul(gr, mat_mul(ga, gb))));
    assert(l.spec_lift(r, mat_mul(gr, mat_mul(ga, gb))) == mat_mul(gr, mat_mul(ga, gb)));
}

/// A resolved parent index is itself a node of the table.
proof fn lemma_parent_in_range(nodes: Seq<DocNode>, c: int)
    ensures
        match spec_parent(nodes, c) {
            Some(p) => 0 <= p < nodes.len(),
            None => true,
        },
    decreases nodes.len(),
{
    if nodes.len() > 0 && !nodes.last().children@.contains(c as u32) {
        lemma_parent_in_range(nodes.drop_last(), c);
    }
}

} // verus!
