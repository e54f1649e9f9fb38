//! The scene-graph model the solvers run on.
//!
//! A scene is a flat array of named nodes; each node's parent comes earlier
//! in the array (spawn order), which rules out cycles.  Every node carries a
//! rigid local transform and its computed world transform.  Node names are
//! UTF-8 byte strings, resolved during binding.

use vstd::prelude::*;
use crate::quat::{Quat, q4_wf};
use crate::transform::{Transform3, t3_wf};
use crate::vec3::v3_bounded;

verus! {

/// Largest local-translation magnitude of a well-formed scene node.
pub const LOCAL_POS_MAX: i64 = 10_000_000;

/// Largest world-translation magnitude of a well-formed scene node.
pub const WORLD_POS_MAX: i64 = 1_000_000_000;

/// One node of the scene graph.
pub struct SceneNode {
    /// UTF-8 name, as authored in the asset.
    pub name: Vec<u8>,
    /// Index of the parent node; always smaller than this node's own index.
    pub parent: Option<usize>,
    /// Local transform, relative to the parent.
    pub local: Transform3,
    /// Computed world transform.
    pub world: Transform3,
}

/// A fully instantiated scene-graph subtree.
pub struct Scene {
    pub nodes: Vec<SceneNode>,
}

/// Well-formedness of one node at index `i`: the parent precedes it and its
/// transforms are rigid and in range.
pub open spec fn node_wf(n: SceneNode, i: int) -> bool {
    &&& (n.parent matches Some(p) ==> (p as int) < i)
    &&& t3_wf(n.local@)
    &&& t3_wf(n.world@)
    &&& v3_bounded(n.local@.pos, LOCAL_POS_MAX as int)
    &&& v3_bounded(n.world@.pos, WORLD_POS_MAX as int)
}

/// Well-formedness of the whole scene.
pub open spec fn scene_wf(s: Scene) -> bool {
    forall|i: int| 0 <= i < s.nodes@.len() ==> node_wf(#[trigger] s.nodes@[i], i)
}

/// Whether node `i` lies in the subtree rooted at `r` (the root itself
/// included), following parent links.
pub open spec fn in_subtree(nodes: Seq<SceneNode>, i: int, r: int) -> bool
    decreases i,
{
    if !(0 <= i < nodes.len()) {
        false
    } else if i == r {
        true
    } else {
        match nodes[i].parent {
            Some(p) => (p as int) < i && in_subtree(nodes, p as int, r),
            None => false,
        }
    }
}

/// Whether node `i` is a match for a search from root `r` by name.
pub open spec fn name_matches(nodes: Seq<SceneNode>, i: int, r: int, name: Seq<u8>) -> bool {
    in_subtree(nodes, i, r) && nodes[i].name@ == name
}

/// The first match for `name` in the subtree of `r`, scanning from index
/// `j` upward.
pub open spec fn find_name_from(nodes: Seq<SceneNode>, r: int, name: Seq<u8>, j: int) -> Option<
    usize,
>
    decreases nodes.len() - j,
{
    if j < 0 || j >= nodes.len() {
        None
    } else if name_matches(nodes, j, r, name) {
        Some(j as usize)
    } else {
        find_name_from(nodes, r, name, j + 1)
    }
}

/// The first node of the subtree of `r` named `name`, if any.
pub open spec fn find_name_spec(nodes: Seq<SceneNode>, r: int, name: Seq<u8>) -> Option<usize> {
    find_name_from(nodes, r, name, 0)
}

/// Byte-string equality.
pub fn bytes_eq(a: &Vec<u8>, b: &Vec<u8>) -> (r: bool)
    ensures
        r == (a@ == b@),
{
    if a.len() != b.len() {
        proof {
            assert(a@.len() != b@.len() ==> a@ != b@);
        }
        return false;
    }
    let n = a.len();
    let mut i: usize = 0;
    while i < n
        invariant
            n == a@.len() == b@.len(),
            0 <= i <= n,
            forall|j: int| 0 <= j < i ==> a@[j] == b@[j],
        decreases n - i,
    {
        if a[i] != b[i] {
            return false;
        }
        i = i + 1;
    }
    proof {
        assert(a@ =~= b@);
    }
    true
}

impl Scene {
    /// The number of nodes.
    pub fn len(&self) -> (r: usize)
        ensures
            r == self.nodes@.len(),
    {
        self.nodes.len()
    }

    /// The parent index of node `i`.
    pub fn parent_of(&self, i: usize) -> (r: Option<usize>)
        requires
            i < self.nodes@.len(),
        ensures
            r == self.nodes@[i as int].parent,
    {
        self.nodes[i].parent
    }

    /// The local transform of node `i`.
    pub fn local_of(&self, i: usize) -> (r: Transform3)
        requires
            i < self.nodes@.len(),
        ensures
            r == self.nodes@[i as int].local,
    {
        self.nodes[i].local
    }

    /// The world transform of node `i`.
    pub fn world_of(&self, i: usize) -> (r: Transform3)
        requires
            i < self.nodes@.len(),
        ensures
            r == self.nodes@[i as int].world,
    {
        self.nodes[i].world
    }

    /// Whether node `i` lies in the subtree rooted at `r`.
    pub fn is_in_subtree(&self, i: usize, r: usize) -> (res: bool)
        requires
            scene_wf(*self),
            i < self.nodes@.len(),
        ensures
            res == in_subtree(self.nodes@, i as int, r as int),
    {
        let mut cur: usize = i;
        loop
            invariant
                scene_wf(*self),
                cur < self.nodes@.len(),
                in_subtree(self.nodes@, i as int, r as int) == in_subtree(
                    self.nodes@,
                    cur as int,
                    r as int,
                ),
            decreases cur,
        {
            if cur == r {
                return true;
            }
            match self.nodes[cur].parent {
                Some(p) => {
                    proof {
                        assert(node_wf(self.nodes@[cur as int], cur as int));
                    }
                    cur = p;
                },
                None => {
                    return false;
                },
            }
        }
    }

    /// Finds the first node in the subtree of `root` whose name is `name` —
    /// the binding step's name resolution.
    pub fn find_from_name(&self, root: usize, name: &Vec<u8>) -> (res: Option<usize>)
        requires
            scene_wf(*self),
        ensures
            res == find_name_spec(self.nodes@, root as int, name@),
            match res {
                Some(i) => {
                    &&& (i as int) < self.nodes@.len()
                    &&& name_matches(self.nodes@, i as int, root as int, name@)
                    &&& forall|j: int|
                        0 <= j < i ==> !name_matches(self.nodes@, j, root as int, name@)
                },
                None => forall|j: int|
                    0 <= j < self.nodes@.len() ==> !name_matches(
                        self.nodes@,
                        j,
                        root as int,
                        name@,
                    ),
            },
    {
        let n = self.nodes.len();
        let mut i: usize = 0;
        while i < n
            invariant
                scene_wf(*self),
                n == self.nodes@.len(),
                0 <= i <= n,
                forall|j: int| 0 <= j < i ==> !name_matches(self.nodes@, j, root as int, name@),
                find_name_spec(self.nodes@, root as int, name@) == find_name_from(
                    self.nodes@,
                    root as int,
                    name@,
                    i as int,
                ),
            decreases n - i,
        {
            if bytes_eq(&self.nodes[i].name, name) {
                if self.is_in_subtree(i, root) {
                    return Some(i);
                }
            }
            i = i + 1;
        }
        None
    }

    /// Overwrites node `i`'s local rotation and world transform — the write
    /// the spring solver performs after moving a joint.
    pub fn set_rotation_and_world(&mut self, i: usize, rot: Quat, world: Transform3)
        requires
            scene_wf(*old(self)),
            i < old(self).nodes@.len(),
            q4_wf(rot@),
            t3_wf(world@),
            v3_bounded(world@.pos, WORLD_POS_MAX as int),
        ensures
            final(self).nodes@.len() == old(self).nodes@.len(),
            scene_wf(*final(self)),
            forall|j: int|
                0 <= j < final(self).nodes@.len() && j != i ==> final(self).nodes@[j] == old(
                    self,
                ).nodes@[j],
            final(self).nodes@[i as int].name@ == old(self).nodes@[i as int].name@,
            final(self).nodes@[i as int].parent == old(self).nodes@[i as int].parent,
            final(self).nodes@[i as int].local.pos == old(self).nodes@[i as int].local.pos,
            final(self).nodes@[i as int].local.rot == rot,
            final(self).nodes@[i as int].world == world,
            final(self).nodes@ == old(self).nodes@.update(
                i as int,
                (SceneNode {
                    name: old(self).nodes@[i as int].name,
                    parent: old(self).nodes@[i as int].parent,
                    local: (Transform3 { rot, pos: old(self).nodes@[i as int].local.pos }),
                    world,
                }),
            ),
    {
        let old_node = self.nodes.remove(i);
        let new_node = SceneNode {
            name: old_node.name,
            parent: old_node.parent,
            local: Transform3 { rot, pos: old_node.local.pos },
            world,
        };
        self.nodes.insert(i, new_node);
        proof {
            assert forall|j: int| 0 <= j < self.nodes@.len() implies node_wf(
                #[trigger] self.nodes@[j],
                j,
            ) by {
                assert(node_wf(old(self).nodes@[j], j));
            }
            let target = (SceneNode {
                name: old(self).nodes@[i as int].name,
                parent: old(self).nodes@[i as int].parent,
                local: (Transform3 { rot, pos: old(self).nodes@[i as int].local.pos }),
                world,
            });
            assert(self.nodes@[i as int].name =~= target.name);
            assert(self.nodes@[i as int] == target);
            assert(self.nodes@ =~= old(self).nodes@.update(i as int, target));
        }
    }
}

/// Copies a byte string.
pub fn clone_bytes(a: &Vec<u8>) -> (r: Vec<u8>)
    ensures
        r@ == a@,
{
    let n = a.len();
    let mut out: Vec<u8> = Vec::new();
    let mut i: usize = 0;
    while i < n
        invariant
            n == a@.len(),
            0 <= i <= n,
            out@ == a@.subrange(0, i as int),
        decreases n - i,
    {
        out.push(a[i]);
        proof {
            assert(out@ =~= a@.subrange(0, i + 1));
        }
        i = i + 1;
    }
    proof {
        assert(a@.subrange(0, n as int) =~= a@);
    }
    out
}

} // verus!
