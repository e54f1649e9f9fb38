//! Name registries built once per avatar from the parsed asset: canonical
//! bone names, per-joint physical constants, collider shapes, and the
//! spring-chain topology, each keyed by scene-node name.
//!
//! The asset refers to nodes by index; a node whose asset entry is missing
//! resolves to no name and its declaration is silently skipped, as the
//! binding failure policy prescribes.

use vstd::prelude::*;
use crate::collider::ColliderShape;
use crate::scene::clone_bytes;
use crate::spring::SpringJointProps;
use crate::vec3::Vec3;

verus! {

/// The view of a list of name-keyed entries: each key as a byte sequence.
pub open spec fn pairs_view<T>(s: Seq<(Vec<u8>, T)>) -> Seq<(Seq<u8>, T)> {
    s.map_values(|p: (Vec<u8>, T)| (p.0@, p.1))
}

/// The entries obtained from the first `k` declarations: a declaration
/// contributes its node's name and its payload when the node has a name.
pub open spec fn resolved_entries_spec<T>(
    decls: Seq<(usize, T)>,
    names: Seq<Option<Vec<u8>>>,
    k: int,
) -> Seq<(Seq<u8>, T)>
    decreases k,
{
    if k <= 0 {
        Seq::empty()
    } else {
        let prev = resolved_entries_spec(decls, names, k - 1);
        let d = decls[k - 1];
        if (d.0 as int) < names.len() {
            match names[d.0 as int] {
                Some(nm) => prev.push((nm@, d.1)),
                None => prev,
            }
        } else {
            prev
        }
    }
}

/// Resolves each declaration's node index to its name, keeping the order
/// and dropping declarations whose node has no name.
pub fn resolve_entries<T: Copy>(decls: &Vec<(usize, T)>, names: &Vec<Option<Vec<u8>>>) -> (r: Vec<
    (Vec<u8>, T),
>)
    ensures
        pairs_view(r@) == resolved_entries_spec(decls@, names@, decls@.len() as int),
{
    let n = decls.len();
    let mut out: Vec<(Vec<u8>, T)> = Vec::new();
    let mut i: usize = 0;
    proof {
        assert(pairs_view(out@) =~= resolved_entries_spec(decls@, names@, 0));
    }
    while i < n
        invariant
            n == decls@.len(),
            0 <= i <= n,
            pairs_view(out@) == resolved_entries_spec(decls@, names@, i as int),
        decreases n - i,
    {
        let (node, payload) = decls[i];
        if node < names.len() {
            match &names[node] {
                Some(nm) => {
                    let key = clone_bytes(nm);
                    out.push((key, payload));
                    proof {
                        assert(pairs_view(out@) =~= resolved_entries_spec(
                            decls@,
                            names@,
                            i as int + 1,
                        ));
                    }
                },
                None => {
                    proof {
                        assert(pairs_view(out@) =~= resolved_entries_spec(
                            decls@,
                            names@,
                            i as int + 1,
                        ));
                    }
                },
            }
        } else {
            proof {
                assert(pairs_view(out@) =~= resolved_entries_spec(decls@, names@, i as int + 1));
            }
        }
        i = i + 1;
    }
    out
}

/// Canonical humanoid bone names (for example `head`, `leftEye`), each
/// resolved to the scene-node name the asset assigns to that bone.
pub struct HumanoidBoneRegistry {
    pub entries: Vec<(Vec<u8>, Vec<u8>)>,
}

/// The entries obtained from the first `k` bone declarations: the bone key
/// and the resolved node name.
pub open spec fn bone_entries_spec(
    bones: Seq<(Vec<u8>, usize)>,
    names: Seq<Option<Vec<u8>>>,
    k: int,
) -> Seq<(Seq<u8>, Seq<u8>)>
    decreases k,
{
    if k <= 0 {
        Seq::empty()
    } else {
        let prev = bone_entries_spec(bones, names, k - 1);
        let b = bones[k - 1];
        if (b.1 as int) < names.len() {
            match names[b.1 as int] {
                Some(nm) => prev.push((b.0@, nm@)),
                None => prev,
            }
        } else {
            prev
        }
    }
}

/// The view of the bone registry: both key and name as byte sequences.
pub open spec fn bone_entries_view(s: Seq<(Vec<u8>, Vec<u8>)>) -> Seq<(Seq<u8>, Seq<u8>)> {
    s.map_values(|p: (Vec<u8>, Vec<u8>)| (p.0@, p.1@))
}

impl HumanoidBoneRegistry {
    /// Builds the registry from the parsed bone map: pairs of a canonical
    /// bone key and the asset-node index it points at.
    pub fn new(bones: &Vec<(Vec<u8>, usize)>, names: &Vec<Option<Vec<u8>>>) -> (r:
        HumanoidBoneRegistry)
        ensures
            bone_entries_view(r.entries@) == bone_entries_spec(
                bones@,
                names@,
                bones@.len() as int,
            ),
    {
        let n = bones.len();
        let mut out: Vec<(Vec<u8>, Vec<u8>)> = Vec::new();
        let mut i: usize = 0;
        proof {
            assert(bone_entries_view(out@) =~= bone_entries_spec(bones@, names@, 0));
        }
        while i < n
            invariant
                n == bones@.len(),
                0 <= i <= n,
                bone_entries_view(out@) == bone_entries_spec(bones@, names@, i as int),
            decreases n - i,
        {
            let node = bones[i].1;
            if node < names.len() {
                match &names[node] {
                    Some(nm) => {
                        let key = clone_bytes(&bones[i].0);
                        let name = clone_bytes(nm);
                        out.push((key, name));
                        proof {
                            assert(bone_entries_view(out@) =~= bone_entries_spec(
                                bones@,
                                names@,
                                i as int + 1,
                            ));
                        }
                    },
                    None => {
                        proof {
                            assert(bone_entries_view(out@) =~= bone_entries_spec(
                                bones@,
                                names@,
                                i as int + 1,
                            ));
                        }
                    },
                }
            } else {
                proof {
                    assert(bone_entries_view(out@) =~= bone_entries_spec(
                        bones@,
                        names@,
                        i as int + 1,
                    ));
                }
            }
            i = i + 1;
        }
        HumanoidBoneRegistry { entries: out }
    }
}

/// Collider shapes keyed by the name of the node they are attached to.
pub struct SpringColliderRegistry {
    pub entries: Vec<(Vec<u8>, ColliderShape)>,
}

impl SpringColliderRegistry {
    /// Builds the registry from the parsed collider declarations: pairs of
    /// an asset-node index and the authored shape.
    pub fn new(colliders: &Vec<(usize, ColliderShape)>, names: &Vec<Option<Vec<u8>>>) -> (r:
        SpringColliderRegistry)
        ensures
            pairs_view(r.entries@) == resolved_entries_spec(
                colliders@,
                names@,
                colliders@.len() as int,
            ),
    {
        SpringColliderRegistry { entries: resolve_entries(colliders, names) }
    }
}

/// One authored spring joint: the node it rides on and its physical
/// constants, each optional in the asset.
#[derive(Clone, Copy, Debug)]
pub struct SpringJointDecl {
    pub node: usize,
    pub drag_force: Option<i64>,
    pub gravity_dir: Option<Vec3>,
    pub gravity_power: Option<i64>,
    pub hit_radius: Option<i64>,
    pub stiffness: Option<i64>,
}

/// The properties carried by a complete declaration; a declaration missing
/// any constant yields none and is skipped.
pub open spec fn props_of_decl(d: SpringJointDecl) -> Option<SpringJointProps> {
    if d.drag_force matches Some(df) && d.gravity_dir matches Some(gd) && d.gravity_power
        matches Some(gp) && d.hit_radius matches Some(hr) && d.stiffness matches Some(st) {
        Some(
            SpringJointProps {
                drag_force: d.drag_force->0,
                gravity_dir: d.gravity_dir->0,
                gravity_power: d.gravity_power->0,
                hit_radius: d.hit_radius->0,
                stiffness: d.stiffness->0,
            },
        )
    } else {
        None
    }
}

/// The entries obtained from the first `k` joint declarations.
pub open spec fn props_entries_spec(
    decls: Seq<SpringJointDecl>,
    names: Seq<Option<Vec<u8>>>,
    k: int,
) -> Seq<(Seq<u8>, SpringJointProps)>
    decreases k,
{
    if k <= 0 {
        Seq::empty()
    } else {
        let prev = props_entries_spec(decls, names, k - 1);
        let d = decls[k - 1];
        if (d.node as int) < names.len() {
            match names[d.node as int] {
                Some(nm) => match props_of_decl(d) {
                    Some(p) => prev.push((nm@, p)),
                    None => prev,
                },
                None => prev,
            }
        } else {
            prev
        }
    }
}

/// Per-joint physical constants keyed by node name.
pub struct SpringJointPropsRegistry {
    pub entries: Vec<(Vec<u8>, SpringJointProps)>,
}

impl SpringJointPropsRegistry {
    /// Builds the registry from the parsed joint declarations; a joint with
    /// an incomplete declaration or an unnamed node is skipped.
    pub fn new(joints: &Vec<SpringJointDecl>, names: &Vec<Option<Vec<u8>>>) -> (r:
        SpringJointPropsRegistry)
        ensures
            pairs_view(r.entries@) == props_entries_spec(joints@, names@, joints@.len() as int),
    {
        let n = joints.len();
        let mut out: Vec<(Vec<u8>, SpringJointProps)> = Vec::new();
        let mut i: usize = 0;
        proof {
            assert(pairs_view(out@) =~= props_entries_spec(joints@, names@, 0));
        }
        while i < n
            invariant
                n == joints@.len(),
                0 <= i <= n,
                pairs_view(out@) == props_entries_spec(joints@, names@, i as int),
            decreases n - i,
        {
            let d = joints[i];
            if d.node < names.len() {
                match &names[d.node] {
                    Some(nm) => {
                        if let (
                            Some(df),
                            Some(gd),
                            Some(gp),
                            Some(hr),
                            Some(st),
                        ) = (d.drag_force, d.gravity_dir, d.gravity_power, d.hit_radius, d.stiffness) {
                            let key = clone_bytes(nm);
                            out.push(
                                (
                                    key,
                                    SpringJointProps {
                                        drag_force: df,
                                        gravity_dir: gd,
                                        gravity_power: gp,
                                        hit_radius: hr,
                                        stiffness: st,
                                    },
                                ),
                            );
                        }
                        proof {
                            assert(pairs_view(out@) =~= props_entries_spec(
                                joints@,
                                names@,
                                i as int + 1,
                            ));
                        }
                    },
                    None => {
                        proof {
                            assert(pairs_view(out@) =~= props_entries_spec(
                                joints@,
                                names@,
                                i as int + 1,
                            ));
                        }
                    },
                }
            } else {
                proof {
                    assert(pairs_view(out@) =~= props_entries_spec(joints@, names@, i as int + 1));
                }
            }
            i = i + 1;
        }
        SpringJointPropsRegistry { entries: out }
    }
}

/// One declared spring chain, resolved to node names: the ordered joint
/// names, the collider names and shapes active for the chain, and the
/// optional center node name.
#[derive(Debug)]
pub struct SpringNode {
    pub center: Option<Vec<u8>>,
    pub joints: Vec<Vec<u8>>,
    pub colliders: Vec<(Vec<u8>, ColliderShape)>,
}

/// Ghost model of a resolved spring chain.
pub ghost struct SpringNodeG {
    pub center: Option<Seq<u8>>,
    pub joints: Seq<Seq<u8>>,
    pub colliders: Seq<(Seq<u8>, ColliderShape)>,
}

pub open spec fn spring_node_view(n: SpringNode) -> SpringNodeG {
    SpringNodeG {
        center: match n.center {
            Some(c) => Some(c@),
            None => None,
        },
        joints: n.joints@.map_values(|v: Vec<u8>| v@),
        colliders: pairs_view(n.colliders@),
    }
}

/// One declared spring chain, by asset-node indices.
#[derive(Debug)]
pub struct SpringDecl {
    pub center: Option<usize>,
    pub joints: Vec<usize>,
    pub colliders: Vec<(usize, ColliderShape)>,
}

/// The names of the first `k` indices that resolve, in order.
pub open spec fn names_of_spec(idxs: Seq<usize>, names: Seq<Option<Vec<u8>>>, k: int) -> Seq<
    Seq<u8>,
>
    decreases k,
{
    if k <= 0 {
        Seq::empty()
    } else {
        let prev = names_of_spec(idxs, names, k - 1);
        let j = idxs[k - 1];
        if (j as int) < names.len() {
            match names[j as int] {
                Some(nm) => prev.push(nm@),
                None => prev,
            }
        } else {
            prev
        }
    }
}

/// The resolution of one declared chain.
pub open spec fn spring_node_spec(d: SpringDecl, names: Seq<Option<Vec<u8>>>) -> SpringNodeG {
    SpringNodeG {
        center: match d.center {
            Some(ci) => if (ci as int) < names.len() {
                match names[ci as int] {
                    Some(nm) => Some(nm@),
                    None => None,
                }
            } else {
                None
            },
            None => None,
        },
        joints: names_of_spec(d.joints@, names, d.joints@.len() as int),
        colliders: resolved_entries_spec(d.colliders@, names, d.colliders@.len() as int),
    }
}

/// The resolution of the first `k` declared chains.
pub open spec fn springs_spec(decls: Seq<SpringDecl>, names: Seq<Option<Vec<u8>>>, k: int) -> Seq<
    SpringNodeG,
>
    decreases k,
{
    if k <= 0 {
        Seq::empty()
    } else {
        springs_spec(decls, names, k - 1).push(spring_node_spec(decls[k - 1], names))
    }
}

/// Resolves a list of node indices to the names that exist, in order.
pub fn names_of(idxs: &Vec<usize>, names: &Vec<Option<Vec<u8>>>) -> (r: Vec<Vec<u8>>)
    ensures
        r@.map_values(|v: Vec<u8>| v@) == names_of_spec(idxs@, names@, idxs@.len() as int),
{
    let n = idxs.len();
    let mut out: Vec<Vec<u8>> = Vec::new();
    let mut i: usize = 0;
    proof {
        assert(out@.map_values(|v: Vec<u8>| v@) =~= names_of_spec(idxs@, names@, 0));
    }
    while i < n
        invariant
            n == idxs@.len(),
            0 <= i <= n,
            out@.map_values(|v: Vec<u8>| v@) == names_of_spec(idxs@, names@, i as int),
        decreases n - i,
    {
        let j = idxs[i];
        if j < names.len() {
            match &names[j] {
                Some(nm) => {
                    out.push(clone_bytes(nm));
                    proof {
                        assert(out@.map_values(|v: Vec<u8>| v@) =~= names_of_spec(
                            idxs@,
                            names@,
                            i as int + 1,
                        ));
                    }
                },
                None => {
                    proof {
                        assert(out@.map_values(|v: Vec<u8>| v@) =~= names_of_spec(
                            idxs@,
                            names@,
                            i as int + 1,
                        ));
                    }
                },
            }
        } else {
            proof {
                assert(out@.map_values(|v: Vec<u8>| v@) =~= names_of_spec(
                    idxs@,
                    names@,
                    i as int + 1,
                ));
            }
        }
        i = i + 1;
    }
    out
}

/// The declared spring chains of an avatar, resolved to node names.
pub struct SpringNodeRegistry {
    pub springs: Vec<SpringNode>,
}

impl SpringNodeRegistry {
    /// Resolves every declared chain: joint and collider indices that name
    /// no node are dropped, and a center that names no node is cleared.
    pub fn new(springs: &Vec<SpringDecl>, names: &Vec<Option<Vec<u8>>>) -> (r: SpringNodeRegistry)
        ensures
            r.springs@.map_values(|n: SpringNode| spring_node_view(n)) == springs_spec(
                springs@,
                names@,
                springs@.len() as int,
            ),
    {
        let n = springs.len();
        let mut out: Vec<SpringNode> = Vec::new();
        let mut i: usize = 0;
        proof {
            assert(out@.map_values(|n: SpringNode| spring_node_view(n)) =~= springs_spec(
                springs@,
                names@,
                0,
            ));
        }
        while i < n
            invariant
                n == springs@.len(),
                0 <= i <= n,
                out@.map_values(|nd: SpringNode| spring_node_view(nd)) == springs_spec(
                    springs@,
                    names@,
                    i as int,
                ),
            decreases n - i,
        {
            let d = &springs[i];
            let center: Option<Vec<u8>> = match d.center {
                Some(ci) => {
                    if ci < names.len() {
                        match &names[ci] {
                            Some(nm) => Some(clone_bytes(nm)),
                            None => None,
                        }
                    } else {
                        None
                    }
                },
                None => None,
            };
            let node = SpringNode {
                center,
                joints: names_of(&d.joints, names),
                colliders: resolve_entries(&d.colliders, names),
            };
            proof {
                assert(spring_node_view(node) == spring_node_spec(springs@[i as int], names@));
            }
            out.push(node);
            proof {
                assert(out@.map_values(|nd: SpringNode| spring_node_view(nd)) =~= springs_spec(
                    springs@,
                    names@,
                    i as int + 1,
                ));
            }
            i = i + 1;
        }
        SpringNodeRegistry { springs: out }
    }
}

} // verus!
