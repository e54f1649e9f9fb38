//! The per-tick spring-bone integration: inertia, stiffness and gravity,
//! the length constraint, collision resolution, and the joint's new local
//! rotation.

use vstd::prelude::*;
use crate::collider::{
    COLLIDER_MAX, ColliderShape, cs_wf, resolve_shape, resolve_shape_spec,
};
use crate::fixed::{sdiv, isqrt_spec, div_trunc, lemma_sdiv_exact, lemma_sdiv_mul_bound};
use crate::quat::{
    Q4, Quat, q4_arc, q4_compose, q4_conj, q4_norm_sq, q4_rotate, q4_wf, lemma_q4_rotate_bounded,
};
use crate::scene::{Scene, SceneNode, WORLD_POS_MAX, node_wf, scene_wf};
use crate::spring::{
    BONE_LEN_MAX, DT_MAX, SpringJointProps, SpringJointState, StateG, TAIL_MAX, props_wf, state_wf,
};
use crate::transform::{
    T3, Transform3, q4_is_trivial_rotation, t3_apply, t3_apply_inv, t3_compose, t3_wf,
    lemma_t3_round_trip,
};
use crate::vec3::{
    V3, Vec3, iabs, v3_add, v3_bounded, v3_norm_sq, v3_scale_frac, v3_scale_to, v3_sub,
    lemma_scale_to_norm,
};
use crate::SCALE;

verus! {

/// The view of an optional center transform.
pub open spec fn opt_t3_view(c: Option<Transform3>) -> Option<T3> {
    match c {
        Some(t) => Some(t@),
        None => None,
    }
}

/// A usable center transform: rigid, with an in-range world translation.
pub open spec fn opt_center_wf(c: Option<T3>) -> bool {
    match c {
        Some(t) => t3_wf(t) && v3_bounded(t.pos, WORLD_POS_MAX as int),
        None => true,
    }
}

/// Chain space to world space: the identity without a center node.
pub open spec fn center_local_to_global_spec(c: Option<T3>, v: V3) -> V3 {
    match c {
        Some(t) => t3_apply(t, v),
        None => v,
    }
}

/// World space to chain space: the identity without a center node.
pub open spec fn global_to_center_local_spec(c: Option<T3>, v: V3) -> V3 {
    match c {
        Some(t) => t3_apply_inv(t, v),
        None => v,
    }
}

/// Converts a stored tail from the chain's space into world space.
pub fn center_local_to_global(c: &Option<Transform3>, v: Vec3) -> (r: Vec3)
    requires
        opt_center_wf(opt_t3_view(*c)),
        v3_bounded(v@, TAIL_MAX as int),
    ensures
        r@ == center_local_to_global_spec(opt_t3_view(*c), v@),
        v3_bounded(r@, 41_000_000_000int),
{
    match c {
        Some(t) => {
            proof {
                lemma_q4_rotate_bounded(t@.rot, v@, TAIL_MAX as int);
            }
            t.apply(v)
        },
        None => v,
    }
}

/// Converts a world-space tail back into the chain's space.
pub fn global_to_center_local(c: &Option<Transform3>, v: Vec3) -> (r: Vec3)
    requires
        opt_center_wf(opt_t3_view(*c)),
        v3_bounded(v@, 1_100_000_000int),
    ensures
        r@ == global_to_center_local_spec(opt_t3_view(*c), v@),
        v3_bounded(r@, 8_400_000_000int),
{
    match c {
        Some(t) => {
            proof {
                assert(q4_norm_sq(q4_conj(t@.rot)) == q4_norm_sq(t@.rot)) by (nonlinear_arith);
                lemma_q4_rotate_bounded(q4_conj(t@.rot), v3_sub(v@, t@.pos), 2_100_000_000int);
            }
            t.apply_inv(v)
        },
        None => v,
    }
}

/// Center-space invariance: converting a point out of the chain's space and
/// back returns it exactly, for every point, whenever the center's rotation
/// is trivial (identity up to sign).  A genuinely rotated center (for
/// example a quarter turn about the vertical axis) rounds in fixed point
/// and does not return every point exactly.
pub proof fn lemma_center_space_round_trip(c: Option<T3>, x: V3)
    requires
        c matches Some(t) ==> q4_is_trivial_rotation(t.rot),
    ensures
        global_to_center_local_spec(c, center_local_to_global_spec(c, x)) == x,
{
    match c {
        Some(t) => {
            lemma_t3_round_trip(t, x);
        },
        None => {},
    }
}

/// The length constraint: re-projects a candidate tail onto the sphere of
/// radius `len` about the joint's world position.  A candidate exactly at
/// the joint (no direction) collapses to the joint position.
pub open spec fn constrain_spec(candidate: V3, head: V3, len: int) -> V3 {
    v3_add(head, v3_scale_to(v3_sub(candidate, head), len))
}

/// Length invariance: after the length constraint, the squared distance
/// from the tail to the joint position is `len * len` up to projection
/// rounding — never below `len * len - 6 * len`, and never above
/// `(len + 2) * (len + 2)` once the candidate was at least `len` away.
pub proof fn lemma_length_invariance(candidate: V3, head: V3, len: int)
    requires
        1 <= len,
        v3_norm_sq(v3_sub(candidate, head)) != 0,
    ensures
        v3_norm_sq(v3_sub(constrain_spec(candidate, head, len), head)) >= len * len - 6 * len,
        isqrt_spec(v3_norm_sq(v3_sub(candidate, head))) >= len ==> v3_norm_sq(
            v3_sub(constrain_spec(candidate, head, len), head),
        ) <= (len + 2) * (len + 2),
{
    let d = v3_sub(candidate, head);
    assert(v3_norm_sq(d) >= 1) by (nonlinear_arith)
        requires
            v3_norm_sq(d) == d.x * d.x + d.y * d.y + d.z * d.z,
            v3_norm_sq(d) != 0,
    ;
    lemma_scale_to_norm(d, len);
    assert(v3_sub(constrain_spec(candidate, head, len), head) == v3_scale_to(d, len));
}

/// A vector of squared norm zero is the zero vector.
proof fn lemma_norm_zero(v: V3)
    requires
        v3_norm_sq(v) == 0,
    ensures
        v.x == 0 && v.y == 0 && v.z == 0,
{
    assert(v.x == 0 && v.y == 0 && v.z == 0) by (nonlinear_arith)
        requires
            v.x * v.x + v.y * v.y + v.z * v.z == 0,
    ;
}

/// Applies the length constraint.
pub fn constrain_tail(candidate: Vec3, head: Vec3, len: i64) -> (r: Vec3)
    requires
        v3_bounded(candidate@, 500_000_000_000int),
        v3_bounded(head@, WORLD_POS_MAX as int),
        0 <= len <= BONE_LEN_MAX,
    ensures
        r@ == constrain_spec(candidate@, head@, len as int),
        v3_bounded(r@, 1_100_000_000int),
{
    let d = candidate.sub(head);
    let proj = d.scale_to_length(len);
    proof {
        if v3_norm_sq(d@) == 0 {
            lemma_norm_zero(d@);
        }
    }
    head.add(proj)
}

/// Collision resolution over a chain's collider list: each collider in
/// order pushes a penetrating tail out, and the length constraint is
/// re-applied after every push.  A collider whose node is not in the scene
/// is skipped for this tick.
pub open spec fn apply_collision_spec(
    p: V3,
    nodes: Seq<SceneNode>,
    cols: Seq<(usize, ColliderShape)>,
    hit_radius: int,
    head: V3,
    len: int,
) -> V3
    decreases cols.len(),
{
    if cols.len() == 0 {
        p
    } else {
        let c = cols[0];
        let p2 = if (c.0 as int) < nodes.len() {
            constrain_spec(resolve_shape_spec(p, nodes[c.0 as int].world@, c.1@, hit_radius), head, len)
        } else {
            p
        };
        apply_collision_spec(p2, nodes, cols.skip(1), hit_radius, head, len)
    }
}

/// Resolves every collider of the chain against the tail, re-applying the
/// length constraint after each push-out.
pub fn apply_collision(
    p: Vec3,
    scene: &Scene,
    cols: &Vec<(usize, ColliderShape)>,
    hit_radius: i64,
    head: Vec3,
    len: i64,
) -> (r: Vec3)
    requires
        scene_wf(*scene),
        forall|k: int| 0 <= k < cols@.len() ==> cs_wf(#[trigger] cols@[k].1@),
        v3_bounded(p@, 1_100_000_000int),
        v3_bounded(head@, WORLD_POS_MAX as int),
        0 <= hit_radius <= COLLIDER_MAX,
        0 <= len <= BONE_LEN_MAX,
    ensures
        r@ == apply_collision_spec(p@, scene.nodes@, cols@, hit_radius as int, head@, len as int),
        v3_bounded(r@, 1_100_000_000int),
{
    let n = cols.len();
    let mut cur = p;
    let mut i: usize = 0;
    proof {
        assert(cols@.skip(0) =~= cols@);
    }
    while i < n
        invariant
            scene_wf(*scene),
            forall|k: int| 0 <= k < cols@.len() ==> cs_wf(#[trigger] cols@[k].1@),
            v3_bounded(head@, WORLD_POS_MAX as int),
            0 <= hit_radius <= COLLIDER_MAX,
            0 <= len <= BONE_LEN_MAX,
            n == cols@.len(),
            0 <= i <= n,
            v3_bounded(cur@, 1_100_000_000int),
            apply_collision_spec(
                cur@,
                scene.nodes@,
                cols@.skip(i as int),
                hit_radius as int,
                head@,
                len as int,
            ) == apply_collision_spec(
                p@,
                scene.nodes@,
                cols@,
                hit_radius as int,
                head@,
                len as int,
            ),
        decreases n - i,
    {
        let (ci, shape) = cols[i];
        proof {
            assert(cols@.skip(i as int)[0] == cols@[i as int]);
            assert(cols@.skip(i as int).skip(1) =~= cols@.skip(i as int + 1));
        }
        if ci < scene.len() {
            proof {
                assert(node_wf(scene.nodes@[ci as int], ci as int));
            }
            let w = scene.world_of(ci);
            let pushed = resolve_shape(cur, w, &shape, hit_radius);
            cur = constrain_tail(pushed, head, len);
        }
        i = i + 1;
    }
    proof {
        assert(cols@.skip(n as int) =~= Seq::<(usize, ColliderShape)>::empty());
    }
    cur
}

/// The unconstrained candidate for a joint's next tail: the current tail
/// carried into world space, plus inertia damped by drag, plus the
/// stiffness pull toward the rest-pose direction re-expressed in the
/// parent's current orientation, plus gravity — each force scaled by the
/// frame delta.
pub open spec fn candidate_spec(
    state: StateG,
    props: SpringJointProps,
    parent_rot: Q4,
    center: Option<T3>,
    dt: int,
) -> V3 {
    let ct_w = center_local_to_global_spec(center, state.current_tail);
    let pt_w = center_local_to_global_spec(center, state.prev_tail);
    let inertia = v3_scale_frac(v3_sub(ct_w, pt_w), SCALE as int - props.drag_force as int);
    let stiffness_dir = q4_rotate(parent_rot, q4_rotate(state.initial_local.rot, state.bone_axis));
    let stiffness = v3_scale_frac(
        stiffness_dir,
        sdiv(dt * (props.stiffness as int), SCALE as int),
    );
    let external = v3_scale_frac(
        props.gravity_dir@,
        sdiv(dt * (props.gravity_power as int), SCALE as int),
    );
    v3_add(v3_add(v3_add(ct_w, inertia), stiffness), external)
}

/// The joint's next tail in world space: the candidate, constrained to the
/// bone length, then resolved against every collider of the chain.
pub open spec fn next_tail_world_spec(
    state: StateG,
    props: SpringJointProps,
    parent_rot: Q4,
    head: V3,
    center: Option<T3>,
    nodes: Seq<SceneNode>,
    cols: Seq<(usize, ColliderShape)>,
    dt: int,
) -> V3 {
    apply_collision_spec(
        constrain_spec(candidate_spec(state, props, parent_rot, center, dt), head, state.bone_length),
        nodes,
        cols,
        props.hit_radius as int,
        head,
        state.bone_length,
    )
}

/// The joint's new local rotation: the binding-time rotation composed with
/// the shortest arc from the bone axis to the next tail's direction in the
/// joint's rest-pose local frame.
pub open spec fn joint_rotation_spec(state: StateG, parent_world: T3, next_world: V3) -> Q4 {
    let frame = t3_compose(parent_world, state.initial_local);
    let to = v3_scale_to(t3_apply_inv(frame, next_world), SCALE as int);
    q4_compose(state.initial_local.rot, q4_arc(state.bone_axis, to))
}

/// Length invariance across a tick: whatever the inertia, stiffness and
/// gravity inputs, a collider-free tick leaves the world-space tail at
/// bone-length distance from the joint, within the projection's rounding
/// margin (each collider push-out re-applies the same constraint, so the
/// margin also holds after the last resolved collider).
pub proof fn lemma_tick_length_invariance(
    state: StateG,
    props: SpringJointProps,
    parent_rot: Q4,
    head: V3,
    center: Option<T3>,
    nodes: Seq<SceneNode>,
    dt: int,
)
    requires
        1 <= state.bone_length,
        v3_norm_sq(v3_sub(candidate_spec(state, props, parent_rot, center, dt), head)) != 0,
    ensures
        ({
            let next = next_tail_world_spec(
                state,
                props,
                parent_rot,
                head,
                center,
                nodes,
                Seq::<(usize, ColliderShape)>::empty(),
                dt,
            );
            v3_norm_sq(v3_sub(next, head)) >= state.bone_length * state.bone_length - 6
                * state.bone_length
        }),
{
    let cand = candidate_spec(state, props, parent_rot, center, dt);
    lemma_length_invariance(cand, head, state.bone_length);
    assert(apply_collision_spec(
        constrain_spec(cand, head, state.bone_length),
        nodes,
        Seq::<(usize, ColliderShape)>::empty(),
        props.hit_radius as int,
        head,
        state.bone_length,
    ) == constrain_spec(cand, head, state.bone_length));
}

/// Rest equilibrium: with full drag, no stiffness and no gravity, a chain
/// at rest (previous and current tail equal, current tail at bone-length
/// distance from the joint) and clear of colliders moves nowhere: the next
/// world-space tail equals the current one, exactly, after any number of
/// ticks (the state this lemma requires is re-established by each tick).
pub proof fn lemma_rest_equilibrium(
    state: StateG,
    props: SpringJointProps,
    parent_rot: Q4,
    head: V3,
    center: Option<T3>,
    nodes: Seq<SceneNode>,
    dt: int,
)
    requires
        props.drag_force == SCALE,
        props.stiffness == 0,
        props.gravity_power == 0,
        state.prev_tail == state.current_tail,
        1 <= state.bone_length,
        v3_norm_sq(v3_sub(center_local_to_global_spec(center, state.current_tail), head)) != 0,
        isqrt_spec(
            v3_norm_sq(v3_sub(center_local_to_global_spec(center, state.current_tail), head)),
        ) == state.bone_length,
    ensures
        next_tail_world_spec(
            state,
            props,
            parent_rot,
            head,
            center,
            nodes,
            Seq::<(usize, ColliderShape)>::empty(),
            dt,
        ) == center_local_to_global_spec(center, state.current_tail),
{
    let ct_w = center_local_to_global_spec(center, state.current_tail);
    let s = SCALE as int;
    vstd::arithmetic::div_mod::lemma_div_of0(s);
    let zero = V3 { x: 0, y: 0, z: 0 };
    let d0 = v3_sub(ct_w, ct_w);
    assert(d0 == zero);
    assert(v3_scale_frac(zero, 0) == zero);
    assert(dt * (props.stiffness as int) == 0) by (nonlinear_arith)
        requires
            props.stiffness == 0,
    ;
    assert(dt * (props.gravity_power as int) == 0) by (nonlinear_arith)
        requires
            props.gravity_power == 0,
    ;
    let dir = q4_rotate(parent_rot, q4_rotate(state.initial_local.rot, state.bone_axis));
    assert(v3_scale_frac(dir, sdiv(0, s)) == zero) by {
        assert(sdiv(0, s) == 0);
        assert(dir.x * 0 == 0 && dir.y * 0 == 0 && dir.z * 0 == 0) by (nonlinear_arith);
    }
    assert(v3_scale_frac(props.gravity_dir@, sdiv(0, s)) == zero) by {
        assert(sdiv(0, s) == 0);
        assert(props.gravity_dir@.x * 0 == 0 && props.gravity_dir@.y * 0 == 0
            && props.gravity_dir@.z * 0 == 0) by (nonlinear_arith);
    }
    let cand = candidate_spec(state, props, parent_rot, center, dt);
    assert(cand == ct_w);
    let d = v3_sub(ct_w, head);
    let n = v3_norm_sq(d);
    let sq = isqrt_spec(n);
    lemma_sdiv_exact(d.x, sq);
    lemma_sdiv_exact(d.y, sq);
    lemma_sdiv_exact(d.z, sq);
    assert(v3_scale_to(d, state.bone_length) == d);
    assert(constrain_spec(cand, head, state.bone_length) == ct_w);
    assert(apply_collision_spec(
        ct_w,
        nodes,
        Seq::<(usize, ColliderShape)>::empty(),
        props.hit_radius as int,
        head,
        state.bone_length,
    ) == ct_w);
}

/// Rest equilibrium in the stored state: under the same conditions, if the
/// chain additionally has no center node, or a center whose rotation is
/// trivial, the stored chain-space tail is also unchanged, exactly.
pub proof fn lemma_rest_equilibrium_fixed_point(
    state: StateG,
    props: SpringJointProps,
    parent_rot: Q4,
    head: V3,
    center: Option<T3>,
    nodes: Seq<SceneNode>,
    dt: int,
)
    requires
        props.drag_force == SCALE,
        props.stiffness == 0,
        props.gravity_power == 0,
        state.prev_tail == state.current_tail,
        1 <= state.bone_length,
        v3_norm_sq(v3_sub(center_local_to_global_spec(center, state.current_tail), head)) != 0,
        isqrt_spec(
            v3_norm_sq(v3_sub(center_local_to_global_spec(center, state.current_tail), head)),
        ) == state.bone_length,
        center matches Some(t) ==> q4_is_trivial_rotation(t.rot),
    ensures
        global_to_center_local_spec(
            center,
            next_tail_world_spec(
                state,
                props,
                parent_rot,
                head,
                center,
                nodes,
                Seq::<(usize, ColliderShape)>::empty(),
                dt,
            ),
        ) == state.current_tail,
{
    lemma_rest_equilibrium(state, props, parent_rot, head, center, nodes, dt);
    lemma_center_space_round_trip(center, state.current_tail);
}

/// Advances one joint by one tick.  Returns the new simulation state, the
/// joint's new local rotation, and its recomputed world transform.
pub fn update_joint(
    state: &SpringJointState,
    props: &SpringJointProps,
    parent_world: Transform3,
    head_pos: Vec3,
    local_pos: Vec3,
    center: Option<Transform3>,
    scene: &Scene,
    colliders: &Vec<(usize, ColliderShape)>,
    dt: i64,
) -> (r: (SpringJointState, Quat, Transform3))
    requires
        state_wf(state@),
        props_wf(*props),
        t3_wf(parent_world@),
        v3_bounded(parent_world@.pos, 960_000_000int),
        v3_bounded(head_pos@, WORLD_POS_MAX as int),
        v3_bounded(local_pos@, crate::scene::LOCAL_POS_MAX as int),
        opt_center_wf(opt_t3_view(center)),
        scene_wf(*scene),
        forall|k: int| 0 <= k < colliders@.len() ==> cs_wf(#[trigger] colliders@[k].1@),
        0 <= dt <= DT_MAX,
    ensures
        ({
            let next = next_tail_world_spec(
                state@,
                *props,
                parent_world@.rot,
                head_pos@,
                opt_t3_view(center),
                scene.nodes@,
                colliders@,
                dt as int,
            );
            &&& r.0@.prev_tail == state@.current_tail
            &&& r.0@.current_tail == global_to_center_local_spec(opt_t3_view(center), next)
            &&& r.0@.bone_axis == state@.bone_axis
            &&& r.0@.bone_length == state@.bone_length
            &&& r.0@.initial_local == state@.initial_local
            &&& state_wf(r.0@)
            &&& r.1@ == joint_rotation_spec(state@, parent_world@, next)
            &&& q4_wf(r.1@)
            &&& r.2@ == t3_compose(parent_world@, T3 { rot: r.1@, pos: local_pos@ })
            &&& t3_wf(r.2@)
            &&& v3_bounded(r.2@.pos, WORLD_POS_MAX as int)
        }),
{
    let ct_w = center_local_to_global(&center, state.current_tail);
    let pt_w = center_local_to_global(&center, state.prev_tail);
    let delta = ct_w.sub(pt_w);
    proof {
        crate::vec3::lemma_scale_frac_bounded(
            delta@,
            SCALE as int - props.drag_force as int,
            82_000_000_000int,
            1_000_000int,
            82_000_000_000int,
        );
        assert(82_000_000_000int * 1_000_000int <= (SCALE as int) * 82_000_000_000int)
            by (nonlinear_arith)
            requires
                SCALE == 1_000_000,
        ;
    }
    let inertia = delta.scale_frac(SCALE - props.drag_force);
    proof {
        lemma_q4_rotate_bounded(state.initial_local.rot@, state.bone_axis@, 2_000_000int);
    }
    let dir1 = state.initial_local.rot.rotate(state.bone_axis);
    proof {
        lemma_q4_rotate_bounded(parent_world.rot@, dir1@, 8_000_000int);
    }
    let dir = parent_world.rot.rotate(dir1);
    proof {
        assert(iabs((dt as int) * (props.stiffness as int)) <= 200_000_000int * (SCALE as int)
            && iabs((dt as int) * (props.gravity_power as int)) <= 200_000_000int * (SCALE as int))
            by (nonlinear_arith)
            requires
                0 <= dt <= 2_000_000,
                0 <= props.stiffness <= 100_000_000,
                0 <= props.gravity_power <= 100_000_000,
                SCALE == 1_000_000,
        ;
        assert(200_000_000int * (SCALE as int) == (SCALE as int) * 200_000_000int)
            by (nonlinear_arith);
        lemma_sdiv_mul_bound((dt as int) * (props.stiffness as int), SCALE as int, 200_000_000int);
        lemma_sdiv_mul_bound(
            (dt as int) * (props.gravity_power as int),
            SCALE as int,
            200_000_000int,
        );
    }
    let k_stiff = div_trunc(dt * props.stiffness, SCALE);
    let k_grav = div_trunc(dt * props.gravity_power, SCALE);
    proof {
        crate::vec3::lemma_scale_frac_bounded(
            dir@,
            k_stiff as int,
            32_000_000int,
            200_000_000int,
            6_400_000_000int,
        );
        assert(32_000_000int * 200_000_000int <= (SCALE as int) * 6_400_000_000int)
            by (nonlinear_arith)
            requires
                SCALE == 1_000_000,
        ;
        crate::vec3::lemma_scale_frac_bounded(
            props.gravity_dir@,
            k_grav as int,
            2_000_000int,
            200_000_000int,
            400_000_000int,
        );
        assert(2_000_000int * 200_000_000int <= (SCALE as int) * 400_000_000int)
            by (nonlinear_arith)
            requires
                SCALE == 1_000_000,
        ;
    }
    let stiffness = dir.scale_frac(k_stiff);
    let external = props.gravity_dir.scale_frac(k_grav);
    let candidate = ct_w.add(inertia).add(stiffness).add(external);
    let constrained = constrain_tail(candidate, head_pos, state.bone_length);
    let next = apply_collision(
        constrained,
        scene,
        colliders,
        props.hit_radius,
        head_pos,
        state.bone_length,
    );
    let new_current = global_to_center_local(&center, next);
    proof {
        lemma_q4_rotate_bounded(parent_world.rot@, state.initial_local.pos@, 10_000_000int);
    }
    let frame = parent_world.compose(state.initial_local);
    let to_raw = frame.apply_inv(next);
    let to = to_raw.scale_to_length(SCALE);
    proof {
        if v3_norm_sq(to_raw@) == 0 {
            lemma_norm_zero(to_raw@);
        }
    }
    let arc = Quat::rotation_arc(state.bone_axis, to);
    let new_rot = state.initial_local.rot.compose(arc);
    let new_world = parent_world.compose(Transform3 { rot: new_rot, pos: local_pos });
    proof {
        lemma_q4_rotate_bounded(parent_world.rot@, local_pos@, 10_000_000int);
    }
    (
        SpringJointState {
            prev_tail: state.current_tail,
            current_tail: new_current,
            bone_axis: state.bone_axis,
            bone_length: state.bone_length,
            initial_local: state.initial_local,
        },
        new_rot,
        new_world,
    )
}

/// Whether the joint at chain position `k` can be advanced this tick: it
/// must exist in the scene with a parent, carry a state and properties,
/// and its parent's world translation must be inside the write margin.  A
/// joint failing any of these is skipped for this tick only.
pub open spec fn joint_step_enabled(
    nodes: Seq<SceneNode>,
    states: Seq<Option<SpringJointState>>,
    props: Seq<Option<SpringJointProps>>,
    j: usize,
) -> bool {
    &&& (j as int) < nodes.len()
    &&& states[j as int] is Some
    &&& props[j as int] is Some
    &&& nodes[j as int].parent is Some
    &&& v3_bounded(nodes[(nodes[j as int].parent->0) as int].world@.pos, 960_000_000int)
}

/// The chain's center space this tick: the center node's current world
/// transform, if the chain has one and it is present in the scene.
pub open spec fn center_of_spec(nodes: Seq<SceneNode>, center_node: Option<usize>) -> Option<T3> {
    match center_node {
        Some(c) => if (c as int) < nodes.len() {
            Some(nodes[c as int].world@)
        } else {
            None
        },
        None => None,
    }
}

/// One joint of one chain advanced by one tick: the scene node list and
/// the state list after the step.
pub open spec fn joint_step_spec(
    nodes: Seq<SceneNode>,
    states: Seq<Option<SpringJointState>>,
    props: Seq<Option<SpringJointProps>>,
    root: crate::avatar::RootG,
    k: int,
    dt: int,
) -> (Seq<SceneNode>, Seq<Option<SpringJointState>>) {
    let j = root.joints[k];
    if !joint_step_enabled(nodes, states, props, j) {
        (nodes, states)
    } else {
        let st = states[j as int]->0;
        let pr = props[j as int]->0;
        let parent = nodes[j as int].parent->0;
        let pw = nodes[parent as int].world@;
        let head = nodes[j as int].world@.pos;
        let center = center_of_spec(nodes, root.center_node);
        let next = next_tail_world_spec(st@, pr, pw.rot, head, center, nodes, root.colliders, dt);
        let nrot = joint_rotation_spec(st@, pw, next);
        let nworld = t3_compose(pw, T3 { rot: nrot, pos: nodes[j as int].local@.pos });
        let nstate = StateG {
            prev_tail: st@.current_tail,
            current_tail: global_to_center_local_spec(center, next),
            bone_axis: st@.bone_axis,
            bone_length: st@.bone_length,
            initial_local: st@.initial_local,
        };
        let nnode = (SceneNode {
            name: nodes[j as int].name,
            parent: nodes[j as int].parent,
            local: (Transform3 {
                rot: crate::quat::quat_of(nrot),
                pos: nodes[j as int].local.pos,
            }),
            world: crate::transform::t3_of(nworld),
        });
        (
            nodes.update(j as int, nnode),
            states.update(j as int, Some(crate::spring::state_of(nstate))),
        )
    }
}

/// The first `k` joints of one chain advanced in order, head to tail: each
/// joint sees the world transforms its predecessors just wrote.
pub open spec fn chain_update_spec(
    nodes: Seq<SceneNode>,
    states: Seq<Option<SpringJointState>>,
    props: Seq<Option<SpringJointProps>>,
    root: crate::avatar::RootG,
    k: int,
    dt: int,
) -> (Seq<SceneNode>, Seq<Option<SpringJointState>>)
    decreases k,
{
    if k <= 0 {
        (nodes, states)
    } else {
        let prev = chain_update_spec(nodes, states, props, root, k - 1, dt);
        joint_step_spec(prev.0, prev.1, props, root, k - 1, dt)
    }
}

/// The first `k` chains advanced in order.
pub open spec fn roots_update_spec(
    nodes: Seq<SceneNode>,
    states: Seq<Option<SpringJointState>>,
    props: Seq<Option<SpringJointProps>>,
    roots: Seq<crate::avatar::RootG>,
    k: int,
    dt: int,
) -> (Seq<SceneNode>, Seq<Option<SpringJointState>>)
    decreases k,
{
    if k <= 0 {
        (nodes, states)
    } else {
        let prev = roots_update_spec(nodes, states, props, roots, k - 1, dt);
        chain_update_spec(prev.0, prev.1, props, roots[k - 1], roots[k - 1].joints.len() as int, dt)
    }
}

impl crate::avatar::Avatar {
    /// One simulation tick: every chain's joints are advanced in head-to-
    /// tail order, each joint's new rotation and world transform written
    /// back to the scene before the next joint reads it.  `dt` is the
    /// frame delta in micro-seconds.
    pub fn update_spring_bones(&mut self, dt: i64)
        requires
            crate::avatar::avatar_wf(*old(self)),
            0 <= dt <= DT_MAX,
        ensures
            crate::avatar::avatar_wf(*final(self)),
            ({
                let r = roots_update_spec(
                    old(self)@.nodes,
                    old(self)@.joint_states,
                    old(self)@.joint_props,
                    old(self)@.spring_roots,
                    old(self)@.spring_roots.len() as int,
                    dt as int,
                );
                final(self)@ == (crate::avatar::AvatarG {
                    nodes: r.0,
                    joint_states: r.1,
                    ..old(self)@
                })
            }),
    {
        let ghost a0 = self@;
        let nr = self.spring_roots.len();
        let mut ri: usize = 0;
        while ri < nr
            invariant
                crate::avatar::avatar_wf(*self),
                0 <= dt <= DT_MAX,
                nr == a0.spring_roots.len(),
                nr == self.spring_roots@.len(),
                0 <= ri <= nr,
                self@ == (crate::avatar::AvatarG {
                    nodes: roots_update_spec(
                        a0.nodes,
                        a0.joint_states,
                        a0.joint_props,
                        a0.spring_roots,
                        ri as int,
                        dt as int,
                    ).0,
                    joint_states: roots_update_spec(
                        a0.nodes,
                        a0.joint_states,
                        a0.joint_props,
                        a0.spring_roots,
                        ri as int,
                        dt as int,
                    ).1,
                    ..a0
                }),
            decreases nr - ri,
        {
            let ghost rg = a0.spring_roots[ri as int];
            let ghost nodes_c = self@.nodes;
            let ghost states_c = self@.joint_states;
            proof {
                assert(rg == crate::avatar::root_view(self.spring_roots@[ri as int]));
            }
            let m = self.spring_roots[ri].joints.len();
            let mut k: usize = 0;
            while k < m
                invariant
                    crate::avatar::avatar_wf(*self),
                    0 <= dt <= DT_MAX,
                    ri < nr,
                    nr == self.spring_roots@.len(),
                    rg == crate::avatar::root_view(self.spring_roots@[ri as int]),
                    m == rg.joints.len(),
                    m == self.spring_roots@[ri as int].joints@.len(),
                    0 <= k <= m,
                    self@ == (crate::avatar::AvatarG {
                        nodes: chain_update_spec(
                            nodes_c,
                            states_c,
                            a0.joint_props,
                            rg,
                            k as int,
                            dt as int,
                        ).0,
                        joint_states: chain_update_spec(
                            nodes_c,
                            states_c,
                            a0.joint_props,
                            rg,
                            k as int,
                            dt as int,
                        ).1,
                        ..a0
                    }),
                decreases m - k,
            {
                let ghost nodes_k = self@.nodes;
                let ghost states_k = self@.joint_states;
                let j = self.spring_roots[ri].joints[k];
                let scene_len = self.scene.len();
                let mut enabled = false;
                if j < scene_len {
                    if self.joint_states[j].is_some() && self.joint_props[j].is_some() {
                        match self.scene.parent_of(j) {
                            Some(parent) => {
                                proof {
                                    assert(node_wf(self.scene.nodes@[j as int], j as int));
                                }
                                let pw = self.scene.world_of(parent);
                                if -960_000_000 <= pw.pos.x && pw.pos.x <= 960_000_000
                                    && -960_000_000 <= pw.pos.y && pw.pos.y <= 960_000_000
                                    && -960_000_000 <= pw.pos.z && pw.pos.z <= 960_000_000 {
                                    enabled = true;
                                }
                            },
                            None => {},
                        }
                    }
                }
                proof {
                    assert(enabled == joint_step_enabled(
                        nodes_k,
                        states_k,
                        a0.joint_props,
                        j,
                    ));
                }
                if enabled {
                    let st = self.joint_states[j].unwrap();
                    let pr = self.joint_props[j].unwrap();
                    let parent = self.scene.parent_of(j).unwrap();
                    proof {
                        assert(node_wf(self.scene.nodes@[j as int], j as int));
                        assert(node_wf(self.scene.nodes@[parent as int], parent as int));
                    }
                    let parent_world = self.scene.world_of(parent);
                    let head = self.scene.world_of(j).pos;
                    let local_pos = self.scene.local_of(j).pos;
                    let center: Option<Transform3> = match self.spring_roots[ri].center_node {
                        Some(c) => {
                            if c < scene_len {
                                proof {
                                    assert(node_wf(self.scene.nodes@[c as int], c as int));
                                }
                                Some(self.scene.world_of(c))
                            } else {
                                None
                            }
                        },
                        None => None,
                    };
                    let (nstate, nrot, nworld) = update_joint(
                        &st,
                        &pr,
                        parent_world,
                        head,
                        local_pos,
                        center,
                        &self.scene,
                        &self.spring_roots[ri].colliders,
                        dt,
                    );
                    self.joint_states.set(j, Some(nstate));
                    self.scene.set_rotation_and_world(j, nrot, nworld);
                    proof {
                        let step = joint_step_spec(
                            nodes_k,
                            states_k,
                            a0.joint_props,
                            rg,
                            k as int,
                            dt as int,
                        );
                        assert(crate::quat::quat_of(nrot@) == nrot);
                        assert(crate::transform::t3_of(nworld@) == nworld);
                        assert(crate::spring::state_of(nstate@) == nstate);
                        assert(opt_t3_view(center) == center_of_spec(nodes_k, rg.center_node));
                        assert(self@.nodes =~= step.0);
                        assert(self@.joint_states =~= step.1);
                    }
                } else {
                    proof {
                        let step = joint_step_spec(
                            nodes_k,
                            states_k,
                            a0.joint_props,
                            rg,
                            k as int,
                            dt as int,
                        );
                        assert(self@.nodes == step.0);
                        assert(self@.joint_states == step.1);
                    }
                }
                k = k + 1;
            }
            ri = ri + 1;
        }
    }
}

} // verus!
