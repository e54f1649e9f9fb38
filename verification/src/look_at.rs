//! The gaze (look-at) solver: a head-anchored, rest-pose-stable reference
//! frame, yaw and pitch of the target in that frame, and per-eye angular
//! range mapping with the inner/outer maps mirrored between the eyes.

use vstd::prelude::*;
use crate::angles::{HALF_TURN_MDEG, atan2_mdeg, atan2_mdeg_spec, lemma_atan2_range};
use crate::fixed::{div_trunc128, isqrt, isqrt_spec, sdiv, lemma_sdiv_exact, lemma_sdiv_mul_bound};
use crate::quat::{Quat, q4_conj, q4_norm_sq, q4_wf, lemma_q4_rotate_bounded};
use crate::scene::WORLD_POS_MAX;
use crate::transform::{T3, Transform3, t3_apply_inv, t3_compose, t3_wf};
use crate::vec3::{V3, Vec3, iabs, v3_add, v3_bounded, v3_dot, v3_scale_frac, v3_sub, lemma_mul_le};
use crate::SCALE;

verus! {

/// What an avatar's gaze tracks: the pointer seen through a camera, or an
/// arbitrary entity's world position.
#[derive(Clone, Copy, Debug, PartialEq, Eq, Structural)]
pub enum LookAt {
    /// Track the window cursor, unprojected through the given camera.
    Cursor { camera: u64 },
    /// Track the entity with this identifier.
    Target(u64),
}

/// How gaze is applied: by rotating the eye bones, or (unsupported) by
/// driving expression weights.
#[derive(Clone, Copy, Debug, PartialEq, Eq, Structural)]
pub enum LookAtType {
    Bone,
    Expression,
}

/// A clamp-and-rescale map from a raw gaze angle to a bone angle, both in
/// millidegrees.
#[derive(Clone, Copy, Debug, PartialEq, Eq, Structural)]
pub struct RangeMap {
    /// Input angles beyond this saturate.
    pub input_max_value: i64,
    /// The output angle at saturation.
    pub output_scale: i64,
}

pub open spec fn range_map_wf(m: RangeMap) -> bool {
    &&& 1 <= m.input_max_value <= HALF_TURN_MDEG
    &&& 0 <= m.output_scale <= HALF_TURN_MDEG
}

/// The mapped angle for a non-negative input: clamp to the input maximum,
/// then rescale to the output scale.
pub open spec fn range_map_spec(m: RangeMap, angle: int) -> int {
    let c = if angle > m.input_max_value as int {
        m.input_max_value as int
    } else {
        angle
    };
    sdiv(c * (m.output_scale as int), m.input_max_value as int)
}

/// Gaze range clamp: at or beyond the input maximum the map yields exactly
/// its output scale — it saturates and never exceeds the configured
/// maximum.
pub proof fn lemma_range_map_saturates(m: RangeMap, angle: int)
    requires
        range_map_wf(m),
        angle >= m.input_max_value as int,
    ensures
        range_map_spec(m, angle) == m.output_scale as int,
{
    let mx = m.input_max_value as int;
    let out = m.output_scale as int;
    lemma_sdiv_exact(out, mx);
    assert(out * mx == mx * out) by (nonlinear_arith);
}

/// The map of zero is zero.
pub proof fn lemma_range_map_zero(m: RangeMap)
    requires
        range_map_wf(m),
    ensures
        range_map_spec(m, 0) == 0,
{
    assert(0 * (m.output_scale as int) == 0) by (nonlinear_arith);
    vstd::arithmetic::div_mod::lemma_div_of0(m.input_max_value as int);
}

/// The mapped angle never exceeds the output scale.
pub proof fn lemma_range_map_bounded(m: RangeMap, angle: int)
    requires
        range_map_wf(m),
        0 <= angle,
    ensures
        0 <= range_map_spec(m, angle) <= m.output_scale as int,
{
    let mx = m.input_max_value as int;
    let out = m.output_scale as int;
    let c = if angle > mx {
        mx
    } else {
        angle
    };
    assert(0 <= c * out <= out * mx) by (nonlinear_arith)
        requires
            0 <= c <= mx,
            0 <= out,
    ;
    assert(out * mx == mx * out) by (nonlinear_arith);
    lemma_sdiv_mul_bound(c * out, mx, out);
    vstd::arithmetic::div_mod::lemma_div_pos_is_pos(c * out, mx);
}

/// Applies a range map to a non-negative angle.
pub fn apply_range_map(m: &RangeMap, angle: i64) -> (r: i64)
    requires
        range_map_wf(*m),
        0 <= angle <= 2 * HALF_TURN_MDEG,
    ensures
        r == range_map_spec(*m, angle as int),
        0 <= r <= m.output_scale,
{
    proof {
        lemma_range_map_bounded(*m, angle as int);
        assert(iabs((if angle > m.input_max_value {
            m.input_max_value as int
        } else {
            angle as int
        }) * (m.output_scale as int)) <= 64_800_000_000int) by (nonlinear_arith)
            requires
                0 <= angle <= 360_000,
                1 <= m.input_max_value <= 180_000,
                0 <= m.output_scale <= 180_000,
        ;
    }
    let c = if angle > m.input_max_value {
        m.input_max_value
    } else {
        angle
    };
    crate::fixed::div_trunc(c * m.output_scale, m.input_max_value)
}

/// Per-avatar gaze configuration: the offset of the gaze origin from the
/// head bone, the four angular range maps, and the application mode.
#[derive(Clone, Copy, Debug, PartialEq, Eq, Structural)]
pub struct LookAtProperties {
    pub offset_from_head_bone: Vec3,
    pub range_map_horizontal_inner: RangeMap,
    pub range_map_horizontal_outer: RangeMap,
    pub range_map_vertical_down: RangeMap,
    pub range_map_vertical_up: RangeMap,
    pub mode: LookAtType,
}

pub open spec fn look_at_props_wf(p: LookAtProperties) -> bool {
    &&& v3_bounded(p.offset_from_head_bone@, 100_000_000int)
    &&& range_map_wf(p.range_map_horizontal_inner)
    &&& range_map_wf(p.range_map_horizontal_outer)
    &&& range_map_wf(p.range_map_vertical_down)
    &&& range_map_wf(p.range_map_vertical_up)
}

/// The applied rotation of one eye, as yaw and pitch in millidegrees
/// (yaw first, then pitch, no roll).
#[derive(Clone, Copy, Debug, PartialEq, Eq, Structural)]
pub struct EyeAngles {
    pub yaw: i64,
    pub pitch: i64,
}

/// The left eye's mapped yaw: the outer map turning away from the nose
/// (positive yaw), the inner map turning toward it.
pub open spec fn left_eye_yaw_spec(p: LookAtProperties, yaw: int) -> int {
    if yaw > 0 {
        range_map_spec(p.range_map_horizontal_outer, yaw)
    } else {
        -range_map_spec(p.range_map_horizontal_inner, -yaw)
    }
}

/// The right eye's mapped yaw: inner and outer maps swapped against the
/// left eye.
pub open spec fn right_eye_yaw_spec(p: LookAtProperties, yaw: int) -> int {
    if yaw > 0 {
        range_map_spec(p.range_map_horizontal_inner, yaw)
    } else {
        -range_map_spec(p.range_map_horizontal_outer, -yaw)
    }
}

/// The mapped pitch, identical for both eyes: the down map for positive
/// pitch, the up map for negative.
pub open spec fn eye_pitch_spec(p: LookAtProperties, pitch: int) -> int {
    if pitch > 0 {
        range_map_spec(p.range_map_vertical_down, pitch)
    } else {
        -range_map_spec(p.range_map_vertical_up, -pitch)
    }
}

/// Binocular mirroring: the right eye's yaw map is the left eye's under
/// yaw negation — a positive yaw is "outer" for the left eye exactly when
/// it is "inner" for the right.
pub proof fn lemma_eye_mirror(p: LookAtProperties, yaw: int)
    requires
        look_at_props_wf(p),
    ensures
        right_eye_yaw_spec(p, yaw) == -left_eye_yaw_spec(p, -yaw),
{
    if yaw == 0 {
        lemma_range_map_zero(p.range_map_horizontal_inner);
        lemma_range_map_zero(p.range_map_horizontal_outer);
    }
}

/// The mapped rotation of the left eye.
pub fn apply_left_eye_bone(p: &LookAtProperties, yaw: i64, pitch: i64) -> (r: EyeAngles)
    requires
        look_at_props_wf(*p),
        -HALF_TURN_MDEG <= yaw <= HALF_TURN_MDEG,
        -HALF_TURN_MDEG <= pitch <= HALF_TURN_MDEG,
    ensures
        r.yaw == left_eye_yaw_spec(*p, yaw as int),
        r.pitch == eye_pitch_spec(*p, pitch as int),
{
    let y = if yaw > 0 {
        apply_range_map(&p.range_map_horizontal_outer, yaw)
    } else {
        -apply_range_map(&p.range_map_horizontal_inner, -yaw)
    };
    let pt = if pitch > 0 {
        apply_range_map(&p.range_map_vertical_down, pitch)
    } else {
        -apply_range_map(&p.range_map_vertical_up, -pitch)
    };
    EyeAngles { yaw: y, pitch: pt }
}

/// The mapped rotation of the right eye.
pub fn apply_right_eye_bone(p: &LookAtProperties, yaw: i64, pitch: i64) -> (r: EyeAngles)
    requires
        look_at_props_wf(*p),
        -HALF_TURN_MDEG <= yaw <= HALF_TURN_MDEG,
        -HALF_TURN_MDEG <= pitch <= HALF_TURN_MDEG,
    ensures
        r.yaw == right_eye_yaw_spec(*p, yaw as int),
        r.pitch == eye_pitch_spec(*p, pitch as int),
{
    let y = if yaw > 0 {
        apply_range_map(&p.range_map_horizontal_inner, yaw)
    } else {
        -apply_range_map(&p.range_map_horizontal_outer, -yaw)
    };
    let pt = if pitch > 0 {
        apply_range_map(&p.range_map_vertical_down, pitch)
    } else {
        -apply_range_map(&p.range_map_vertical_up, -pitch)
    };
    EyeAngles { yaw: y, pitch: pt }
}

/// The look-at space this tick: anchored at the head, offset by the fixed
/// local offset, rotated by the inverse of the head's current local
/// rotation so its axes stay aligned with the avatar's rest pose.
pub open spec fn look_at_space_spec(head_world: T3, head_local_rot: crate::quat::Q4, offset: V3) -> T3 {
    t3_compose(head_world, T3 { rot: q4_conj(head_local_rot), pos: offset })
}

/// Recomputes the look-at space from the head's current transforms.
pub fn compute_look_at_space(head_world: Transform3, head_local_rot: Quat, offset: Vec3) -> (r:
    Transform3)
    requires
        t3_wf(head_world@),
        v3_bounded(head_world@.pos, WORLD_POS_MAX as int),
        q4_wf(head_local_rot@),
        v3_bounded(offset@, 100_000_000int),
    ensures
        r@ == look_at_space_spec(head_world@, head_local_rot@, offset@),
        t3_wf(r@),
        v3_bounded(r@.pos, 1_400_000_000int),
{
    proof {
        lemma_q4_rotate_bounded(head_world@.rot, offset@, 100_000_000int);
    }
    head_world.compose(Transform3 { rot: head_local_rot.conj(), pos: offset })
}

/// The yaw and pitch of the target in the look-at space's local frame:
/// yaw about the vertical axis toward positive x, pitch positive looking
/// down.
pub open spec fn yaw_pitch_spec(space: T3, target: V3) -> (int, int) {
    let local = t3_apply_inv(space, target);
    let yaw = atan2_mdeg_spec(local.x, local.z);
    let xz = isqrt_spec(local.x * local.x + local.z * local.z);
    let pitch = -atan2_mdeg_spec(local.y, xz);
    (yaw, pitch)
}

/// Computes the gaze angles of a world-space target.
pub fn calc_yaw_pitch(space: Transform3, target: Vec3) -> (r: (i64, i64))
    requires
        t3_wf(space@),
        v3_bounded(space@.pos, 2_000_000_000int),
        v3_bounded(target@, 2_000_000_000int),
    ensures
        r.0 == yaw_pitch_spec(space@, target@).0,
        r.1 == yaw_pitch_spec(space@, target@).1,
        -HALF_TURN_MDEG <= r.0 <= HALF_TURN_MDEG,
        -HALF_TURN_MDEG <= r.1 <= HALF_TURN_MDEG,
{
    proof {
        assert(q4_norm_sq(q4_conj(space@.rot)) == q4_norm_sq(space@.rot)) by (nonlinear_arith);
        lemma_q4_rotate_bounded(q4_conj(space@.rot), v3_sub(target@, space@.pos), 4_000_000_000int);
    }
    let local = space.apply_inv(target);
    proof {
        lemma_mul_le(local@.x, local@.x, 16_000_000_000int, 16_000_000_000int);
        lemma_mul_le(local@.z, local@.z, 16_000_000_000int, 16_000_000_000int);
        assert(local@.x * local@.x >= 0 && local@.z * local@.z >= 0) by (nonlinear_arith);
        assert(16_000_000_000int * 16_000_000_000int == 256_000_000_000_000_000_000int)
            by (nonlinear_arith);
    }
    let xz2: i128 = (local.x as i128) * (local.x as i128) + (local.z as i128) * (local.z as i128);
    let xz = isqrt(xz2);
    proof {
        crate::fixed::lemma_isqrt_bounds(xz2 as int);
        assert(isqrt_spec(xz2 as int) <= 30_000_000_000int) by (nonlinear_arith)
            requires
                isqrt_spec(xz2 as int) * isqrt_spec(xz2 as int) <= xz2,
                0 <= isqrt_spec(xz2 as int),
                xz2 <= 512_000_000_000_000_000_000int,
        ;
        lemma_atan2_range(local@.y, xz2 as int);
    }
    let yaw = atan2_mdeg(local.x, local.z);
    let pitch = -atan2_mdeg(local.y, xz as i64);
    (yaw, pitch)
}

/// The reason gaze could not be applied.
#[derive(Clone, Copy, Debug, PartialEq, Eq, Structural)]
pub enum GazeError {
    /// Expression-mode gaze drives blend-shape weights instead of bones;
    /// no behaviour is defined for it here, so it fails loudly rather than
    /// producing wrong output.
    ExpressionUnsupported,
}

/// One gaze solve: recomputes the look-at space from the head's current
/// transforms, takes the target's yaw and pitch in that frame, and maps
/// them onto both eye bones.  Expression mode is unsupported and is
/// rejected, never silently mis-applied.
pub fn track_looking_target(
    head_world: Transform3,
    head_local_rot: Quat,
    props: &LookAtProperties,
    target_world: Vec3,
) -> (r: Result<(EyeAngles, EyeAngles), GazeError>)
    requires
        t3_wf(head_world@),
        v3_bounded(head_world@.pos, WORLD_POS_MAX as int),
        q4_wf(head_local_rot@),
        look_at_props_wf(*props),
        v3_bounded(target_world@, 2_000_000_000int),
    ensures
        (r is Err) <==> props.mode == LookAtType::Expression,
        r matches Ok(eyes) ==> ({
            let space = look_at_space_spec(head_world@, head_local_rot@,
                props.offset_from_head_bone@);
            let angles = yaw_pitch_spec(space, target_world@);
            &&& eyes.0.yaw == left_eye_yaw_spec(*props, angles.0)
            &&& eyes.0.pitch == eye_pitch_spec(*props, angles.1)
            &&& eyes.1.yaw == right_eye_yaw_spec(*props, angles.0)
            &&& eyes.1.pitch == eye_pitch_spec(*props, angles.1)
        }),
        r matches Err(e) ==> e == GazeError::ExpressionUnsupported,
{
    if matches!(props.mode, LookAtType::Expression) {
        return Err(GazeError::ExpressionUnsupported);
    }
    let space = compute_look_at_space(head_world, head_local_rot, props.offset_from_head_bone);
    let (yaw, pitch) = calc_yaw_pitch(space, target_world);
    let left = apply_left_eye_bone(props, yaw, pitch);
    let right = apply_right_eye_bone(props, yaw, pitch);
    Ok((left, right))
}

/// A target straight ahead in the look-at space (on the positive forward
/// axis) yields zero yaw, zero pitch, and both eyes at their rest
/// rotation: a zero-degree correction.
pub proof fn lemma_forward_target_zero(p: LookAtProperties, local: V3)
    requires
        look_at_props_wf(p),
        local.x == 0,
        local.y == 0,
        local.z >= 1,
    ensures
        atan2_mdeg_spec(local.x, local.z) == 0,
        -atan2_mdeg_spec(local.y, isqrt_spec(local.x * local.x + local.z * local.z)) == 0,
        left_eye_yaw_spec(p, 0) == 0,
        right_eye_yaw_spec(p, 0) == 0,
        eye_pitch_spec(p, 0) == 0,
{
    lemma_atan2_range(local.x, local.z);
    assert(local.x * local.x == 0 && local.z * local.z >= 1) by (nonlinear_arith)
        requires
            local.x == 0,
            local.z >= 1,
    ;
    let n = local.x * local.x + local.z * local.z;
    crate::fixed::lemma_isqrt_bounds(n);
    assert(isqrt_spec(n) >= 1) by (nonlinear_arith)
        requires
            n < (isqrt_spec(n) + 1) * (isqrt_spec(n) + 1),
            0 <= isqrt_spec(n),
            n >= 1,
    ;
    lemma_atan2_range(local.y, isqrt_spec(n));
    lemma_range_map_zero(p.range_map_horizontal_inner);
    lemma_range_map_zero(p.range_map_horizontal_outer);
    lemma_range_map_zero(p.range_map_vertical_up);
}

/// Ray-plane intersection for cursor gaze: the pointer ray meets the gaze
/// plane anchored one unit behind the head, facing the head's forward
/// axis.  No hit — a parallel ray, a plane behind the ray, or a hit
/// outside the supported coordinate range — yields nothing, and gaze is
/// simply skipped for the tick.
pub open spec fn intersect_ray_plane_spec(ro: V3, rd: V3, po: V3, n: V3) -> Option<V3> {
    let num = v3_dot(v3_sub(po, ro), n);
    let den = v3_dot(rd, n);
    if den == 0 {
        None
    } else {
        let t = if den > 0 {
            sdiv(num * (SCALE as int), den)
        } else {
            sdiv(-num * (SCALE as int), -den)
        };
        if t <= 0 || t > 4_000_000_000_000int {
            None
        } else {
            let p = v3_add(ro, v3_scale_frac(rd, t));
            if v3_bounded(p, 100_000_000_000int) {
                Some(p)
            } else {
                None
            }
        }
    }
}

/// Intersects the pointer ray with the gaze plane.
pub fn intersect_ray_plane(ro: Vec3, rd: Vec3, po: Vec3, n: Vec3) -> (r: Option<Vec3>)
    requires
        v3_bounded(ro@, 2_000_000_000int),
        v3_bounded(po@, 2_000_000_000int),
        v3_bounded(rd@, 8_000_000int),
        v3_bounded(n@, 8_000_000int),
    ensures
        match r {
            Some(p) => Some(p@) == intersect_ray_plane_spec(ro@, rd@, po@, n@),
            None => intersect_ray_plane_spec(ro@, rd@, po@, n@) is None,
        },
{
    let num = po.sub(ro).dot(n);
    let den = rd.dot(n);
    if den == 0 {
        return None;
    }
    proof {
        assert(iabs(v3_dot(v3_sub(po@, ro@), n@)) <= 96_000_000_000_000_000int
            && iabs(v3_dot(rd@, n@)) <= 192_000_000_000_000int) by (nonlinear_arith)
            requires
                v3_bounded(ro@, 2_000_000_000int),
                v3_bounded(po@, 2_000_000_000int),
                v3_bounded(rd@, 8_000_000int),
                v3_bounded(n@, 8_000_000int),
                v3_dot(v3_sub(po@, ro@), n@) == (po@.x - ro@.x) * n@.x + (po@.y - ro@.y) * n@.y + (
                po@.z - ro@.z) * n@.z,
                v3_dot(rd@, n@) == rd@.x * n@.x + rd@.y * n@.y + rd@.z * n@.z,
        ;
    }
    proof {
        assert(iabs((num as int) * (SCALE as int)) <= 96_000_000_000_000_000_000_000int
            && iabs((-num as int) * (SCALE as int)) <= 96_000_000_000_000_000_000_000int)
            by (nonlinear_arith)
            requires
                iabs(num as int) <= 96_000_000_000_000_000int,
                SCALE == 1_000_000,
        ;
    }
    let t: i128 = if den > 0 {
        div_trunc128(num * (SCALE as i128), den)
    } else {
        div_trunc128(-num * (SCALE as i128), -den)
    };
    if t <= 0 || t > 4_000_000_000_000i128 {
        return None;
    }
    proof {
        crate::vec3::lemma_scale_frac_bounded(
            rd@,
            t as int,
            8_000_000int,
            4_000_000_000_000int,
            32_000_000_000_000int,
        );
        assert(8_000_000int * 4_000_000_000_000int <= (SCALE as int) * 32_000_000_000_000int)
            by (nonlinear_arith)
            requires
                SCALE == 1_000_000,
        ;
    }
    let p = ro.add(rd.scale_frac(t as i64));
    if -100_000_000_000 <= p.x && p.x <= 100_000_000_000 && -100_000_000_000 <= p.y && p.y
        <= 100_000_000_000 && -100_000_000_000 <= p.z && p.z <= 100_000_000_000 {
        Some(p)
    } else {
        None
    }
}

} // verus!
