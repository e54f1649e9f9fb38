//! Animation playback commands and the per-avatar playback decision: when
//! one clip is asked to play, every sibling clip of the same avatar stops.
//! The host performs the resulting actions on its players.

use vstd::prelude::*;

verus! {

/// The command to play an avatar's animation clip.
#[derive(Debug, Clone, Copy, PartialEq, Eq, Structural)]
pub struct PlayVrma {
    /// Whether to loop the animation.
    pub repeat: bool,
}

/// The command to stop an avatar's animation clips.
#[derive(Debug, Clone, Copy, PartialEq, Eq, Structural)]
pub struct StopVrma;

/// What the host should do with one clip's player.
#[derive(Debug, Clone, Copy, PartialEq, Eq, Structural)]
pub enum VrmaAction {
    Play { repeat: bool },
    Stop,
}

/// The action a play command assigns to one clip.
pub open spec fn play_action_spec(clip: u64, target: u64, repeat: bool) -> VrmaAction {
    if clip == target {
        VrmaAction::Play { repeat }
    } else {
        VrmaAction::Stop
    }
}

/// Decides, for a play command aimed at `target`, what happens to every
/// clip of the avatar: the target plays (with the requested looping), all
/// its siblings stop.
pub fn plan_play_animation(clips: &Vec<u64>, target: u64, cmd: &PlayVrma) -> (r: Vec<
    (u64, VrmaAction),
>)
    ensures
        r@.len() == clips@.len(),
        forall|i: int|
            0 <= i < clips@.len() ==> #[trigger] r@[i] == (
                clips@[i],
                play_action_spec(clips@[i], target, cmd.repeat),
            ),
{
    let n = clips.len();
    let mut out: Vec<(u64, VrmaAction)> = Vec::new();
    let mut i: usize = 0;
    while i < n
        invariant
            n == clips@.len(),
            0 <= i <= n,
            out@.len() == i,
            forall|k: int|
                0 <= k < i ==> #[trigger] out@[k] == (
                    clips@[k],
                    play_action_spec(clips@[k], target, cmd.repeat),
                ),
        decreases n - i,
    {
        let c = clips[i];
        if c == target {
            out.push((c, VrmaAction::Play { repeat: cmd.repeat }));
        } else {
            out.push((c, VrmaAction::Stop));
        }
        i = i + 1;
    }
    out
}

/// Decides, for a stop command, what happens to every clip: all stop.
pub fn plan_stop_animation(clips: &Vec<u64>) -> (r: Vec<(u64, VrmaAction)>)
    ensures
        r@.len() == clips@.len(),
        forall|i: int|
            0 <= i < clips@.len() ==> #[trigger] r@[i] == (clips@[i], VrmaAction::Stop),
{
    let n = clips.len();
    let mut out: Vec<(u64, VrmaAction)> = Vec::new();
    let mut i: usize = 0;
    while i < n
        invariant
            n == clips@.len(),
            0 <= i <= n,
            out@.len() == i,
            forall|k: int| 0 <= k < i ==> #[trigger] out@[k] == (clips@[k], VrmaAction::Stop),
        decreases n - i,
    {
        out.push((clips[i], VrmaAction::Stop));
        i = i + 1;
    }
    out
}

} // verus!
