//! Playback planning: playing one clip stops its siblings; a stop command
//! stops everything.

use vrm_core::animation::{plan_play_animation, plan_stop_animation, PlayVrma, VrmaAction};

#[test]
fn play_vrma() {
    let clips: Vec<u64> = vec![7];
    let plan = plan_play_animation(&clips, 7, &PlayVrma { repeat: false });
    assert_eq!(plan, vec![(7, VrmaAction::Play { repeat: false })]);
}

#[test]
fn stop_others() {
    let clips: Vec<u64> = vec![7, 9];
    let plan = plan_play_animation(&clips, 7, &PlayVrma { repeat: true });
    assert_eq!(plan[0], (7, VrmaAction::Play { repeat: true }));
    assert_eq!(plan[1], (9, VrmaAction::Stop));
}

#[test]
fn stop_vrma() {
    let clips: Vec<u64> = vec![7, 9];
    let plan = plan_stop_animation(&clips);
    assert_eq!(plan, vec![(7, VrmaAction::Stop), (9, VrmaAction::Stop)]);
}
