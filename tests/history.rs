use std::collections::HashMap;

use sprite_anim::action::Action;
use sprite_anim::editor::EditorState;
use sprite_anim::geometry::Vec2;
use sprite_anim::model::{Animation, Frame, HitboxPos, ImageHandle, Timeline};

fn v(x: f32, y: f32) -> Vec2 {
    Vec2 { x: x.to_bits(), y: y.to_bits() }
}

fn handle(id: u64) -> ImageHandle {
    ImageHandle { id }
}

fn editor_with_frames(n: u64) -> EditorState {
    let mut e = EditorState::new();
    for i in 0..n {
        e.do_action(Action::AddFrame { image: handle(i + 1) });
    }
    e
}

fn snapshot(e: &EditorState) -> Vec<(u64, Vec2, Vec2, usize)> {
    (0..e.frame_count())
        .map(|i| {
            let f = e.frame(i);
            (f.image.id, f.offset, f.root_motion, f.delay)
        })
        .collect()
}

fn hitbox_frame(image: u64) -> Frame {
    let mut hitboxes = HashMap::new();
    hitboxes.insert(
        7,
        HitboxPos { id: 7, pos: v(-4.0, 4.0), size: v(8.0, 8.0), enabled: true },
    );
    Frame { image: handle(image), offset: v(0.0, 0.0), root_motion: v(0.0, 0.0), delay: 1, hitboxes }
}

#[test]
fn new_editor_is_empty_and_saved() {
    let e = EditorState::new();
    assert_eq!(e.frame_count(), 0);
    assert_eq!(e.history_len(), 0);
    assert!(!e.has_unsaved_changes());
    assert!(e.get_frame(0).is_none());
}

#[test]
fn add_frame_appends_default_frame() {
    let e = editor_with_frames(2);
    assert_eq!(e.frame_count(), 2);
    let f = e.frame(1);
    assert_eq!(f.image, handle(2));
    assert_eq!(f.offset, v(0.0, 0.0));
    assert_eq!(f.delay, 1);
    assert!(f.hitboxes.is_empty());
    assert!(e.has_unsaved_changes());
    assert_eq!(e.history_len(), 2);
}

#[test]
fn undo_all_restores_start() {
    let mut e = editor_with_frames(2);
    let before = snapshot(&e);
    let depth_before = e.history_len();
    e.do_action(Action::MoveSprite { frame_index: 0, from: v(0.0, 0.0), to: v(1.5, -2.0) });
    e.do_action(Action::ChangeDelay { index: 1, from: 1, to: 5 });
    e.do_action(Action::SwapFrames { a: 0, b: 1 });
    e.do_action(Action::SetMotionOffset { frame_index: 0, from: v(0.0, 0.0), to: v(3.0, 0.0) });
    e.do_action(Action::AddFrame { image: handle(9) });
    assert_eq!(e.history_len(), depth_before + 5);
    for _ in 0..5 {
        e.undo();
    }
    assert_eq!(snapshot(&e), before);
}

#[test]
fn undo_everything_gives_empty_animation() {
    let mut e = editor_with_frames(3);
    e.undo();
    e.undo();
    e.undo();
    assert_eq!(e.frame_count(), 0);
    e.undo();
    assert_eq!(e.undo_depth(), 3);
}

#[test]
fn redo_after_undo_restores_end() {
    let mut e = editor_with_frames(3);
    e.do_action(Action::MoveSprite { frame_index: 2, from: v(0.0, 0.0), to: v(4.0, 4.0) });
    e.do_action(Action::ChangeDelay { index: 0, from: 1, to: 3 });
    e.do_action(Action::SwapFrames { a: 0, b: 2 });
    let after = snapshot(&e);
    for _ in 0..3 {
        e.undo();
    }
    assert_ne!(snapshot(&e), after);
    for _ in 0..3 {
        e.redo();
    }
    assert_eq!(snapshot(&e), after);
    assert_eq!(e.undo_depth(), 0);
}

#[test]
fn new_action_after_undo_drops_redo() {
    let mut e = editor_with_frames(3);
    e.do_action(Action::ChangeDelay { index: 0, from: 1, to: 2 });
    e.undo();
    e.undo();
    assert_eq!(e.undo_depth(), 2);
    e.do_action(Action::ChangeDelay { index: 0, from: 1, to: 4 });
    assert_eq!(e.history_len(), 3);
    assert_eq!(e.undo_depth(), 0);
    let now = snapshot(&e);
    e.redo();
    assert_eq!(snapshot(&e), now);
    assert_eq!(e.frame_count(), 2);
    assert_eq!(e.frame(0).delay, 4);
}

#[test]
fn unchanged_edit_is_not_recorded() {
    let mut e = EditorState::new();
    let mut a = Animation::new();
    a.timeline = Timeline { frames: vec![Frame::new(handle(1))] };
    e.load(a);
    assert!(!e.has_unsaved_changes());
    e.do_action(Action::MoveSprite { frame_index: 0, from: v(0.0, 0.0), to: v(0.0, 0.0) });
    e.do_action(Action::MoveSprite { frame_index: 0, from: v(0.0, 0.0), to: v(-0.0, 0.0) });
    e.do_action(Action::ChangeDelay { index: 0, from: 1, to: 1 });
    e.do_action(Action::SwapFrames { a: 0, b: 0 });
    assert_eq!(e.history_len(), 0);
    assert!(!e.has_unsaved_changes());
}

#[test]
fn nan_move_is_recorded() {
    let mut e = editor_with_frames(1);
    let nan = v(f32::NAN, 0.0);
    e.do_action(Action::MoveSprite { frame_index: 0, from: v(0.0, 0.0), to: nan });
    e.do_action(Action::MoveSprite { frame_index: 0, from: nan, to: nan });
    assert_eq!(e.history_len(), 3);
}

#[test]
fn remove_current_last_frame_selects_new_last() {
    let mut e = editor_with_frames(3);
    e.select_frame(2);
    let frame = e.frame(2).duplicate();
    e.do_action(Action::RemoveFrame { frame, index: 2 });
    assert_eq!(e.frame_count(), 2);
    assert_eq!(e.current_frame(), 1);
    e.undo();
    assert_eq!(e.frame_count(), 3);
    assert_eq!(e.frame(2).image, handle(3));
    assert_eq!(e.current_frame(), 1);
}

#[test]
fn remove_only_frame_and_undo() {
    let mut e = editor_with_frames(1);
    let frame = e.frame(0).duplicate();
    e.do_action(Action::RemoveFrame { frame, index: 0 });
    assert_eq!(e.frame_count(), 0);
    assert_eq!(e.current_frame(), 0);
    e.undo();
    assert_eq!(e.frame_count(), 1);
    assert_eq!(e.current_frame(), 0);
}

#[test]
fn remove_before_current_shifts_selection() {
    let mut e = editor_with_frames(3);
    e.select_frame(2);
    let frame = e.frame(0).duplicate();
    e.do_action(Action::RemoveFrame { frame, index: 0 });
    assert_eq!(e.current_frame(), 1);
    assert_eq!(e.frame(0).image, handle(2));
    e.undo();
    assert_eq!(e.current_frame(), 2);
    assert_eq!(e.frame(0).image, handle(1));
}

#[test]
fn add_frame_clamps_out_of_range_selection() {
    let mut e = editor_with_frames(1);
    e.select_frame(5);
    e.do_action(Action::AddFrame { image: handle(4) });
    assert_eq!(e.current_frame(), 1);
}

#[test]
fn toggle_hitbox_twice_restores_geometry() {
    let mut a = Animation::new();
    a.timeline = Timeline { frames: vec![hitbox_frame(1)] };
    let mut e = EditorState::new();
    e.load(a);
    let before = *e.frame(0).hitbox(7);
    e.do_action(Action::ToggleHitboxEnabled { frame_index: 0, id: 7 });
    assert!(!e.frame(0).is_hitbox_enabled(7));
    assert_eq!(e.frame(0).hitbox(7).pos, before.pos);
    e.do_action(Action::ToggleHitboxEnabled { frame_index: 0, id: 7 });
    assert_eq!(*e.frame(0).hitbox(7), before);
    assert!(e.frame(0).is_hitbox_enabled(7));
}

#[test]
fn move_and_resize_hitbox_undo() {
    let mut a = Animation::new();
    a.timeline = Timeline { frames: vec![hitbox_frame(1)] };
    let mut e = EditorState::new();
    e.load(a);
    e.do_action(Action::MoveHitbox { frame_index: 0, id: 7, from: v(-4.0, 4.0), to: v(1.0, 1.0) });
    e.do_action(Action::ResizeHitbox { frame_index: 0, id: 7, from: v(8.0, 8.0), to: v(2.0, 3.0) });
    assert_eq!(e.frame(0).hitbox(7).pos, v(1.0, 1.0));
    assert_eq!(e.frame(0).hitbox(7).size, v(2.0, 3.0));
    e.undo();
    assert_eq!(e.frame(0).hitbox(7).size, v(8.0, 8.0));
    e.undo();
    assert_eq!(e.frame(0).hitbox(7).pos, v(-4.0, 4.0));
}

#[test]
fn create_hitbox_and_undo() {
    let mut e = EditorState::new();
    e.do_action(Action::CreateHitbox { id: 0, desc: "Hitbox 0".to_string() });
    let def = e.animation().hitboxes.get(&0).unwrap();
    assert_eq!(def.desc, "Hitbox 0");
    assert!(!def.is_hurtbox);
    e.undo();
    assert!(e.animation().hitboxes.is_empty());
    e.redo();
    assert_eq!(e.animation().hitboxes.len(), 1);
}

#[test]
fn undo_and_redo_at_edges_do_nothing() {
    let mut e = EditorState::new();
    e.undo();
    e.redo();
    assert!(!e.has_unsaved_changes());
    assert_eq!(e.history_len(), 0);
}

#[test]
fn mark_saved_clears_dirty_flag() {
    let mut e = editor_with_frames(1);
    assert!(e.has_unsaved_changes());
    e.mark_saved();
    assert!(!e.has_unsaved_changes());
    e.undo();
    assert!(e.has_unsaved_changes());
}

#[test]
fn playback_advances_after_delay_and_wraps() {
    let mut e = editor_with_frames(2);
    e.do_action(Action::ChangeDelay { index: 0, from: 1, to: 2 });
    e.select_frame(0);
    let shown = e.playback_tick(0);
    assert_eq!((e.current_frame(), shown), (0, 1));
    let shown = e.playback_tick(shown);
    assert_eq!((e.current_frame(), shown), (1, 0));
    let shown = e.playback_tick(shown);
    assert_eq!((e.current_frame(), shown), (0, 0));
}

#[test]
fn playback_restarts_out_of_range_selection() {
    let mut e = editor_with_frames(3);
    e.select_frame(9);
    let shown = e.playback_tick(0);
    assert_eq!((e.current_frame(), shown), (1, 0));
    let mut empty = EditorState::new();
    assert_eq!(empty.playback_tick(4), 4);
    assert_eq!(empty.current_frame(), 0);
}
