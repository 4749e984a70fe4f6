use vstd::prelude::*;

use crate::geometry::Vec2;
use crate::model::{
    fresh_frame, swapped, Animation, AnimationView, Frame, FrameView, Hitbox, HitboxPos,
    ImageHandle,
};

verus! {

/// One reversible edit of an animation. Each variant holds what it needs to be
/// applied and to be undone, so neither direction recomputes anything.
#[allow(inconsistent_fields)]
pub enum Action {
    RemoveFrame { frame: Frame, index: usize },
    ChangeDelay { index: usize, from: usize, to: usize },
    AddFrame { image: ImageHandle },
    MoveSprite { frame_index: usize, from: Vec2, to: Vec2 },
    SetMotionOffset { frame_index: usize, from: Vec2, to: Vec2 },
    SwapFrames { a: usize, b: usize },
    CreateHitbox { id: usize, desc: String },
    MoveHitbox { frame_index: usize, id: usize, from: Vec2, to: Vec2 },
    ResizeHitbox { frame_index: usize, id: usize, from: Vec2, to: Vec2 },
    ToggleHitboxEnabled { frame_index: usize, id: usize },
}

/// `cur` held to the last index of a timeline of `len` frames, unless the
/// timeline is empty.
pub open spec fn clamp_index(cur: usize, len: nat) -> usize {
    if cur >= len && len != 0 {
        (len - 1) as usize
    } else {
        cur
    }
}

/// Whether frame `i` exists and has hitbox `id`.
pub open spec fn has_hitbox_at(m: AnimationView, i: usize, id: usize) -> bool {
    i < m.frames.len() && m.frames[i as int].hitboxes.contains_key(id)
}

/// `m` with frame `i` replaced by `f`.
pub open spec fn with_frame(m: AnimationView, i: usize, f: FrameView) -> AnimationView {
    AnimationView { frames: m.frames.update(i as int, f), ..m }
}

/// `m` with the hitbox `id` of frame `i` replaced by `h`.
pub open spec fn with_hitbox(m: AnimationView, i: usize, id: usize, h: HitboxPos) -> AnimationView {
    with_frame(
        m,
        i,
        FrameView { hitboxes: m.frames[i as int].hitboxes.insert(id, h), ..m.frames[i as int] },
    )
}

/// The hitbox `id` of frame `i`.
pub open spec fn hitbox_at(m: AnimationView, i: usize, id: usize) -> HitboxPos {
    m.frames[i as int].hitboxes[id]
}

/// The definition that creating hitbox `id` adds.
pub open spec fn new_definition(id: usize, desc: String) -> Hitbox {
    Hitbox { id, desc, is_hurtbox: false }
}

impl Action {
    /// Whether the action fits the animation it is applied to: its frames and
    /// hitboxes exist, and its starting values are the animation's.
    pub open spec fn applicable(&self, m: AnimationView) -> bool {
        let n = m.frames.len();
        match *self {
            Action::RemoveFrame { frame, index } => index < n && m.frames[index as int] == frame@,
            Action::ChangeDelay { index, from, to } => index < n && m.frames[index as int].delay
                == from,
            Action::AddFrame { image } => n < usize::MAX,
            Action::MoveSprite { frame_index, from, to } => frame_index < n
                && m.frames[frame_index as int].offset == from,
            Action::SetMotionOffset { frame_index, from, to } => frame_index < n
                && m.frames[frame_index as int].root_motion == from,
            Action::SwapFrames { a, b } => a < n && b < n,
            Action::CreateHitbox { id, desc } => !m.hitboxes.contains_key(id),
            Action::MoveHitbox { frame_index, id, from, to } => has_hitbox_at(m, frame_index, id)
                && hitbox_at(m, frame_index, id).pos == from,
            Action::ResizeHitbox { frame_index, id, from, to } => has_hitbox_at(
                m,
                frame_index,
                id,
            ) && hitbox_at(m, frame_index, id).size == from,
            Action::ToggleHitboxEnabled { frame_index, id } => has_hitbox_at(m, frame_index, id),
        }
    }

    /// The animation after the action.
    pub open spec fn apply_to(&self, m: AnimationView) -> AnimationView {
        match *self {
            Action::RemoveFrame { frame, index } => AnimationView {
                frames: m.frames.remove(index as int),
                ..m
            },
            Action::ChangeDelay { index, from, to } => with_frame(
                m,
                index,
                FrameView { delay: to, ..m.frames[index as int] },
            ),
            Action::AddFrame { image } => AnimationView {
                frames: m.frames.push(fresh_frame(image)),
                ..m
            },
            Action::MoveSprite { frame_index, from, to } => with_frame(
                m,
                frame_index,
                FrameView { offset: to, ..m.frames[frame_index as int] },
            ),
            Action::SetMotionOffset { frame_index, from, to } => with_frame(
                m,
                frame_index,
                FrameView { root_motion: to, ..m.frames[frame_index as int] },
            ),
            Action::SwapFrames { a, b } => AnimationView {
                frames: swapped(m.frames, a as int, b as int),
                ..m
            },
            Action::CreateHitbox { id, desc } => AnimationView {
                hitboxes: m.hitboxes.insert(id, new_definition(id, desc)),
                ..m
            },
            Action::MoveHitbox { frame_index, id, from, to } => with_hitbox(
                m,
                frame_index,
                id,
                HitboxPos { pos: to, ..hitbox_at(m, frame_index, id) },
            ),
            Action::ResizeHitbox { frame_index, id, from, to } => with_hitbox(
                m,
                frame_index,
                id,
                HitboxPos { size: to, ..hitbox_at(m, frame_index, id) },
            ),
            Action::ToggleHitboxEnabled { frame_index, id } => with_hitbox(
                m,
                frame_index,
                id,
                HitboxPos {
                    enabled: !hitbox_at(m, frame_index, id).enabled,
                    ..hitbox_at(m, frame_index, id)
                },
            ),
        }
    }

    /// Whether the action can be undone on `m`: what it names still exists,
    /// and an added frame is still last.
    pub open spec fn reversible(&self, m: AnimationView) -> bool {
        let n = m.frames.len();
        match *self {
            Action::RemoveFrame { frame, index } => index <= n && n < usize::MAX,
            Action::ChangeDelay { index, from, to } => index < n,
            Action::AddFrame { image } => n > 0 && m.frames.last().image == image,
            Action::MoveSprite { frame_index, from, to } => frame_index < n,
            Action::SetMotionOffset { frame_index, from, to } => frame_index < n,
            Action::SwapFrames { a, b } => a < n && b < n,
            Action::CreateHitbox { id, desc } => true,
            Action::MoveHitbox { frame_index, id, from, to } => has_hitbox_at(m, frame_index, id),
            Action::ResizeHitbox { frame_index, id, from, to } => has_hitbox_at(
                m,
                frame_index,
                id,
            ),
            Action::ToggleHitboxEnabled { frame_index, id } => has_hitbox_at(m, frame_index, id),
        }
    }

    /// The animation after the action is undone.
    pub open spec fn reverse_on(&self, m: AnimationView) -> AnimationView {
        match *self {
            Action::RemoveFrame { frame, index } => AnimationView {
                frames: m.frames.insert(index as int, frame@),
                ..m
            },
            Action::ChangeDelay { index, from, to } => with_frame(
                m,
                index,
                FrameView { delay: from, ..m.frames[index as int] },
            ),
            Action::AddFrame { image } => AnimationView { frames: m.frames.drop_last(), ..m },
            Action::MoveSprite { frame_index, from, to } => with_frame(
                m,
                frame_index,
                FrameView { offset: from, ..m.frames[frame_index as int] },
            ),
            Action::SetMotionOffset { frame_index, from, to } => with_frame(
                m,
                frame_index,
                FrameView { root_motion: from, ..m.frames[frame_index as int] },
            ),
            Action::SwapFrames { a, b } => AnimationView {
                frames: swapped(m.frames, a as int, b as int),
                ..m
            },
            Action::CreateHitbox { id, desc } => AnimationView {
                hitboxes: m.hitboxes.remove(id),
                ..m
            },
            Action::MoveHitbox { frame_index, id, from, to } => with_hitbox(
                m,
                frame_index,
                id,
                HitboxPos { pos: from, ..hitbox_at(m, frame_index, id) },
            ),
            Action::ResizeHitbox { frame_index, id, from, to } => with_hitbox(
                m,
                frame_index,
                id,
                HitboxPos { size: from, ..hitbox_at(m, frame_index, id) },
            ),
            Action::ToggleHitboxEnabled { frame_index, id } => with_hitbox(
                m,
                frame_index,
                id,
                HitboxPos {
                    enabled: !hitbox_at(m, frame_index, id).enabled,
                    ..hitbox_at(m, frame_index, id)
                },
            ),
        }
    }

    /// The current frame after the action, on a timeline that now has `len` frames.
    pub open spec fn frame_after_apply(&self, cur: usize, len: nat) -> usize {
        match *self {
            Action::RemoveFrame { frame, index } => clamp_index(
                if index < cur {
                    (cur - 1) as usize
                } else {
                    cur
                },
                len,
            ),
            Action::AddFrame { image } => clamp_index(cur, len),
            _ => cur,
        }
    }

    /// The current frame after the action is undone, on a timeline that now
    /// has `len` frames. A frame put back at or before the current one moves
    /// it on by one, unless the timeline held no frame before.
    pub open spec fn frame_after_reverse(&self, cur: usize, len: nat) -> usize {
        match *self {
            Action::RemoveFrame { frame, index } => if cur >= index && len != 1 && cur
                < usize::MAX {
                (cur + 1) as usize
            } else {
                cur
            },
            Action::AddFrame { image } => clamp_index(cur, len),
            _ => cur,
        }
    }

    /// Whether the action changes anything worth recording: an edit whose
    /// start and end are equal does not.
    pub open spec fn warrants(&self) -> bool {
        match *self {
            Action::RemoveFrame { .. } => true,
            Action::ChangeDelay { index, from, to } => from != to,
            Action::AddFrame { .. } => true,
            Action::MoveSprite { frame_index, from, to } => !from.same_as(to),
            Action::SetMotionOffset { frame_index, from, to } => !from.same_as(to),
            Action::SwapFrames { a, b } => a != b,
            Action::CreateHitbox { .. } => true,
            Action::MoveHitbox { frame_index, id, from, to } => !from.same_as(to),
            Action::ResizeHitbox { frame_index, id, from, to } => !from.same_as(to),
            Action::ToggleHitboxEnabled { .. } => true,
        }
    }

    pub fn warrants_action(&self) -> (r: bool)
        ensures
            r == self.warrants(),
    {
        match self {
            Action::RemoveFrame { .. } => true,
            Action::ChangeDelay { index, from, to } => *from != *to,
            Action::AddFrame { .. } => true,
            Action::MoveSprite { frame_index, from, to } => !from.equals(to),
            Action::SetMotionOffset { frame_index, from, to } => !from.equals(to),
            Action::SwapFrames { a, b } => *a != *b,
            Action::CreateHitbox { .. } => true,
            Action::MoveHitbox { frame_index, id, from, to } => !from.equals(to),
            Action::ResizeHitbox { frame_index, id, from, to } => !from.equals(to),
            Action::ToggleHitboxEnabled { .. } => true,
        }
    }

    /// Applies the action to `anim`, moving `current_frame` as the edit asks.
    pub fn apply(&self, anim: &mut Animation, current_frame: &mut usize)
        requires
            self.applicable(old(anim)@),
        ensures
            final(anim)@ == self.apply_to(old(anim)@),
            *final(current_frame) == self.frame_after_apply(
                *old(current_frame),
                final(anim)@.frames.len(),
            ),
    {
        match self {
            Action::RemoveFrame { frame, index } => {
                let _removed = anim.timeline.remove_frame(*index);
                if *index < *current_frame {
                    *current_frame = *current_frame - 1;
                }
                let len = anim.timeline.frame_count();
                if *current_frame >= len && len != 0 {
                    *current_frame = len - 1;
                }
            },
            Action::ChangeDelay { index, from, to } => {
                let f = anim.timeline.frame_mut(*index);
                f.delay = *to;
            },
            Action::AddFrame { image } => {
                anim.timeline.push_frame(Frame::new(*image));
                let len = anim.timeline.frame_count();
                if *current_frame >= len {
                    *current_frame = len - 1;
                }
            },
            Action::MoveSprite { frame_index, from, to } => {
                let f = anim.timeline.frame_mut(*frame_index);
                f.offset = *to;
            },
            Action::SetMotionOffset { frame_index, from, to } => {
                let f = anim.timeline.frame_mut(*frame_index);
                f.root_motion = *to;
            },
            Action::SwapFrames { a, b } => {
                anim.timeline.swap_frames(*a, *b);
            },
            Action::CreateHitbox { id, desc } => {
                anim.hitboxes.insert(*id, Hitbox { id: *id, desc: desc.clone(), is_hurtbox: false });
            },
            Action::MoveHitbox { frame_index, id, from, to } => {
                let f = anim.timeline.frame_mut(*frame_index);
                let mut h = *f.hitbox(*id);
                h.pos = *to;
                f.set_hitbox(*id, h);
            },
            Action::ResizeHitbox { frame_index, id, from, to } => {
                let f = anim.timeline.frame_mut(*frame_index);
                let mut h = *f.hitbox(*id);
                h.size = *to;
                f.set_hitbox(*id, h);
            },
            Action::ToggleHitboxEnabled { frame_index, id } => {
                let f = anim.timeline.frame_mut(*frame_index);
                let mut h = *f.hitbox(*id);
                h.enabled = !h.enabled;
                f.set_hitbox(*id, h);
            },
        }
    }

    /// Undoes the action on `anim`, moving `current_frame` as the edit asks.
    pub fn reverse(&self, anim: &mut Animation, current_frame: &mut usize)
        requires
            self.reversible(old(anim)@),
        ensures
            final(anim)@ == self.reverse_on(old(anim)@),
            *final(current_frame) == self.frame_after_reverse(
                *old(current_frame),
                final(anim)@.frames.len(),
            ),
    {
        match self {
            Action::RemoveFrame { frame, index } => {
                anim.timeline.insert_frame(*index, frame.duplicate());
                if *current_frame >= *index && anim.timeline.frame_count() != 1 && *current_frame
                    < usize::MAX {
                    *current_frame = *current_frame + 1;
                }
            },
            Action::ChangeDelay { index, from, to } => {
                let f = anim.timeline.frame_mut(*index);
                f.delay = *from;
            },
            Action::AddFrame { image } => {
                let _removed = anim.timeline.pop_frame();
                let len = anim.timeline.frame_count();
                if *current_frame >= len && len != 0 {
                    *current_frame = len - 1;
                }
            },
            Action::MoveSprite { frame_index, from, to } => {
                let f = anim.timeline.frame_mut(*frame_index);
                f.offset = *from;
            },
            Action::SetMotionOffset { frame_index, from, to } => {
                let f = anim.timeline.frame_mut(*frame_index);
                f.root_motion = *from;
            },
            Action::SwapFrames { a, b } => {
                anim.timeline.swap_frames(*a, *b);
            },
            Action::CreateHitbox { id, desc } => {
                anim.hitboxes.remove(id);
            },
            Action::MoveHitbox { frame_index, id, from, to } => {
                let f = anim.timeline.frame_mut(*frame_index);
                let mut h = *f.hitbox(*id);
                h.pos = *from;
                f.set_hitbox(*id, h);
            },
            Action::ResizeHitbox { frame_index, id, from, to } => {
                let f = anim.timeline.frame_mut(*frame_index);
                let mut h = *f.hitbox(*id);
                h.size = *from;
                f.set_hitbox(*id, h);
            },
            Action::ToggleHitboxEnabled { frame_index, id } => {
                let f = anim.timeline.frame_mut(*frame_index);
                let mut h = *f.hitbox(*id);
                h.enabled = !h.enabled;
                f.set_hitbox(*id, h);
            },
        }
    }
}

/// An action that fits an animation can be undone right after it is applied,
/// and undoing it gives back that animation.
pub proof fn lemma_reverse_undoes_apply(a: Action, m: AnimationView)
    requires
        a.applicable(m),
        m.frames.len() <= usize::MAX,
    ensures
        a.apply_to(m).frames.len() <= usize::MAX,
        a.reversible(a.apply_to(m)),
        a.reverse_on(a.apply_to(m)) == m,
{
    let m2 = a.apply_to(m);
    match a {
        Action::RemoveFrame { index, .. } => {
            assert(m2.frames.insert(index as int, m.frames[index as int]) =~= m.frames);
        },
        Action::AddFrame { image } => {
            assert(m2.frames.drop_last() =~= m.frames);
        },
        Action::SwapFrames { a: i, b: j } => {
            assert(swapped(m2.frames, i as int, j as int) =~= m.frames);
        },
        Action::CreateHitbox { id, .. } => {
            assert(m2.hitboxes.remove(id) =~= m.hitboxes);
        },
        Action::MoveHitbox { frame_index, id, .. } => {
            assert(m2.frames[frame_index as int].hitboxes.insert(id, hitbox_at(m, frame_index, id))
                =~= m.frames[frame_index as int].hitboxes);
            assert(m2.frames.update(frame_index as int, m.frames[frame_index as int]) =~= m.frames);
        },
        Action::ChangeDelay { index, .. } => {
            assert(m2.frames.update(index as int, m.frames[index as int]) =~= m.frames);
        },
        Action::MoveSprite { frame_index, .. } => {
            assert(m2.frames.update(frame_index as int, m.frames[frame_index as int]) =~= m.frames);
        },
        Action::SetMotionOffset { frame_index, .. } => {
            assert(m2.frames.update(frame_index as int, m.frames[frame_index as int]) =~= m.frames);
        },
        Action::ResizeHitbox { frame_index, id, .. } => {
            assert(m2.frames[frame_index as int].hitboxes.insert(id, hitbox_at(m, frame_index, id))
                =~= m.frames[frame_index as int].hitboxes);
            assert(m2.frames.update(frame_index as int, m.frames[frame_index as int]) =~= m.frames);
        },
        Action::ToggleHitboxEnabled { frame_index, id } => {
            assert(m2.frames[frame_index as int].hitboxes.insert(id, hitbox_at(m, frame_index, id))
                =~= m.frames[frame_index as int].hitboxes);
            assert(m2.frames.update(frame_index as int, m.frames[frame_index as int]) =~= m.frames);
        },
    }
}

} // verus!
