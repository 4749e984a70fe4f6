use std::collections::HashMap;
use vstd::prelude::*;

use crate::geometry::Vec2;

verus! {

/// A handle naming a bitmap held in an outside image store; two frames show
/// the same bitmap when their handles are equal.
#[derive(Clone, Copy, PartialEq, Eq, Debug, Structural)]
pub struct ImageHandle {
    pub id: u64,
}

/// The state of one hitbox on one frame.
#[derive(Clone, Copy, PartialEq, Eq, Debug, Structural)]
pub struct HitboxPos {
    pub id: usize,
    pub pos: Vec2,
    pub size: Vec2,
    pub enabled: bool,
}

/// A hitbox definition, shared by every frame.
#[derive(Clone, Debug)]
pub struct Hitbox {
    pub id: usize,
    pub desc: String,
    pub is_hurtbox: bool,
}

/// What a frame holds, with its hitboxes as a map.
pub struct FrameView {
    pub image: ImageHandle,
    pub offset: Vec2,
    pub root_motion: Vec2,
    pub delay: usize,
    pub hitboxes: Map<usize, HitboxPos>,
}

/// One still of an animation.
pub struct Frame {
    pub image: ImageHandle,
    pub offset: Vec2,
    pub root_motion: Vec2,
    pub delay: usize,
    pub hitboxes: HashMap<usize, HitboxPos>,
}

impl View for Frame {
    type V = FrameView;

    open spec fn view(&self) -> FrameView {
        FrameView {
            image: self.image,
            offset: self.offset,
            root_motion: self.root_motion,
            delay: self.delay,
            hitboxes: self.hitboxes@,
        }
    }
}

/// The frame that a new image starts as: no offsets, held for one tick, no hitboxes.
pub open spec fn fresh_frame(image: ImageHandle) -> FrameView {
    FrameView {
        image,
        offset: Vec2 { x: 0, y: 0 },
        root_motion: Vec2 { x: 0, y: 0 },
        delay: 1,
        hitboxes: Map::empty(),
    }
}

impl Frame {
    pub fn new(image: ImageHandle) -> (r: Frame)
        ensures
            r@ == fresh_frame(image),
    {
        Frame {
            image,
            offset: Vec2::zero(),
            root_motion: Vec2::zero(),
            delay: 1,
            hitboxes: HashMap::new(),
        }
    }

    /// A copy of the frame.
    pub fn duplicate(&self) -> (r: Frame)
        ensures
            r@ == self@,
    {
        Frame {
            image: self.image,
            offset: self.offset,
            root_motion: self.root_motion,
            delay: self.delay,
            hitboxes: self.hitboxes.clone(),
        }
    }

    pub fn has_hitbox(&self, id: usize) -> (r: bool)
        ensures
            r == self@.hitboxes.contains_key(id),
    {
        self.hitboxes.contains_key(&id)
    }

    pub fn hitbox(&self, id: usize) -> (r: &HitboxPos)
        requires
            self@.hitboxes.contains_key(id),
        ensures
            *r == self@.hitboxes[id],
    {
        self.hitboxes.get(&id).unwrap()
    }

    pub fn get_hitbox(&self, id: usize) -> (r: Option<&HitboxPos>)
        ensures
            match r {
                Some(h) => self@.hitboxes.contains_key(id) && *h == self@.hitboxes[id],
                None => !self@.hitboxes.contains_key(id),
            },
    {
        self.hitboxes.get(&id)
    }

    /// Whether the frame has the hitbox, and has it enabled.
    pub fn is_hitbox_enabled(&self, id: usize) -> (r: bool)
        ensures
            r == (self@.hitboxes.contains_key(id) && self@.hitboxes[id].enabled),
    {
        match self.get_hitbox(id) {
            Some(h) => h.enabled,
            None => false,
        }
    }

    /// Stores `h` as the state of the hitbox `id`.
    pub fn set_hitbox(&mut self, id: usize, h: HitboxPos)
        ensures
            final(self)@ == (FrameView { hitboxes: old(self)@.hitboxes.insert(id, h), ..old(self)@ }),
    {
        self.hitboxes.insert(id, h);
    }
}

/// The frames of an animation, in playback order.
pub struct Timeline {
    pub frames: Vec<Frame>,
}

/// The views of a sequence of frames.
pub open spec fn frame_views(frames: Seq<Frame>) -> Seq<FrameView> {
    frames.map_values(|f: Frame| f@)
}

impl View for Timeline {
    type V = Seq<FrameView>;

    open spec fn view(&self) -> Seq<FrameView> {
        frame_views(self.frames@)
    }
}

impl Timeline {
    pub fn new() -> (r: Timeline)
        ensures
            r@ == Seq::<FrameView>::empty(),
    {
        let r = Timeline { frames: Vec::new() };
        assert(r@ =~= Seq::<FrameView>::empty());
        r
    }

    pub fn frame_count(&self) -> (r: usize)
        ensures
            r == self@.len(),
    {
        self.frames.len()
    }

    pub fn get_frame(&self, index: usize) -> (r: Option<&Frame>)
        ensures
            match r {
                Some(f) => index < self@.len() && f@ == self@[index as int],
                None => index >= self@.len(),
            },
    {
        if index < self.frames.len() {
            Some(&self.frames[index])
        } else {
            None
        }
    }

    pub fn frame(&self, index: usize) -> (r: &Frame)
        requires
            index < self@.len(),
        ensures
            r@ == self@[index as int],
    {
        &self.frames[index]
    }

    pub fn frame_mut(&mut self, index: usize) -> (r: &mut Frame)
        requires
            index < old(self)@.len(),
        ensures
            r@ == old(self)@[index as int],
            final(self)@ == old(self)@.update(index as int, final(r)@),
    {
        let r = &mut self.frames[index];
        r
    }

    pub fn insert_frame(&mut self, index: usize, frame: Frame)
        requires
            index <= old(self)@.len(),
        ensures
            final(self)@ == old(self)@.insert(index as int, frame@),
    {
        self.frames.insert(index, frame);
        assert(final(self)@ =~= old(self)@.insert(index as int, frame@));
    }

    pub fn remove_frame(&mut self, index: usize) -> (r: Frame)
        requires
            index < old(self)@.len(),
        ensures
            r@ == old(self)@[index as int],
            final(self)@ == old(self)@.remove(index as int),
    {
        let r = self.frames.remove(index);
        assert(final(self)@ =~= old(self)@.remove(index as int));
        r
    }

    /// Appends a frame and returns its index.
    pub fn push_frame(&mut self, frame: Frame) -> (r: usize)
        requires
            old(self)@.len() < usize::MAX,
        ensures
            r == old(self)@.len(),
            final(self)@ == old(self)@.push(frame@),
    {
        let r = self.frames.len();
        self.frames.push(frame);
        assert(final(self)@ =~= old(self)@.push(frame@));
        r
    }

    /// Removes the last frame.
    pub fn pop_frame(&mut self) -> (r: Frame)
        requires
            old(self)@.len() > 0,
        ensures
            r@ == old(self)@.last(),
            final(self)@ == old(self)@.drop_last(),
    {
        let last = self.frames.len() - 1;
        self.remove_frame(last)
    }

    /// Exchanges the frames at `a` and `b`.
    pub fn swap_frames(&mut self, a: usize, b: usize)
        requires
            a < old(self)@.len(),
            b < old(self)@.len(),
        ensures
            final(self)@ == swapped(old(self)@, a as int, b as int),
    {
        if a != b {
            let (lo, hi) = if a < b { (a, b) } else { (b, a) };
            let upper = self.remove_frame(hi);
            let lower = self.remove_frame(lo);
            self.insert_frame(lo, upper);
            self.insert_frame(hi, lower);
        }
        assert(final(self)@ =~= swapped(old(self)@, a as int, b as int));
    }
}

/// `s` with the items at `a` and `b` exchanged.
pub open spec fn swapped<T>(s: Seq<T>, a: int, b: int) -> Seq<T> {
    s.update(a, s[b]).update(b, s[a])
}

/// An animation: its frames, and the hitbox definitions that they refer to.
pub struct AnimationView {
    pub frames: Seq<FrameView>,
    pub hitboxes: Map<usize, Hitbox>,
}

pub struct Animation {
    pub timeline: Timeline,
    pub hitboxes: HashMap<usize, Hitbox>,
}

impl View for Animation {
    type V = AnimationView;

    open spec fn view(&self) -> AnimationView {
        AnimationView { frames: self.timeline@, hitboxes: self.hitboxes@ }
    }
}

impl Animation {
    /// An animation with no frames and no hitbox definitions.
    pub fn new() -> (r: Animation)
        ensures
            r@ == (AnimationView { frames: Seq::empty(), hitboxes: Map::empty() }),
    {
        Animation { timeline: Timeline::new(), hitboxes: HashMap::new() }
    }
}

} // verus!
