use vstd::prelude::*;

use crate::action::{lemma_reverse_undoes_apply, Action};
use crate::model::{Animation, AnimationView, Frame};

verus! {

/// What an editor holds: the animation, the current frame, and a linear
/// history of applied actions of which the last `undo_depth` are undone.
///
/// `states[i]` is the animation before `history[i]` was applied, and the last
/// of `states` the animation after every action of the history.
pub struct EditorView {
    pub animation: AnimationView,
    pub current_frame: usize,
    pub history: Seq<Action>,
    pub undo_depth: nat,
    pub saved: bool,
    pub states: Seq<AnimationView>,
}

impl EditorView {
    /// How many actions of the history are in effect.
    pub open spec fn position(self) -> int {
        self.history.len() - self.undo_depth
    }

    /// The history replays: each action fits the state that it was applied to
    /// and leads to the next, and the animation is the state at `position`.
    pub open spec fn wf(self) -> bool {
        &&& self.states.len() == self.history.len() + 1
        &&& self.undo_depth <= self.history.len()
        &&& self.animation == self.states[self.position()]
        &&& forall|i: int|
            0 <= i < self.states.len() ==> #[trigger] self.states[i].frames.len() <= usize::MAX
        &&& forall|i: int|
            0 <= i < self.history.len() ==> {
                &&& #[trigger] self.history[i].applicable(self.states[i])
                &&& self.states[i + 1] == self.history[i].apply_to(self.states[i])
            }
    }

    /// An editor whose history starts at `animation`.
    pub open spec fn opened(animation: AnimationView) -> EditorView {
        EditorView {
            animation,
            current_frame: 0,
            history: Seq::empty(),
            undo_depth: 0,
            saved: true,
            states: seq![animation],
        }
    }

    /// The editor after `a` is submitted: an action that changes nothing is
    /// dropped; any other drops the undone actions, is applied and recorded.
    pub open spec fn after_do(self, a: Action) -> EditorView {
        if !a.warrants() {
            self
        } else {
            let p = self.position();
            let next = a.apply_to(self.animation);
            EditorView {
                animation: next,
                current_frame: a.frame_after_apply(self.current_frame, next.frames.len()),
                history: self.history.take(p).push(a),
                undo_depth: 0,
                saved: false,
                states: self.states.take(p + 1).push(next),
            }
        }
    }

    /// The editor after an undo: nothing changes when every action is undone.
    pub open spec fn after_undo(self) -> EditorView {
        if self.undo_depth == self.history.len() {
            self
        } else {
            let p = self.position();
            let a = self.history[p - 1];
            let prev = self.states[p - 1];
            EditorView {
                animation: prev,
                current_frame: a.frame_after_reverse(self.current_frame, prev.frames.len()),
                undo_depth: self.undo_depth + 1,
                saved: false,
                ..self
            }
        }
    }

    /// The editor after a redo: nothing changes when no action is undone.
    pub open spec fn after_redo(self) -> EditorView {
        if self.undo_depth == 0 {
            self
        } else {
            let p = self.position();
            let a = self.history[p];
            let next = self.states[p + 1];
            EditorView {
                animation: next,
                current_frame: a.frame_after_apply(self.current_frame, next.frames.len()),
                undo_depth: (self.undo_depth - 1) as nat,
                saved: false,
                ..self
            }
        }
    }
}

/// Moving along a well-formed history keeps it well formed.
proof fn lemma_wf_moved(e: EditorView, f: EditorView)
    requires
        e.wf(),
        f.history == e.history,
        f.states == e.states,
        f.undo_depth <= f.history.len(),
        f.animation == f.states[f.position()],
    ensures
        f.wf(),
{
}

/// Submitting an action that fits keeps the history well formed.
pub proof fn lemma_after_do_wf(e: EditorView, a: Action)
    requires
        e.wf(),
        a.warrants() ==> a.applicable(e.animation),
    ensures
        e.after_do(a).wf(),
{
    if a.warrants() {
        let p = e.position();
        let f = e.after_do(a);
        lemma_reverse_undoes_apply(a, e.animation);
        assert forall|i: int| 0 <= i < f.history.len() implies {
            &&& #[trigger] f.history[i].applicable(f.states[i])
            &&& f.states[i + 1] == f.history[i].apply_to(f.states[i])
        } by {
            if i < p {
                assert(f.history[i] == e.history[i]);
                assert(f.states[i] == e.states[i]);
                assert(f.states[i + 1] == e.states[i + 1]);
                assert(e.history[i].applicable(e.states[i]));
            } else {
                assert(f.history[i] == a);
                assert(f.states[i] == e.animation);
            }
        }
        assert forall|i: int| 0 <= i < f.states.len() implies #[trigger] f.states[i].frames.len()
            <= usize::MAX by {
            if i <= p {
                assert(f.states[i] == e.states[i]);
            }
        }
    }
}

/// An undo keeps the history well formed.
pub proof fn lemma_after_undo_wf(e: EditorView)
    requires
        e.wf(),
    ensures
        e.after_undo().wf(),
{
    if e.undo_depth < e.history.len() {
        lemma_wf_moved(e, e.after_undo());
    }
}

/// A redo keeps the history well formed.
pub proof fn lemma_after_redo_wf(e: EditorView)
    requires
        e.wf(),
    ensures
        e.after_redo().wf(),
{
    if e.undo_depth > 0 {
        lemma_wf_moved(e, e.after_redo());
    }
}

/// An animation under edit, with undo and redo.
pub struct EditorState {
    animation: Animation,
    current_frame: usize,
    action_list: Vec<Action>,
    undo_depth: usize,
    has_saved: bool,
    states: Ghost<Seq<AnimationView>>,
}

impl View for EditorState {
    type V = EditorView;

    closed spec fn view(&self) -> EditorView {
        EditorView {
            animation: self.animation@,
            current_frame: self.current_frame,
            history: self.action_list@,
            undo_depth: self.undo_depth as nat,
            saved: self.has_saved,
            states: self.states@,
        }
    }
}

impl EditorState {
    /// An editor on an empty animation, with nothing to save.
    pub fn new() -> (r: EditorState)
        ensures
            r@ == EditorView::opened(AnimationView { frames: Seq::empty(), hitboxes: Map::empty() }),
            r@.wf(),
    {
        let animation = Animation::new();
        EditorState {
            animation,
            current_frame: 0,
            action_list: Vec::new(),
            undo_depth: 0,
            has_saved: true,
            states: Ghost(Seq::empty().push(animation@)),
        }
    }

    /// Replaces the animation by a loaded one: the history is cleared, the
    /// first frame is current, and nothing is left to save.
    pub fn load(&mut self, animation: Animation)
        ensures
            final(self)@ == EditorView::opened(animation@),
            final(self)@.wf(),
    {
        let _n = animation.timeline.frame_count();
        self.states = Ghost(Seq::empty().push(animation@));
        self.animation = animation;
        self.current_frame = 0;
        self.action_list = Vec::new();
        self.undo_depth = 0;
        self.has_saved = true;
        assert(final(self)@.history =~= Seq::<Action>::empty());
    }

    /// Submits an action. One that changes nothing is dropped; any other
    /// discards what was undone, is applied, recorded, and leaves unsaved
    /// changes.
    pub fn do_action(&mut self, action: Action)
        requires
            old(self)@.wf(),
            action.warrants() ==> action.applicable(old(self)@.animation),
        ensures
            final(self)@ == old(self)@.after_do(action),
            final(self)@.wf(),
    {
        if action.warrants_action() {
            let ghost before = self@;
            let p = self.action_list.len() - self.undo_depth;
            self.action_list.truncate(p);
            self.undo_depth = 0;
            action.apply(&mut self.animation, &mut self.current_frame);
            self.action_list.push(action);
            self.states = Ghost(before.states.take(p + 1).push(self.animation@));
            self.has_saved = false;
            proof {
                assert(self@.history =~= before.history.take(p as int).push(action));
                lemma_after_do_wf(before, action);
            }
        }
    }

    /// Undoes the last action in effect, if there is one.
    pub fn undo(&mut self)
        requires
            old(self)@.wf(),
        ensures
            final(self)@ == old(self)@.after_undo(),
            final(self)@.wf(),
            old(self)@.undo_depth < old(self)@.history.len() ==> final(self)@.animation
                == old(self)@.history[old(self)@.position() - 1].reverse_on(old(self)@.animation),
    {
        if self.undo_depth >= self.action_list.len() {
            return;
        }
        let ghost before = self@;
        self.undo_depth = self.undo_depth + 1;
        let idx = self.action_list.len() - self.undo_depth;
        proof {
            assert(before.history[idx as int].applicable(before.states[idx as int]));
            lemma_reverse_undoes_apply(before.history[idx as int], before.states[idx as int]);
        }
        let action = &self.action_list[idx];
        action.reverse(&mut self.animation, &mut self.current_frame);
        self.has_saved = false;
        proof {
            lemma_wf_moved(before, self@);
        }
    }

    /// Applies again the first undone action, if there is one.
    pub fn redo(&mut self)
        requires
            old(self)@.wf(),
        ensures
            final(self)@ == old(self)@.after_redo(),
            final(self)@.wf(),
            old(self)@.undo_depth > 0 ==> final(self)@.animation == old(self)@.history[old(
                self,
            )@.position()].apply_to(old(self)@.animation),
    {
        if self.undo_depth == 0 {
            return;
        }
        let ghost before = self@;
        let idx = self.action_list.len() - self.undo_depth;
        proof {
            assert(before.history[idx as int].applicable(before.states[idx as int]));
        }
        let action = &self.action_list[idx];
        action.apply(&mut self.animation, &mut self.current_frame);
        self.undo_depth = self.undo_depth - 1;
        self.has_saved = false;
        proof {
            lemma_wf_moved(before, self@);
        }
    }

    pub fn animation(&self) -> (r: &Animation)
        ensures
            r@ == self@.animation,
    {
        &self.animation
    }

    pub fn current_frame(&self) -> (r: usize)
        ensures
            r == self@.current_frame,
    {
        self.current_frame
    }

    /// Makes frame `index` the current one; the selection is not part of the history.
    pub fn select_frame(&mut self, index: usize)
        requires
            old(self)@.wf(),
        ensures
            final(self)@ == (EditorView { current_frame: index, ..old(self)@ }),
            final(self)@.wf(),
    {
        self.current_frame = index;
    }

    /// Whether there are changes since the editor was opened or last saved.
    pub fn has_unsaved_changes(&self) -> (r: bool)
        ensures
            r == !self@.saved,
    {
        !self.has_saved
    }

    /// Records that the animation was saved.
    pub fn mark_saved(&mut self)
        requires
            old(self)@.wf(),
        ensures
            final(self)@ == (EditorView { saved: true, ..old(self)@ }),
            final(self)@.wf(),
    {
        self.has_saved = true;
    }

    /// How many actions the history holds, undone ones included.
    pub fn history_len(&self) -> (r: usize)
        ensures
            r == self@.history.len(),
    {
        self.action_list.len()
    }

    /// How many actions at the end of the history are undone.
    pub fn undo_depth(&self) -> (r: usize)
        ensures
            r == self@.undo_depth,
    {
        self.undo_depth
    }

    pub fn frame_count(&self) -> (r: usize)
        ensures
            r == self@.animation.frames.len(),
    {
        self.animation.timeline.frame_count()
    }

    pub fn get_frame(&self, index: usize) -> (r: Option<&Frame>)
        ensures
            match r {
                Some(f) => index < self@.animation.frames.len() && f@
                    == self@.animation.frames[index as int],
                None => index >= self@.animation.frames.len(),
            },
    {
        self.animation.timeline.get_frame(index)
    }

    pub fn frame(&self, index: usize) -> (r: &Frame)
        requires
            index < self@.animation.frames.len(),
        ensures
            r@ == self@.animation.frames[index as int],
    {
        self.animation.timeline.frame(index)
    }
    /// One tick of playback, given how many ticks the current frame has been
    /// shown. A current frame out of range restarts at frame 0; a frame shown
    /// for its delay gives way to the next one, the last to the first.
    /// Returns how many ticks the current frame has now been shown.
    pub fn playback_tick(&mut self, shown: usize) -> (r: usize)
        requires
            old(self)@.wf(),
        ensures
            final(self)@.wf(),
            ({
                let e = old(self)@;
                let n = e.animation.frames.len();
                let cur = if e.current_frame < n {
                    e.current_frame as int
                } else {
                    0
                };
                let held = if shown < usize::MAX {
                    shown + 1
                } else {
                    shown as int
                };
                if n == 0 {
                    *final(self) == *old(self) && r == shown
                } else if held >= e.animation.frames[cur].delay {
                    &&& final(self)@ == (EditorView {
                        current_frame: (if cur + 1 < n {
                            cur + 1
                        } else {
                            0
                        }) as usize,
                        ..e
                    })
                    &&& r == 0
                } else {
                    &&& final(self)@ == (EditorView { current_frame: cur as usize, ..e })
                    &&& r == held
                }
            }),
    {
        let n = self.animation.timeline.frame_count();
        if n == 0 {
            return shown;
        }
        if self.current_frame >= n {
            self.current_frame = 0;
        }
        let held = if shown < usize::MAX {
            shown + 1
        } else {
            shown
        };
        let delay = self.animation.timeline.frame(self.current_frame).delay;
        if held >= delay {
            let next = self.current_frame + 1;
            self.current_frame = if next < n {
                next
            } else {
                0
            };
            0
        } else {
            held
        }
    }
}

} // verus!
