use vstd::prelude::*;

use crate::action::{hitbox_at, Action};
use crate::model::Frame;
use crate::editor::{lemma_after_do_wf, lemma_after_redo_wf, lemma_after_undo_wf, EditorView};

verus! {

/// The editor after the actions of `acts` are submitted in order.
pub open spec fn do_all(e: EditorView, acts: Seq<Action>) -> EditorView
    decreases acts.len(),
{
    if acts.len() == 0 {
        e
    } else {
        do_all(e.after_do(acts[0]), acts.drop_first())
    }
}

/// The editor after `n` undos.
pub open spec fn undo_times(e: EditorView, n: nat) -> EditorView
    decreases n,
{
    if n == 0 {
        e
    } else {
        undo_times(e.after_undo(), (n - 1) as nat)
    }
}

/// The editor after `n` redos.
pub open spec fn redo_times(e: EditorView, n: nat) -> EditorView
    decreases n,
{
    if n == 0 {
        e
    } else {
        redo_times(e.after_redo(), (n - 1) as nat)
    }
}

/// Each action of `acts` changes something and fits the animation that it is
/// submitted to.
pub open spec fn submittable(e: EditorView, acts: Seq<Action>) -> bool
    decreases acts.len(),
{
    acts.len() == 0 || {
        &&& acts[0].warrants()
        &&& acts[0].applicable(e.animation)
        &&& submittable(e.after_do(acts[0]), acts.drop_first())
    }
}

/// Submitting actions records each of them after the actions in effect, and
/// keeps the states that led to the animation they were submitted to.
pub proof fn lemma_do_all(e: EditorView, acts: Seq<Action>)
    requires
        e.wf(),
        submittable(e, acts),
    ensures
        do_all(e, acts).wf(),
        do_all(e, acts).position() == e.position() + acts.len(),
        acts.len() > 0 ==> do_all(e, acts).undo_depth == 0,
        do_all(e, acts).states[e.position()] == e.animation,
        forall|i: int| 0 <= i <= e.position() ==> #[trigger] do_all(e, acts).states[i] == e.states[i],
    decreases acts.len(),
{
    if acts.len() > 0 {
        let g = e.after_do(acts[0]);
        lemma_after_do_wf(e, acts[0]);
        lemma_do_all(g, acts.drop_first());
        assert(g.position() == e.position() + 1);
        assert forall|i: int| 0 <= i <= e.position() implies #[trigger] do_all(e, acts).states[i]
            == e.states[i] by {
            assert(do_all(g, acts.drop_first()).states[i] == g.states[i]);
        }
    }
}

/// Undos walk back along the history, leaving it as it is.
pub proof fn lemma_undo_times(e: EditorView, n: nat)
    requires
        e.wf(),
        e.undo_depth + n <= e.history.len(),
    ensures
        undo_times(e, n).wf(),
        undo_times(e, n).history == e.history,
        undo_times(e, n).states == e.states,
        undo_times(e, n).undo_depth == e.undo_depth + n,
        undo_times(e, n).animation == e.states[e.position() - n],
    decreases n,
{
    if n > 0 {
        lemma_after_undo_wf(e);
        lemma_undo_times(e.after_undo(), (n - 1) as nat);
    }
}

/// Redos walk forward along the history, leaving it as it is.
pub proof fn lemma_redo_times(e: EditorView, n: nat)
    requires
        e.wf(),
        n <= e.undo_depth,
    ensures
        redo_times(e, n).wf(),
        redo_times(e, n).history == e.history,
        redo_times(e, n).states == e.states,
        redo_times(e, n).undo_depth == e.undo_depth - n,
        redo_times(e, n).animation == e.states[e.position() + n],
    decreases n,
{
    if n > 0 {
        lemma_after_redo_wf(e);
        lemma_redo_times(e.after_redo(), (n - 1) as nat);
    }
}

/// Undoing each of the actions just submitted gives back the animation that
/// they were submitted to.
pub proof fn lemma_undo_all_restores(e: EditorView, acts: Seq<Action>)
    requires
        e.wf(),
        submittable(e, acts),
    ensures
        undo_times(do_all(e, acts), acts.len()).animation == e.animation,
{
    lemma_do_all(e, acts);
    lemma_undo_times(do_all(e, acts), acts.len());
}

/// Undoing some of the actions just submitted and redoing as many gives back
/// the animation that the actions led to.
pub proof fn lemma_redo_after_undo(e: EditorView, acts: Seq<Action>, k: nat)
    requires
        e.wf(),
        submittable(e, acts),
        k <= acts.len(),
    ensures
        redo_times(undo_times(do_all(e, acts), k), k).animation == do_all(e, acts).animation,
{
    let f = do_all(e, acts);
    lemma_do_all(e, acts);
    lemma_undo_times(f, k);
    lemma_redo_times(undo_times(f, k), k);
}

/// An action submitted after undos drops the undone actions for good: the
/// history keeps the actions that were in effect and the new one, and a redo
/// then changes nothing.
pub proof fn lemma_submit_drops_redo(e: EditorView, a: Action)
    requires
        e.wf(),
        a.warrants(),
        a.applicable(e.animation),
    ensures
        e.after_do(a).history.len() == e.position() + 1,
        e.after_do(a).after_redo() == e.after_do(a),
{
}

/// Whether the action's start and end are equal: an edit to the same value,
/// or a frame swapped with itself.
pub open spec fn has_equal_ends(a: Action) -> bool {
    match a {
        Action::ChangeDelay { index, from, to } => from == to,
        Action::MoveSprite { frame_index, from, to } => from.same_as(to),
        Action::SetMotionOffset { frame_index, from, to } => from.same_as(to),
        Action::SwapFrames { a, b } => a == b,
        Action::MoveHitbox { frame_index, id, from, to } => from.same_as(to),
        Action::ResizeHitbox { frame_index, id, from, to } => from.same_as(to),
        _ => false,
    }
}

/// Submitting an action whose start and end are equal changes nothing: not
/// the history, not whether there are unsaved changes.
pub proof fn lemma_equal_ends_not_recorded(e: EditorView, a: Action)
    requires
        has_equal_ends(a),
    ensures
        e.after_do(a) == e,
        e.after_do(a).history.len() == e.history.len(),
        e.after_do(a).saved == e.saved,
{
}

/// Toggling a hitbox twice in a row gives back the animation, the hitbox's
/// position and size included.
pub proof fn lemma_toggle_twice_restores(e: EditorView, frame_index: usize, id: usize)
    requires
        e.wf(),
        crate::action::has_hitbox_at(e.animation, frame_index, id),
    ensures
        ({
            let t = Action::ToggleHitboxEnabled { frame_index, id };
            let f = e.after_do(t).after_do(t);
            &&& f.animation == e.animation
            &&& hitbox_at(f.animation, frame_index, id) == hitbox_at(e.animation, frame_index, id)
        }),
{
    let t = Action::ToggleHitboxEnabled { frame_index, id };
    let m = e.animation;
    let m1 = t.apply_to(m);
    let m2 = t.apply_to(m1);
    assert(m2.frames[frame_index as int].hitboxes =~= m.frames[frame_index as int].hitboxes);
    assert(m2.frames =~= m.frames);
}

/// Removing the last frame while it is the current one makes the new last
/// frame current, or frame 0 when none is left. When it was the only frame,
/// an undo gives back the current frame it had.
pub proof fn lemma_remove_current_last(e: EditorView, frame: Frame)
    requires
        e.wf(),
        e.animation.frames.len() > 0,
        e.current_frame == e.animation.frames.len() - 1,
        frame@ == e.animation.frames.last(),
    ensures
        ({
            let a = Action::RemoveFrame { frame, index: e.current_frame };
            let g = e.after_do(a);
            &&& g.animation.frames.len() == e.animation.frames.len() - 1
            &&& g.current_frame == if g.animation.frames.len() > 0 {
                g.animation.frames.len() - 1
            } else {
                0
            }
            &&& e.animation.frames.len() == 1 ==> g.after_undo().current_frame == e.current_frame
        }),
{
    let a = Action::RemoveFrame { frame, index: e.current_frame };
    lemma_after_do_wf(e, a);
}

} // verus!
