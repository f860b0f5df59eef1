//! The overlay session: activation gesture, HUD lifetime, and per-tick
//! dispatch to the focus stack's top.
//!
//! The controller is a two-state machine.  It is idle while the activation
//! gesture (L and R held together) is not held and active while it is.  On
//! the tick the gesture first becomes held, the host is asked to create the
//! HUD handle and show the current rendering; while active, each tick is
//! forwarded to the stack top and a re-render is pushed whenever the widget
//! reports a change; on release the host is asked to drop the handle, which
//! hides the overlay.  Navigation state survives deactivation untouched.

use vstd::prelude::*;

use crate::arena::lemma_step_wf;
use crate::arena::spec_render_at;
use crate::arena::stack_entry_ok;
use crate::arena::step;
use crate::arena::wf_nodes;
use crate::arena::Arena;
use crate::widget::Event;

use crate::input::State;

verus! {

/// What the host must do after one tick: the outward half of the tick.
///
/// HUD creation is the one fallible operation of the engine and the host
/// performs it; when creation fails the host simply ignores the texts and
/// the later `hide` of this session, and the controller asks again only on
/// the next activation — never within the same session.
pub struct TickEffect {
    /// `Some(text)`: create the HUD handle and display `text` (the gesture
    /// just became held).
    pub show: Option<String>,
    /// `Some(text)`: display `text` on the session's handle (the dispatched
    /// widget reported a change).
    pub update: Option<String>,
    /// Drop the HUD handle (the gesture was just released).
    pub hide: bool,
    /// The callback invocation owed to the host, tagged with the raising
    /// widget's index.
    pub event: Option<(usize, Event)>,
}

/// The overlay controller: the widget arena, the root menu, the focus
/// stack, and whether a HUD handle is live.
pub struct OverlayNotification {
    pub arena: Arena,
    pub root: usize,
    pub stack: Vec<usize>,
    pub hud: bool,
}

impl OverlayNotification {
    /// The session invariant: a well-formed arena, and a never-empty stack
    /// of valid menu indices whose bottom entry is the root.
    pub open spec fn wf(self) -> bool {
        &&& wf_nodes(self.arena@)
        &&& self.root < self.arena@.len()
        &&& self.stack@.len() >= 1
        &&& self.stack@[0] == self.root
        &&& forall|j: int|
            0 <= j < self.stack@.len() ==> (#[trigger] self.stack@[j]) < self.arena@.len()
                && self.arena@[self.stack@[j] as int] is Menu
    }

    /// The index the next input snapshot is dispatched to: the stack top.
    pub open spec fn spec_top(self) -> int {
        self.stack@[self.stack@.len() - 1] as int
    }

    /// A fresh controller over `arena`: the stack holds exactly the root,
    /// the root's focus hook has run, and no HUD handle is live.
    pub fn new(arena: Arena, root: usize) -> (o: OverlayNotification)
        requires
            wf_nodes(arena@),
            root < arena@.len(),
            arena@[root as int] is Menu,
        ensures
            o.wf(),
            o.arena@ == arena@.update(root as int, arena@[root as int].spec_focus()),
            o.stack@ == seq![root],
            o.root == root,
            !o.hud,
    {
        let mut owned = arena;
        owned.focus_at(root);
        let mut stack: Vec<usize> = Vec::new();
        stack.push(root);
        let o = OverlayNotification { arena: owned, root, stack, hud: false };
        proof {
            assert(o.stack@ =~= seq![root]);
            assert forall|i: int| 0 <= i < o.arena@.len() implies crate::arena::widget_ok(
                #[trigger] o.arena@[i],
                i,
            ) by {
                assert(crate::arena::widget_ok(arena@[i], i));
            }
        }
        o
    }

    /// Replaces the line shown by the text widget at `idx` — the host calls
    /// this with its producer's fresh output each tick, so a live readout
    /// never goes stale.  Any other widget kind, and all navigation state,
    /// is left untouched; the session invariant is preserved.
    pub fn set_text_at(&mut self, idx: usize, line: &str)
        requires
            old(self).wf(),
            idx < old(self).arena@.len(),
        ensures
            final(self).wf(),
            final(self).root == old(self).root,
            final(self).stack == old(self).stack,
            final(self).hud == old(self).hud,
            final(self).arena@.len() == old(self).arena@.len(),
            forall|i: int|
                0 <= i < old(self).arena@.len() && i != idx ==> final(self).arena@[i]
                    == #[trigger] old(self).arena@[i],
            old(self).arena@[idx as int] is Text ==> final(self).arena@[idx as int] is Text
                && final(self).arena@[idx as int]->Text_0.value@ == line@,
            !(old(self).arena@[idx as int] is Text) ==> final(self).arena@[idx as int] == old(
                self,
            ).arena@[idx as int],
    {
        self.arena.set_text_at(idx, line);
        proof {
            assert forall|j: int| 0 <= j < self.stack@.len() implies (#[trigger] self.stack@[j])
                < self.arena@.len() && self.arena@[self.stack@[j] as int] is Menu by {
                assert(old(self).arena@[old(self).stack@[j] as int] is Menu);
            }
        }
    }

    /// Renders the stack top.
    pub fn render(&self) -> (r: String)
        requires
            self.wf(),
        ensures
            r@ == spec_render_at(self.arena@, self.spec_top()),
    {
        let top: usize = self.stack[self.stack.len() - 1];
        self.arena.render_at(top)
    }

    /// One tick of the controller.
    ///
    /// While the gesture is held: on the activating tick the HUD flag
    /// rises and `show` carries the pre-dispatch rendering of the stack
    /// top; the snapshot is then dispatched to the stack top exactly as
    /// [`step`] describes, and `update` carries the post-dispatch rendering
    /// of the (possibly new) stack top if and only if the dispatch reported
    /// a change.  While the gesture is not held, nothing is dispatched:
    /// the HUD flag falls, `hide` says whether a handle was live, and the
    /// arena and the stack keep their state for the next activation.
    pub fn run(&mut self, input: State) -> (eff: TickEffect)
        requires
            old(self).wf(),
        ensures
            final(self).wf(),
            final(self).root == old(self).root,
            ({
                let held = input.hold.l && input.hold.r;
                let r = step(old(self).arena@, old(self).spec_top(), input, old(self).stack@);
                if held {
                    &&& final(self).hud
                    &&& final(self).arena@ == r.0
                    &&& final(self).stack@ == r.1
                    &&& !eff.hide
                    &&& (eff.show is Some <==> !old(self).hud)
                    &&& (eff.show is Some ==> eff.show->0@ == spec_render_at(
                        old(self).arena@,
                        old(self).spec_top(),
                    ))
                    &&& (eff.update is Some <==> r.2)
                    &&& (eff.update is Some ==> eff.update->0@ == spec_render_at(
                        r.0,
                        r.1[r.1.len() - 1] as int,
                    ))
                    &&& eff.event == r.3
                } else {
                    &&& !final(self).hud
                    &&& final(self).arena@ == old(self).arena@
                    &&& final(self).stack@ == old(self).stack@
                    &&& eff.hide == old(self).hud
                    &&& eff.show is None
                    &&& eff.update is None
                    &&& eff.event is None
                }
            }),
    {
        if input.hold.l && input.hold.r {
            let show: Option<String> = if !self.hud {
                self.hud = true;
                Some(self.render())
            } else {
                None
            };
            let top: usize = self.stack[self.stack.len() - 1];
            proof {
                lemma_step_wf(self.arena@, top as int, input, self.stack@);
            }
            let r = self.arena.control_at(top, input, &mut self.stack);
            proof {
                let pre = *old(self);
                let stepped = step(pre.arena@, pre.spec_top(), input, pre.stack@);
                assert forall|j: int| 0 <= j < self.stack@.len() implies (
                #[trigger] self.stack@[j]) < self.arena@.len()
                    && self.arena@[self.stack@[j] as int] is Menu by {
                    assert(stack_entry_ok(pre.arena@, pre.stack@, stepped.1, j));
                }
            }
            let update: Option<String> = if r.changed {
                Some(self.render())
            } else {
                None
            };
            TickEffect { show, update, hide: false, event: r.event }
        } else {
            let hide = self.hud;
            self.hud = false;
            TickEffect { show: None, update: None, hide, event: None }
        }
    }
}

} // verus!
