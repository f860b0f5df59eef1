//! The widget arena and the per-tick dispatch over it.
//!
//! Widgets live in an arena and are addressed by stable indices; a menu's
//! children and the focus stack are sequences of such indices.  A widget is
//! always added after its children, so every child index is strictly below
//! its parent's — that order is the well-formedness invariant and what makes
//! dispatch and rendering terminate.

use vstd::prelude::*;

use crate::input::State;
use crate::widget::Event;
use crate::widget::Menu;
use crate::widget::Widget;
use vstd::string::StringExecFns;

verus! {

/// The carousel position after a Right-press: one step up, wrapping to 0
/// past the end.
pub open spec fn right_pos(pos: int, len: int) -> int {
    (pos + 1) % len
}

/// The carousel position after a Left-press: one step down, wrapping to the
/// last position below 0.
pub open spec fn left_pos(pos: int, len: int) -> int {
    if pos == 0 {
        len - 1
    } else {
        pos - 1
    }
}

/// What a widget must satisfy to stand at index `bound` of an arena: menus
/// are non-empty, positioned inside their child list, and point only at
/// earlier indices; bounded and indexed leaves respect their own invariants.
pub open spec fn widget_ok(w: Widget, bound: int) -> bool {
    match w {
        Widget::Menu(m) => m.items@.len() > 0 && m.pos < m.items@.len() && (forall|j: int|
            0 <= j < m.items@.len() ==> (#[trigger] m.items@[j]) < bound),
        Widget::Number(n) => n.inv(),
        Widget::Select(s) => s.inv(),
        _ => true,
    }
}

/// Every widget of the arena satisfies its place's invariant.
pub open spec fn wf_nodes(nodes: Seq<Widget>) -> bool {
    forall|i: int| 0 <= i < nodes.len() ==> widget_ok(#[trigger] nodes[i], i)
}

/// An event as the tick reports it: tagged with the arena index of the
/// widget that raised it.
pub open spec fn spec_tag_event(idx: int, e: Option<Event>) -> Option<(usize, Event)> {
    match e {
        Some(ev) => Some((idx as usize, ev)),
        None => None,
    }
}

/// What one dispatched tick does, as a function of the arena, the index the
/// input is dispatched to, the input, and the focus stack.  Returns the new
/// arena, the new stack, the reported change flag, and the reported event.
///
/// A menu first tries to enter its focusable child on an A-press, then to
/// drill out on a B-press (never popping the stack's last entry), then to
/// move its carousel on a Left- or Right-press, and otherwise delegates the
/// input to its positioned child; exactly one branch fires.  Leaves step by
/// their own kind's rule.
pub open spec fn step(nodes: Seq<Widget>, idx: int, input: State, stack: Seq<usize>) -> (Seq<
    Widget,
>, Seq<usize>, bool, Option<(usize, Event)>)
    decreases idx,
{
    match nodes[idx] {
        Widget::Menu(m) => {
            let child = m.items@[m.pos as int] as int;
            let child_focusable = 0 <= child < nodes.len() && nodes[child].spec_focusable();
            if child_focusable && input.trigger.a {
                (nodes.update(child, nodes[child].spec_focus()), stack.push(child as usize), true, None)
            } else if input.trigger.b {
                if stack.len() > 1 {
                    (
                        nodes.update(
                            idx,
                            Widget::Menu(
                                Menu { name: m.name, items: m.items, pos: m.pos, focused: false },
                            ),
                        ),
                        stack.drop_last(),
                        true,
                        None,
                    )
                } else {
                    (nodes, stack, false, None)
                }
            } else if input.trigger.left {
                (
                    nodes.update(
                        idx,
                        Widget::Menu(
                            Menu {
                                name: m.name,
                                items: m.items,
                                pos: left_pos(m.pos as int, m.items@.len() as int) as usize,
                                focused: m.focused,
                            },
                        ),
                    ),
                    stack,
                    true,
                    None,
                )
            } else if input.trigger.right {
                (
                    nodes.update(
                        idx,
                        Widget::Menu(
                            Menu {
                                name: m.name,
                                items: m.items,
                                pos: right_pos(m.pos as int, m.items@.len() as int) as usize,
                                focused: m.focused,
                            },
                        ),
                    ),
                    stack,
                    true,
                    None,
                )
            } else {
                if 0 <= child < idx {
                    step(nodes, child, input, stack)
                } else {
                    (nodes, stack, false, None)
                }
            }
        },
        Widget::Button(b) => {
            let s = b.spec_step(input);
            (nodes.update(idx, Widget::Button(s.0)), stack, s.1, spec_tag_event(idx, s.2))
        },
        Widget::Text(t) => {
            let s = t.spec_step(input);
            (nodes.update(idx, Widget::Text(s.0)), stack, s.1, spec_tag_event(idx, s.2))
        },
        Widget::Number(n) => {
            let s = n.spec_step(input);
            (nodes.update(idx, Widget::Number(s.0)), stack, s.1, spec_tag_event(idx, s.2))
        },
        Widget::Select(s) => {
            let r = s.spec_step(input);
            (nodes.update(idx, Widget::Select(r.0)), stack, r.1, spec_tag_event(idx, r.2))
        },
        Widget::Toggle(t) => {
            let s = t.spec_step(input);
            (nodes.update(idx, Widget::Toggle(s.0)), stack, s.1, spec_tag_event(idx, s.2))
        },
    }
}

/// What one widget renders, as a function of the arena and its index: a
/// focused menu wraps its positioned child's rendering in the carousel
/// glyphs, an unfocused menu shows its label and the enter glyph, a leaf
/// renders by its own kind's rule.
pub open spec fn spec_render_at(nodes: Seq<Widget>, idx: int) -> Seq<char>
    decreases idx,
{
    match nodes[idx] {
        Widget::Menu(m) => {
            if m.focused {
                let child = m.items@[m.pos as int] as int;
                "\u{25c0}"@ + "\u{3000}"@ + (if 0 <= child < idx {
                    spec_render_at(nodes, child)
                } else {
                    Seq::<char>::empty()
                }) + "\u{3000}"@ + "\u{25b6}"@
            } else {
                m.spec_render_unfocused()
            }
        },
        Widget::Button(b) => b.spec_render(),
        Widget::Text(t) => t.spec_render(),
        Widget::Number(n) => n.spec_render(),
        Widget::Select(s) => s.spec_render(),
        Widget::Toggle(t) => t.spec_render(),
    }
}

/// What must hold of entry `j` of the stack a step leaves behind, relative
/// to the arena and stack it started from: the entry stood at the same place
/// before, or it is a freshly pushed menu index.
pub open spec fn stack_entry_ok(
    nodes: Seq<Widget>,
    stack: Seq<usize>,
    new_stack: Seq<usize>,
    j: int,
) -> bool {
    (j < stack.len() && new_stack[j] == stack[j]) || ((new_stack[j] as int) < nodes.len()
        && nodes[new_stack[j] as int] is Menu)
}

/// One dispatched tick keeps the arena well-formed and the same size, never
/// turns a widget into another kind, never empties the stack nor moves its
/// bottom entry, and fills the stack with nothing but valid menu indices.
pub proof fn lemma_step_wf(nodes: Seq<Widget>, idx: int, input: State, stack: Seq<usize>)
    requires
        wf_nodes(nodes),
        0 <= idx < nodes.len(),
    ensures
        step(nodes, idx, input, stack).0.len() == nodes.len(),
        wf_nodes(step(nodes, idx, input, stack).0),
        forall|k: int|
            0 <= k < nodes.len() ==> ((#[trigger] step(nodes, idx, input, stack).0[k]) is Menu
                <==> nodes[k] is Menu),
        stack.len() >= 1 ==> step(nodes, idx, input, stack).1.len() >= 1 && step(
            nodes,
            idx,
            input,
            stack,
        ).1[0] == stack[0],
        forall|j: int|
            0 <= j < step(nodes, idx, input, stack).1.len() ==> #[trigger] stack_entry_ok(
                nodes,
                stack,
                step(nodes, idx, input, stack).1,
                j,
            ),
    decreases idx,
{
    let r = step(nodes, idx, input, stack);
    assert(widget_ok(nodes[idx], idx));
    match nodes[idx] {
        Widget::Menu(m) => {
            let child = m.items@[m.pos as int] as int;
            let child_focusable = 0 <= child < nodes.len() && nodes[child].spec_focusable();
            if child_focusable && input.trigger.a {
                assert(widget_ok(nodes[child].spec_focus(), child));
                assert forall|i: int| 0 <= i < r.0.len() implies widget_ok(
                    #[trigger] r.0[i],
                    i,
                ) by {
                    if i != child {
                        assert(widget_ok(nodes[i], i));
                    }
                }
                assert forall|j: int| 0 <= j < r.1.len() implies #[trigger] stack_entry_ok(
                    nodes,
                    stack,
                    r.1,
                    j,
                ) by {
                    if j < stack.len() {
                        assert(r.1[j] == stack[j]);
                    } else {
                        assert(r.1[j] == child as usize);
                    }
                }
            } else if input.trigger.b {
                if stack.len() > 1 {
                    let updated = Widget::Menu(
                        Menu { name: m.name, items: m.items, pos: m.pos, focused: false },
                    );
                    assert(widget_ok(updated, idx));
                    assert forall|i: int| 0 <= i < r.0.len() implies widget_ok(
                        #[trigger] r.0[i],
                        i,
                    ) by {
                        if i != idx {
                            assert(widget_ok(nodes[i], i));
                        }
                    }
                }
            } else if input.trigger.left {
                let len = m.items@.len() as int;
                let npos = left_pos(m.pos as int, len);
                assert(0 <= npos < len);
                let updated = Widget::Menu(
                    Menu { name: m.name, items: m.items, pos: npos as usize, focused: m.focused },
                );
                assert(widget_ok(updated, idx));
                assert forall|i: int| 0 <= i < r.0.len() implies widget_ok(
                    #[trigger] r.0[i],
                    i,
                ) by {
                    if i != idx {
                        assert(widget_ok(nodes[i], i));
                    }
                }
            } else if input.trigger.right {
                let len = m.items@.len() as int;
                vstd::arithmetic::div_mod::lemma_mod_bound(m.pos + 1, len);
                let npos = right_pos(m.pos as int, len);
                assert(0 <= npos < len);
                let updated = Widget::Menu(
                    Menu { name: m.name, items: m.items, pos: npos as usize, focused: m.focused },
                );
                assert(widget_ok(updated, idx));
                assert forall|i: int| 0 <= i < r.0.len() implies widget_ok(
                    #[trigger] r.0[i],
                    i,
                ) by {
                    if i != idx {
                        assert(widget_ok(nodes[i], i));
                    }
                }
            } else {
                if 0 <= child < idx {
                    lemma_step_wf(nodes, child, input, stack);
                }
            }
        },
        Widget::Button(b) => {
            assert forall|i: int| 0 <= i < r.0.len() implies widget_ok(#[trigger] r.0[i], i) by {
                if i != idx {
                    assert(widget_ok(nodes[i], i));
                }
            }
        },
        Widget::Text(t) => {
            assert forall|i: int| 0 <= i < r.0.len() implies widget_ok(#[trigger] r.0[i], i) by {
                if i != idx {
                    assert(widget_ok(nodes[i], i));
                }
            }
        },
        Widget::Number(n) => {
            assert(widget_ok(Widget::Number(n.spec_step(input).0), idx));
            assert forall|i: int| 0 <= i < r.0.len() implies widget_ok(#[trigger] r.0[i], i) by {
                if i != idx {
                    assert(widget_ok(nodes[i], i));
                }
            }
        },
        Widget::Select(s) => {
            vstd::std_specs::vec::axiom_spec_len(&s.options);
            assert(widget_ok(Widget::Select(s.spec_step(input).0), idx));
            assert forall|i: int| 0 <= i < r.0.len() implies widget_ok(#[trigger] r.0[i], i) by {
                if i != idx {
                    assert(widget_ok(nodes[i], i));
                }
            }
        },
        Widget::Toggle(t) => {
            assert forall|i: int| 0 <= i < r.0.len() implies widget_ok(#[trigger] r.0[i], i) by {
                if i != idx {
                    assert(widget_ok(nodes[i], i));
                }
            }
        },
    }
}

/// What a dispatched widget reported for one tick.
#[derive(Debug, PartialEq, Eq)]
pub struct Reaction {
    /// Whether the widget asked for a re-render.
    pub changed: bool,
    /// The callback invocation owed to the host, tagged with the raising
    /// widget's index.
    pub event: Option<(usize, Event)>,
}

/// The arena all widgets of one tree live in.
pub struct Arena {
    nodes: Vec<Widget>,
}

impl View for Arena {
    type V = Seq<Widget>;

    closed spec fn view(&self) -> Seq<Widget> {
        self.nodes@
    }
}

/// Packs what a leaf's `control` returned into a [`Reaction`], tagging the
/// event with the leaf's index.
fn tag(idx: usize, rr: (bool, Option<Event>)) -> (r: Reaction)
    ensures
        r.changed == rr.0,
        r.event == spec_tag_event(idx as int, rr.1),
{
    Reaction {
        changed: rr.0,
        event: match rr.1 {
            Some(e) => Some((idx, e)),
            None => None,
        },
    }
}

impl Arena {
    /// An empty arena.
    pub fn new() -> (a: Arena)
        ensures
            a@ == Seq::<Widget>::empty(),
            wf_nodes(a@),
    {
        let a = Arena { nodes: Vec::new() };
        proof {
            assert(a@ =~= Seq::<Widget>::empty());
        }
        a
    }

    pub fn len(&self) -> (n: usize)
        ensures
            n == self@.len(),
    {
        self.nodes.len()
    }

    /// The widget at `idx`.
    pub fn node(&self, idx: usize) -> (w: &Widget)
        requires
            idx < self@.len(),
        ensures
            *w == self@[idx as int],
    {
        &self.nodes[idx]
    }

    /// Appends a widget and hands back its index.  The widget must respect
    /// the arena order: a menu may point only at already-added children.
    pub fn add(&mut self, w: Widget) -> (idx: usize)
        requires
            wf_nodes(old(self)@),
            widget_ok(w, old(self)@.len() as int),
        ensures
            final(self)@ == old(self)@.push(w),
            idx == old(self)@.len(),
            wf_nodes(final(self)@),
    {
        let idx: usize = self.nodes.len();
        self.nodes.push(w);
        proof {
            assert forall|i: int| 0 <= i < self@.len() implies widget_ok(#[trigger] self@[i], i) by {
                if i < old(self)@.len() {
                    assert(widget_ok(old(self)@[i], i));
                }
            }
        }
        idx
    }

    /// Replaces the line shown by the text widget at `idx` with a freshly
    /// produced one; any other widget kind is left untouched.  This is how
    /// the host keeps a live readout current once the widget sits in the
    /// arena.
    pub fn set_text_at(&mut self, idx: usize, line: &str)
        requires
            idx < old(self)@.len(),
        ensures
            final(self)@.len() == old(self)@.len(),
            forall|i: int|
                0 <= i < old(self)@.len() && i != idx ==> final(self)@[i] == #[trigger] old(self)@[i],
            old(self)@[idx as int] is Text ==> final(self)@[idx as int] is Text
                && final(self)@[idx as int]->Text_0.value@ == line@,
            !(old(self)@[idx as int] is Text) ==> final(self)@[idx as int] == old(self)@[idx as int],
            wf_nodes(old(self)@) ==> wf_nodes(final(self)@),
    {
        match &mut self.nodes[idx] {
            Widget::Text(t) => {
                t.set(line);
            },
            _ => {},
        }
        proof {
            if wf_nodes(old(self)@) {
                assert forall|i: int| 0 <= i < self@.len() implies widget_ok(
                    #[trigger] self@[i],
                    i,
                ) by {
                    assert(widget_ok(old(self)@[i], i));
                }
            }
        }
    }

    /// Runs the focus hook of the widget at `idx`.
    pub fn focus_at(&mut self, idx: usize)
        requires
            idx < old(self)@.len(),
        ensures
            final(self)@ == old(self)@.update(idx as int, old(self)@[idx as int].spec_focus()),
    {
        match &mut self.nodes[idx] {
            Widget::Menu(m) => {
                m.focused = true;
            },
            _ => {},
        }
        proof {
            assert(self@ =~= old(self)@.update(idx as int, old(self)@[idx as int].spec_focus()));
        }
    }

    /// Dispatches one input snapshot to the widget at `idx`, exactly as
    /// [`step`] describes: the arena, the stack, the change flag and the
    /// event of the call are the four components of `step`.
    pub fn control_at(&mut self, idx: usize, input: State, stack: &mut Vec<usize>) -> (r: Reaction)
        requires
            wf_nodes(old(self)@),
            idx < old(self)@.len(),
        ensures
            final(self)@ == step(old(self)@, idx as int, input, old(stack)@).0,
            final(stack)@ == step(old(self)@, idx as int, input, old(stack)@).1,
            r.changed == step(old(self)@, idx as int, input, old(stack)@).2,
            r.event == step(old(self)@, idx as int, input, old(stack)@).3,
        decreases idx,
    {
        let leaf: Option<Reaction> = match &mut self.nodes[idx] {
            Widget::Menu(_) => None,
            Widget::Button(b) => {
                let rr = b.control(input);
                Some(tag(idx, rr))
            },
            Widget::Text(t) => {
                let rr = t.control(input);
                Some(tag(idx, rr))
            },
            Widget::Number(n) => {
                let rr = n.control(input);
                Some(tag(idx, rr))
            },
            Widget::Select(s) => {
                let rr = s.control(input);
                Some(tag(idx, rr))
            },
            Widget::Toggle(t) => {
                let rr = t.control(input);
                Some(tag(idx, rr))
            },
        };
        match leaf {
            Some(r) => {
                proof {
                    assert(self@ =~= step(old(self)@, idx as int, input, old(stack)@).0);
                }
                return r;
            },
            None => {},
        }
        proof {
            assert(self@ =~= old(self)@);
        }
        // Only a menu reaches this point.
        let (child, pos, len): (usize, usize, usize) = match &self.nodes[idx] {
            Widget::Menu(m) => (m.items[m.pos], m.pos, m.items.len()),
            _ => {
                proof {
                    assert(false);
                }
                (0, 0, 0)
            },
        };
        proof {
            assert(widget_ok(self@[idx as int], idx as int));
            assert(child < idx);
        }
        let child_focusable = self.node(child).focusable();
        if child_focusable && input.trigger.a {
            self.focus_at(child);
            stack.push(child);
            proof {
                assert(self@ =~= step(old(self)@, idx as int, input, old(stack)@).0);
                assert(stack@ =~= step(old(self)@, idx as int, input, old(stack)@).1);
            }
            Reaction { changed: true, event: None }
        } else if input.trigger.b {
            if stack.len() > 1 {
                match &mut self.nodes[idx] {
                    Widget::Menu(m) => {
                        m.focused = false;
                    },
                    _ => {},
                }
                let _ = stack.pop();
                proof {
                    assert(self@ =~= step(old(self)@, idx as int, input, old(stack)@).0);
                    assert(stack@ =~= step(old(self)@, idx as int, input, old(stack)@).1);
                }
                Reaction { changed: true, event: None }
            } else {
                Reaction { changed: false, event: None }
            }
        } else if input.trigger.left {
            let npos = if pos == 0 {
                len - 1
            } else {
                pos - 1
            };
            match &mut self.nodes[idx] {
                Widget::Menu(m) => {
                    m.pos = npos;
                },
                _ => {},
            }
            proof {
                assert(self@ =~= step(old(self)@, idx as int, input, old(stack)@).0);
            }
            Reaction { changed: true, event: None }
        } else if input.trigger.right {
            let npos = (pos + 1) % len;
            match &mut self.nodes[idx] {
                Widget::Menu(m) => {
                    m.pos = npos;
                },
                _ => {},
            }
            proof {
                assert(self@ =~= step(old(self)@, idx as int, input, old(stack)@).0);
            }
            Reaction { changed: true, event: None }
        } else {
            self.control_at(child, input, stack)
        }
    }

    /// Renders the widget at `idx`, exactly as [`spec_render_at`] describes.
    pub fn render_at(&self, idx: usize) -> (r: String)
        requires
            wf_nodes(self@),
            idx < self@.len(),
        ensures
            r@ == spec_render_at(self@, idx as int),
        decreases idx,
    {
        proof {
            assert(widget_ok(self@[idx as int], idx as int));
        }
        match &self.nodes[idx] {
            Widget::Menu(m) => {
                if m.focused {
                    let child = m.items[m.pos];
                    let mut s = String::from_str("\u{25c0}");
                    s.append("\u{3000}");
                    let c = self.render_at(child);
                    s.append(c.as_str());
                    s.append("\u{3000}");
                    s.append("\u{25b6}");
                    proof {
                        assert(s@ =~= spec_render_at(self@, idx as int));
                    }
                    s
                } else {
                    let mut s = m.name.clone();
                    s.append(" ");
                    s.append("\u{23ce}");
                    proof {
                        assert(s@ =~= spec_render_at(self@, idx as int));
                    }
                    s
                }
            },
            Widget::Button(b) => b.render(),
            Widget::Text(t) => t.render(),
            Widget::Number(n) => n.render(),
            Widget::Select(s) => s.render(),
            Widget::Toggle(t) => t.render(),
        }
    }
}

} // verus!
