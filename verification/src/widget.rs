//! The six widget kinds of the menu tree and their per-tick behaviour.
//!
//! A widget's `control` consumes one input snapshot and may mutate the
//! widget's own state; instead of invoking host callbacks directly, it
//! reports an [`Event`] that the host dispatches to the callback it keeps
//! for that widget.  Every `control` and `render` is pinned to a spec-level
//! step or render function, so the laws about them can be stated and proved
//! purely over those functions.

use vstd::prelude::*;

use crate::decimal::signed_dec_rep;
use crate::input::State;
use vstd::string::StringExecFns;

verus! {

/// A callback invocation owed to the host after a tick.
///
/// The host keeps one side-effecting callback per widget and runs the
/// matching one when a tick reports an event.
#[derive(Clone, Copy, PartialEq, Eq, Structural, Debug)]
pub enum Event {
    /// A `Button` was activated.
    Pressed,
    /// A `Number` was activated; carries the value at activation time.
    Activated(i64),
    /// A `Select` was activated; carries the index at activation time.
    Chosen(usize),
    /// A `Toggle` flipped; carries the value it flipped to.
    Toggled(bool),
}

/// A composite widget: an ordered list of children (arena indices), a
/// carousel position, and a focused flag.
pub struct Menu {
    pub name: String,
    pub items: Vec<usize>,
    pub pos: usize,
    pub focused: bool,
}

impl Menu {
    /// A fresh menu at position 0, unfocused.
    pub fn new(name: &str, items: Vec<usize>) -> (m: Menu)
        requires
            items@.len() > 0,
        ensures
            m.name@ == name@,
            m.items == items,
            m.pos == 0,
            !m.focused,
    {
        Menu { name: name.to_owned(), items, pos: 0, focused: false }
    }

    /// The unfocused rendering: the label and the enter glyph.
    pub open spec fn spec_render_unfocused(self) -> Seq<char> {
        self.name@ + " "@ + "\u{23ce}"@
    }
}

/// A leaf holding a label and (host-side) a zero-argument callback.
pub struct Button {
    pub text: String,
}

impl Button {
    pub fn new(text: &str) -> (b: Button)
        ensures
            b.text@ == text@,
    {
        Button { text: text.to_owned() }
    }

    pub open spec fn spec_render(self) -> Seq<char> {
        "<"@ + self.text@ + ">"@
    }

    /// `"<{label}>"`.
    pub fn render(&self) -> (r: String)
        ensures
            r@ == self.spec_render(),
    {
        let mut s = String::from_str("<");
        s.append(self.text.as_str());
        s.append(">");
        proof {
            assert(s@ =~= self.spec_render());
        }
        s
    }

    /// An A-press invokes the callback; a button never reports a change.
    pub open spec fn spec_step(self, input: State) -> (Button, bool, Option<Event>) {
        (self, false, if input.trigger.a {
            Some(Event::Pressed)
        } else {
            None
        })
    }

    pub fn control(&mut self, input: State) -> (r: (bool, Option<Event>))
        ensures
            (*final(self), r.0, r.1) == Button::spec_step(*old(self), input),
    {
        if input.trigger.a {
            (false, Some(Event::Pressed))
        } else {
            (false, None)
        }
    }
}

/// A leaf showing a live line of text.  The host refreshes the line from
/// the producer callback it keeps for the line — through
/// `OverlayNotification::set_text_at` once the widget sits in an arena —
/// and the always-true change flag below keeps the shown line fresh.
pub struct Text {
    pub value: String,
}

impl Text {
    pub fn new(value: &str) -> (t: Text)
        ensures
            t.value@ == value@,
    {
        Text { value: value.to_owned() }
    }

    /// Replaces the displayed line with a freshly produced one.
    pub fn set(&mut self, value: &str)
        ensures
            final(self).value@ == value@,
    {
        self.value = value.to_owned();
    }

    pub open spec fn spec_render(self) -> Seq<char> {
        self.value@
    }

    /// The current line, verbatim.
    pub fn render(&self) -> (r: String)
        ensures
            r@ == self.spec_render(),
    {
        self.value.clone()
    }

    /// Ignores the input and always reports a change, so an overlay showing
    /// a live line keeps re-rendering it every tick.
    pub open spec fn spec_step(self, input: State) -> (Text, bool, Option<Event>) {
        (self, true, None)
    }

    pub fn control(&mut self, input: State) -> (r: (bool, Option<Event>))
        ensures
            (*final(self), r.0, r.1) == Text::spec_step(*old(self), input),
    {
        (true, None)
    }
}

/// A leaf holding a bounded value stepped up and down by a fixed increment.
pub struct Number {
    pub text: String,
    pub value: i64,
    pub inc: i64,
    pub min: i64,
    pub max: i64,
}

impl Number {
    /// The invariant every constructor establishes and every step keeps.
    pub open spec fn inv(self) -> bool {
        self.min <= self.value <= self.max && 0 <= self.inc
    }

    pub fn new(text: &str, value: i64, inc: i64, min: i64, max: i64) -> (n: Number)
        requires
            min <= value <= max,
            0 <= inc,
        ensures
            n.text@ == text@,
            n.value == value,
            n.inc == inc,
            n.min == min,
            n.max == max,
            n.inv(),
    {
        Number { text: text.to_owned(), value, inc, min, max }
    }

    /// The icon showing which directions remain: up at the minimum, down at
    /// the maximum, both otherwise.  The minimum check comes first, so a
    /// collapsed range (`min == max`) shows the up icon.
    pub open spec fn spec_icon(self) -> Seq<char> {
        if self.value == self.min {
            "\u{2191}"@
        } else if self.value == self.max {
            "\u{2193}"@
        } else {
            "\u{2195}"@
        }
    }

    pub open spec fn spec_render(self) -> Seq<char> {
        self.text@ + ": "@ + signed_dec_rep(self.value as int) + " "@ + self.spec_icon()
    }

    /// `"{label}: {value} {icon}"`.
    pub fn render(&self) -> (r: String)
        ensures
            r@ == self.spec_render(),
    {
        let mut s = self.text.clone();
        s.append(": ");
        crate::decimal::append_signed_dec(&mut s, self.value);
        s.append(" ");
        if self.value == self.min {
            s.append("\u{2191}");
        } else if self.value == self.max {
            s.append("\u{2193}");
        } else {
            s.append("\u{2195}");
        }
        proof {
            assert(s@ =~= self.spec_render());
        }
        s
    }

    /// One tick: an Up-press adds the increment, clamping at the maximum;
    /// a Down-press subtracts it, adopting the candidate only when it lands
    /// at or above the minimum and strictly below the current value, and
    /// clamping to the minimum otherwise.  Both may fire in one tick, Up
    /// first.  An A-press reports the (possibly just moved) value.
    pub open spec fn spec_step(self, input: State) -> (Number, bool, Option<Event>) {
        let v1 = if input.trigger.up {
            if self.value + self.inc <= self.max {
                (self.value + self.inc) as i64
            } else {
                self.max
            }
        } else {
            self.value
        };
        let v2 = if input.trigger.down {
            if v1 - self.inc >= self.min && v1 - self.inc < v1 {
                (v1 - self.inc) as i64
            } else {
                self.min
            }
        } else {
            v1
        };
        let stepped = Number { text: self.text, value: v2, inc: self.inc, min: self.min, max: self.max };
        (stepped, input.trigger.up || input.trigger.down, if input.trigger.a {
            Some(Event::Activated(v2))
        } else {
            None
        })
    }

    pub fn control(&mut self, input: State) -> (r: (bool, Option<Event>))
        requires
            old(self).inv(),
        ensures
            (*final(self), r.0, r.1) == Number::spec_step(*old(self), input),
            final(self).inv(),
    {
        let mut changed = false;
        if input.trigger.up {
            let cand: i128 = self.value as i128 + self.inc as i128;
            if cand <= self.max as i128 {
                self.value = cand as i64;
            } else {
                self.value = self.max;
            }
            changed = true;
        }
        if input.trigger.down {
            let cand: i128 = self.value as i128 - self.inc as i128;
            if cand >= self.min as i128 && cand < self.value as i128 {
                self.value = cand as i64;
            } else {
                self.value = self.min;
            }
            changed = true;
        }
        let event = if input.trigger.a {
            Some(Event::Activated(self.value))
        } else {
            None
        };
        (changed, event)
    }
}

/// One option a `Select` offers: a display name paired with the value the
/// host hands to its callback.
pub struct Selection<T> {
    pub name: String,
    pub value: T,
}

impl<T> Selection<T> {
    pub fn new(name: &str, value: T) -> (s: Selection<T>)
        ensures
            s.name@ == name@,
            s.value == value,
    {
        Selection { name: name.to_owned(), value }
    }
}

/// A leaf choosing one of a fixed, non-empty list of named options, with
/// clamped (non-wrapping) navigation.
pub struct Select {
    pub text: String,
    pub options: Vec<String>,
    pub index: usize,
}

impl Select {
    /// The invariant every constructor establishes and every step keeps.
    pub open spec fn inv(self) -> bool {
        self.options@.len() > 0 && self.index < self.options@.len()
    }

    /// A fresh select over the option names, starting at index 0.  The host
    /// keeps the paired values and dispatches [`Event::Chosen`] against them.
    pub fn new<T>(text: &str, options: &Vec<Selection<T>>) -> (s: Select)
        requires
            options@.len() > 0,
        ensures
            s.text@ == text@,
            s.index == 0,
            s.options@.len() == options@.len(),
            forall|i: int| 0 <= i < options@.len() ==> s.options@[i]@ == options@[i].name@,
            s.inv(),
    {
        let mut names: Vec<String> = Vec::new();
        let mut i: usize = 0;
        while i < options.len()
            invariant
                i <= options@.len(),
                names@.len() == i,
                forall|j: int| 0 <= j < i ==> names@[j]@ == options@[j].name@,
            decreases options@.len() - i,
        {
            names.push(options[i].name.clone());
            i = i + 1;
        }
        Select { text: text.to_owned(), options: names, index: 0 }
    }

    /// The icon showing which directions remain: up at index 0, down at the
    /// last index, both otherwise.
    pub open spec fn spec_icon(self) -> Seq<char> {
        if self.index == 0 {
            "\u{2191}"@
        } else if self.index == self.options@.len() - 1 {
            "\u{2193}"@
        } else {
            "\u{2195}"@
        }
    }

    pub open spec fn spec_render(self) -> Seq<char> {
        self.text@ + ": "@ + self.options@[self.index as int]@ + " "@ + self.spec_icon()
    }

    /// `"{label}: {current option name} {icon}"`.
    pub fn render(&self) -> (r: String)
        requires
            self.inv(),
        ensures
            r@ == self.spec_render(),
    {
        let mut s = self.text.clone();
        s.append(": ");
        s.append(self.options[self.index].as_str());
        s.append(" ");
        if self.index == 0 {
            s.append("\u{2191}");
        } else if self.index == self.options.len() - 1 {
            s.append("\u{2193}");
        } else {
            s.append("\u{2195}");
        }
        proof {
            assert(s@ =~= self.spec_render());
        }
        s
    }

    /// One tick: an Up-press moves the index up by one unless already at the
    /// last option, a Down-press moves it down by one unless already at 0;
    /// either press reports a change even when the index stays put.  An
    /// A-press reports the (possibly just moved) index.
    pub open spec fn spec_step(self, input: State) -> (Select, bool, Option<Event>) {
        let i1 = if input.trigger.up && self.index < self.options@.len() - 1 {
            self.index + 1
        } else {
            self.index as int
        };
        let i2 = if input.trigger.down && i1 > 0 {
            i1 - 1
        } else {
            i1
        };
        let stepped = Select { text: self.text, options: self.options, index: i2 as usize };
        (stepped, input.trigger.up || input.trigger.down, if input.trigger.a {
            Some(Event::Chosen(i2 as usize))
        } else {
            None
        })
    }

    pub fn control(&mut self, input: State) -> (r: (bool, Option<Event>))
        requires
            old(self).inv(),
        ensures
            (*final(self), r.0, r.1) == Select::spec_step(*old(self), input),
            final(self).inv(),
    {
        let mut changed = false;
        if input.trigger.up {
            if self.index < self.options.len() - 1 {
                self.index = self.index + 1;
            }
            changed = true;
        }
        if input.trigger.down {
            if self.index > 0 {
                self.index = self.index - 1;
            }
            changed = true;
        }
        let event = if input.trigger.a {
            Some(Event::Chosen(self.index))
        } else {
            None
        };
        (changed, event)
    }
}

/// A leaf holding a boolean flipped by each A-press.
pub struct Toggle {
    pub text: String,
    pub value: bool,
}

impl Toggle {
    pub fn new(text: &str, value: bool) -> (t: Toggle)
        ensures
            t.text@ == text@,
            t.value == value,
    {
        Toggle { text: text.to_owned(), value }
    }

    pub open spec fn spec_render(self) -> Seq<char> {
        self.text@ + " ["@ + (if self.value {
            "X"@
        } else {
            "  "@
        }) + "]"@
    }

    /// `"{label} [X]"` when set, `"{label} [  ]"` when clear.
    pub fn render(&self) -> (r: String)
        ensures
            r@ == self.spec_render(),
    {
        let mut s = self.text.clone();
        s.append(" [");
        if self.value {
            s.append("X");
        } else {
            s.append("  ");
        }
        s.append("]");
        proof {
            assert(s@ =~= self.spec_render());
        }
        s
    }

    /// One tick: an A-press flips the value, reports a change, and reports
    /// the value it flipped to (never the old one).
    pub open spec fn spec_step(self, input: State) -> (Toggle, bool, Option<Event>) {
        if input.trigger.a {
            (Toggle { text: self.text, value: !self.value }, true, Some(Event::Toggled(!self.value)))
        } else {
            (self, false, None)
        }
    }

    pub fn control(&mut self, input: State) -> (r: (bool, Option<Event>))
        ensures
            (*final(self), r.0, r.1) == Toggle::spec_step(*old(self), input),
    {
        if input.trigger.a {
            self.value = !self.value;
            (true, Some(Event::Toggled(self.value)))
        } else {
            (false, None)
        }
    }
}

/// The closed set of widget kinds a menu tree is built from.
pub enum Widget {
    Menu(Menu),
    Button(Button),
    Text(Text),
    Number(Number),
    Select(Select),
    Toggle(Toggle),
}

impl Widget {
    /// Only composite menus can take the focus and be drilled into.
    pub open spec fn spec_focusable(self) -> bool {
        self is Menu
    }

    pub fn focusable(&self) -> (b: bool)
        ensures
            b == self.spec_focusable(),
    {
        match self {
            Widget::Menu(_) => true,
            _ => false,
        }
    }

    /// The widget after its focus hook ran: a menu raises its focused flag,
    /// every other kind is untouched.
    pub open spec fn spec_focus(self) -> Widget {
        match self {
            Widget::Menu(m) => Widget::Menu(
                Menu { name: m.name, items: m.items, pos: m.pos, focused: true },
            ),
            other => other,
        }
    }
}

} // verus!
