//! A text-rendered menu-navigation engine for a gamepad-driven debug overlay.
//!
//! The engine owns a tree of widgets (menus, buttons, live text lines,
//! bounded numbers, selects and toggles) stored in an arena and addressed by
//! stable indices, a focus stack for modal drill-down navigation, and a
//! two-state overlay controller driven by per-tick input snapshots.  The
//! device-facing collaborators — the gamepad driver that produces the
//! snapshots, and the HUD sink that displays the rendered lines — live with
//! the host; the engine consumes and produces plain values only.

pub mod arena;
pub mod decimal;
pub mod input;
pub mod laws;
pub mod overlay;
pub mod widget;

pub use arena::Arena;
pub use arena::Reaction;
pub use input::Buttons;
pub use input::State;
pub use overlay::OverlayNotification;
pub use overlay::TickEffect;
pub use widget::Button;
pub use widget::Event;
pub use widget::Menu;
pub use widget::Number;
pub use widget::Select;
pub use widget::Selection;
pub use widget::Text;
pub use widget::Toggle;
pub use widget::Widget;
