//! Text that shows one of two spellings depending on a switch, such as an
//! emoji prefix that falls back to nothing on terminals without emoji.
use vstd::prelude::*;
use std::marker::PhantomData;

verus! {

/// A global on/off condition.
pub trait Switch {
    /// Whether the switch is on right now.
    fn is_on() -> bool;
}

/// Shows `on` while `S` is on, `off` otherwise.
pub struct Switched<S: Switch, On = &'static str, Off = &'static str> {
    on: On,
    off: Off,
    _switch: PhantomData<S>,
}

impl<S: Switch, On, Off> Switched<S, On, Off> {
    /// The spelling while the switch is on.
    pub closed spec fn on_view(&self) -> On {
        self.on
    }

    /// The spelling while the switch is off.
    pub closed spec fn off_view(&self) -> Off {
        self.off
    }

    /// A switched text with the two spellings.
    pub fn new(on: On, off: Off) -> (r: Self)
        ensures
            r.on_view() == on,
            r.off_view() == off,
    {
        Switched { on, off, _switch: PhantomData }
    }
}

impl<S: Switch, On: Copy, Off: Copy> Clone for Switched<S, On, Off> {
    fn clone(&self) -> (r: Self)
        ensures
            r.on_view() == self.on_view(),
            r.off_view() == self.off_view(),
    {
        Switched { on: self.on, off: self.off, _switch: PhantomData }
    }
}

impl<S: Switch> Switched<S, &'static str, &'static str> {
    /// The spelling for the switch's present state.
    pub fn text(&self) -> (r: &'static str)
        ensures
            r == self.on_view() || r == self.off_view(),
    {
        self.text_for(S::is_on())
    }

    /// The spelling for a given switch state.
    pub fn text_for(&self, on: bool) -> (r: &'static str)
        ensures
            r == if on {
                self.on_view()
            } else {
                self.off_view()
            },
    {
        if on {
            self.on
        } else {
            self.off
        }
    }
}

/// Whether the terminal on standard output wants emoji.
///
/// Calls `console::Term::stdout().features().wants_emoji()`, which depends on
/// the terminal and the environment; nothing is stated of the answer.
#[verifier::external_body]
fn terminal_wants_emoji() -> bool {
    console::Term::stdout().features().wants_emoji()
}

/// On when the terminal wants emoji.
#[derive(Clone, Copy, Debug)]
pub struct EmojiSwitch;

impl Switch for EmojiSwitch {
    fn is_on() -> bool {
        terminal_wants_emoji()
    }
}

/// A text that is shown with its emoji only on terminals that want emoji.
pub type Emoji = Switched<EmojiSwitch>;

/// Prefix for success messages.
pub fn success_prefix() -> (r: Emoji)
    ensures
        r.on_view() == "✅ ",
        r.off_view() == "",
{
    Emoji::new("✅ ", "")
}

/// Prefix for discovery messages.
pub fn discovered_prefix() -> (r: Emoji)
    ensures
        r.on_view() == "🔍 ",
        r.off_view() == "",
{
    Emoji::new("🔍 ", "")
}

/// Prefix for network interface messages.
pub fn network_interface_prefix() -> (r: Emoji)
    ensures
        r.on_view() == "🔌 ",
        r.off_view() == "",
{
    Emoji::new("🔌 ", "")
}

} // verus!
