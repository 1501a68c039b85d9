//! What closing the main window does.
use vstd::prelude::*;
use crate::codes::str_equals;

verus! {

/// Whether closing the main window minimises it to the tray or exits.
#[derive(Debug, Clone, Copy, PartialEq, Eq, Structural)]
pub struct CloseBehavior {
    pub minimize_to_tray: bool,
}

pub open spec fn tray_word() -> Seq<char> {
    "tray"@
}

pub open spec fn exit_word() -> Seq<char> {
    "exit"@
}

impl CloseBehavior {
    /// Closing exits, until told otherwise.
    pub fn new() -> (r: CloseBehavior)
        ensures
            !r.minimize_to_tray,
    {
        CloseBehavior { minimize_to_tray: false }
    }

    /// Sets the behaviour from its name: `"tray"` minimises to the tray, any
    /// other name exits.
    pub fn set_close_behavior(&mut self, behavior: &str)
        ensures
            final(self).minimize_to_tray == (behavior@ == tray_word()),
    {
        let tray = ['t', 'r', 'a', 'y'];
        proof {
            reveal_strlit("tray");
        }
        assert(tray@ =~= tray_word());
        self.minimize_to_tray = str_equals(behavior, &tray);
    }

    /// The name of the current behaviour: `"tray"` or `"exit"`.
    pub fn get_close_behavior(&self) -> (r: String)
        ensures
            r@ == if self.minimize_to_tray { tray_word() } else { exit_word() },
    {
        if self.minimize_to_tray {
            "tray".to_owned()
        } else {
            "exit".to_owned()
        }
    }
}

/// Whether closing the main window should minimise it to the tray.
pub fn should_minimize_to_tray(settings: &CloseBehavior) -> (r: bool)
    ensures
        r == settings.minimize_to_tray,
{
    settings.minimize_to_tray
}

} // verus!
