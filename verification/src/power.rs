//! Shutdown/restart actions offered by the greeter before login.

use vstd::prelude::*;

verus! {

/// A power action the greeter can ask the system to perform.
#[derive(Clone, Copy, PartialEq, Eq, Debug)]
pub enum PowerAction {
    Shutdown,
    Reboot,
}

/// The confirmation prompt shown for `action`.
pub open spec fn spec_confirm_label(action: PowerAction) -> Seq<char> {
    match action {
        PowerAction::Shutdown => "Shut down now? Click the icon again or press Enter to confirm, Esc to cancel"@,
        PowerAction::Reboot => "Restart now? Click the icon again or press Enter to confirm, Esc to cancel"@,
    }
}

/// The `systemctl` verb that carries out `action`.
pub open spec fn spec_systemctl_verb(action: PowerAction) -> Seq<char> {
    match action {
        PowerAction::Shutdown => "poweroff"@,
        PowerAction::Reboot => "reboot"@,
    }
}

impl PowerAction {
    /// Text asking the user to confirm this action.
    pub fn confirm_label(self) -> (label: &'static str)
        ensures
            label@ == spec_confirm_label(self),
    {
        match self {
            PowerAction::Shutdown => "Shut down now? Click the icon again or press Enter to confirm, Esc to cancel",
            PowerAction::Reboot => "Restart now? Click the icon again or press Enter to confirm, Esc to cancel",
        }
    }

    /// The `systemctl` subcommand for this action.
    pub fn systemctl_verb(self) -> (verb: &'static str)
        ensures
            verb@ == spec_systemctl_verb(self),
    {
        match self {
            PowerAction::Shutdown => "poweroff",
            PowerAction::Reboot => "reboot",
        }
    }
}

} // verus!
