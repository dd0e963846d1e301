//! System command messages.

use vstd::prelude::*;

use crate::identifiers::TraderId;
use crate::text::{debug_text, push_char, push_str, shown_debug_text};
use crate::uuid::UUID4;

verus! {

/// What `{:?}` writes for an optional text: "None", or "Some(" and the
/// quoted, escaped text and ")".
pub open spec fn debug_option_text(reason: Option<Seq<char>>) -> Seq<char> {
    match reason {
        Some(r) => "Some("@ + shown_debug_text(r) + ")"@,
        None => "None"@,
    }
}

/// Represents a command to shut down a system and terminate the process.
#[derive(Clone, PartialEq, Eq, Hash)]
pub struct ShutdownSystem {
    /// The trader ID associated with the command.
    pub trader_id: TraderId,
    /// The component ID associated with the command.
    pub component_id: String,
    /// The reason for the shutdown command.
    pub reason: Option<String>,
    /// The command ID.
    pub command_id: UUID4,
    /// UNIX timestamp (nanoseconds) when the instance was created.
    pub ts_init: u64,
}

/// The view of an optional owned text.
pub open spec fn opt_string_view(s: Option<String>) -> Option<Seq<char>> {
    match s {
        Some(t) => Some(t@),
        None => None,
    }
}

impl ShutdownSystem {
    /// Creates a new [`ShutdownSystem`] instance.
    pub fn new(
        trader_id: TraderId,
        component_id: String,
        reason: Option<String>,
        command_id: UUID4,
        ts_init: u64,
    ) -> (r: ShutdownSystem)
        ensures
            r.trader_id == trader_id,
            r.component_id == component_id,
            r.reason == reason,
            r.command_id == command_id,
            r.ts_init == ts_init,
    {
        ShutdownSystem { trader_id, component_id, reason, command_id, ts_init }
    }

    /// The command as `Display` shows it:
    /// "ShutdownSystem(trader_id=.., component_id=.., reason=.., command_id=..)",
    /// the reason as `{:?}` writes an optional text: "None", or for instance
    /// `Some("maintenance")` for a reason of plain characters.
    pub fn to_string(&self) -> (r: String)
        requires
            self.command_id.is_c_string(),
        ensures
            r@ == "ShutdownSystem(trader_id="@ + self.trader_id@ + ", component_id="@
                + self.component_id@ + ", reason="@ + debug_option_text(
                opt_string_view(self.reason),
            ) + ", command_id="@ + self.command_id.shown_text() + ")"@,
            self.command_id.readable() ==> self.command_id.shown_text() == self.command_id.text(),
    {
        let mut s = String::new();
        push_str(&mut s, "ShutdownSystem(trader_id=");
        push_str(&mut s, self.trader_id.as_str());
        push_str(&mut s, ", component_id=");
        push_str(&mut s, self.component_id.as_str());
        push_str(&mut s, ", reason=");
        match &self.reason {
            Some(r) => {
                push_str(&mut s, "Some(");
                let d = debug_text(r.as_str());
                push_str(&mut s, d.as_str());
                push_str(&mut s, ")");
            },
            None => {
                push_str(&mut s, "None");
            },
        }
        push_str(&mut s, ", command_id=");
        let id = self.command_id.to_string();
        assert(self.command_id.readable() ==> self.command_id.shown_text() == self.command_id.text());
        push_str(&mut s, id.as_str());
        push_str(&mut s, ")");
        s
    }
}

} // verus!
