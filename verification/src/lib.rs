//! Core utilities of the NiceTrader platform: identifiers, number and key
//! formatting, logging configuration and the decisions behind log output.

pub mod drop;
pub mod formatting;
pub mod generators;
pub mod identifiers;
pub mod logging;
pub mod messages;
pub mod network;
pub mod paths;
pub mod string;
pub mod text;
pub mod uuid;

use vstd::prelude::*;

verus! {

/// The platform's name.
pub const NICE_TRADER: &'static str = "NiceTrader";

/// The platform's version.
pub const NICE_VERSION: &'static str = "1.222.0";

/// The User-Agent string of the platform, with its version.
pub const NICE_USER_AGENT: &'static str = "NiceTrader/1.222.0";

/// Message for when a mutex guard cannot be acquired due to poisoning.
pub const MUTEX_POISONED: &'static str = "Mutex poisoned";

/// Sentinel message to signal reconnection completion to consumers.
pub const RECONNECTED: &'static str = "__RECONNECTED__";

/// A friendly greeting from the utility crate.
pub fn hello() -> (r: String)
    ensures
        r@ == "Hello from common-utils!"@,
{
    String::from_str("Hello from common-utils!")
}

} // verus!
