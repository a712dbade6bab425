use vstd::prelude::*;
use vstd::string::*;
use crate::config::{Config, Orientation};
use crate::normalize::{normalize, normalized};

verus! {

/// `c` names one of the four orientations that have an action of their own.
pub open spec fn is_named(c: Seq<char>) -> bool {
    c == "normal"@ || c == "bottomup"@ || c == "leftup"@ || c == "rightup"@
}

/// The action for category `c`; any other name falls back to the undefined action.
pub open spec fn command_of(c: Seq<char>, o: Orientation) -> String {
    if c == "normal"@ {
        o.normal
    } else if c == "bottomup"@ {
        o.bottomup
    } else if c == "leftup"@ {
        o.leftup
    } else if c == "rightup"@ {
        o.rightup
    } else {
        o.undefined
    }
}

/// The shell command to run for the orientation category `category`.
pub fn command_for<'a>(category: &str, config: &'a Config) -> (r: &'a String)
    ensures
        *r == command_of(category@, config.orientation),
        !is_named(category@) ==> *r == config.orientation.undefined,
{
    let c = String::from_str(category);
    if c == String::from_str("normal") {
        &config.orientation.normal
    } else if c == String::from_str("bottomup") {
        &config.orientation.bottomup
    } else if c == String::from_str("leftup") {
        &config.orientation.leftup
    } else if c == String::from_str("rightup") {
        &config.orientation.rightup
    } else {
        &config.orientation.undefined
    }
}

/// The shell command for an event name as given (one-shot mode): the name is
/// normalized first, so "Left-Up" selects the leftup action.
pub fn command_for_event<'a>(event: &str, config: &'a Config) -> (r: &'a String)
    ensures
        *r == command_of(normalized(event@), config.orientation),
{
    let key = normalize(event);
    command_for(key.as_str(), config)
}

} // verus!
