//! Input events delivered to subscribers.

use vstd::prelude::*;
use vstd::slice::slice_to_vec;
use crate::input::keys::{key_of, parse_key, ParsedKey};
use crate::input::mode::Mode;

verus! {

/// Input event broadcast to subscribers.
#[derive(Debug, Clone)]
pub enum InputEvent {
    Input { mode: Mode, raw: Vec<u8>, parsed: Option<ParsedKey>, target: Option<String> },
    Mode { mode: Mode },
}

impl InputEvent {
    /// The event announcing input `data` received in `mode`, routed to
    /// `target`: it carries the raw bytes, and the parsed key when the bytes
    /// are a recognized key.
    pub fn input(data: &[u8], mode: Mode, target: Option<String>) -> (r: InputEvent)
        ensures
            r matches InputEvent::Input { mode: m, raw, parsed, target: t } && m == mode && raw@
                == data@ && t == target && (match parsed {
                Some(p) => key_of(data@).0 is Some && p@.key == key_of(data@).0 && p@.modifiers
                    == key_of(data@).1,
                None => key_of(data@).0 is None,
            }),
    {
        let parsed = parse_key(data);
        let parsed = if parsed.key.is_some() {
            Some(parsed)
        } else {
            None
        };
        InputEvent::Input { mode, raw: slice_to_vec(data), parsed, target }
    }

    /// The event announcing a switch to `mode`.
    pub fn mode_change(mode: Mode) -> (r: InputEvent)
        ensures
            r matches InputEvent::Mode { mode: m } && m == mode,
    {
        InputEvent::Mode { mode }
    }
}

} // verus!
