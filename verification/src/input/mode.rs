//! Input mode state for controlling input routing.
//!
//! Decides whether keyboard input goes to the PTY (passthrough mode) or only
//! to API subscribers (capture mode), and tracks the owner of a capture so
//! that one client cannot steal another client's capture.

use vstd::prelude::*;
use crate::text::{concat2, owned, str_eq};

verus! {

/// The current input routing mode.
#[derive(Debug, Clone, Copy, PartialEq, Eq, Structural)]
pub enum Mode {
    /// Input goes to both API subscribers and PTY.
    Passthrough,
    /// Input goes only to API subscribers.
    Capture,
}

impl Default for Mode {
    fn default() -> (r: Self)
        ensures
            r == Mode::Passthrough,
    {
        Mode::Passthrough
    }
}

/// Error returned when a capture/release operation is rejected.
#[derive(Debug, Clone, PartialEq, Eq)]
pub enum InputModeError {
    /// Another owner already holds the capture.
    AlreadyCaptured { owner: String },
    /// The caller is not the current capture owner.
    NotOwner,
}

/// The mathematical content of an [`InputModeError`].
pub enum InputModeErrorView {
    AlreadyCaptured(Seq<char>),
    NotOwner,
}

impl View for InputModeError {
    type V = InputModeErrorView;

    open spec fn view(&self) -> InputModeErrorView {
        match self {
            InputModeError::AlreadyCaptured { owner } => InputModeErrorView::AlreadyCaptured(owner@),
            InputModeError::NotOwner => InputModeErrorView::NotOwner,
        }
    }
}

/// The human-readable text of an input mode error.
pub open spec fn input_mode_error_text(e: InputModeErrorView) -> Seq<char> {
    match e {
        InputModeErrorView::AlreadyCaptured(owner) => "input already captured by "@ + owner,
        InputModeErrorView::NotOwner => "caller is not the current capture owner"@,
    }
}

impl InputModeError {
    /// The human-readable text of this error.
    pub fn to_text(&self) -> (r: String)
        ensures
            r@ == input_mode_error_text(self@),
    {
        match self {
            InputModeError::AlreadyCaptured { owner } => concat2("input already captured by ", owner.as_str()),
            InputModeError::NotOwner => owned("caller is not the current capture owner"),
        }
    }
}

/// The abstract input-mode state: the mode and the capture owner.
pub struct InputModeView {
    pub mode: Mode,
    pub owner: Option<Seq<char>>,
}

impl InputModeView {
    /// Capture mode exactly when someone owns the capture.
    pub open spec fn wf(self) -> bool {
        (self.mode == Mode::Capture) == (self.owner is Some)
    }
}

/// The initial state: passthrough, no owner.
pub open spec fn initial_mode_state() -> InputModeView {
    InputModeView { mode: Mode::Passthrough, owner: None }
}

/// The owner that the local terminal user takes when toggling into capture.
pub open spec fn local_owner() -> Seq<char> {
    "local"@
}

/// Result of `capture(owner)` from state `s`: refused when a different owner
/// holds the capture, otherwise capture mode owned by `owner`.
pub open spec fn capture_step(s: InputModeView, owner: Seq<char>) -> Result<InputModeView, InputModeErrorView> {
    match s.owner {
        Some(existing) if existing != owner => Err(InputModeErrorView::AlreadyCaptured(existing)),
        _ => Ok(InputModeView { mode: Mode::Capture, owner: Some(owner) }),
    }
}

/// Result of `release(owner)` from state `s`: refused when a different owner
/// holds the capture, otherwise passthrough with no owner.
pub open spec fn release_step(s: InputModeView, owner: Seq<char>) -> Result<InputModeView, InputModeErrorView> {
    match s.owner {
        Some(existing) if existing != owner => Err(InputModeErrorView::NotOwner),
        _ => Ok(InputModeView { mode: Mode::Passthrough, owner: None }),
    }
}

/// State after `release_if_owner(owner)`.
pub open spec fn release_if_owner_step(s: InputModeView, owner: Seq<char>) -> InputModeView {
    if s.owner == Some(owner) {
        InputModeView { mode: Mode::Passthrough, owner: None }
    } else {
        s
    }
}

/// State after `toggle()`.
pub open spec fn toggle_step(s: InputModeView) -> InputModeView {
    match s.mode {
        Mode::Passthrough => InputModeView { mode: Mode::Capture, owner: Some(local_owner()) },
        Mode::Capture => InputModeView { mode: Mode::Passthrough, owner: None },
    }
}

/// Input mode state: the current routing mode and the capture owner.
///
/// Defaults to passthrough mode where input flows to both API subscribers
/// and the PTY.
#[derive(Debug)]
pub struct InputMode {
    mode: Mode,
    /// Connection ID of the client that activated capture, if any.
    owner: Option<String>,
}

impl View for InputMode {
    type V = InputModeView;

    closed spec fn view(&self) -> InputModeView {
        InputModeView {
            mode: self.mode,
            owner: match self.owner {
                Some(o) => Some(o@),
                None => None,
            },
        }
    }
}

impl InputMode {
    #[verifier::type_invariant]
    closed spec fn inv(self) -> bool {
        self@.wf()
    }

    /// Creates a new InputMode in the default Passthrough state.
    pub fn new() -> (r: Self)
        ensures
            r@ == initial_mode_state(),
            r@.wf(),
    {
        InputMode { mode: Mode::Passthrough, owner: None }
    }

    /// Gets the current mode.
    pub fn get(&self) -> (r: Mode)
        ensures
            r == self@.mode,
            self@.wf(),
    {
        proof {
            use_type_invariant(self);
        }
        self.mode
    }

    /// Sets the mode to Capture with the given owner.
    ///
    /// Returns `Err` (and leaves the state unchanged) if already captured by a
    /// different owner.
    pub fn capture(&mut self, owner: &str) -> (r: Result<(), InputModeError>)
        ensures
            final(self)@.wf(),
            match capture_step(old(self)@, owner@) {
                Ok(next) => r is Ok && final(self)@ == next,
                Err(e) => r matches Err(err) && err@ == e && final(self)@ == old(self)@,
            },
    {
        proof {
            use_type_invariant(&*self);
        }
        if let Some(existing) = &self.owner {
            if !str_eq(existing.as_str(), owner) {
                return Err(InputModeError::AlreadyCaptured { owner: existing.clone() });
            }
        }
        *self = InputMode { mode: Mode::Capture, owner: Some(owned(owner)) };
        Ok(())
    }

    /// Sets the mode to Passthrough, releasing the capture.
    ///
    /// Only succeeds if the caller is the current owner (or if there is no
    /// owner); otherwise the state is unchanged.
    pub fn release(&mut self, owner: &str) -> (r: Result<(), InputModeError>)
        ensures
            final(self)@.wf(),
            match release_step(old(self)@, owner@) {
                Ok(next) => r is Ok && final(self)@ == next,
                Err(e) => r matches Err(err) && err@ == e && final(self)@ == old(self)@,
            },
    {
        proof {
            use_type_invariant(&*self);
        }
        if let Some(existing) = &self.owner {
            if !str_eq(existing.as_str(), owner) {
                return Err(InputModeError::NotOwner);
            }
        }
        *self = InputMode { mode: Mode::Passthrough, owner: None };
        Ok(())
    }

    /// Releases the capture if the given owner holds it; does nothing
    /// otherwise. Used for auto-release on disconnect.
    pub fn release_if_owner(&mut self, owner: &str)
        ensures
            final(self)@ == release_if_owner_step(old(self)@, owner@),
            final(self)@.wf(),
    {
        proof {
            use_type_invariant(&*self);
        }
        let holds = match &self.owner {
            Some(existing) => str_eq(existing.as_str(), owner),
            None => false,
        };
        if holds {
            *self = InputMode { mode: Mode::Passthrough, owner: None };
        }
    }

    /// Toggles the mode: Passthrough → Capture (owned by "local"),
    /// Capture → Passthrough. Returns the new mode.
    pub fn toggle(&mut self) -> (r: Mode)
        ensures
            final(self)@ == toggle_step(old(self)@),
            r == final(self)@.mode,
            final(self)@.wf(),
    {
        proof {
            use_type_invariant(&*self);
        }
        match self.mode {
            Mode::Passthrough => {
                *self = InputMode { mode: Mode::Capture, owner: Some(owned("local")) };
                Mode::Capture
            },
            Mode::Capture => {
                *self = InputMode { mode: Mode::Passthrough, owner: None };
                Mode::Passthrough
            },
        }
    }

    /// Returns true if the current mode is Capture.
    pub fn is_capture(&self) -> (r: bool)
        ensures
            r == (self@.mode == Mode::Capture),
    {
        self.mode == Mode::Capture
    }

    /// Returns the current capture owner, if any.
    pub fn owner(&self) -> (r: Option<String>)
        ensures
            match r {
                Some(o) => self@.owner == Some(o@),
                None => self@.owner is None,
            },
    {
        match &self.owner {
            Some(o) => Some(o.clone()),
            None => None,
        }
    }
}

impl Clone for InputMode {
    fn clone(&self) -> (r: Self)
        ensures
            r@ == self@,
    {
        proof {
            use_type_invariant(self);
        }
        InputMode {
            mode: self.mode,
            owner: match &self.owner {
                Some(o) => Some(o.clone()),
                None => None,
            },
        }
    }
}

impl Default for InputMode {
    fn default() -> (r: Self)
        ensures
            r@ == initial_mode_state(),
    {
        Self::new()
    }
}

/// Every transition keeps the invariant "capture mode exactly when someone
/// owns the capture".
pub proof fn law_transitions_keep_wf(s: InputModeView, owner: Seq<char>)
    requires
        s.wf(),
    ensures
        initial_mode_state().wf(),
        capture_step(s, owner) matches Ok(n) ==> n.wf(),
        release_step(s, owner) matches Ok(n) ==> n.wf(),
        release_if_owner_step(s, owner).wf(),
        toggle_step(s).wf(),
{
}

/// Whoever captures can release again, which always returns to passthrough
/// with no owner; a capture is refused exactly when someone else holds it.
pub proof fn law_capture_then_release(s: InputModeView, owner: Seq<char>)
    requires
        s.wf(),
    ensures
        capture_step(s, owner) is Ok <==> (s.owner is None || s.owner == Some(owner)),
        capture_step(s, owner) matches Ok(n) ==> release_step(n, owner) == Ok::<InputModeView, InputModeErrorView>(initial_mode_state()),
{
}

/// A client that does not hold the capture can neither take it over nor
/// release it, and an automatic release on its behalf changes nothing.
pub proof fn law_foreign_owner_is_refused(s: InputModeView, owner: Seq<char>, other: Seq<char>)
    requires
        s.wf(),
        s.owner == Some(owner),
        other != owner,
    ensures
        capture_step(s, other) == Err::<InputModeView, InputModeErrorView>(InputModeErrorView::AlreadyCaptured(owner)),
        release_step(s, other) == Err::<InputModeView, InputModeErrorView>(InputModeErrorView::NotOwner),
        release_if_owner_step(s, other) == s,
{
}

/// Toggling twice from passthrough returns to passthrough with no owner; a
/// toggle into capture is owned by the local user.
pub proof fn law_toggle_twice(s: InputModeView)
    requires
        s.wf(),
        s.mode == Mode::Passthrough,
    ensures
        toggle_step(s).mode == Mode::Capture,
        toggle_step(s).owner == Some(local_owner()),
        toggle_step(toggle_step(s)) == initial_mode_state(),
{
}

} // verus!
