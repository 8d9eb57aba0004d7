//! What a session tells its owner on its own account.

use vstd::prelude::*;

verus! {

/// An event of a session.
#[derive(Debug)]
pub enum SessionEvent<S> {
    /// What a server says of itself, or which server is being connected to.
    Banner(Option<S>),
    /// The target has accepted the user.
    Authenticated,
    /// The session has ended with this failure.
    Error(S),
}

impl View for SessionEvent<String> {
    type V = SessionEvent<Seq<char>>;

    open spec fn view(&self) -> SessionEvent<Seq<char>> {
        match *self {
            SessionEvent::Banner(Some(text)) => SessionEvent::Banner(Some(text@)),
            SessionEvent::Banner(None) => SessionEvent::Banner(None),
            SessionEvent::Authenticated => SessionEvent::Authenticated,
            SessionEvent::Error(text) => SessionEvent::Error(text@),
        }
    }
}

} // verus!
