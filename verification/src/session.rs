//! One live interactive shell, as the registry records it.

use vstd::prelude::*;
use crate::geometry::Dimensions;

verus! {

/// A session: its identifier, the current size of its terminal, and the
/// handles through which the caller reaches the terminal and the shell.
///
/// `H` is whatever the caller needs in order to write to the terminal, to
/// resize it and to end the shell. The library keeps it and hands it back; it
/// never looks inside.
pub struct Session<H> {
    pub id: String,
    pub dimensions: Dimensions,
    pub handles: H,
}

/// What a [`Session`] is in contracts: its identifier as a sequence of
/// characters, beside the same dimensions and handles.
pub struct SessionView<H> {
    pub id: Seq<char>,
    pub dimensions: Dimensions,
    pub handles: H,
}

impl<H> View for Session<H> {
    type V = SessionView<H>;

    open spec fn view(&self) -> SessionView<H> {
        SessionView { id: self.id@, dimensions: self.dimensions, handles: self.handles }
    }
}

impl<H> Session<H> {
    /// A session of the initial size.
    pub fn new(id: String, handles: H) -> (session: Session<H>)
        ensures
            session@ == (SessionView { id: id@, dimensions: Dimensions::initial(), handles }),
    {
        Session { id, dimensions: Dimensions::default(), handles }
    }
}

impl<H> SessionView<H> {
    /// The same session with another size.
    pub open spec fn with_dimensions(self, dimensions: Dimensions) -> SessionView<H> {
        SessionView { id: self.id, dimensions, handles: self.handles }
    }
}

} // verus!
