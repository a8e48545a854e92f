//! The session manager: open, write, resize and close.
//!
//! The manager decides; the caller acts. Each operation that needs the
//! operating system comes in two halves: the caller does the system's part
//! and reports how it ended, and the manager keeps the books and says what
//! the operation returns.

use vstd::prelude::*;
use vstd::hash_map::StringHashMap;
use vstd::utf8::encode_utf8;
use crate::error::SessionError;
use crate::geometry::Dimensions;
use crate::ident::is_random_uuid_text;
use crate::ident::random_identifier;
use crate::registry::SessionRegistry;
use crate::model::IoOutcome;
use crate::model::ManagerState;
use crate::session::Session;

verus! {

/// How the caller's attempt to bring up a terminal with a shell ended.
pub enum SpawnOutcome<H> {
    /// No pseudo-terminal could be allocated.
    AllocationFailed,
    /// A terminal was allocated, but the shell did not start on it. The
    /// caller has released the terminal.
    SpawnFailed,
    /// The shell was started, but the terminal gave no handle to write to it
    /// or none to read from it. The caller has released what it held.
    ChannelsUnavailable,
    /// The shell runs; these are the handles to it and to its terminal.
    Ready(H),
}

/// What the caller has to do for a write: send all of `payload`, in order,
/// through `handles`, and flush.
pub struct WriteOrder<'m, 'd, H> {
    pub handles: &'m H,
    pub payload: &'d [u8],
}

/// What the caller has to do for a resize: give the terminal behind
/// `handles` the size `dimensions`.
pub struct ResizeOrder<'a, H> {
    pub handles: &'a H,
    pub dimensions: Dimensions,
}

/// Second half of a write: what the write returns, given how sending the
/// payload ended. The manager is not touched: a failed write leaves the
/// session open, for the caller to try again or to close.
pub fn finish_write(sent: IoOutcome) -> (written: Result<(), SessionError>)
    ensures
        written == sent.write_result(),
{
    match sent {
        IoOutcome::Completed => Ok(()),
        IoOutcome::Failed => Err(SessionError::WriteFailed),
    }
}

/// The registry of open sessions together with the record of every
/// identifier that was ever issued.
pub struct SessionManager<H> {
    registry: SessionRegistry<H>,
    issued: StringHashMap<()>,
}

impl<H> View for SessionManager<H> {
    type V = ManagerState<H>;

    closed spec fn view(&self) -> ManagerState<H> {
        ManagerState { sessions: self.registry@, issued: self.issued@.dom() }
    }
}

impl<H> SessionManager<H> {
    #[verifier::type_invariant]
    spec fn well_formed(&self) -> bool {
        forall|id: Seq<char>| #[trigger]
            self.registry@.contains_key(id) ==> self.registry@[id].id == id
                && self.issued@.contains_key(id)
    }

    /// A manager without sessions that has issued no identifier.
    pub fn new() -> (manager: SessionManager<H>)
        ensures
            manager@ == ManagerState::<H>::empty(),
    {
        let manager = SessionManager { registry: SessionRegistry::new(), issued: StringHashMap::new() };
        assert(manager@ =~= ManagerState::<H>::empty());
        manager
    }

    /// Registers a session under `candidate`, unless that identifier was
    /// issued before: then the candidate is turned down with
    /// [`SessionError::IdentifierUnavailable`], the handles are dropped and
    /// nothing changes.
    pub fn register(&mut self, candidate: String, handles: H) -> (registered: Result<
        String,
        SessionError,
    >)
        ensures
            final(self)@.valid(),
            final(self)@ == old(self)@.register(candidate@, handles).0,
            match registered {
                Ok(id) => old(self)@.register(candidate@, handles).1 == Ok::<
                    Seq<char>,
                    SessionError,
                >(id@),
                Err(e) => old(self)@.register(candidate@, handles).1 == Err::<
                    Seq<char>,
                    SessionError,
                >(e),
            },
    {
        proof {
            use_type_invariant(&*self);
        }
        if self.issued.contains_key(candidate.as_str()) {
            return Err(SessionError::IdentifierUnavailable);
        }
        let id = candidate.clone();
        // Both parts are taken out, changed and put back: that way the
        // manager is well-formed whenever control leaves this function.
        let mut registry = SessionRegistry::new();
        std::mem::swap(&mut self.registry, &mut registry);
        let mut issued = StringHashMap::new();
        std::mem::swap(&mut self.issued, &mut issued);
        issued.insert(candidate.clone(), ());
        registry.insert(Session::new(candidate, handles));
        self.issued = issued;
        self.registry = registry;
        assert(self@ =~= old(self)@.registered(id@, handles));
        Ok(id)
    }

    /// Opens a session, given how the caller's attempt to bring up a terminal
    /// with a shell ended.
    ///
    /// A failed attempt is answered with its error and leaves no trace. For a
    /// running shell an identifier is drawn from the system's random source;
    /// the session is registered under it at the initial size, and the
    /// identifier is returned. It is one that no session of this manager ever
    /// had.
    ///
    /// A running shell is turned down in one case only: the draw repeated an
    /// identifier that this manager had issued before. Then the answer is
    /// [`SessionError::IdentifierUnavailable`], nothing is registered and the
    /// handles are dropped. A manager that has issued no identifier of the
    /// drawn shape, a new one among them, therefore opens the session.
    ///
    /// The draw is the one call that this function makes to the system. It
    /// panics where the system gives no random bytes.
    pub fn open(&mut self, spawn: SpawnOutcome<H>) -> (opened: Result<String, SessionError>)
        ensures
            final(self)@.valid(),
            (spawn is Ready && opened is Err) ==> exists|drawn: Seq<char>|
                is_random_uuid_text(drawn) && #[trigger] old(self)@.issued.contains(drawn),
            match spawn {
                SpawnOutcome::AllocationFailed => final(self)@ == old(self)@ && opened == Err::<
                    String,
                    SessionError,
                >(SessionError::PtyAllocationFailed),
                SpawnOutcome::SpawnFailed => final(self)@ == old(self)@ && opened == Err::<
                    String,
                    SessionError,
                >(SessionError::ShellSpawnFailed),
                SpawnOutcome::ChannelsUnavailable => final(self)@ == old(self)@ && opened == Err::<
                    String,
                    SessionError,
                >(SessionError::PtyAllocationFailed),
                SpawnOutcome::Ready(handles) => match opened {
                    Ok(id) => is_random_uuid_text(id@) && !old(self)@.issued.contains(id@)
                        && final(self)@ == old(self)@.registered(id@, handles),
                    Err(e) => e == SessionError::IdentifierUnavailable && final(self)@ == old(
                        self,
                    )@,
                },
            },
    {
        proof {
            use_type_invariant(&*self);
        }
        match spawn {
            SpawnOutcome::AllocationFailed => Err(SessionError::PtyAllocationFailed),
            SpawnOutcome::SpawnFailed => Err(SessionError::ShellSpawnFailed),
            SpawnOutcome::ChannelsUnavailable => Err(SessionError::PtyAllocationFailed),
            SpawnOutcome::Ready(handles) => {
                let candidate = random_identifier();
                let ghost drawn = candidate@;
                let opened = self.register(candidate, handles);
                proof {
                    if opened is Err {
                        assert(is_random_uuid_text(drawn) && old(self)@.issued.contains(drawn));
                    }
                }
                opened
            },
        }
    }

    /// Whether a session is open under `id`.
    pub fn is_open(&self, id: &str) -> (open: bool)
        ensures
            open == self@.is_open(id@),
    {
        self.registry.contains(id)
    }

    /// The size on record for the session `id`.
    pub fn dimensions(&self, id: &str) -> (found: Result<Dimensions, SessionError>)
        ensures
            found == self@.dimensions_of(id@),
    {
        match self.registry.lookup(id) {
            Ok(session) => Ok(session.dimensions),
            Err(e) => Err(e),
        }
    }

    /// First half of a write: finds the session and says what is to be sent
    /// where. The payload is all of `data`, as the bytes of its UTF-8 form.
    pub fn begin_write<'m, 'd>(&'m self, id: &str, data: &'d str) -> (order: Result<
        WriteOrder<'m, 'd, H>,
        SessionError,
    >)
        ensures
            self@.valid(),
            match order {
                Ok(o) => self@.handles_of(id@) == Ok::<H, SessionError>(*o.handles) && o.payload@
                    == encode_utf8(data@),
                Err(e) => self@.handles_of(id@) == Err::<H, SessionError>(e),
            },
    {
        proof {
            use_type_invariant(self);
        }
        match self.registry.lookup(id) {
            Ok(session) => Ok(WriteOrder { handles: &session.handles, payload: data.as_bytes() }),
            Err(e) => Err(e),
        }
    }

    /// First half of a resize: finds the session and says which terminal is
    /// to get which size.
    pub fn begin_resize<'a>(&'a self, id: &str, rows: u16, cols: u16) -> (order: Result<
        ResizeOrder<'a, H>,
        SessionError,
    >)
        ensures
            self@.valid(),
            match order {
                Ok(o) => self@.handles_of(id@) == Ok::<H, SessionError>(*o.handles)
                    && o.dimensions == (Dimensions { rows, cols }),
                Err(e) => self@.handles_of(id@) == Err::<H, SessionError>(e),
            },
    {
        proof {
            use_type_invariant(self);
        }
        match self.registry.lookup(id) {
            Ok(session) => Ok(
                ResizeOrder { handles: &session.handles, dimensions: Dimensions::new(rows, cols) },
            ),
            Err(e) => Err(e),
        }
    }

    /// Second half of a resize: records the new size of `id` if the terminal
    /// took it, and says what the resize returns. A failed resize leaves the
    /// session open at its old size.
    pub fn finish_resize(&mut self, id: &str, rows: u16, cols: u16, applied: IoOutcome) -> (resized:
        Result<(), SessionError>)
        ensures
            final(self)@.valid(),
            final(self)@ == old(self)@.resize(id@, (Dimensions { rows, cols }), applied).0,
            resized == old(self)@.resize(id@, (Dimensions { rows, cols }), applied).1,
    {
        proof {
            use_type_invariant(&*self);
        }
        if !self.registry.contains(id) {
            return Err(SessionError::SessionNotFound);
        }
        match applied {
            IoOutcome::Failed => Err(SessionError::ResizeFailed),
            IoOutcome::Completed => {
                let mut registry = SessionRegistry::new();
                std::mem::swap(&mut self.registry, &mut registry);
                let recorded = registry.set_dimensions(id, Dimensions::new(rows, cols));
                self.registry = registry;
                assert(self@ =~= old(self)@.resize(id@, (Dimensions { rows, cols }), applied).0);
                recorded
            },
        }
    }

    /// Closes the session `id`: takes it out of the registry and hands it to
    /// the caller, who ends the shell. Closing an identifier under which no
    /// session is open changes nothing and returns `None`; it is no error.
    pub fn close(&mut self, id: &str) -> (removed: Option<Session<H>>)
        ensures
            final(self)@.valid(),
            final(self)@ == old(self)@.closed(id@),
            match removed {
                Some(session) => old(self)@.is_open(id@) && session@ == old(self)@.sessions[id@]
                    && session@.id == id@,
                None => !old(self)@.is_open(id@),
            },
    {
        proof {
            use_type_invariant(&*self);
        }
        let mut registry = SessionRegistry::new();
        std::mem::swap(&mut self.registry, &mut registry);
        let removed = registry.remove(id);
        self.registry = registry;
        assert(self@ =~= old(self)@.closed(id@));
        removed
    }
}

impl<H> Default for SessionManager<H> {
    fn default() -> (manager: SessionManager<H>)
        ensures
            manager@ == ManagerState::<H>::empty(),
    {
        SessionManager::new()
    }
}

} // verus!
