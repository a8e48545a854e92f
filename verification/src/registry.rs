//! The mapping from session identifiers to sessions.

use vstd::prelude::*;
use crate::error::SessionError;
use crate::geometry::Dimensions;
use crate::session::Session;
use crate::session::SessionView;
use crate::text::same_text;

verus! {

/// The sessions that exist, each under its identifier.
///
/// In contracts a registry is the map from identifiers to sessions that its
/// view gives. No identifier is held twice.
pub struct SessionRegistry<H> {
    entries: Vec<Session<H>>,
}

/// Whether `sessions` holds a session named `id` at position `i`.
spec fn holds_at<H>(sessions: Seq<Session<H>>, id: Seq<char>, i: int) -> bool {
    0 <= i < sessions.len() && sessions[i].id@ == id
}

/// A position at which `sessions` holds a session named `id`, if there is one.
spec fn position_of<H>(sessions: Seq<Session<H>>, id: Seq<char>) -> int {
    choose|i: int| holds_at(sessions, id, i)
}

/// The map that a list of sessions stands for.
spec fn as_map<H>(sessions: Seq<Session<H>>) -> Map<Seq<char>, SessionView<H>> {
    Map::new(
        |id: Seq<char>| exists|i: int| holds_at(sessions, id, i),
        |id: Seq<char>| sessions[position_of(sessions, id)]@,
    )
}

/// Whether no two sessions of the list share an identifier.
spec fn distinct<H>(sessions: Seq<Session<H>>) -> bool {
    forall|i: int, j: int|
        0 <= i < sessions.len() && 0 <= j < sessions.len() && i != j ==> #[trigger] sessions[i].id@
            != #[trigger] sessions[j].id@
}

/// In a list without repeated identifiers, the session at position `i` is the
/// one that the map gives for its identifier.
proof fn lemma_entry_in_map<H>(sessions: Seq<Session<H>>, i: int)
    requires
        distinct(sessions),
        0 <= i < sessions.len(),
    ensures
        as_map(sessions).contains_key(sessions[i].id@),
        as_map(sessions)[sessions[i].id@] == sessions[i]@,
{
    let id = sessions[i].id@;
    assert(holds_at(sessions, id, i));
    let p = position_of(sessions, id);
    assert(holds_at(sessions, id, p));
    assert(p == i);
}

/// Appending a session under an unused identifier adds one entry to the map.
proof fn lemma_push<H>(before: Seq<Session<H>>, session: Session<H>)
    requires
        distinct(before),
        !as_map(before).contains_key(session.id@),
    ensures
        distinct(before.push(session)),
        as_map(before.push(session)) == as_map(before).insert(session.id@, session@),
{
    let after = before.push(session);
    assert forall|i: int, j: int|
        0 <= i < after.len() && 0 <= j < after.len() && i != j implies #[trigger] after[i].id@
        != #[trigger] after[j].id@ by {
        if i < before.len() && j < before.len() {
            assert(after[i] == before[i]);
            assert(after[j] == before[j]);
        } else if i < before.len() {
            assert(holds_at(before, before[i].id@, i));
        } else {
            assert(holds_at(before, before[j].id@, j));
        }
    }
    let expected = as_map(before).insert(session.id@, session@);
    assert forall|id: Seq<char>| as_map(after).contains_key(id) implies #[trigger] expected.contains_key(
        id,
    ) && as_map(after)[id] == expected[id] by {
        let i = choose|i: int| holds_at(after, id, i);
        lemma_entry_in_map(after, i);
        if i < before.len() {
            assert(holds_at(before, id, i));
            lemma_entry_in_map(before, i);
        }
    }
    assert forall|id: Seq<char>| expected.contains_key(id) implies #[trigger] as_map(
        after,
    ).contains_key(id) by {
        if id == session.id@ {
            assert(holds_at(after, id, before.len() as int));
        } else {
            let i = choose|i: int| holds_at(before, id, i);
            assert(holds_at(after, id, i));
        }
    }
    assert(as_map(after) =~= expected);
}

/// Taking the session at position `i` out removes its identifier from the
/// map and leaves the other entries as they were.
proof fn lemma_remove<H>(before: Seq<Session<H>>, i: int)
    requires
        distinct(before),
        0 <= i < before.len(),
    ensures
        distinct(before.remove(i)),
        as_map(before.remove(i)) == as_map(before).remove(before[i].id@),
{
    let after = before.remove(i);
    let gone = before[i].id@;
    assert forall|a: int, b: int|
        0 <= a < after.len() && 0 <= b < after.len() && a != b implies #[trigger] after[a].id@
        != #[trigger] after[b].id@ by {
        let a0 = if a < i { a } else { a + 1 };
        let b0 = if b < i { b } else { b + 1 };
        assert(after[a] == before[a0]);
        assert(after[b] == before[b0]);
    }
    let expected = as_map(before).remove(gone);
    assert forall|id: Seq<char>| as_map(after).contains_key(id) implies #[trigger] expected.contains_key(
        id,
    ) && as_map(after)[id] == expected[id] by {
        let a = choose|a: int| holds_at(after, id, a);
        let a0 = if a < i { a } else { a + 1 };
        assert(after[a] == before[a0]);
        assert(holds_at(before, id, a0));
        lemma_entry_in_map(after, a);
        lemma_entry_in_map(before, a0);
        assert(before[a0].id@ != before[i].id@);
    }
    assert forall|id: Seq<char>| expected.contains_key(id) implies #[trigger] as_map(
        after,
    ).contains_key(id) by {
        let b = choose|b: int| holds_at(before, id, b);
        assert(b != i);
        let a = if b < i { b } else { b - 1 };
        assert(after[a] == before[b]);
        assert(holds_at(after, id, a));
    }
    assert(as_map(after) =~= expected);
}

/// Replacing the session at position `i` by one of the same identifier
/// replaces its entry in the map.
proof fn lemma_update<H>(before: Seq<Session<H>>, i: int, session: Session<H>)
    requires
        distinct(before),
        0 <= i < before.len(),
        session.id@ == before[i].id@,
    ensures
        distinct(before.update(i, session)),
        as_map(before.update(i, session)) == as_map(before).insert(session.id@, session@),
{
    let after = before.update(i, session);
    assert forall|a: int, b: int|
        0 <= a < after.len() && 0 <= b < after.len() && a != b implies #[trigger] after[a].id@
        != #[trigger] after[b].id@ by {
        assert(after[a].id@ == before[a].id@);
        assert(after[b].id@ == before[b].id@);
    }
    let expected = as_map(before).insert(session.id@, session@);
    assert forall|id: Seq<char>| as_map(after).contains_key(id) implies #[trigger] expected.contains_key(
        id,
    ) && as_map(after)[id] == expected[id] by {
        let a = choose|a: int| holds_at(after, id, a);
        assert(after[a].id@ == before[a].id@);
        assert(holds_at(before, id, a));
        lemma_entry_in_map(after, a);
        lemma_entry_in_map(before, a);
    }
    assert forall|id: Seq<char>| expected.contains_key(id) implies #[trigger] as_map(
        after,
    ).contains_key(id) by {
        if id == session.id@ {
            assert(holds_at(after, id, i));
        } else {
            let b = choose|b: int| holds_at(before, id, b);
            assert(after[b].id@ == before[b].id@);
            assert(holds_at(after, id, b));
        }
    }
    assert(as_map(after) =~= expected);
}

impl<H> View for SessionRegistry<H> {
    type V = Map<Seq<char>, SessionView<H>>;

    closed spec fn view(&self) -> Map<Seq<char>, SessionView<H>> {
        as_map(self.entries@)
    }
}

impl<H> SessionRegistry<H> {
    #[verifier::type_invariant]
    spec fn well_formed(&self) -> bool {
        distinct(self.entries@)
    }

    /// Every session is filed under its own identifier.
    pub proof fn lemma_filed_under_own_identifier(&self)
        ensures
            forall|id: Seq<char>| #[trigger] self@.contains_key(id) ==> self@[id].id == id,
    {
        assert forall|id: Seq<char>| #[trigger] self@.contains_key(id) implies self@[id].id
            == id by {
            assert(holds_at(self.entries@, id, position_of(self.entries@, id)));
        }
    }

    /// A registry without sessions.
    pub fn new() -> (registry: SessionRegistry<H>)
        ensures
            registry@ == Map::<Seq<char>, SessionView<H>>::empty(),
    {
        let registry = SessionRegistry { entries: Vec::new() };
        assert(registry@ =~= Map::<Seq<char>, SessionView<H>>::empty());
        registry
    }

    /// Where the session named `id` stands in the list.
    fn find(&self, id: &str) -> (found: Option<usize>)
        ensures
            match found {
                Some(i) => holds_at(self.entries@, id@, i as int),
                None => !self@.contains_key(id@),
            },
    {
        let mut i: usize = 0;
        while i < self.entries.len()
            invariant
                i <= self.entries@.len(),
                forall|k: int| 0 <= k < i ==> !holds_at(self.entries@, id@, k),
            decreases self.entries@.len() - i,
        {
            if same_text(self.entries[i].id.as_str(), id) {
                return Some(i);
            }
            i += 1;
        }
        None
    }

    /// Whether a session is registered under `id`.
    pub fn contains(&self, id: &str) -> (present: bool)
        ensures
            present == self@.contains_key(id@),
    {
        match self.find(id) {
            Some(i) => {
                proof {
                    use_type_invariant(self);
                    lemma_entry_in_map(self.entries@, i as int);
                }
                true
            },
            None => false,
        }
    }

    /// The session registered under `id`. An identifier that names no
    /// session is answered with [`SessionError::SessionNotFound`].
    pub fn lookup(&self, id: &str) -> (found: Result<&Session<H>, SessionError>)
        ensures
            match found {
                Ok(session) => self@.contains_key(id@) && session@ == self@[id@] && session@.id
                    == id@,
                Err(e) => e == SessionError::SessionNotFound && !self@.contains_key(id@),
            },
    {
        match self.find(id) {
            Some(i) => {
                proof {
                    use_type_invariant(self);
                    lemma_entry_in_map(self.entries@, i as int);
                }
                Ok(&self.entries[i])
            },
            None => Err(SessionError::SessionNotFound),
        }
    }

    /// Registers `session` under its identifier, which must not be in use.
    pub fn insert(&mut self, session: Session<H>)
        requires
            !old(self)@.contains_key(session@.id),
        ensures
            final(self)@ == old(self)@.insert(session@.id, session@),
    {
        proof {
            use_type_invariant(&*self);
            lemma_push(self.entries@, session);
        }
        // The list is taken out, changed and put back: that way the registry
        // is well-formed whenever control leaves this function.
        let mut entries: Vec<Session<H>> = Vec::new();
        std::mem::swap(&mut self.entries, &mut entries);
        entries.push(session);
        self.entries = entries;
    }

    /// Takes the session named `id` out of the registry and hands it to the
    /// caller. Where no such session is registered, nothing changes.
    pub fn remove(&mut self, id: &str) -> (removed: Option<Session<H>>)
        ensures
            final(self)@ == old(self)@.remove(id@),
            match removed {
                Some(session) => old(self)@.contains_key(id@) && session@ == old(self)@[id@]
                    && session@.id == id@,
                None => !old(self)@.contains_key(id@),
            },
    {
        match self.find(id) {
            Some(i) => {
                proof {
                    use_type_invariant(&*self);
                    lemma_entry_in_map(self.entries@, i as int);
                    lemma_remove(self.entries@, i as int);
                }
                let mut entries: Vec<Session<H>> = Vec::new();
                std::mem::swap(&mut self.entries, &mut entries);
                let session = entries.remove(i);
                self.entries = entries;
                Some(session)
            },
            None => {
                assert(self@.remove(id@) =~= self@);
                None
            },
        }
    }

    /// Records a new size for the session named `id`. Where no such session
    /// is registered, nothing changes and the answer is
    /// [`SessionError::SessionNotFound`].
    pub fn set_dimensions(&mut self, id: &str, dimensions: Dimensions) -> (done: Result<
        (),
        SessionError,
    >)
        ensures
            old(self)@.contains_key(id@) ==> done == Ok::<(), SessionError>(()) && final(self)@
                == old(self)@.insert(id@, old(self)@[id@].with_dimensions(dimensions)),
            !old(self)@.contains_key(id@) ==> done == Err::<(), SessionError>(
                SessionError::SessionNotFound,
            ) && final(self)@ == old(self)@,
    {
        match self.find(id) {
            Some(i) => {
                proof {
                    use_type_invariant(&*self);
                    lemma_entry_in_map(self.entries@, i as int);
                }
                let ghost before = self.entries@;
                let mut entries: Vec<Session<H>> = Vec::new();
                std::mem::swap(&mut self.entries, &mut entries);
                entries[i].dimensions = dimensions;
                proof {
                    lemma_update(before, i as int, entries@[i as int]);
                    assert(entries@ =~= before.update(i as int, entries@[i as int]));
                }
                self.entries = entries;
                Ok(())
            },
            None => Err(SessionError::SessionNotFound),
        }
    }
}

} // verus!
