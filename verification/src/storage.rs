//! The in-memory session store.

use vstd::prelude::*;
use std::collections::HashMap;
use crate::error::StorageError;
use crate::session::Session;
use crate::text::join;
use crate::types::{uuid_text, SessionId};

verus! {

/// The message of the error for a session that is stored already.
pub open spec fn already_exists_message(id: SessionId) -> Seq<char> {
    "Session with ID "@ + uuid_text(id.value) + " already exists"@
}

/// The message of the error for a session that is not stored.
pub open spec fn not_found_message(id: SessionId) -> Seq<char> {
    "Session with ID "@ + uuid_text(id.value) + " not found"@
}

/// Sessions by id, held in memory.
pub struct InMemorySessionStore {
    sessions: HashMap<u128, Session>,
}

impl InMemorySessionStore {
    /// The stored sessions, by the 128 bits of their key.
    pub closed spec fn stored(&self) -> Map<u128, Session> {
        self.sessions@
    }

    /// An empty store.
    pub fn new() -> (store: Self)
        ensures
            store.stored() == Map::<u128, Session>::empty(),
    {
        InMemorySessionStore { sessions: HashMap::new() }
    }

    /// The number of stored sessions.
    pub fn len(&self) -> (count: usize)
        ensures
            count == self.stored().len(),
    {
        self.sessions.len()
    }

    /// Whether no session is stored.
    pub fn is_empty(&self) -> (empty: bool)
        ensures
            empty == self.stored().is_empty(),
    {
        self.sessions.is_empty()
    }

    /// Drops every session.
    pub fn clear(&mut self)
        ensures
            final(self).stored() == Map::<u128, Session>::empty(),
    {
        self.sessions.clear();
    }

    /// Stores a new session under its id. A session that is stored already
    /// is refused.
    pub fn create(&mut self, session: Session) -> (created: Result<SessionId, StorageError>)
        ensures
            created is Ok <==> !old(self).stored().contains_key(session.id.value),
            created matches Ok(id) ==> id == session.id && final(self).stored() == old(
                self,
            ).stored().insert(session.id.value, session),
            created matches Err(error) ==> (error matches StorageError::AlreadyExists(text)
                && text@ == already_exists_message(session.id)),
            created is Err ==> final(self).stored() == old(self).stored(),
    {
        let id = session.id;
        if self.sessions.contains_key(&id.value) {
            let id_text = id.to_string();
            let mut text = join("Session with ID ", id_text.as_str());
            text.append(" already exists");
            return Err(StorageError::AlreadyExists(text));
        }
        self.sessions.insert(id.value, session);
        Ok(id)
    }

    /// The session stored under `id`.
    pub fn get(&self, id: &SessionId) -> (found: Result<Option<&Session>, StorageError>)
        ensures
            found matches Ok(session) && (session is Some <==> self.stored().contains_key(
                id.value,
            )) && (session matches Some(held) ==> *held == self.stored()[id.value]),
    {
        Ok(self.sessions.get(&id.value))
    }

    /// Puts `session` in the place of the session stored under `id`.
    pub fn update(&mut self, id: &SessionId, session: Session) -> (updated: Result<(), StorageError>)
        ensures
            updated is Ok <==> old(self).stored().contains_key(id.value),
            updated is Ok ==> final(self).stored() == old(self).stored().insert(id.value, session),
            updated matches Err(error) ==> (error matches StorageError::NotFound(text) && text@
                == not_found_message(*id)),
            updated is Err ==> final(self).stored() == old(self).stored(),
    {
        if !self.sessions.contains_key(&id.value) {
            let id_text = id.to_string();
            let mut text = join("Session with ID ", id_text.as_str());
            text.append(" not found");
            return Err(StorageError::NotFound(text));
        }
        self.sessions.insert(id.value, session);
        Ok(())
    }

    /// Drops the session stored under `id`.
    pub fn delete(&mut self, id: &SessionId) -> (deleted: Result<(), StorageError>)
        ensures
            deleted is Ok <==> old(self).stored().contains_key(id.value),
            deleted is Ok ==> final(self).stored() == old(self).stored().remove(id.value),
            deleted matches Err(error) ==> (error matches StorageError::NotFound(text) && text@
                == not_found_message(*id)),
            deleted is Err ==> final(self).stored() == old(self).stored(),
    {
        match self.sessions.remove(&id.value) {
            Some(_) => Ok(()),
            None => {
                assert(self.sessions@ =~= old(self).sessions@);
                let id_text = id.to_string();
                let mut text = join("Session with ID ", id_text.as_str());
                text.append(" not found");
                Err(StorageError::NotFound(text))
            },
        }
    }

    /// The id of every stored session, each once, in no particular order.
    pub fn list(&self) -> (ids: Result<Vec<SessionId>, StorageError>)
        ensures
            ids matches Ok(listed) && listed@.no_duplicates() && (forall|id: SessionId|
                listed@.contains(id) <==> self.stored().contains_key(id.value)),
    {
        let mut listed: Vec<SessionId> = Vec::new();
        let ghost mut keys: Seq<u128> = Seq::empty();
        for key in iter: self.sessions.keys()
            invariant
                keys =~= iter.seq().unref().take(iter.index()),
                listed@.len() == keys.len(),
                forall|j: int| 0 <= j < keys.len() ==> (#[trigger] listed@[j]).value == keys[j],
                iter.seq().unref().to_set() =~= self.sessions@.dom(),
                iter.seq().no_duplicates(),
                iter.index() == iter.seq().len() ==> (forall|k: u128|
                    keys.contains(k) <==> self.sessions@.contains_key(k)),
        {
            assert(iter.seq().unref().take(iter.index() + 1) =~= iter.seq().unref().take(
                iter.index(),
            ).push(iter.seq().unref()[iter.index()]));
            assert(iter.index() + 1 == iter.seq().len() ==> iter.seq().unref().take(
                iter.index() + 1,
            ) =~= iter.seq().unref());
            assert forall|k: u128|
                iter.seq().unref().contains(k) <==> self.sessions@.contains_key(k) by {
                assert(iter.seq().unref().to_set().contains(k) <==> self.sessions@.dom().contains(
                    k,
                ));
            }
            listed.push(SessionId::from_u128(*key));
            proof {
                keys = keys.push(*key);
            }
        }
        proof {
            assert forall|i: int, j: int| 0 <= i < j < listed@.len() implies listed@[i]
                != listed@[j] by {
                assert(listed@[i].value == keys[i]);
                assert(listed@[j].value == keys[j]);
            }
            assert forall|id: SessionId|
                listed@.contains(id) <==> self.stored().contains_key(id.value) by {
                if listed@.contains(id) {
                    let j = choose|j: int| 0 <= j < listed@.len() && listed@[j] == id;
                    assert(keys[j] == id.value);
                    assert(keys.contains(id.value));
                }
                if self.stored().contains_key(id.value) {
                    assert(keys.contains(id.value));
                    let j = choose|j: int| 0 <= j < keys.len() && keys[j] == id.value;
                    assert(listed@[j].value == id.value);
                    assert(listed@[j] == id);
                }
            }
        }
        Ok(listed)
    }

    /// Whether a session is stored under `id`.
    pub fn contains(&self, id: &SessionId) -> (held: Result<bool, StorageError>)
        ensures
            held matches Ok(answer) && answer == self.stored().contains_key(id.value),
    {
        Ok(self.sessions.contains_key(&id.value))
    }
}

impl Default for InMemorySessionStore {
    fn default() -> (made: Self)
        ensures
            made.stored() == Map::<u128, Session>::empty(),
    {
        Self::new()
    }
}

} // verus!
