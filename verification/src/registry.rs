//! The service registry: which session serves which service id.
//!
//! A session is named by a handle that its owner chose; the registry
//! stores the handle and never looks inside it.

use vstd::prelude::*;
use crate::bytes::bytes_eq;

verus! {

/// A registration was refused because the id is already taken.
#[derive(Clone, Copy, Debug, PartialEq, Eq, Structural)]
pub struct DuplicateId;

struct Entry {
    service_id: Vec<u8>,
    session: u64,
}

/// Maps each registered service id to the handle of its session.
pub struct Registry {
    entries: Vec<Entry>,
}

impl Registry {
    /// The ids held, in storage order.
    pub closed spec fn ids(&self) -> Seq<Seq<u8>> {
        Seq::new(self.entries@.len(), |i: int| self.entries@[i].service_id@)
    }

    /// The session handles held, in storage order.
    pub closed spec fn sessions(&self) -> Seq<u64> {
        Seq::new(self.entries@.len(), |i: int| self.entries@[i].session)
    }

    /// No two entries share a service id.
    pub open spec fn wf(&self) -> bool {
        &&& self.ids().no_duplicates()
        &&& self.sessions().len() == self.ids().len()
    }

    /// The registry as a map from service id to session handle.
    pub open spec fn view(&self) -> Map<Seq<u8>, u64> {
        Map::new(
            |id: Seq<u8>| self.ids().contains(id),
            |id: Seq<u8>| self.sessions()[self.ids().index_of(id)],
        )
    }

    proof fn lemma_entry(&self, i: int)
        requires
            self.wf(),
            0 <= i < self.ids().len(),
        ensures
            self@.contains_key(self.ids()[i]),
            self@[self.ids()[i]] == self.sessions()[i],
    {
        let id = self.ids()[i];
        assert(self.ids().contains(id));
        let k = self.ids().index_of(id);
        assert(self.ids()[k] == id);
    }

    /// An empty registry.
    pub fn new() -> (r: Registry)
        ensures
            r.wf(),
            r@ == Map::<Seq<u8>, u64>::empty(),
    {
        let r = Registry { entries: Vec::new() };
        assert(r@ =~= Map::<Seq<u8>, u64>::empty());
        r
    }

    /// How many services are registered.
    pub fn len(&self) -> (n: usize)
        requires
            self.wf(),
        ensures
            n == self@.dom().len(),
            self@.dom().finite(),
    {
        proof {
            self.ids().unique_seq_to_set();
            assert(self@.dom() =~= self.ids().to_set());
        }
        self.entries.len()
    }

    fn position(&self, service_id: &[u8]) -> (at: Option<usize>)
        ensures
            match at {
                Some(i) => i < self.ids().len() && self.ids()[i as int] == service_id@,
                None => !self.ids().contains(service_id@),
            },
    {
        let n: usize = self.entries.len();
        let mut i: usize = 0;
        while i < n
            invariant
                i <= n,
                n == self.entries@.len(),
                forall|j: int| 0 <= j < i ==> self.ids()[j] != service_id@,
            decreases n - i,
        {
            if bytes_eq(self.entries[i].service_id.as_slice(), service_id) {
                return Some(i);
            }
            i = i + 1;
        }
        None
    }

    /// The session registered under `service_id`, if any.
    pub fn lookup(&self, service_id: &[u8]) -> (session: Option<u64>)
        requires
            self.wf(),
        ensures
            session == if self@.contains_key(service_id@) {
                Some(self@[service_id@])
            } else {
                None
            },
    {
        match self.position(service_id) {
            Some(i) => {
                proof {
                    self.lemma_entry(i as int);
                }
                Some(self.entries[i].session)
            },
            None => None,
        }
    }

    /// Registers `session` under `service_id`, unless the id is taken.
    pub fn register(&mut self, service_id: Vec<u8>, session: u64) -> (r: Result<(), DuplicateId>)
        requires
            old(self).wf(),
        ensures
            final(self).wf(),
            old(self)@.contains_key(service_id@) ==> r is Err && final(self)@ == old(self)@,
            !old(self)@.contains_key(service_id@) ==> r is Ok && final(self)@ == old(self)@.insert(
                service_id@,
                session,
            ),
    {
        match self.position(service_id.as_slice()) {
            Some(_) => Err(DuplicateId),
            None => {
                let ghost id = service_id@;
                self.entries.push(Entry { service_id, session });
                proof {
                    assert(self.ids() =~= old(self).ids().push(id));
                    assert(self.sessions() =~= old(self).sessions().push(session));
                    let last = old(self).ids().len() as int;
                    assert forall|k: Seq<u8>| #[trigger]
                        self@.contains_key(k) <==> old(self)@.insert(id, session).contains_key(k) by {
                        if old(self).ids().contains(k) {
                            let j = old(self).ids().index_of(k);
                            assert(self.ids()[j] == k);
                        }
                        if k == id {
                            assert(self.ids()[last] == k);
                        }
                    }
                    assert forall|k: Seq<u8>| #[trigger] self@.contains_key(k) implies self@[k]
                        == old(self)@.insert(id, session)[k] by {
                        let j = self.ids().index_of(k);
                        assert(self.ids()[j] == k);
                        if k == id {
                            assert(self.ids()[last] == k);
                            assert(j == last);
                        } else {
                            assert(j < last);
                            old(self).lemma_entry(j);
                        }
                    }
                    assert(self@ =~= old(self)@.insert(id, session));
                }
                Ok(())
            },
        }
    }

    /// Removes the entry of `service_id`, if there is one, and says
    /// whether there was.
    pub fn unregister(&mut self, service_id: &[u8]) -> (removed: bool)
        requires
            old(self).wf(),
        ensures
            final(self).wf(),
            removed == old(self)@.contains_key(service_id@),
            final(self)@ == old(self)@.remove(service_id@),
    {
        match self.position(service_id) {
            None => {
                assert(self@ =~= old(self)@.remove(service_id@));
                false
            },
            Some(i) => {
                let _ = self.entries.remove(i);
                proof {
                    let id = service_id@;
                    let at = i as int;
                    assert(self.ids() =~= old(self).ids().remove(at));
                    assert(self.sessions() =~= old(self).sessions().remove(at));
                    assert(old(self).ids().contains(id));
                    assert forall|a: int, b: int|
                        0 <= a < self.ids().len() && 0 <= b < self.ids().len() && a != b implies self.ids()[a]
                        != self.ids()[b] by {
                        let a0 = if a < at { a } else { a + 1 };
                        let b0 = if b < at { b } else { b + 1 };
                        assert(self.ids()[a] == old(self).ids()[a0]);
                        assert(self.ids()[b] == old(self).ids()[b0]);
                    }
                    assert forall|k: Seq<u8>| #[trigger]
                        self@.contains_key(k) <==> old(self)@.remove(id).contains_key(k) by {
                        if self.ids().contains(k) {
                            let j = self.ids().index_of(k);
                            let j0 = if j < at { j } else { j + 1 };
                            assert(old(self).ids()[j0] == k);
                        }
                        if old(self).ids().contains(k) && k != id {
                            let j0 = old(self).ids().index_of(k);
                            let j = if j0 < at { j0 } else { j0 - 1 };
                            assert(self.ids()[j] == k);
                        }
                    }
                    assert forall|k: Seq<u8>| #[trigger] self@.contains_key(k) implies self@[k]
                        == old(self)@.remove(id)[k] by {
                        let j = self.ids().index_of(k);
                        let j0 = if j < at { j } else { j + 1 };
                        assert(self.ids()[j] == k);
                        assert(old(self).ids()[j0] == k);
                        old(self).lemma_entry(j0);
                        self.lemma_entry(j);
                    }
                    assert(self@ =~= old(self)@.remove(id));
                }
                true
            },
        }
    }
}

} // verus!
