//! The connection supervisor's registry of active sessions: at most one
//! active session per identity at any time. A spawn request for an identity
//! already under supervision is discarded, so spawning is idempotent.
use vstd::prelude::*;

use crate::names::{contains_name, distinct_names, has_name, name_views};

verus! {

/// The registry of identities currently under supervision, one worker each.
pub struct ActiveSessions {
    pub names: Vec<Vec<u8>>,
}

/// What one spawn request does to the set of active identities: nothing when
/// the identity is already present, otherwise it is appended.
pub open spec fn register(s: Seq<Seq<u8>>, n: Seq<u8>) -> Seq<Seq<u8>> {
    if s.contains(n) {
        s
    } else {
        s.push(n)
    }
}

impl ActiveSessions {
    /// No identity is registered twice.
    pub open spec fn wf(&self) -> bool {
        distinct_names(self.names@)
    }

    /// An empty registry.
    pub fn new() -> (r: ActiveSessions)
        ensures
            r.names@.len() == 0,
            r.wf(),
    {
        ActiveSessions { names: Vec::new() }
    }

    /// Check-and-insert for one spawn request: returns whether a worker must
    /// be started. An identity already present is left untouched.
    pub fn try_register(&mut self, name: &Vec<u8>) -> (inserted: bool)
        ensures
            inserted == !has_name(old(self).names@, name@),
            name_views(final(self).names@) == register(name_views(old(self).names@), name@),
            !inserted ==> final(self).names@ == old(self).names@,
            inserted ==> final(self).names@.len() == old(self).names@.len() + 1,
            inserted ==> final(self).names@[old(self).names@.len() as int]@ == name@,
            inserted ==> (forall|j: int|
                0 <= j < old(self).names@.len() ==> final(self).names@[j] == old(self).names@[j]),
            old(self).wf() ==> final(self).wf(),
    {
        proof {
            crate::names::lemma_name_views_contains(self.names@, name@);
        }
        if contains_name(&self.names, name) {
            return false;
        }
        let ghost pre = self.names@;
        let entry = name.clone();
        proof {
            assert(entry@ =~= name@);
        }
        self.names.push(entry);
        proof {
            assert(self.names@[pre.len() as int]@ == name@);
            assert(name_views(self.names@) =~= name_views(pre).push(name@));
            if distinct_names(pre) {
                assert forall|a: int, b: int| 0 <= a < b < self.names@.len() implies
                    self.names@[a]@ != self.names@[b]@ by {
                    if b == pre.len() {
                        assert(pre[a]@ != name@);
                    }
                }
            }
        }
        true
    }
}

/// Spawning is idempotent: a second spawn request for the same identity,
/// made before its worker exits, changes the set of active identities in no
/// way at all.
pub proof fn lemma_spawn_idempotent(s: Seq<Seq<u8>>, n: Seq<u8>)
    ensures
        register(register(s, n), n) == register(s, n),
{
    if !s.contains(n) {
        assert(s.push(n)[s.len() as int] == n);
        assert(s.push(n).contains(n));
    }
}

/// Registration keeps identities pairwise distinct, so no identity ever holds
/// two active sessions.
pub proof fn lemma_register_distinct(s: Seq<Seq<u8>>, n: Seq<u8>)
    requires
        s.no_duplicates(),
    ensures
        register(s, n).no_duplicates(),
{
    if !s.contains(n) {
        assert forall|i: int, j: int| 0 <= i < j < s.push(n).len() implies s.push(n)[i] != s.push(
            n,
        )[j] by {
            if j == s.len() {
                assert(s[i] == s.push(n)[i]);
                assert(s.contains(s[i]));
            }
        }
    }
}

} // verus!
