//! The thumbnails that are being generated right now.
//!
//! The first request for a key that is not in the registry leads the
//! generation; every request that joins before the leader has completed
//! follows it and takes over its outcome.

use vstd::prelude::*;

verus! {

/// What a request has to do about its thumbnail.
#[derive(Clone, Copy, Debug, PartialEq, Eq, Structural)]
pub enum Role {
    /// Generate the thumbnail, then complete the key.
    Leader,
    /// Wait for the leader's outcome.
    Follower,
}

/// The role of a request for `key` that joins while `in_flight` are being
/// generated.
pub open spec fn role_of(in_flight: Set<Seq<char>>, key: Seq<char>) -> Role {
    if in_flight.contains(key) {
        Role::Follower
    } else {
        Role::Leader
    }
}

/// How many of `n` requests for `key`, joining one after the other with
/// no completion between them, become leaders.
pub open spec fn leaders_among(in_flight: Set<Seq<char>>, key: Seq<char>, n: nat) -> nat
    decreases n,
{
    if n == 0 {
        0
    } else {
        let first: nat = if role_of(in_flight, key) == Role::Leader {
            1
        } else {
            0
        };
        first + leaders_among(in_flight.insert(key), key, (n - 1) as nat)
    }
}

/// While a key is in flight, no request for it becomes a leader.
pub proof fn lemma_no_leader_while_in_flight(in_flight: Set<Seq<char>>, key: Seq<char>, n: nat)
    requires
        in_flight.contains(key),
    ensures
        leaders_among(in_flight, key, n) == 0,
    decreases n,
{
    if n > 0 {
        assert(in_flight.insert(key) =~= in_flight);
        lemma_no_leader_while_in_flight(in_flight, key, (n - 1) as nat);
    }
}

/// Of any number of requests for a key that is not in flight, joining
/// before the first of them has completed, exactly one leads: the thumbnail
/// is generated once.
pub proof fn law_one_leader(in_flight: Set<Seq<char>>, key: Seq<char>, n: nat)
    requires
        n >= 1,
        !in_flight.contains(key),
    ensures
        leaders_among(in_flight, key, n) == 1,
        role_of(in_flight, key) == Role::Leader,
        role_of(in_flight.insert(key), key) == Role::Follower,
{
    lemma_no_leader_while_in_flight(in_flight.insert(key), key, (n - 1) as nat);
}

/// Joining and completing a key leaves the other keys as they were.
pub proof fn law_keys_are_independent(in_flight: Set<Seq<char>>, key: Seq<char>, other: Seq<char>)
    requires
        key != other,
    ensures
        role_of(in_flight.insert(key), other) == role_of(in_flight, other),
        role_of(in_flight.remove(key), other) == role_of(in_flight, other),
{
}

/// The registry of keys in flight.
#[derive(Debug)]
pub struct InFlight {
    keys: Vec<String>,
}

impl View for InFlight {
    type V = Set<Seq<char>>;

    closed spec fn view(&self) -> Set<Seq<char>> {
        Set::new(|k: Seq<char>| exists|i: int| 0 <= i < self.keys.len() && self.keys[i]@ == k)
    }
}

impl InFlight {
    /// No key is held twice.
    pub closed spec fn wf(&self) -> bool {
        forall|i: int, j: int|
            0 <= i < j < self.keys.len() ==> (#[trigger] self.keys[i])@ != (
            #[trigger] self.keys[j])@
    }

    /// A registry with nothing in flight.
    pub fn new() -> (registry: InFlight)
        ensures
            registry.wf(),
            registry@ == Set::<Seq<char>>::empty(),
    {
        let registry = InFlight { keys: Vec::new() };
        assert(registry@ =~= Set::<Seq<char>>::empty());
        registry
    }

    /// Where `key` is held, if it is.
    fn position(&self, key: &String) -> (found: Option<usize>)
        ensures
            match found {
                Some(i) => i < self.keys.len() && self.keys[i as int]@ == key@,
                None => forall|j: int| 0 <= j < self.keys.len() ==> self.keys[j]@ != key@,
            },
    {
        let mut i: usize = 0;
        while i < self.keys.len()
            invariant
                i <= self.keys.len(),
                forall|j: int| 0 <= j < i ==> self.keys[j]@ != key@,
            decreases self.keys.len() - i,
        {
            if self.keys[i] == *key {
                return Some(i);
            }
            i += 1;
        }
        None
    }

    /// Whether `key` is being generated.
    pub fn is_in_flight(&self, key: &str) -> (held: bool)
        ensures
            held == self@.contains(key@),
    {
        let owned = String::from_str(key);
        self.position(&owned).is_some()
    }

    /// How many keys are being generated.
    pub fn len(&self) -> (n: usize)
        requires
            self.wf(),
        ensures
            n == self@.len(),
            self@.finite(),
    {
        proof {
            self.lemma_count(self.keys.len() as int);
            assert(self.upto(self.keys.len() as int) =~= self@);
        }
        self.keys.len()
    }

    /// The keys held at the first `n` places.
    spec fn upto(&self, n: int) -> Set<Seq<char>> {
        Set::new(|k: Seq<char>| exists|i: int| 0 <= i < n && self.keys[i]@ == k)
    }

    proof fn lemma_count(&self, n: int)
        requires
            self.wf(),
            0 <= n <= self.keys.len(),
        ensures
            self.upto(n).finite(),
            self.upto(n).len() == n,
        decreases n,
    {
        if n == 0 {
            assert(self.upto(0) =~= Set::<Seq<char>>::empty());
        } else {
            self.lemma_count(n - 1);
            let last = self.keys[n - 1]@;
            assert(!self.upto(n - 1).contains(last));
            assert(self.upto(n) =~= self.upto(n - 1).insert(last));
        }
    }

    /// Registers a request for `key` and says what it has to do.
    pub fn join(&mut self, key: &str) -> (role: Role)
        requires
            old(self).wf(),
        ensures
            final(self).wf(),
            role == role_of(old(self)@, key@),
            final(self)@ == old(self)@.insert(key@),
    {
        let owned = String::from_str(key);
        match self.position(&owned) {
            Some(i) => {
                assert(self@ =~= old(self)@.insert(key@));
                Role::Follower
            },
            None => {
                self.keys.push(owned);
                assert(self.keys[self.keys.len() - 1]@ == key@);
                assert forall|k: Seq<char>| self@.contains(k) == old(self)@.insert(key@).contains(
                    k,
                ) by {
                    if old(self)@.contains(k) {
                        let i = choose|i: int| 0 <= i < old(self).keys.len() && old(self).keys[i]@
                            == k;
                        assert(self.keys[i]@ == k);
                    }
                }
                assert(self@ =~= old(self)@.insert(key@));
                Role::Leader
            },
        }
    }

    /// Takes `key` out of the registry once its outcome is known. Answers
    /// whether it was in flight.
    pub fn complete(&mut self, key: &str) -> (was_in_flight: bool)
        requires
            old(self).wf(),
        ensures
            final(self).wf(),
            was_in_flight == old(self)@.contains(key@),
            final(self)@ == old(self)@.remove(key@),
    {
        let owned = String::from_str(key);
        match self.position(&owned) {
            Some(i) => {
                self.keys.remove(i);
                assert forall|k: Seq<char>| self@.contains(k) == old(self)@.remove(key@).contains(
                    k,
                ) by {
                    if self@.contains(k) {
                        let j = choose|j: int| 0 <= j < self.keys.len() && self.keys[j]@ == k;
                        if j < i {
                            assert(old(self).keys[j]@ == k);
                        } else {
                            assert(old(self).keys[j + 1]@ == k);
                        }
                    }
                    if old(self)@.remove(key@).contains(k) {
                        let j = choose|j: int| 0 <= j < old(self).keys.len() && old(self).keys[j]@
                            == k;
                        if j < i {
                            assert(self.keys[j]@ == k);
                        } else {
                            assert(self.keys[j - 1]@ == k);
                        }
                    }
                }
                assert(self@ =~= old(self)@.remove(key@));
                true
            },
            None => {
                assert(self@ =~= old(self)@.remove(key@));
                false
            },
        }
    }
}

} // verus!
