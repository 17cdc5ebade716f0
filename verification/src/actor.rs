//! The exclusive checkout actor: the single owner of a key/value store
//! whose values are live, non-duplicable handles. A caller never gets a
//! reference into the store; it checks a value out (the slot is emptied
//! and the key remembered) and later checks it back in (the remembered
//! key is refilled). While a checkout is outstanding nobody else can
//! observe the value — that is the exclusivity this module proves.
use vstd::prelude::*;

use crate::text::str_eq;

verus! {

/// The store of an association list as a map. Later entries shadow
/// earlier ones; the actor keeps its keys unique, so nothing shadows.
pub open spec fn map_of<T>(s: Seq<(String, T)>) -> Map<Seq<char>, T>
    decreases s.len(),
{
    if s.len() == 0 {
        Map::empty()
    } else {
        map_of(s.drop_last()).insert(s.last().0@, s.last().1)
    }
}

/// No two entries carry the same key.
pub open spec fn keys_unique<T>(s: Seq<(String, T)>) -> bool {
    forall|i: int, j: int| 0 <= i < j < s.len() ==> s[i].0@ != s[j].0@
}

/// A key is in the map exactly when some entry carries it.
proof fn lemma_map_of_contains<T>(s: Seq<(String, T)>, k: Seq<char>)
    ensures
        map_of(s).contains_key(k) <==> exists|i: int| 0 <= i < s.len() && s[i].0@ == k,
    decreases s.len(),
{
    if s.len() > 0 {
        lemma_map_of_contains(s.drop_last(), k);
        if map_of(s).contains_key(k) && s.last().0@ != k {
            let i = choose|i: int| 0 <= i < s.drop_last().len() && s.drop_last()[i].0@ == k;
            assert(s[i].0@ == k);
        }
        if exists|i: int| 0 <= i < s.len() && s[i].0@ == k {
            let i = choose|i: int| 0 <= i < s.len() && s[i].0@ == k;
            if i < s.len() - 1 {
                assert(s.drop_last()[i].0@ == k);
            }
        }
    }
}

/// With unique keys, the map sends each entry's key to its value.
proof fn lemma_map_of_index<T>(s: Seq<(String, T)>, i: int)
    requires
        keys_unique(s),
        0 <= i < s.len(),
    ensures
        map_of(s).contains_key(s[i].0@),
        map_of(s)[s[i].0@] == s[i].1,
    decreases s.len(),
{
    if i < s.len() - 1 {
        assert(s.drop_last()[i] == s[i]);
        lemma_map_of_index(s.drop_last(), i);
    }
}

/// Removing the entry at `i` removes exactly its key from the map.
proof fn lemma_map_of_remove<T>(s: Seq<(String, T)>, i: int)
    requires
        keys_unique(s),
        0 <= i < s.len(),
    ensures
        map_of(s.remove(i)) == map_of(s).remove(s[i].0@),
        keys_unique(s.remove(i)),
    decreases s.len(),
{
    let k = s[i].0@;
    assert forall|a: int, b: int| 0 <= a < b < s.remove(i).len() implies s.remove(i)[a].0@
        != s.remove(i)[b].0@ by {
        assert(s.remove(i)[a] == if a < i {
            s[a]
        } else {
            s[a + 1]
        });
        assert(s.remove(i)[b] == if b < i {
            s[b]
        } else {
            s[b + 1]
        });
    }
    if i == s.len() - 1 {
        assert(s.remove(i) =~= s.drop_last());
        lemma_map_of_contains(s.drop_last(), k);
        assert(map_of(s.drop_last()) =~= map_of(s.drop_last()).insert(k, s[i].1).remove(k));
    } else {
        assert(s.remove(i).drop_last() =~= s.drop_last().remove(i));
        assert(s.remove(i).last() == s.last());
        lemma_map_of_remove(s.drop_last(), i);
        assert(map_of(s.drop_last().remove(i)).insert(s.last().0@, s.last().1) =~= map_of(
            s.drop_last(),
        ).insert(s.last().0@, s.last().1).remove(k));
    }
}

/// Replacing the entry at `i` by one with the same key updates exactly
/// that key's value in the map.
proof fn lemma_map_of_update<T>(s: Seq<(String, T)>, i: int, p: (String, T))
    requires
        keys_unique(s),
        0 <= i < s.len(),
        p.0@ == s[i].0@,
    ensures
        map_of(s.update(i, p)) == map_of(s).insert(p.0@, p.1),
        keys_unique(s.update(i, p)),
    decreases s.len(),
{
    if i == s.len() - 1 {
        assert(s.update(i, p).drop_last() =~= s.drop_last());
        assert(s.update(i, p).last() == p);
    } else {
        assert(s.update(i, p).drop_last() =~= s.drop_last().update(i, p));
        assert(s.update(i, p).last() == s.last());
        lemma_map_of_update(s.drop_last(), i, p);
        assert(map_of(s.drop_last()).insert(p.0@, p.1).insert(s.last().0@, s.last().1) =~= map_of(
            s.drop_last(),
        ).insert(s.last().0@, s.last().1).insert(p.0@, p.1));
    }
}

/// What a checkout hands the caller out of state `m` at key `k`: the
/// slot's content if the key is present, nothing otherwise.
pub open spec fn checkout_value<V>(m: Map<Seq<char>, Option<V>>, k: Seq<char>) -> Option<V> {
    if m.contains_key(k) {
        m[k]
    } else {
        None
    }
}

/// The single owner of the key/value store. Values are checked out and
/// checked back in; they are moved, never copied or borrowed out.
pub struct StateTransferActor<V> {
    entries: Vec<(String, Option<V>)>,
    cached_key: Option<String>,
}

impl<V> StateTransferActor<V> {
    /// The store as a map from keys to slots; an absent key has never
    /// been created (or was checked out or deleted).
    pub closed spec fn state(&self) -> Map<Seq<char>, Option<V>> {
        map_of(self.entries@)
    }

    /// The key remembered while its value is in a caller's hands.
    pub closed spec fn pending(&self) -> Option<Seq<char>> {
        match self.cached_key {
            Some(k) => Some(k@),
            None => None,
        }
    }

    /// The store keeps one entry per key.
    pub closed spec fn wf(&self) -> bool {
        keys_unique(self.entries@)
    }

    /// A fresh actor: empty store, no checkout outstanding.
    pub fn new() -> (r: Self)
        ensures
            r.wf(),
            r.state() == Map::<Seq<char>, Option<V>>::empty(),
            r.pending() is None,
    {
        StateTransferActor { entries: Vec::new(), cached_key: None }
    }

    /// The position of the entry carrying `key`, if one exists.
    fn position_of(&self, key: &str) -> (r: Option<usize>)
        ensures
            match r {
                Some(i) => i < self.entries@.len() && self.entries@[i as int].0@ == key@,
                None => forall|j: int| 0 <= j < self.entries@.len() ==> self.entries@[j].0@ != key@,
            },
    {
        let n = self.entries.len();
        let mut i: usize = 0;
        while i < n
            invariant
                i <= n,
                n == self.entries@.len(),
                forall|j: int| 0 <= j < i ==> self.entries@[j].0@ != key@,
            decreases n - i,
        {
            if str_eq(self.entries[i].0.as_str(), key) {
                return Some(i);
            }
            i = i + 1;
        }
        None
    }

    /// Files `value` under `key`, replacing any earlier slot.
    fn set_slot(&mut self, key: String, value: Option<V>)
        requires
            old(self).wf(),
        ensures
            final(self).wf(),
            final(self).state() == old(self).state().insert(key@, value),
            final(self).pending() == old(self).pending(),
    {
        match self.position_of(key.as_str()) {
            Some(i) => {
                proof {
                    lemma_map_of_update(self.entries@, i as int, (key, value));
                }
                let slot = &mut self.entries[i];
                *slot = (key, value);
            },
            None => {
                proof {
                    assert(self.entries@.push((key, value)).drop_last() =~= self.entries@);
                }
                self.entries.push((key, value));
            },
        }
    }

    /// Creates (or overwrites) the entry for `key` with a full slot:
    /// the last write wins and no error is possible.
    pub fn create(&mut self, key: String, value: V)
        requires
            old(self).wf(),
        ensures
            final(self).wf(),
            final(self).state() == old(self).state().insert(key@, Some(value)),
            final(self).pending() == old(self).pending(),
    {
        self.set_slot(key, Some(value));
    }

    /// Checks the slot at `key` out: whatever the store held there is
    /// handed over (nothing, if the key is absent or already checked
    /// out), the entry disappears, and the key is remembered for the
    /// matching check-in.
    pub fn yield_value(&mut self, key: String) -> (out: Option<V>)
        requires
            old(self).wf(),
        ensures
            final(self).wf(),
            out == checkout_value(old(self).state(), key@),
            final(self).state() == old(self).state().remove(key@),
            final(self).pending() == Some(key@),
    {
        proof {
            lemma_map_of_contains(self.entries@, key@);
        }
        match self.position_of(key.as_str()) {
            Some(i) => {
                proof {
                    lemma_map_of_index(self.entries@, i as int);
                    lemma_map_of_remove(self.entries@, i as int);
                }
                let entry = self.entries.remove(i);
                self.cached_key = Some(key);
                entry.1
            },
            None => {
                proof {
                    assert(old(self).state() =~= old(self).state().remove(key@));
                }
                self.cached_key = Some(key);
                None
            },
        }
    }

    /// Checks a value back in: the slot of the remembered key is
    /// refilled with `value` and the pending checkout is closed.
    pub fn retrieve_value(&mut self, value: Option<V>)
        requires
            old(self).wf(),
            old(self).pending() is Some,
        ensures
            final(self).wf(),
            final(self).state() == old(self).state().insert(old(self).pending()->Some_0, value),
            final(self).pending() is None,
    {
        let key = self.cached_key.take().unwrap();
        self.set_slot(key, value);
    }

    /// Deletes the entry for `key`; deleting an absent key is a no-op.
    pub fn delete(&mut self, key: String)
        requires
            old(self).wf(),
        ensures
            final(self).wf(),
            final(self).state() == old(self).state().remove(key@),
            final(self).pending() == old(self).pending(),
    {
        proof {
            lemma_map_of_contains(self.entries@, key@);
        }
        match self.position_of(key.as_str()) {
            Some(i) => {
                proof {
                    lemma_map_of_remove(self.entries@, i as int);
                }
                let _ = self.entries.remove(i);
            },
            None => {
                proof {
                    assert(self.state() =~= self.state().remove(key@));
                }
            },
        }
    }

    /// Reads the slot at `key` without disturbing it.
    pub fn get<'a>(&'a self, key: &str) -> (r: Option<&'a Option<V>>)
        requires
            self.wf(),
        ensures
            match r {
                Some(slot) => self.state().contains_key(key@) && *slot == self.state()[key@],
                None => !self.state().contains_key(key@),
            },
    {
        proof {
            lemma_map_of_contains(self.entries@, key@);
        }
        match self.position_of(key) {
            Some(i) => {
                proof {
                    lemma_map_of_index(self.entries@, i as int);
                }
                Some(&self.entries[i].1)
            },
            None => None,
        }
    }

    /// The key of the outstanding checkout, if one is open.
    pub fn pending_key<'a>(&'a self) -> (r: Option<&'a String>)
        ensures
            match r {
                Some(k) => self.pending() == Some(k@),
                None => self.pending() is None,
            },
    {
        self.cached_key.as_ref()
    }
}

/// What travels between the actor and a caller during a checkout: the
/// slot's content, and the return path the value must come back on.
/// The return path's type is the caller's business; this crate only
/// tests whether one is there.
#[derive(Debug)]
pub struct WrappedValue<V, S> {
    pub value: Option<V>,
    pub sender: Option<S>,
}

/// The complaint when a borrowed slot turns out to be empty.
pub open spec fn empty_value_error(tag: Seq<char>) -> Seq<char> {
    "Error getting "@ + tag + ": "@ + tag + " is empty"@
}

/// The complaint when a borrowed slot has a value but no return path.
pub open spec fn missing_sender_error(tag: Seq<char>) -> Seq<char> {
    "Error getting "@ + tag + ": "@ + tag + " is present but doesn't have a sender"@
}

/// The complaint when a caller returns an empty slot.
pub open spec fn return_empty_error(tag: Seq<char>) -> Seq<char> {
    "trying to return empty "@ + tag + " to "@ + tag + " actor"@
}

/// The complaint when a caller returns a value without a return path.
pub open spec fn return_no_sender_error(tag: Seq<char>) -> Seq<char> {
    "trying to return "@ + tag + " to "@ + tag + " actor without a sender"@
}

/// Judges what a checkout brought back: a usable loan must hold a value
/// and a return path. `tag` names the actor in the complaints.
pub fn check_response<V, S>(response: WrappedValue<V, S>, tag: &str) -> (r: Result<
    WrappedValue<V, S>,
    String,
>)
    ensures
        r is Ok <==> response.value is Some && response.sender is Some,
        r is Ok ==> r->Ok_0 == response,
        response.value is None ==> r is Err && r->Err_0@ == empty_value_error(tag@),
        response.value is Some && response.sender is None ==> r is Err && r->Err_0@
            == missing_sender_error(tag@),
{
    if response.value.is_none() {
        let mut msg = String::from_str("Error getting ");
        msg.append(tag);
        msg.append(": ");
        msg.append(tag);
        msg.append(" is empty");
        return Err(msg);
    }
    if response.sender.is_none() {
        let mut msg = String::from_str("Error getting ");
        msg.append(tag);
        msg.append(": ");
        msg.append(tag);
        msg.append(" is present but doesn't have a sender");
        return Err(msg);
    }
    Ok(response)
}

/// Prepares a loan for its journey home: only a loan holding both a
/// value and a return path may be sent back, and the two are handed out
/// for the caller to put on the wire.
pub fn release_value<V, S>(value_message: WrappedValue<V, S>, tag: &str) -> (r: Result<
    (S, V),
    String,
>)
    ensures
        r is Ok <==> value_message.value is Some && value_message.sender is Some,
        r is Ok ==> r->Ok_0.0 == value_message.sender->Some_0 && r->Ok_0.1
            == value_message.value->Some_0,
        value_message.value is None ==> r is Err && r->Err_0@ == return_empty_error(tag@),
        value_message.value is Some && value_message.sender is None ==> r is Err && r->Err_0@
            == return_no_sender_error(tag@),
{
    if value_message.value.is_none() {
        let mut msg = String::from_str("trying to return empty ");
        msg.append(tag);
        msg.append(" to ");
        msg.append(tag);
        msg.append(" actor");
        return Err(msg);
    }
    if value_message.sender.is_none() {
        let mut msg = String::from_str("trying to return ");
        msg.append(tag);
        msg.append(" to ");
        msg.append(tag);
        msg.append(" actor without a sender");
        return Err(msg);
    }
    match (value_message.sender, value_message.value) {
        (Some(sender), Some(value)) => Ok((sender, value)),
        _ => unreached(),
    }
}

/// Exclusivity: a checkout empties the slot, so until the matching
/// check-in every further checkout of the same key observes no value.
/// No two holders of the key's value can exist at once.
pub proof fn lemma_checkout_exclusive<V>(m: Map<Seq<char>, Option<V>>, k: Seq<char>)
    ensures
        checkout_value(m.remove(k), k) is None,
{
}

/// Round trip: after creating `v` under `k`, a checkout yields `v`;
/// checking `v` back in and checking out again yields `v` a second time.
pub proof fn lemma_checkout_round_trip<V>(m: Map<Seq<char>, Option<V>>, k: Seq<char>, v: V)
    ensures
        checkout_value(m.insert(k, Some(v)), k) == Some(v),
        checkout_value(m.insert(k, Some(v)).remove(k).insert(k, Some(v)), k) == Some(v),
{
}

/// Absence: a checkout of a key that was never created yields nothing —
/// the caller-facing check then turns this into the "is empty" error
/// rather than a crash.
pub proof fn lemma_checkout_absent<V>(m: Map<Seq<char>, Option<V>>, k: Seq<char>)
    requires
        !m.contains_key(k),
    ensures
        checkout_value(m, k) is None,
{
}

} // verus!
