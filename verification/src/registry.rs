//! The sharded connection registry: a fixed number of independent
//! key/value shards, a round-robin slot counter that spreads stored
//! connections across them, and the `"<shard>://<key>"` identifier
//! grammar that addresses a stored connection. Storing a connection
//! allocates the next slot, files the value under a fresh key, and hands
//! back an identifier that parses back to exactly that slot and key.
use vstd::prelude::*;

use crate::split::{after_sep, before_sep, has_unique_sep, no_colon, split_two,
    lemma_join_unique_sep};
use crate::text::{all_dec_digits, dec_str, dec_val, digits_of, is_dec_digit, parse_err_text,
    parse_usize, spec_parse_err, usize_to_string, lemma_dec_str_digits, lemma_dec_str_val};
use vstd::hash_map::StringHashMap;

verus! {

/// How many independently addressable shards the registry keeps.
pub const POOL_COUNT: usize = 10;

/// The slot that follows `i` in round-robin order.
pub open spec fn next_index(i: nat) -> nat {
    if i >= POOL_COUNT - 1 {
        0nat
    } else {
        i + 1
    }
}

/// A character of a rendered fresh key: lowercase hexadecimal or the
/// dash of the hyphenated form.
pub open spec fn is_key_char(c: char) -> bool {
    is_dec_digit(c) || ('a' <= c && c <= 'f') || c == '-'
}

/// Relies on `uuid::Uuid::new_v4` and its `Display` form: a fresh random
/// identifier rendered as 36 hyphenated lowercase hexadecimal characters.
#[verifier::external_body]
fn fresh_key() -> (r: String)
    ensures
        r@.len() == 36,
        forall|i: int| 0 <= i < r@.len() ==> is_key_char(#[trigger] r@[i]),
{
    uuid::Uuid::new_v4().to_string()
}

/// A well-formed connection identifier: one `"://"` separator, a numeral
/// before it, and a numeral value inside the shard range.
pub open spec fn id_ok(s: Seq<char>) -> bool {
    &&& has_unique_sep(s)
    &&& digits_of(before_sep(s)).len() > 0
    &&& all_dec_digits(digits_of(before_sep(s)))
    &&& dec_val(digits_of(before_sep(s))) < POOL_COUNT as nat
}

/// The shard index named by a well-formed identifier.
pub open spec fn id_index(s: Seq<char>) -> nat {
    dec_val(digits_of(before_sep(s)))
}

/// The in-shard key named by a well-formed identifier.
pub open spec fn id_key(s: Seq<char>) -> Seq<char> {
    after_sep(s)
}

/// The complaint for a rejected identifier: no single separator, a
/// malformed numeral, or a shard index outside the pool.
pub open spec fn id_error(s: Seq<char>) -> Seq<char>
    recommends
        !id_ok(s),
{
    if !has_unique_sep(s) {
        "Invalid: connection ID '"@ + s + "' is not valid"@
    } else if !(digits_of(before_sep(s)).len() > 0 && all_dec_digits(digits_of(before_sep(s)))
        && dec_val(digits_of(before_sep(s))) <= usize::MAX as nat) {
        parse_err_text(spec_parse_err(before_sep(s)))
    } else {
        "Invalid: connection ID: "@ + dec_str(id_index(s)) + " is out of bounds"@
    }
}

/// Splits a connection identifier into its shard index and key, or says
/// why it cannot be split.
pub fn get_components(connection_id: String) -> (r: Result<(usize, String), String>)
    ensures
        r is Ok <==> id_ok(connection_id@),
        r is Ok ==> r->Ok_0.0 as nat == id_index(connection_id@) && r->Ok_0.1@ == id_key(
            connection_id@,
        ),
        r is Err ==> r->Err_0@ == id_error(connection_id@),
{
    match split_two(connection_id.as_str()) {
        None => {
            let mut msg = String::from_str("Invalid: connection ID '");
            msg.append(connection_id.as_str());
            msg.append("' is not valid");
            Err(msg)
        },
        Some((pre, post)) => {
            match parse_usize(pre) {
                Err(e) => Err(e.message()),
                Ok(raw_index) => {
                    if raw_index >= POOL_COUNT {
                        let mut msg = String::from_str("Invalid: connection ID: ");
                        let rendered = usize_to_string(raw_index);
                        msg.append(rendered.as_str());
                        msg.append(" is out of bounds");
                        Err(msg)
                    } else {
                        Ok((raw_index, post.to_owned()))
                    }
                },
            }
        },
    }
}

/// The fixed array of shards and the round-robin slot counter.
#[verifier::reject_recursive_types(V)]
pub struct ConnectionPool<V> {
    shards: Vec<StringHashMap<V>>,
    index: usize,
}

impl<V> ConnectionPool<V> {
    /// The contents of shard `i`.
    pub closed spec fn shard(&self, i: int) -> Map<Seq<char>, V> {
        self.shards@[i]@
    }

    /// The slot the next stored connection will land in.
    pub closed spec fn next_slot(&self) -> nat {
        self.index as nat
    }

    /// The pool keeps its fixed shard count and a slot inside the range.
    pub closed spec fn wf(&self) -> bool {
        self.shards@.len() == POOL_COUNT && self.index < POOL_COUNT
    }

    /// A fresh pool: every shard empty, the counter at the first slot.
    pub fn new() -> (r: Self)
        ensures
            r.wf(),
            r.next_slot() == 0,
            forall|i: int| 0 <= i < POOL_COUNT ==> r.shard(i) == Map::<Seq<char>, V>::empty(),
    {
        let mut shards: Vec<StringHashMap<V>> = Vec::new();
        let mut i: usize = 0;
        while i < POOL_COUNT
            invariant
                i <= POOL_COUNT,
                shards@.len() == i,
                forall|j: int| 0 <= j < i ==> shards@[j]@ == Map::<Seq<char>, V>::empty(),
            decreases POOL_COUNT - i,
        {
            shards.push(StringHashMap::new());
            i = i + 1;
        }
        ConnectionPool { shards, index: 0 }
    }

    /// Advances the round-robin counter and reports the slot it held:
    /// slots come out in the strictly cyclic order 0, 1, …, 9, 0, 1, …
    pub fn get_index(&mut self) -> (r: usize)
        requires
            old(self).wf(),
        ensures
            final(self).wf(),
            r < POOL_COUNT,
            r as nat == old(self).next_slot(),
            final(self).next_slot() == next_index(old(self).next_slot()),
            forall|i: int| final(self).shard(i) == old(self).shard(i),
    {
        let current = self.index;
        if current >= POOL_COUNT - 1 {
            self.index = 0;
        } else {
            self.index = current + 1;
        }
        current
    }

    /// Files a connection under a fresh key in the next round-robin
    /// shard and returns the identifier that addresses it.
    pub fn store_connection(&mut self, connection: V) -> (id: String)
        requires
            old(self).wf(),
        ensures
            final(self).wf(),
            id_ok(id@),
            id_index(id@) == old(self).next_slot(),
            id_key(id@).len() == 36,
            final(self).shard(old(self).next_slot() as int) == old(self).shard(
                old(self).next_slot() as int,
            ).insert(id_key(id@), connection),
            forall|i: int|
                0 <= i < POOL_COUNT && i != old(self).next_slot() as int ==> final(self).shard(i)
                    == old(self).shard(i),
            final(self).next_slot() == next_index(old(self).next_slot()),
    {
        let index = self.get_index();
        let key = fresh_key();
        let mut id = usize_to_string(index);
        id.append("://");
        id.append(key.as_str());
        proof {
            reveal_strlit("://");
            assert("://"@ =~= seq![':', '/', '/']);
            lemma_dec_str_digits(index as nat);
            assert(no_colon(dec_str(index as nat)));
            assert(no_colon(key@));
            lemma_join_unique_sep(dec_str(index as nat), key@);
            assert(id@ == dec_str(index as nat) + seq![':', '/', '/'] + key@);
            assert(digits_of(dec_str(index as nat)) == dec_str(index as nat)) by {
                assert(is_dec_digit(dec_str(index as nat)[0]));
            }
            lemma_dec_str_val(index as nat);
        }
        let shard = &mut self.shards[index];
        shard.insert(key, connection);
        id
    }

    /// Removes the connection a well-formed identifier addresses; an
    /// identifier that does not parse is reported back unchanged, and
    /// removing an absent key is a no-op.
    pub fn close_connection(&mut self, connection_id: String) -> (r: Result<(), String>)
        requires
            old(self).wf(),
        ensures
            final(self).wf(),
            r is Ok <==> id_ok(connection_id@),
            final(self).next_slot() == old(self).next_slot(),
            r is Ok ==> final(self).shard(id_index(connection_id@) as int) == old(self).shard(
                id_index(connection_id@) as int,
            ).remove(id_key(connection_id@)),
            r is Ok ==> forall|i: int|
                0 <= i < POOL_COUNT && i != id_index(connection_id@) as int ==> final(self).shard(
                    i,
                ) == old(self).shard(i),
            r is Err ==> *final(self) == *old(self) && r->Err_0@ == id_error(connection_id@),
    {
        let (raw_index, key) = match get_components(connection_id) {
            Ok(parts) => parts,
            Err(e) => {
                return Err(e);
            },
        };
        let shard = &mut self.shards[raw_index];
        shard.remove(key.as_str());
        Ok(())
    }

    /// Looks a connection up by shard index and key, without removing it.
    pub fn get_connection<'a>(&'a self, raw_index: usize, connection_id: &str) -> (r: Option<
        &'a V,
    >)
        requires
            self.wf(),
            raw_index < POOL_COUNT,
        ensures
            match r {
                Some(v) => self.shard(raw_index as int).contains_key(connection_id@) && *v
                    == self.shard(raw_index as int)[connection_id@],
                None => !self.shard(raw_index as int).contains_key(connection_id@),
            },
    {
        self.shards[raw_index].get(connection_id)
    }
}

/// The slot that `k` allocations after one in slot `c` will use.
pub open spec fn slot_after(c: nat, k: nat) -> nat
    decreases k,
{
    if k == 0 {
        c
    } else {
        slot_after(next_index(c), (k - 1) as nat)
    }
}

/// Round-robin cycle: starting from slot `c`, the `k`-th allocation
/// lands in slot `(c + k) mod POOL_COUNT` — the slots come out in
/// strictly cyclic order, none skipped and none repeated before the
/// cycle completes, and every slot lies inside the pool.
pub proof fn lemma_round_robin_cycle(c: nat, k: nat)
    requires
        c < POOL_COUNT as nat,
    ensures
        slot_after(c, k) == (c + k) % (POOL_COUNT as nat),
        slot_after(c, k) < POOL_COUNT as nat,
    decreases k,
{
    let m = POOL_COUNT as nat;
    if k == 0 {
        vstd::arithmetic::div_mod::lemma_small_mod(c, m);
    } else {
        lemma_round_robin_cycle(next_index(c), (k - 1) as nat);
        if c >= m - 1 {
            assert((m as int) * 1 + (k - 1) == c + k);
            vstd::arithmetic::div_mod::lemma_mod_multiples_vanish(1, k - 1, m as int);
        }
    }
}

/// Consecutive allocations never share a slot: the pool holds more than
/// one shard, so the counter always moves.
pub proof fn lemma_consecutive_slots_differ(c: nat)
    requires
        c < POOL_COUNT as nat,
    ensures
        next_index(c) != c,
{
}

/// Removing an identifier's key is idempotent and ignores absent keys:
/// closing a connection twice, or closing one that was never stored,
/// leaves every shard exactly as a single close (or none) would.
pub proof fn lemma_remove_idempotent<T>(m: Map<Seq<char>, T>, k: Seq<char>)
    ensures
        m.remove(k).remove(k) == m.remove(k),
        !m.contains_key(k) ==> m.remove(k) == m,
{
    assert(m.remove(k).remove(k) =~= m.remove(k));
    if !m.contains_key(k) {
        assert(m.remove(k) =~= m);
    }
}

/// Isolation across shards: two connections stored one after the other
/// land in different shards, and removing the first leaves the second
/// untouched and visible in its own shard. The four pool values are the
/// registry before, after each store, and after the close; the requires
/// restate what those three operations ensure.
pub proof fn lemma_isolation_across_shards<V>(
    p0: ConnectionPool<V>,
    p1: ConnectionPool<V>,
    p2: ConnectionPool<V>,
    p3: ConnectionPool<V>,
    id1: Seq<char>,
    id2: Seq<char>,
    v1: V,
    v2: V,
)
    requires
        p0.wf(),
        id_ok(id1),
        id_index(id1) == p0.next_slot(),
        p1.shard(id_index(id1) as int) == p0.shard(id_index(id1) as int).insert(id_key(id1), v1),
        forall|i: int|
            0 <= i < POOL_COUNT && i != id_index(id1) as int ==> p1.shard(i) == p0.shard(i),
        p1.next_slot() == next_index(p0.next_slot()),
        id_ok(id2),
        id_index(id2) == p1.next_slot(),
        p2.shard(id_index(id2) as int) == p1.shard(id_index(id2) as int).insert(id_key(id2), v2),
        forall|i: int|
            0 <= i < POOL_COUNT && i != id_index(id2) as int ==> p2.shard(i) == p1.shard(i),
        p3.shard(id_index(id1) as int) == p2.shard(id_index(id1) as int).remove(id_key(id1)),
        forall|i: int|
            0 <= i < POOL_COUNT && i != id_index(id1) as int ==> p3.shard(i) == p2.shard(i),
    ensures
        id_index(id1) != id_index(id2),
        p3.shard(id_index(id2) as int).contains_key(id_key(id2)),
        p3.shard(id_index(id2) as int)[id_key(id2)] == v2,
{
    lemma_consecutive_slots_differ(p0.next_slot());
}

} // verus!
