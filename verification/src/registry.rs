//! The registry of password-reset tokens.
//!
//! A reset token is an opaque identifier that stands for the right to set a
//! new credential for one account, once, within a time limit. The registry
//! maps each outstanding identifier to the moment it was issued, its time to
//! live and the account it belongs to. Time is a count of seconds that the
//! caller reads from a clock of its choice and hands in.

use vstd::prelude::*;

verus! {

/// What the registry keeps for one outstanding token.
#[derive(Clone, Copy, Debug, PartialEq, Eq, Structural)]
pub struct ResetEntry {
    /// The second at which the token was issued.
    pub issued_at: u64,
    /// For how many seconds after `issued_at` the token may be redeemed.
    pub ttl: u64,
    /// The account whose credential the token may replace.
    pub account: i32,
}

impl ResetEntry {
    /// An entry is valid while `now - issued_at <= ttl`, and expired after.
    pub open spec fn expired_at(self, now: u64) -> bool {
        now - self.issued_at > self.ttl
    }

    /// Tells whether the entry's time to live has elapsed at `now`.
    pub fn is_expired(&self, now: u64) -> (r: bool)
        ensures
            r == self.expired_at(now),
    {
        now > self.issued_at && now - self.issued_at > self.ttl
    }
}

/// Why a token could not be redeemed.
#[derive(Clone, Copy, Debug, PartialEq, Eq, Structural)]
pub enum ResetError {
    /// The registry holds no entry under the identifier.
    NotFound,
    /// The entry's time to live had elapsed; the entry is gone now.
    Expired,
}

/// The mathematical content of a registry.
pub type ResetMap = Map<Seq<char>, ResetEntry>;

/// What redeeming `id` at `now` yields in a registry that holds `m`.
pub open spec fn redeem_outcome(m: ResetMap, id: Seq<char>, now: u64) -> Result<i32, ResetError> {
    if !m.contains_key(id) {
        Err(ResetError::NotFound)
    } else if m[id].expired_at(now) {
        Err(ResetError::Expired)
    } else {
        Ok(m[id].account)
    }
}

/// The entries of `m` whose time to live has not elapsed at `now`.
pub open spec fn live(m: ResetMap, now: u64) -> ResetMap {
    Map::new(|id: Seq<char>| m.contains_key(id) && !m[id].expired_at(now), |id: Seq<char>| m[id])
}

struct Slot {
    id: String,
    entry: ResetEntry,
}

spec fn key_at(slots: Seq<Slot>, i: int) -> Seq<char> {
    slots[i].id@
}

spec fn holds(slots: Seq<Slot>, id: Seq<char>) -> bool {
    exists|i: int| 0 <= i < slots.len() && #[trigger] key_at(slots, i) == id
}

spec fn distinct(slots: Seq<Slot>) -> bool {
    forall|i: int, j: int|
        0 <= i < j < slots.len() ==> #[trigger] key_at(slots, i) != #[trigger] key_at(slots, j)
}

spec fn position(slots: Seq<Slot>, id: Seq<char>) -> int {
    choose|i: int| 0 <= i < slots.len() && #[trigger] key_at(slots, i) == id
}

spec fn model(slots: Seq<Slot>) -> ResetMap {
    Map::new(|id: Seq<char>| holds(slots, id), |id: Seq<char>| slots[position(slots, id)].entry)
}

proof fn lemma_slot(slots: Seq<Slot>, i: int)
    requires
        distinct(slots),
        0 <= i < slots.len(),
    ensures
        model(slots).contains_key(key_at(slots, i)),
        model(slots)[key_at(slots, i)] == slots[i].entry,
{
    let id = key_at(slots, i);
    let p = position(slots, id);
    assert(0 <= p < slots.len() && key_at(slots, p) == id);
    assert(p == i);
}

proof fn lemma_push(slots: Seq<Slot>, slot: Slot)
    requires
        distinct(slots),
        !holds(slots, slot.id@),
    ensures
        distinct(slots.push(slot)),
        model(slots.push(slot)) == model(slots).insert(slot.id@, slot.entry),
{
    let after = slots.push(slot);
    let last = slots.len() as int;
    assert forall|i: int, j: int| 0 <= i < j < after.len() implies #[trigger] key_at(after, i)
        != #[trigger] key_at(after, j) by {
        if j < last {
            assert(key_at(after, i) == key_at(slots, i));
            assert(key_at(after, j) == key_at(slots, j));
        } else {
            assert(key_at(after, i) == key_at(slots, i));
        }
    }
    assert forall|id: Seq<char>| holds(after, id) <==> (id == slot.id@ || holds(slots, id)) by {
        if holds(after, id) {
            let i = position(after, id);
            if i < last {
                assert(key_at(slots, i) == id);
            }
        }
        if holds(slots, id) {
            let i = position(slots, id);
            assert(key_at(after, i) == id);
        }
        if id == slot.id@ {
            assert(key_at(after, last) == id);
        }
    }
    assert forall|id: Seq<char>| holds(after, id) implies #[trigger] model(after)[id] == model(
        slots,
    ).insert(slot.id@, slot.entry)[id] by {
        let i = position(after, id);
        lemma_slot(after, i);
        if i < last {
            assert(key_at(slots, i) == id);
            lemma_slot(slots, i);
        }
    }
    assert(model(after) =~= model(slots).insert(slot.id@, slot.entry));
}

proof fn lemma_update(slots: Seq<Slot>, i: int, slot: Slot)
    requires
        distinct(slots),
        0 <= i < slots.len(),
        slot.id@ == key_at(slots, i),
    ensures
        distinct(slots.update(i, slot)),
        model(slots.update(i, slot)) == model(slots).insert(slot.id@, slot.entry),
{
    let after = slots.update(i, slot);
    assert forall|a: int| 0 <= a < slots.len() implies #[trigger] key_at(after, a) == key_at(
        slots,
        a,
    ) by {}
    assert forall|a: int, b: int| 0 <= a < b < after.len() implies #[trigger] key_at(after, a)
        != #[trigger] key_at(after, b) by {
        assert(key_at(after, a) == key_at(slots, a));
        assert(key_at(after, b) == key_at(slots, b));
    }
    assert forall|id: Seq<char>| holds(after, id) <==> holds(slots, id) by {
        if holds(after, id) {
            let a = position(after, id);
            assert(key_at(slots, a) == id);
        }
        if holds(slots, id) {
            let a = position(slots, id);
            assert(key_at(after, a) == id);
        }
    }
    assert(holds(slots, slot.id@)) by {
        assert(key_at(slots, i) == slot.id@);
    }
    assert forall|id: Seq<char>| holds(after, id) implies #[trigger] model(after)[id] == model(
        slots,
    ).insert(slot.id@, slot.entry)[id] by {
        let a = position(after, id);
        lemma_slot(after, a);
        assert(key_at(slots, a) == id);
        lemma_slot(slots, a);
    }
    assert(model(after) =~= model(slots).insert(slot.id@, slot.entry));
}

proof fn lemma_remove(slots: Seq<Slot>, i: int)
    requires
        distinct(slots),
        0 <= i < slots.len(),
    ensures
        distinct(slots.remove(i)),
        model(slots.remove(i)) == model(slots).remove(key_at(slots, i)),
{
    let after = slots.remove(i);
    let gone = key_at(slots, i);
    assert forall|a: int| 0 <= a < after.len() implies #[trigger] key_at(after, a) == key_at(
        slots,
        if a < i {
            a
        } else {
            a + 1
        },
    ) by {}
    assert forall|a: int, b: int| 0 <= a < b < after.len() implies #[trigger] key_at(after, a)
        != #[trigger] key_at(after, b) by {
        let a0 = if a < i {
            a
        } else {
            a + 1
        };
        let b0 = if b < i {
            b
        } else {
            b + 1
        };
        assert(key_at(after, a) == key_at(slots, a0));
        assert(key_at(after, b) == key_at(slots, b0));
    }
    assert forall|id: Seq<char>| holds(after, id) <==> (holds(slots, id) && id != gone) by {
        if holds(after, id) {
            let a = position(after, id);
            let a0 = if a < i {
                a
            } else {
                a + 1
            };
            assert(key_at(slots, a0) == id);
            if a0 < i {
                assert(key_at(slots, a0) != key_at(slots, i));
            } else {
                assert(key_at(slots, i) != key_at(slots, a0));
            }
        }
        if holds(slots, id) && id != gone {
            let a0 = position(slots, id);
            let a = if a0 < i {
                a0
            } else {
                a0 - 1
            };
            assert(key_at(after, a) == id);
        }
    }
    assert forall|id: Seq<char>| holds(after, id) implies #[trigger] model(after)[id] == model(
        slots,
    )[id] by {
        let a = position(after, id);
        let a0 = if a < i {
            a
        } else {
            a + 1
        };
        lemma_slot(after, a);
        assert(key_at(slots, a0) == id);
        lemma_slot(slots, a0);
    }
    assert(model(after) =~= model(slots).remove(gone));
}

proof fn lemma_size(slots: Seq<Slot>)
    requires
        distinct(slots),
    ensures
        model(slots).dom().finite(),
        model(slots).len() == slots.len(),
    decreases slots.len(),
{
    if slots.len() == 0 {
        assert(model(slots) =~= Map::<Seq<char>, ResetEntry>::empty());
    } else {
        let last = slots.len() - 1;
        lemma_slot(slots, last);
        lemma_remove(slots, last);
        assert(slots.remove(last) =~= slots.drop_last());
        lemma_size(slots.drop_last());
        let rest = model(slots.drop_last());
        assert(model(slots) =~= rest.insert(key_at(slots, last), slots[last].entry));
    }
}

proof fn lemma_all_live(slots: Seq<Slot>, now: u64)
    requires
        distinct(slots),
        forall|j: int| 0 <= j < slots.len() ==> !(#[trigger] slots[j]).entry.expired_at(now),
    ensures
        live(model(slots), now) == model(slots),
{
    assert forall|id: Seq<char>| model(slots).contains_key(id) implies !model(
        slots,
    )[id].expired_at(now) by {
        let i = position(slots, id);
        lemma_slot(slots, i);
    }
    assert(live(model(slots), now) =~= model(slots));
}

/// The alphabet of reset identifiers: letters, digits, `_` and `-`.
pub open spec fn is_identifier_char(c: char) -> bool {
    ||| 'a' <= c <= 'z'
    ||| 'A' <= c <= 'Z'
    ||| '0' <= c <= '9'
    ||| c == '_'
    ||| c == '-'
}

/// The shape of a reset identifier: 21 characters of the alphabet above.
pub open spec fn is_identifier(id: Seq<char>) -> bool {
    &&& id.len() == 21
    &&& forall|i: int| 0 <= i < id.len() ==> is_identifier_char(#[trigger] id[i])
}

/// Draws a random identifier with `nanoid::format`, from the generator
/// `nanoid::rngs::default`, over the alphabet `nanoid::alphabet::SAFE`, 21
/// characters long. Which identifier comes back is left open: the contract
/// states its length and alphabet, which hold of every draw.
#[verifier::external_body]
pub(crate) fn fresh_identifier() -> (id: String)
    ensures
        is_identifier(id@),
{
    nanoid::format(nanoid::rngs::default, &nanoid::alphabet::SAFE, 21)
}

/// The registry: every outstanding reset token, each under its identifier.
pub struct Resets {
    slots: Vec<Slot>,
}

impl View for Resets {
    type V = ResetMap;

    closed spec fn view(&self) -> ResetMap {
        model(self.slots@)
    }
}

impl Resets {
    /// No identifier occurs twice among the stored tokens.
    #[verifier::type_invariant]
    spec fn well_formed(&self) -> bool {
        distinct(self.slots@)
    }

    /// A registry without tokens.
    pub fn new() -> (r: Resets)
        ensures
            r@ == Map::<Seq<char>, ResetEntry>::empty(),
    {
        let r = Resets { slots: Vec::new() };
        assert(r@ =~= Map::<Seq<char>, ResetEntry>::empty());
        r
    }

    fn find(&self, id: &String) -> (r: Option<usize>)
        ensures
            match r {
                Some(i) => i < self.slots@.len() && key_at(self.slots@, i as int) == id@,
                None => !holds(self.slots@, id@),
            },
    {
        let mut i: usize = 0;
        while i < self.slots.len()
            invariant
                i <= self.slots@.len(),
                forall|j: int| 0 <= j < i ==> #[trigger] key_at(self.slots@, j) != id@,
            decreases self.slots@.len() - i,
        {
            if self.slots[i].id == *id {
                return Some(i);
            }
            i += 1;
        }
        None
    }

    /// Tells whether a token is stored under `identifier`, expired or not.
    pub fn contains(&self, identifier: &str) -> (r: bool)
        ensures
            r == self@.contains_key(identifier@),
    {
        let wanted = identifier.to_owned();
        self.find(&wanted).is_some()
    }

    /// The entry stored under `identifier`, if there is one.
    pub fn get(&self, identifier: &str) -> (r: Option<ResetEntry>)
        ensures
            r == if self@.contains_key(identifier@) {
                Some(self@[identifier@])
            } else {
                None
            },
    {
        let wanted = identifier.to_owned();
        match self.find(&wanted) {
            Some(i) => {
                proof {
                    use_type_invariant(self);
                    lemma_slot(self.slots@, i as int);
                }
                Some(self.slots[i].entry)
            },
            None => None,
        }
    }

    /// How many tokens are stored.
    pub fn len(&self) -> (r: usize)
        ensures
            r == self@.len(),
    {
        proof {
            use_type_invariant(self);
            lemma_size(self.slots@);
        }
        self.slots.len()
    }

    /// Stores `entry` under `identifier`. A token already stored under that
    /// identifier is replaced.
    pub fn insert(&mut self, identifier: String, entry: ResetEntry)
        ensures
            final(self)@ == old(self)@.insert(identifier@, entry),
    {
        proof {
            use_type_invariant(&*self);
        }
        let found = self.find(&identifier);
        let mut slots: Vec<Slot> = Vec::new();
        core::mem::swap(&mut self.slots, &mut slots);
        let slot = Slot { id: identifier, entry };
        match found {
            Some(i) => {
                proof {
                    lemma_update(slots@, i as int, slot);
                }
                slots.set(i, slot);
            },
            None => {
                proof {
                    lemma_push(slots@, slot);
                }
                slots.push(slot);
            },
        }
        self.slots = slots;
    }

    /// Issues a token for `account`: draws a fresh random identifier, stores
    /// the token under it as issued at `now` with `ttl` seconds to live, and
    /// returns the identifier.
    pub fn create(&mut self, account: i32, ttl: u64, now: u64) -> (identifier: String)
        ensures
            is_identifier(identifier@),
            final(self)@ == old(self)@.insert(
                identifier@,
                ResetEntry { issued_at: now, ttl, account },
            ),
    {
        let identifier = fresh_identifier();
        self.insert(identifier.clone(), ResetEntry { issued_at: now, ttl, account });
        identifier
    }

    /// Tells whether `identifier` could be redeemed at `now`: a token is
    /// stored under it and its time to live has not elapsed. Nothing changes.
    pub fn peek(&self, identifier: &str, now: u64) -> (r: bool)
        ensures
            r == redeem_outcome(self@, identifier@, now).is_ok(),
    {
        match self.get(identifier) {
            Some(entry) => !entry.is_expired(now),
            None => false,
        }
    }

    /// Takes the token stored under `identifier` out of the registry and
    /// hands its entry back, expired or not; `None` with no such token.
    pub fn take(&mut self, identifier: &str) -> (r: Option<ResetEntry>)
        ensures
            r == if old(self)@.contains_key(identifier@) {
                Some(old(self)@[identifier@])
            } else {
                None
            },
            final(self)@ == old(self)@.remove(identifier@),
    {
        proof {
            use_type_invariant(&*self);
        }
        let wanted = identifier.to_owned();
        match self.find(&wanted) {
            None => {
                assert(self@.remove(identifier@) =~= self@);
                None
            },
            Some(i) => {
                let mut slots: Vec<Slot> = Vec::new();
                core::mem::swap(&mut self.slots, &mut slots);
                proof {
                    lemma_slot(slots@, i as int);
                    lemma_remove(slots@, i as int);
                }
                let slot = slots.remove(i);
                self.slots = slots;
                Some(slot.entry)
            },
        }
    }

    /// Consumes the token stored under `identifier`.
    ///
    /// With no such token the result is `NotFound`. Otherwise the token
    /// leaves the registry, and the result is its account, or `Expired` when
    /// its time to live has elapsed at `now`.
    pub fn redeem(&mut self, identifier: &str, now: u64) -> (r: Result<i32, ResetError>)
        ensures
            r == redeem_outcome(old(self)@, identifier@, now),
            final(self)@ == old(self)@.remove(identifier@),
    {
        match self.take(identifier) {
            None => Err(ResetError::NotFound),
            Some(entry) => {
                if entry.is_expired(now) {
                    Err(ResetError::Expired)
                } else {
                    Ok(entry.account)
                }
            },
        }
    }

    /// Drops every token whose time to live has elapsed at `now`.
    pub fn clean(&mut self, now: u64)
        ensures
            final(self)@ == live(old(self)@, now),
    {
        proof {
            use_type_invariant(&*self);
        }
        let mut slots: Vec<Slot> = Vec::new();
        core::mem::swap(&mut self.slots, &mut slots);
        let mut i: usize = 0;
        while i < slots.len()
            invariant
                distinct(slots@),
                i <= slots@.len(),
                forall|j: int| 0 <= j < i ==> !(#[trigger] slots@[j]).entry.expired_at(now),
                live(model(slots@), now) == live(old(self)@, now),
            decreases slots@.len() - i,
        {
            if slots[i].entry.is_expired(now) {
                proof {
                    lemma_slot(slots@, i as int);
                    lemma_remove(slots@, i as int);
                    let gone = key_at(slots@, i as int);
                    assert(live(model(slots@).remove(gone), now) =~= live(model(slots@), now));
                }
                slots.remove(i);
            } else {
                i += 1;
            }
        }
        proof {
            lemma_all_live(slots@, now);
        }
        self.slots = slots;
    }
}

impl Default for Resets {
    fn default() -> (r: Resets)
        ensures
            r@ == Map::<Seq<char>, ResetEntry>::empty(),
    {
        Resets::new()
    }
}

/// One change to a registry, as the contracts of `Resets` describe it.
pub enum Change {
    /// `insert` or `create` stored `entry` under `identifier`.
    Stored { identifier: Seq<char>, entry: ResetEntry },
    /// `redeem` was called on `identifier`.
    Redeemed { identifier: Seq<char> },
    /// `clean` ran at `now`.
    Cleaned { now: u64 },
}

/// The content of a registry that held `m` after one change.
pub open spec fn apply(m: ResetMap, change: Change) -> ResetMap {
    match change {
        Change::Stored { identifier, entry } => m.insert(identifier, entry),
        Change::Redeemed { identifier } => m.remove(identifier),
        Change::Cleaned { now } => live(m, now),
    }
}

/// The content of a registry that started empty and went through `history`.
pub open spec fn replay(history: Seq<Change>) -> ResetMap
    decreases history.len(),
{
    if history.len() == 0 {
        Map::empty()
    } else {
        apply(replay(history.drop_last()), history.last())
    }
}

/// Whether `change` stored a token under `id`.
pub open spec fn stores(change: Change, id: Seq<char>) -> bool {
    change matches Change::Stored { identifier, .. } && identifier == id
}

/// Whether some change of `history` stored a token under `id`.
pub open spec fn was_stored(history: Seq<Change>, id: Seq<char>) -> bool {
    exists|i: int| 0 <= i < history.len() && #[trigger] stores(history[i], id)
}

/// What a run of redemptions of `id`, one at each of `times` in turn, yields
/// in a registry that holds `m` at the start.
pub open spec fn redeem_each(m: ResetMap, id: Seq<char>, times: Seq<u64>) -> Seq<
    Result<i32, ResetError>,
>
    decreases times.len(),
{
    if times.len() == 0 {
        Seq::empty()
    } else {
        seq![redeem_outcome(m, id, times[0])] + redeem_each(m.remove(id), id, times.drop_first())
    }
}

/// A registry holds tokens only under identifiers that were stored in it.
pub proof fn law_content_was_stored(history: Seq<Change>, id: Seq<char>)
    requires
        replay(history).contains_key(id),
    ensures
        was_stored(history, id),
    decreases history.len(),
{
    if history.len() > 0 {
        let before = history.drop_last();
        if stores(history.last(), id) {
            assert(stores(history[history.len() - 1], id));
        } else {
            law_content_was_stored(before, id);
            let i = choose|i: int| 0 <= i < before.len() && #[trigger] stores(before[i], id);
            assert(stores(history[i], id));
        }
    }
}

/// Redeeming an identifier under which nothing was ever stored yields
/// `NotFound`, whatever else the registry went through and whenever it is
/// tried.
pub proof fn law_unknown_identifier_not_found(history: Seq<Change>, id: Seq<char>, now: u64)
    requires
        !was_stored(history, id),
    ensures
        redeem_outcome(replay(history), id, now) == Err::<i32, ResetError>(ResetError::NotFound),
{
    if replay(history).contains_key(id) {
        law_content_was_stored(history, id);
    }
}

/// Of two redemptions of one identifier the second yields `NotFound`,
/// whatever the first one yielded and whenever each is tried.
pub proof fn law_second_redemption_not_found(m: ResetMap, id: Seq<char>, first: u64, second: u64)
    ensures
        redeem_outcome(apply(m, Change::Redeemed { identifier: id }), id, second) == Err::<
            i32,
            ResetError,
        >(ResetError::NotFound),
        redeem_outcome(m, id, first) is Ok ==> m.contains_key(id) && !m[id].expired_at(first),
{
}

/// However many redemptions of one identifier follow each other, only the
/// first can succeed: every later one yields `NotFound`.
pub proof fn law_later_redemptions_not_found(m: ResetMap, id: Seq<char>, times: Seq<u64>, k: int)
    requires
        1 <= k < times.len(),
    ensures
        redeem_each(m, id, times).len() == times.len(),
        redeem_each(m, id, times)[k] == Err::<i32, ResetError>(ResetError::NotFound),
    decreases times.len(),
{
    lemma_redeem_each_len(m, id, times);
    lemma_redeem_each_len(m.remove(id), id, times.drop_first());
    let rest = redeem_each(m.remove(id), id, times.drop_first());
    assert(redeem_each(m, id, times)[k] == rest[k - 1]);
    if k == 1 {
        assert(rest[0] == redeem_outcome(m.remove(id), id, times.drop_first()[0]));
    } else {
        law_later_redemptions_not_found(m.remove(id), id, times.drop_first(), k - 1);
    }
}

/// A token that was just stored and has not expired is won by exactly one of
/// the redemptions that follow each other: the first yields its account, and
/// every later one `NotFound`.
pub proof fn law_single_winner(
    m: ResetMap,
    id: Seq<char>,
    entry: ResetEntry,
    times: Seq<u64>,
    k: int,
)
    requires
        0 <= k < times.len(),
        !entry.expired_at(times[0]),
    ensures
        redeem_each(m.insert(id, entry), id, times).len() == times.len(),
        redeem_each(m.insert(id, entry), id, times)[k] == if k == 0 {
            Ok::<i32, ResetError>(entry.account)
        } else {
            Err::<i32, ResetError>(ResetError::NotFound)
        },
{
    let stored = m.insert(id, entry);
    lemma_redeem_each_len(stored, id, times);
    if k > 0 {
        law_later_redemptions_not_found(stored, id, times, k);
    }
}

/// Cleaning changes no redemption that is tried at or after the second it
/// ran at: what succeeds without it succeeds with it and yields the same
/// account, and what fails without it fails with it.
pub proof fn law_cleaning_keeps_redemptions(m: ResetMap, id: Seq<char>, cleaned_at: u64, now: u64)
    requires
        cleaned_at <= now,
    ensures
        redeem_outcome(apply(m, Change::Cleaned { now: cleaned_at }), id, now) is Ok
            <==> redeem_outcome(m, id, now) is Ok,
        redeem_outcome(m, id, now) is Ok ==> redeem_outcome(
            apply(m, Change::Cleaned { now: cleaned_at }),
            id,
            now,
        ) == redeem_outcome(m, id, now),
{
}

proof fn lemma_redeem_each_len(m: ResetMap, id: Seq<char>, times: Seq<u64>)
    ensures
        redeem_each(m, id, times).len() == times.len(),
    decreases times.len(),
{
    if times.len() > 0 {
        lemma_redeem_each_len(m.remove(id), id, times.drop_first());
    }
}

} // verus!
