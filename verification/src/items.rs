//! Item kinds, the per-entity inventory ledger, and pickup collection.
//!
//! The ledger maps each encountered item kind to an unsigned count; absent
//! kinds count as zero.  It is mutated only by collision-begin events (one
//! increment per collected item entity, which is then removed from the
//! world) and by the timed decay of one consumable kind.

use vstd::prelude::*;

verus! {

/// An authored identifier that no construction rule recognizes.
#[derive(Clone, Copy, Debug, PartialEq, Eq, Structural)]
pub struct UnknownIdentifier;

/// Compare two string slices by their character sequences.
pub fn str_eq(a: &str, b: &str) -> (r: bool)
    ensures
        r == (a@ == b@),
{
    let la = a.unicode_len();
    let lb = b.unicode_len();
    if la != lb {
        return false;
    }
    let mut i: usize = 0;
    while i < la
        invariant
            la == a@.len(),
            la == b@.len(),
            0 <= i <= la,
            forall|j: int| 0 <= j < i ==> a@[j] == b@[j],
        decreases la - i,
    {
        let ca = a.get_char(i);
        let cb = b.get_char(i);
        if ca != cb {
            return false;
        }
        i = i + 1;
    }
    proof {
        assert(a@ =~= b@);
    }
    true
}

/// The kinds of collectible items a level can place.
#[derive(Clone, Copy, Debug, PartialEq, Eq, Hash, Structural)]
pub enum ItemType {
    NoItem,
    Hampter,
    Bluberry,
}

impl Default for ItemType {
    fn default() -> (r: ItemType)
        ensures
            r == ItemType::NoItem,
    {
        ItemType::NoItem
    }
}

/// The item kind an authored name denotes, if any.
pub open spec fn parse_item_type(s: Seq<char>) -> Option<ItemType> {
    if s == "None"@ {
        Option::Some(ItemType::NoItem)
    } else if s == "Hampter"@ {
        Option::Some(ItemType::Hampter)
    } else if s == "Bluberry"@ {
        Option::Some(ItemType::Bluberry)
    } else {
        Option::None
    }
}

/// The item kind an authored name denotes, falling back to `NoItem`.
pub open spec fn parse_item_type_or_default(s: Seq<char>) -> ItemType {
    match parse_item_type(s) {
        Option::Some(k) => k,
        Option::None => ItemType::NoItem,
    }
}

impl ItemType {
    /// Parse an authored item name.
    pub fn from_str(s: &str) -> (r: Result<ItemType, UnknownIdentifier>)
        ensures
            parse_item_type(s@) matches Some(k) ==> r == Result::<
                ItemType,
                UnknownIdentifier,
            >::Ok(k),
            parse_item_type(s@) is None ==> r is Err,
    {
        if str_eq(s, "None") {
            Ok(ItemType::NoItem)
        } else if str_eq(s, "Hampter") {
            Ok(ItemType::Hampter)
        } else if str_eq(s, "Bluberry") {
            Ok(ItemType::Bluberry)
        } else {
            Err(UnknownIdentifier)
        }
    }

    /// The authored name of this kind.
    pub fn to_str(&self) -> (r: &'static str)
        ensures
            *self is NoItem ==> r@ == "None"@,
            *self is Hampter ==> r@ == "Hampter"@,
            *self is Bluberry ==> r@ == "Bluberry"@,
    {
        match self {
            ItemType::NoItem => "None",
            ItemType::Hampter => "Hampter",
            ItemType::Bluberry => "Bluberry",
        }
    }
}

/// The stored count for kind `k` in an entry sequence whose keys are
/// distinct; zero when no entry carries the kind.
pub open spec fn seq_count(s: Seq<(ItemType, u8)>, k: ItemType) -> int
    decreases s.len(),
{
    if s.len() == 0 {
        0
    } else if s.last().0 == k {
        s.last().1 as int
    } else {
        seq_count(s.drop_last(), k)
    }
}

/// Whether some entry carries kind `k`.
pub open spec fn seq_has(s: Seq<(ItemType, u8)>, k: ItemType) -> bool {
    exists|i: int| 0 <= i < s.len() && s[i].0 == k
}

/// The per-entity ledger from item kind to collected count.
#[derive(Clone, Debug, PartialEq, Eq)]
pub struct Items {
    entries: Vec<(ItemType, u8)>,
}

impl Items {
    /// Entry keys are pairwise distinct.
    pub closed spec fn wf(self) -> bool {
        forall|i: int, j: int|
            0 <= i < j < self.entries@.len() ==> self.entries@[i].0 != self.entries@[j].0
    }

    /// The count recorded for a kind; absent kinds count as zero.
    pub closed spec fn count(self, k: ItemType) -> int {
        seq_count(self.entries@, k)
    }

    /// Whether the ledger carries an entry for a kind (even at count zero).
    pub closed spec fn has_kind(self, k: ItemType) -> bool {
        seq_has(self.entries@, k)
    }

    /// A ledger with no entries.
    pub fn new() -> (r: Items)
        ensures
            r.wf(),
            forall|k: ItemType| r.count(k) == 0,
            forall|k: ItemType| !r.has_kind(k),
    {
        let r = Items { entries: Vec::new() };
        proof {
            assert forall|k: ItemType| r.count(k) == 0 by {
                assert(r.entries@.len() == 0);
            }
        }
        r
    }

    /// The index of the entry for `k`, if one exists.
    fn find_index(&self, k: ItemType) -> (r: Option<usize>)
        ensures
            r matches Some(i) ==> i < self.entries@.len() && self.entries@[i as int].0 == k,
            r is None ==> forall|j: int| 0 <= j < self.entries@.len() ==> self.entries@[j].0 != k,
            r is None <==> !self.has_kind(k),
    {
        let n = self.entries.len();
        let mut i: usize = 0;
        while i < n
            invariant
                n == self.entries@.len(),
                0 <= i <= n,
                forall|j: int| 0 <= j < i ==> self.entries@[j].0 != k,
            decreases n - i,
        {
            if self.entries[i].0 == k {
                return Some(i);
            }
            i = i + 1;
        }
        None
    }

    /// Read the count for a kind.
    pub fn get(&self, k: ItemType) -> (c: u8)
        requires
            self.wf(),
        ensures
            c as int == self.count(k),
    {
        match self.find_index(k) {
            Some(i) => {
                proof {
                    lemma_seq_count_found(self.entries@, k, i as int);
                }
                self.entries[i].1
            },
            None => {
                proof {
                    lemma_seq_count_absent(self.entries@, k);
                }
                0
            },
        }
    }

    /// A ledger count always fits the stored byte range.
    pub proof fn lemma_count_in_range(self, k: ItemType)
        ensures
            0 <= self.count(k) <= 255,
    {
        lemma_seq_count_in_range(self.entries@, k);
    }

    /// Whether the ledger carries an entry for a kind.
    pub fn has(&self, k: ItemType) -> (r: bool)
        ensures
            r == self.has_kind(k),
    {
        match self.find_index(k) {
            Some(i) => {
                proof {
                    assert(seq_has(self.entries@, k)) by {
                        assert(self.entries@[i as int].0 == k);
                    }
                }
                true
            },
            None => false,
        }
    }

    /// Record one collected item of kind `k`.
    pub fn add_one(&mut self, k: ItemType)
        requires
            old(self).wf(),
            old(self).count(k) < 255,
        ensures
            final(self).wf(),
            final(self).count(k) == old(self).count(k) + 1,
            forall|k2: ItemType| k2 != k ==> final(self).count(k2) == old(self).count(k2),
            forall|k2: ItemType|
                final(self).has_kind(k2) == (old(self).has_kind(k2) || k2 == k),
    {
        match self.find_index(k) {
            Some(i) => {
                proof {
                    lemma_seq_count_found(self.entries@, k, i as int);
                }
                let c = self.entries[i].1;
                self.entries.set(i, (k, c + 1));
                proof {
                    lemma_seq_update_same_key(old(self).entries@, i as int, k, (c + 1) as u8);
                }
            },
            None => {
                proof {
                    lemma_seq_count_absent(self.entries@, k);
                }
                self.entries.push((k, 1));
                proof {
                    lemma_seq_push_new_key(old(self).entries@, k, 1u8);
                }
            },
        }
    }

    /// Set the stored count for kind `k` outright, adding the entry when it
    /// is absent.
    pub fn set_count(&mut self, k: ItemType, c: u8)
        requires
            old(self).wf(),
        ensures
            final(self).wf(),
            final(self).count(k) == c as int,
            forall|k2: ItemType| k2 != k ==> final(self).count(k2) == old(self).count(k2),
            forall|k2: ItemType|
                final(self).has_kind(k2) == (old(self).has_kind(k2) || k2 == k),
    {
        match self.find_index(k) {
            Some(i) => {
                self.entries.set(i, (k, c));
                proof {
                    lemma_seq_update_same_key(old(self).entries@, i as int, k, c);
                }
            },
            None => {
                self.entries.push((k, c));
                proof {
                    lemma_seq_push_new_key(old(self).entries@, k, c);
                }
            },
        }
    }

    /// Take one item of kind `k` back out of the ledger.
    pub fn sub_one(&mut self, k: ItemType)
        requires
            old(self).wf(),
            old(self).count(k) > 0,
        ensures
            final(self).wf(),
            final(self).count(k) == old(self).count(k) - 1,
            forall|k2: ItemType| k2 != k ==> final(self).count(k2) == old(self).count(k2),
            forall|k2: ItemType| final(self).has_kind(k2) == old(self).has_kind(k2),
    {
        proof {
            if !self.has_kind(k) {
                lemma_seq_count_absent(self.entries@, k);
            }
        }
        match self.find_index(k) {
            Some(i) => {
                proof {
                    lemma_seq_count_found(self.entries@, k, i as int);
                }
                let c = self.entries[i].1;
                self.entries.set(i, (k, c - 1));
                proof {
                    lemma_seq_update_same_key(old(self).entries@, i as int, k, (c - 1) as u8);
                }
            },
            None => {
                proof {
                    assert(false);
                }
            },
        }
    }

    /// Record that a kind was encountered, without collecting anything:
    /// absent kinds gain an entry at count zero.
    pub fn ensure_kind(&mut self, k: ItemType)
        requires
            old(self).wf(),
        ensures
            final(self).wf(),
            forall|k2: ItemType| final(self).count(k2) == old(self).count(k2),
            forall|k2: ItemType|
                final(self).has_kind(k2) == (old(self).has_kind(k2) || k2 == k),
    {
        match self.find_index(k) {
            Some(_) => {
                proof {
                    assert(old(self).has_kind(k));
                }
            },
            None => {
                proof {
                    lemma_seq_count_absent(self.entries@, k);
                }
                self.entries.push((k, 0));
                proof {
                    lemma_seq_push_new_key(old(self).entries@, k, 0u8);
                    lemma_seq_count_absent(old(self).entries@, k);
                }
            },
        }
    }

    /// Build a ledger from the authored item names of a level entity: one
    /// entry per encountered kind, every count zero, unknown names falling
    /// back to `NoItem`.
    pub fn from_names(names: &Vec<String>) -> (r: Items)
        ensures
            r.wf(),
            forall|k: ItemType| r.count(k) == 0,
            forall|k: ItemType|
                r.has_kind(k) <==> exists|i: int|
                    0 <= i < names@.len() && parse_item_type_or_default(#[trigger] names@[i]@)
                        == k,
    {
        let mut r = Items::new();
        let n = names.len();
        let mut i: usize = 0;
        while i < n
            invariant
                n == names@.len(),
                0 <= i <= n,
                r.wf(),
                forall|k: ItemType| r.count(k) == 0,
                forall|k: ItemType|
                    r.has_kind(k) <==> exists|j: int|
                        0 <= j < i && parse_item_type_or_default(#[trigger] names@[j]@) == k,
            decreases n - i,
        {
            let kind = match ItemType::from_str(names[i].as_str()) {
                Ok(k) => k,
                Err(_) => ItemType::NoItem,
            };
            assert(kind == parse_item_type_or_default(names@[i as int]@));
            r.ensure_kind(kind);
            i = i + 1;
        }
        r
    }
}

impl Default for Items {
    fn default() -> (r: Items)
        ensures
            r.wf(),
            forall|k: ItemType| r.count(k) == 0,
            forall|k: ItemType| !r.has_kind(k),
    {
        Items::new()
    }
}

/// A physics collision event between two entity handles.
#[derive(Clone, Copy, Debug, PartialEq, Eq, Structural)]
pub enum CollisionEvent {
    Started(u64, u64),
    Stopped(u64, u64),
}

/// The item entity the bearer collects in this event, if any: the entity
/// paired with the bearer by a collision-begin event.  Collision-end events
/// collect nothing.
pub open spec fn collected_id(e: CollisionEvent, bearer: u64) -> Option<u64> {
    match e {
        CollisionEvent::Started(a, b) => if a == bearer {
            Option::Some(b)
        } else if b == bearer {
            Option::Some(a)
        } else {
            Option::None
        },
        CollisionEvent::Stopped(_, _) => Option::None,
    }
}

/// Entity ids in a world-item table are pairwise distinct.
pub open spec fn distinct_ids(s: Seq<(u64, ItemType)>) -> bool {
    forall|i: int, j: int| 0 <= i < j < s.len() ==> s[i].0 != s[j].0
}

/// Whether the table still holds an entry for entity `id`.
pub open spec fn has_id(s: Seq<(u64, ItemType)>, id: u64) -> bool {
    exists|i: int| 0 <= i < s.len() && s[i].0 == id
}

/// The table with the entry for entity `id` removed, when one is present.
pub open spec fn remove_id(s: Seq<(u64, ItemType)>, id: u64) -> Seq<(u64, ItemType)> {
    if has_id(s, id) {
        s.remove(choose|i: int| 0 <= i < s.len() && s[i].0 == id)
    } else {
        s
    }
}

/// How many table entries hold an item of kind `k`.
pub open spec fn kind_count(s: Seq<(u64, ItemType)>, k: ItemType) -> int
    decreases s.len(),
{
    if s.len() == 0 {
        0
    } else {
        kind_count(s.drop_last(), k) + if s.last().1 == k {
            1int
        } else {
            0int
        }
    }
}

/// The table after one collision event: the entry the bearer collects is
/// removed, when one is still present; everything else is left alone.
pub open spec fn collect_step(
    prev: Seq<(u64, ItemType)>,
    e: CollisionEvent,
    bearer: u64,
) -> Seq<(u64, ItemType)> {
    match collected_id(e, bearer) {
        Option::Some(id) => remove_id(prev, id),
        Option::None => prev,
    }
}

/// The table after a batch of collision events is applied in order: each
/// collision-begin event that pairs the bearer with an entity removes that
/// entity's entry, when one is still present; everything else is skipped.
pub open spec fn spec_collect_items(
    s: Seq<(u64, ItemType)>,
    evs: Seq<CollisionEvent>,
    bearer: u64,
) -> Seq<(u64, ItemType)>
    decreases evs.len(),
{
    if evs.len() == 0 {
        s
    } else {
        collect_step(spec_collect_items(s, evs.drop_last(), bearer), evs.last(), bearer)
    }
}

/// Removing the entry at one index lowers the count of that entry's kind by
/// one and leaves the other kind counts alone.
proof fn lemma_remove_at_kind_count(s: Seq<(u64, ItemType)>, idx: int, k: ItemType)
    requires
        0 <= idx < s.len(),
    ensures
        kind_count(s.remove(idx), k) == kind_count(s, k) - (if s[idx].1 == k {
            1int
        } else {
            0int
        }),
    decreases s.len(),
{
    if idx == s.len() - 1 {
        assert(s.remove(idx) =~= s.drop_last());
    } else {
        assert(s.remove(idx).drop_last() =~= s.drop_last().remove(idx));
        assert(s.remove(idx).last() == s.last());
        lemma_remove_at_kind_count(s.drop_last(), idx, k);
    }
}

/// Removing the entry at one index from a table with distinct ids keeps the
/// ids distinct, drops exactly that entry's id, and keeps any other id's
/// presence (and the absence of a given excluded id) intact.
proof fn lemma_remove_at_ids(s: Seq<(u64, ItemType)>, idx: int, excluded: u64)
    requires
        distinct_ids(s),
        0 <= idx < s.len(),
    ensures
        distinct_ids(s.remove(idx)),
        !has_id(s.remove(idx), s[idx].0),
        forall|x: u64| x != s[idx].0 ==> has_id(s.remove(idx), x) == has_id(s, x),
        (forall|i: int| 0 <= i < s.len() ==> s[i].0 != excluded) ==> (forall|j: int|
            0 <= j < s.remove(idx).len() ==> s.remove(idx)[j].0 != excluded),
{
    let s2 = s.remove(idx);
    assert(forall|j: int| 0 <= j < idx ==> s2[j] == s[j]);
    assert(forall|j: int| idx <= j < s2.len() ==> s2[j] == s[j + 1]);
    assert forall|x: u64| x != s[idx].0 && has_id(s, x) implies has_id(s2, x) by {
        let w = choose|i: int| 0 <= i < s.len() && s[i].0 == x;
        if w < idx {
            assert(s2[w].0 == x);
        } else {
            assert(w > idx);
            assert(s2[w - 1].0 == x);
        }
    }
}

/// Removing the entry that stands at `idx` by its id removes exactly that
/// index.
proof fn lemma_remove_id_at(s: Seq<(u64, ItemType)>, idx: int)
    requires
        distinct_ids(s),
        0 <= idx < s.len(),
    ensures
        remove_id(s, s[idx].0) == s.remove(idx),
{
    assert(has_id(s, s[idx].0));
    let w = choose|i: int| 0 <= i < s.len() && s[i].0 == s[idx].0;
    if w < idx {
        assert(s[w].0 != s[idx].0);
    }
    if w > idx {
        assert(s[idx].0 != s[w].0);
    }
}

/// Law: removals by id commute on a table with distinct ids, so the order
/// in which two pickups are processed does not matter.
pub proof fn lemma_remove_id_commutes(s: Seq<(u64, ItemType)>, a: u64, b: u64)
    requires
        distinct_ids(s),
    ensures
        remove_id(remove_id(s, a), b) == remove_id(remove_id(s, b), a),
{
    if a == b {
        if has_id(s, a) {
            let w = choose|i: int| 0 <= i < s.len() && s[i].0 == a;
            lemma_remove_at_ids(s, w, 0);
            assert(!has_id(s.remove(w), a));
        }
    } else if !has_id(s, a) && !has_id(s, b) {
        assert(remove_id(s, a) == s);
        assert(remove_id(s, b) == s);
    } else if has_id(s, a) && !has_id(s, b) {
        let wa = choose|i: int| 0 <= i < s.len() && s[i].0 == a;
        lemma_remove_at_ids(s, wa, 0);
        assert(!has_id(s.remove(wa), b));
        assert(remove_id(s, b) == s);
    } else if !has_id(s, a) && has_id(s, b) {
        let wb = choose|i: int| 0 <= i < s.len() && s[i].0 == b;
        lemma_remove_at_ids(s, wb, 0);
        assert(!has_id(s.remove(wb), a));
        assert(remove_id(s, a) == s);
    } else {
        let ia = choose|i: int| 0 <= i < s.len() && s[i].0 == a;
        let ib = choose|i: int| 0 <= i < s.len() && s[i].0 == b;
        assert(ia != ib);
        lemma_remove_id_at(s, ia);
        lemma_remove_id_at(s, ib);
        lemma_remove_at_ids(s, ia, 0);
        lemma_remove_at_ids(s, ib, 0);
        let r1 = s.remove(ia);
        let r2 = s.remove(ib);
        let ib1: int = if ib < ia {
            ib
        } else {
            ib - 1
        };
        let ia2: int = if ia < ib {
            ia
        } else {
            ia - 1
        };
        assert(r1[ib1] == s[ib]);
        assert(r2[ia2] == s[ia]);
        lemma_remove_id_at(r1, ib1);
        lemma_remove_id_at(r2, ia2);
        assert(r1.remove(ib1) =~= r2.remove(ia2)) by {
            assert forall|j: int| 0 <= j < r1.remove(ib1).len() implies r1.remove(ib1)[j]
                == r2.remove(ia2)[j] by {
                let u = if ia < ib {
                    ia
                } else {
                    ib
                };
                let v = if ia < ib {
                    ib
                } else {
                    ia
                };
                if j < u {
                    assert(r1.remove(ib1)[j] == s[j]);
                    assert(r2.remove(ia2)[j] == s[j]);
                } else if j < v - 1 {
                    assert(r1.remove(ib1)[j] == s[j + 1]);
                    assert(r2.remove(ia2)[j] == s[j + 1]);
                } else {
                    assert(r1.remove(ib1)[j] == s[j + 2]);
                    assert(r2.remove(ia2)[j] == s[j + 2]);
                }
            }
        }
    }
}

/// Law: two collision events applied to a table with distinct ids yield the
/// same table in either order — simultaneous pickups commute, so a batch's
/// outcome does not depend on how its events are ordered.
pub proof fn lemma_collect_two_orders(
    s: Seq<(u64, ItemType)>,
    e1: CollisionEvent,
    e2: CollisionEvent,
    bearer: u64,
)
    requires
        distinct_ids(s),
    ensures
        spec_collect_items(s, seq![e1, e2], bearer) == spec_collect_items(
            s,
            seq![e2, e1],
            bearer,
        ),
{
    reveal_with_fuel(spec_collect_items, 3);
    let evs12 = seq![e1, e2];
    let evs21 = seq![e2, e1];
    assert(evs12.drop_last() =~= seq![e1]);
    assert(evs21.drop_last() =~= seq![e2]);
    assert(seq![e1].drop_last() =~= Seq::<CollisionEvent>::empty());
    assert(seq![e2].drop_last() =~= Seq::<CollisionEvent>::empty());
    assert(evs12.last() == e2 && evs21.last() == e1);
    assert(seq![e1].last() == e1 && seq![e2].last() == e2);
    assert(spec_collect_items(s, evs12, bearer) == collect_step(
        collect_step(s, e1, bearer),
        e2,
        bearer,
    ));
    assert(spec_collect_items(s, evs21, bearer) == collect_step(
        collect_step(s, e2, bearer),
        e1,
        bearer,
    ));
    match (collected_id(e1, bearer), collected_id(e2, bearer)) {
        (Option::Some(a), Option::Some(b)) => {
            lemma_remove_id_commutes(s, a, b);
        },
        _ => {},
    }
}

/// Applying collision events to a table never raises any kind count, and
/// keeps ids distinct and an excluded id absent.
pub proof fn lemma_collect_items_shrinks(
    s: Seq<(u64, ItemType)>,
    evs: Seq<CollisionEvent>,
    bearer: u64,
    k: ItemType,
)
    requires
        distinct_ids(s),
    ensures
        kind_count(spec_collect_items(s, evs, bearer), k) <= kind_count(s, k),
        distinct_ids(spec_collect_items(s, evs, bearer)),
        (forall|i: int| 0 <= i < s.len() ==> s[i].0 != bearer) ==> (forall|j: int|
            0 <= j < spec_collect_items(s, evs, bearer).len() ==> spec_collect_items(
                s,
                evs,
                bearer,
            )[j].0 != bearer),
    decreases evs.len(),
{
    if evs.len() > 0 {
        lemma_collect_items_shrinks(s, evs.drop_last(), bearer, k);
        let prev = spec_collect_items(s, evs.drop_last(), bearer);
        match collected_id(evs.last(), bearer) {
            Option::Some(id) => {
                if has_id(prev, id) {
                    let w = choose|i: int| 0 <= i < prev.len() && prev[i].0 == id;
                    lemma_remove_at_kind_count(prev, w, k);
                    lemma_remove_at_ids(prev, w, bearer);
                }
            },
            Option::None => {},
        }
    }
}

/// Collect one item entity into the ledger, when its entry is still in the
/// table.
#[verifier::loop_isolation(false)]
fn try_collect(ledger: &mut Items, world_items: &mut Vec<(u64, ItemType)>, id: u64)
    requires
        old(ledger).wf(),
        distinct_ids(old(world_items)@),
        forall|k: ItemType| old(ledger).count(k) + old(world_items)@.len() <= 255,
    ensures
        final(ledger).wf(),
        final(world_items)@ == remove_id(old(world_items)@, id),
        distinct_ids(final(world_items)@),
        forall|k: ItemType|
            final(ledger).count(k) == old(ledger).count(k) + kind_count(old(world_items)@, k)
                - kind_count(final(world_items)@, k),
        forall|k: ItemType| final(ledger).count(k) + final(world_items)@.len() <= 255,
        forall|j: int|
            0 <= j < final(world_items)@.len() ==> exists|i: int|
                0 <= i < old(world_items)@.len() && #[trigger] final(world_items)@[j]
                    == #[trigger] old(world_items)@[i],
{
    let ghost s0 = world_items@;
    let n = world_items.len();
    let mut i: usize = 0;
    while i < n
        invariant
            world_items@ == s0,
            *ledger == *old(ledger),
            old(ledger).wf(),
            distinct_ids(s0),
            forall|k: ItemType| old(ledger).count(k) + s0.len() <= 255,
            n == s0.len(),
            0 <= i <= n,
            forall|j: int| 0 <= j < i ==> s0[j].0 != id,
        decreases n - i,
    {
        if world_items[i].0 == id {
            let kind = world_items[i].1;
            proof {
                assert(s0[i as int].0 == id);
                assert(has_id(s0, id));
                let w = choose|q: int| 0 <= q < s0.len() && s0[q].0 == id;
                if w < i as int {
                    assert(s0[w].0 != s0[i as int].0);
                }
                if w > i as int {
                    assert(s0[i as int].0 != s0[w].0);
                }
                assert(w == i as int);
                assert(remove_id(s0, id) == s0.remove(i as int));
                lemma_kind_count_at_least_one(s0, i as int);
                lemma_remove_at_ids(s0, i as int, 0);
            }
            world_items.remove(i);
            ledger.add_one(kind);
            proof {
                assert forall|k: ItemType|
                    ledger.count(k) == old(ledger).count(k) + kind_count(s0, k) - kind_count(
                        world_items@,
                        k,
                    ) by {
                    lemma_remove_at_kind_count(s0, i as int, k);
                }
                assert forall|k: ItemType| ledger.count(k) + world_items@.len() <= 255 by {
                    lemma_remove_at_kind_count(s0, i as int, k);
                }
                assert forall|j: int| 0 <= j < world_items@.len() implies exists|q: int|
                    0 <= q < s0.len() && #[trigger] world_items@[j] == #[trigger] s0[q] by {
                    if j < i {
                        assert(world_items@[j] == s0[j]);
                    } else {
                        assert(world_items@[j] == s0[j + 1]);
                    }
                }
            }
            return ;
        }
        i = i + 1;
    }
    proof {
        assert(!has_id(s0, id)) by {
            if has_id(s0, id) {
                let w = choose|q: int| 0 <= q < s0.len() && s0[q].0 == id;
                assert(s0[w].0 != id);
            }
        }
        assert(remove_id(s0, id) == s0);
        assert forall|j: int| 0 <= j < world_items@.len() implies exists|q: int|
            0 <= q < s0.len() && #[trigger] world_items@[j] == #[trigger] s0[q] by {
            assert(world_items@[j] == s0[j]);
        }
    }
}

/// An entry of kind `k` at some index puts the count of `k` at one or more.
proof fn lemma_kind_count_at_least_one(s: Seq<(u64, ItemType)>, idx: int)
    requires
        0 <= idx < s.len(),
    ensures
        kind_count(s, s[idx].1) >= 1,
        forall|k: ItemType| kind_count(s, k) >= 0,
    decreases s.len(),
{
    lemma_kind_count_nonneg(s);
    lemma_kind_count_nonneg(s.drop_last());
    if idx == s.len() - 1 {
        assert(s.last() == s[idx]);
        assert(kind_count(s, s[idx].1) == kind_count(s.drop_last(), s[idx].1) + 1);
    } else {
        lemma_kind_count_at_least_one(s.drop_last(), idx);
        assert(s.drop_last()[idx] == s[idx]);
        assert(kind_count(s, s[idx].1) >= kind_count(s.drop_last(), s[idx].1));
    }
}

/// Kind counts are never negative.
proof fn lemma_kind_count_nonneg(s: Seq<(u64, ItemType)>)
    ensures
        forall|k: ItemType| #[trigger] kind_count(s, k) >= 0,
    decreases s.len(),
{
    if s.len() > 0 {
        lemma_kind_count_nonneg(s.drop_last());
        assert forall|k: ItemType| #[trigger] kind_count(s, k) >= 0 by {
            assert(kind_count(s, k) == kind_count(s.drop_last(), k) + if s.last().1 == k {
                1int
            } else {
                0int
            });
        }
    } else {
        assert forall|k: ItemType| #[trigger] kind_count(s, k) >= 0 by {
            assert(kind_count(s, k) == 0);
        }
    }
}

/// Apply one batch of physics collision events to a bearer's ledger.
///
/// Every collision-begin event between the bearer and a live item entity
/// adds one item of that entity's kind to the ledger and removes the entity
/// from the world table; events naming entities that are already gone, and
/// all collision-end events, are skipped silently.  Increments commute, so
/// the outcome does not depend on the order of simultaneous events beyond
/// the table fold stated here.
#[verifier::loop_isolation(false)]
pub fn collect_items(
    ledger: &mut Items,
    world_items: &mut Vec<(u64, ItemType)>,
    bearer: u64,
    events: &Vec<CollisionEvent>,
)
    requires
        old(ledger).wf(),
        distinct_ids(old(world_items)@),
        forall|i: int| 0 <= i < old(world_items)@.len() ==> old(world_items)@[i].0 != bearer,
        forall|k: ItemType| old(ledger).count(k) + old(world_items)@.len() <= 255,
    ensures
        final(ledger).wf(),
        final(world_items)@ == spec_collect_items(old(world_items)@, events@, bearer),
        distinct_ids(final(world_items)@),
        forall|k: ItemType|
            final(ledger).count(k) == old(ledger).count(k) + kind_count(old(world_items)@, k)
                - kind_count(final(world_items)@, k),
        forall|k: ItemType| final(ledger).count(k) >= old(ledger).count(k),
{
    let ghost s0 = world_items@;
    let n = events.len();
    let mut ei: usize = 0;
    while ei < n
        invariant
            n == events@.len(),
            0 <= ei <= n,
            ledger.wf(),
            distinct_ids(world_items@),
            forall|i: int| 0 <= i < world_items@.len() ==> world_items@[i].0 != bearer,
            world_items@ == spec_collect_items(s0, events@.take(ei as int), bearer),
            forall|k: ItemType|
                ledger.count(k) == old(ledger).count(k) + kind_count(s0, k) - kind_count(
                    world_items@,
                    k,
                ),
            forall|k: ItemType| ledger.count(k) + world_items@.len() <= 255,
        decreases n - ei,
    {
        let ghost pre = world_items@;
        proof {
            assert(events@.take(ei + 1).drop_last() =~= events@.take(ei as int));
            assert(events@.take(ei + 1).last() == events@[ei as int]);
        }
        match events[ei] {
            CollisionEvent::Started(a, b) => {
                if a == bearer {
                    try_collect(ledger, world_items, b);
                } else if b == bearer {
                    try_collect(ledger, world_items, a);
                }
            },
            CollisionEvent::Stopped(_, _) => {},
        }
        ei = ei + 1;
    }
    proof {
        assert(events@.take(n as int) =~= events@);
        assert forall|k: ItemType| ledger.count(k) >= old(ledger).count(k) by {
            lemma_collect_items_shrinks(s0, events@, bearer, k);
        }
    }
}

/// A stored count is a byte, so every count lies in the byte range.
proof fn lemma_seq_count_in_range(s: Seq<(ItemType, u8)>, k: ItemType)
    ensures
        0 <= seq_count(s, k) <= 255,
    decreases s.len(),
{
    if s.len() > 0 {
        lemma_seq_count_in_range(s.drop_last(), k);
    }
}

/// With distinct keys, the count for `k` is the value stored at the entry
/// that carries `k`.
proof fn lemma_seq_count_found(s: Seq<(ItemType, u8)>, k: ItemType, idx: int)
    requires
        forall|i: int, j: int| 0 <= i < j < s.len() ==> s[i].0 != s[j].0,
        0 <= idx < s.len(),
        s[idx].0 == k,
    ensures
        seq_count(s, k) == s[idx].1 as int,
    decreases s.len(),
{
    if idx == s.len() - 1 {
    } else {
        assert(s.last().0 != k);
        lemma_seq_count_found(s.drop_last(), k, idx);
    }
}

/// When no entry carries `k`, the count for `k` is zero.
proof fn lemma_seq_count_absent(s: Seq<(ItemType, u8)>, k: ItemType)
    requires
        forall|j: int| 0 <= j < s.len() ==> s[j].0 != k,
    ensures
        seq_count(s, k) == 0,
    decreases s.len(),
{
    if s.len() > 0 {
        lemma_seq_count_absent(s.drop_last(), k);
    }
}

/// Updating the entry at `idx` in place, keeping its key, rewrites that
/// key's count, leaves every other count alone, and preserves key
/// distinctness and presence.
proof fn lemma_seq_update_same_key(s: Seq<(ItemType, u8)>, idx: int, k: ItemType, v: u8)
    requires
        forall|i: int, j: int| 0 <= i < j < s.len() ==> s[i].0 != s[j].0,
        0 <= idx < s.len(),
        s[idx].0 == k,
    ensures
        seq_count(s.update(idx, (k, v)), k) == v as int,
        forall|k2: ItemType| k2 != k ==> seq_count(s.update(idx, (k, v)), k2) == seq_count(s, k2),
        forall|i: int, j: int|
            0 <= i < j < s.update(idx, (k, v)).len() ==> s.update(idx, (k, v))[i].0 != s.update(
                idx,
                (k, v),
            )[j].0,
        forall|k2: ItemType| seq_has(s.update(idx, (k, v)), k2) == seq_has(s, k2),
    decreases s.len(),
{
    let s2 = s.update(idx, (k, v));
    assert(forall|i: int| 0 <= i < s.len() && i != idx ==> s2[i] == s[i]);
    lemma_seq_count_found(s2, k, idx);
    assert forall|k2: ItemType| k2 != k implies seq_count(s2, k2) == seq_count(s, k2) by {
        lemma_seq_count_other(s, s2, k2);
    }
    assert forall|k2: ItemType| seq_has(s2, k2) == seq_has(s, k2) by {
        if seq_has(s, k2) {
            let w = choose|i: int| 0 <= i < s.len() && s[i].0 == k2;
            if w == idx {
                assert(s2[idx].0 == k2);
            } else {
                assert(s2[w].0 == k2);
            }
        }
        if seq_has(s2, k2) {
            let w = choose|i: int| 0 <= i < s2.len() && s2[i].0 == k2;
            if w == idx {
                assert(s[idx].0 == k2);
            } else {
                assert(s[w].0 == k2);
            }
        }
    }
}

/// Two entry sequences of equal length that agree on every entry carrying
/// kind `k2` (and on which entries carry it) have the same count for `k2`.
proof fn lemma_seq_count_other(s: Seq<(ItemType, u8)>, s2: Seq<(ItemType, u8)>, k2: ItemType)
    requires
        s.len() == s2.len(),
        forall|i: int| 0 <= i < s.len() ==> (s[i].0 == k2 <==> s2[i].0 == k2),
        forall|i: int| 0 <= i < s.len() && s[i].0 == k2 ==> s2[i] == s[i],
    ensures
        seq_count(s2, k2) == seq_count(s, k2),
    decreases s.len(),
{
    if s.len() > 0 {
        assert(forall|i: int| 0 <= i < s.len() - 1 ==> s.drop_last()[i] == s[i]);
        assert(forall|i: int| 0 <= i < s.len() - 1 ==> s2.drop_last()[i] == s2[i]);
        lemma_seq_count_other(s.drop_last(), s2.drop_last(), k2);
    }
}

/// Appending an entry whose key is absent sets that key's count to the new
/// value, leaves every other count alone, and preserves distinctness.
proof fn lemma_seq_push_new_key(s: Seq<(ItemType, u8)>, k: ItemType, v: u8)
    requires
        forall|i: int, j: int| 0 <= i < j < s.len() ==> s[i].0 != s[j].0,
        forall|j: int| 0 <= j < s.len() ==> s[j].0 != k,
    ensures
        seq_count(s.push((k, v)), k) == v as int,
        forall|k2: ItemType| k2 != k ==> seq_count(s.push((k, v)), k2) == seq_count(s, k2),
        forall|i: int, j: int|
            0 <= i < j < s.push((k, v)).len() ==> s.push((k, v))[i].0 != s.push((k, v))[j].0,
        forall|k2: ItemType| seq_has(s.push((k, v)), k2) == (seq_has(s, k2) || k2 == k),
    decreases s.len(),
{
    let s2 = s.push((k, v));
    assert(s2.last() == (k, v));
    assert(s2.drop_last() =~= s);
    assert forall|k2: ItemType| k2 != k implies seq_count(s2, k2) == seq_count(s, k2) by {
        assert(s2.last().0 != k2);
    }
    assert forall|k2: ItemType| seq_has(s2, k2) == (seq_has(s, k2) || k2 == k) by {
        if seq_has(s, k2) {
            let w = choose|i: int| 0 <= i < s.len() && s[i].0 == k2;
            assert(s2[w].0 == k2);
        }
        if k2 == k {
            assert(s2[s.len() as int].0 == k2);
        }
        if seq_has(s2, k2) && k2 != k {
            let w = choose|i: int| 0 <= i < s2.len() && s2[i].0 == k2;
            assert(w < s.len());
            assert(s[w].0 == k2);
        }
    }
}

} // verus!
