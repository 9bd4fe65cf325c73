//! The store kept in memory: a run of items, no two under one identifier.

use crate::models::laws::carries_keys;
use crate::models::{can_add, is_uuid_text, new_uuid_text, stored, views_of, with_item};
use crate::models::{Item, ItemView, StoreError, DB};
use vstd::prelude::*;

verus! {

/// Some entry of `entries` carries the identifier `k`.
pub open spec fn holds_key(entries: Seq<ItemView>, k: Seq<char>) -> bool {
    exists|i: int| 0 <= i < entries.len() && (#[trigger] entries[i]).uuid == Some(k)
}

/// A place in `entries` whose entry carries `k`, where there is one.
pub open spec fn place_of(entries: Seq<ItemView>, k: Seq<char>) -> int {
    choose|i: int| 0 <= i < entries.len() && (#[trigger] entries[i]).uuid == Some(k)
}

/// Every entry carries an identifier, and no two carry the same.
pub open spec fn keyed(entries: Seq<ItemView>) -> bool {
    &&& forall|i: int| 0 <= i < entries.len() ==> (#[trigger] entries[i]).uuid is Some
    &&& forall|i: int, j: int|
        0 <= i < j < entries.len() ==> (#[trigger] entries[i]).uuid != (#[trigger] entries[j]).uuid
}

/// The entries by the identifier each carries.
pub open spec fn table_of(entries: Seq<ItemView>) -> Map<Seq<char>, ItemView> {
    Map::new(|k: Seq<char>| holds_key(entries, k), |k: Seq<char>| entries[place_of(entries, k)])
}

/// In a keyed run the table gives each entry back under its own identifier.
pub proof fn lemma_entry(entries: Seq<ItemView>, i: int)
    requires
        keyed(entries),
        0 <= i < entries.len(),
    ensures
        entries[i].uuid is Some,
        holds_key(entries, entries[i].uuid->0),
        table_of(entries).contains_key(entries[i].uuid->0),
        table_of(entries)[entries[i].uuid->0] == entries[i],
{
    let k = entries[i].uuid->0;
    assert(entries[i].uuid == Some(k));
    let j = place_of(entries, k);
    assert(0 <= j < entries.len() && entries[j].uuid == Some(k));
    if j < i {
        assert(entries[j].uuid != entries[i].uuid);
    }
    if i < j {
        assert(entries[i].uuid != entries[j].uuid);
    }
}

/// Every key of the table is carried by the entry at its place.
pub proof fn lemma_place(entries: Seq<ItemView>, k: Seq<char>)
    requires
        holds_key(entries, k),
    ensures
        0 <= place_of(entries, k) < entries.len(),
        entries[place_of(entries, k)].uuid == Some(k),
        table_of(entries)[k] == entries[place_of(entries, k)],
{
}

/// Appending an entry under a free identifier inserts it into the table.
pub proof fn lemma_push(entries: Seq<ItemView>, v: ItemView)
    requires
        keyed(entries),
        v.uuid is Some,
        !holds_key(entries, v.uuid->0),
    ensures
        keyed(entries.push(v)),
        table_of(entries.push(v)) == table_of(entries).insert(v.uuid->0, v),
{
    let e2 = entries.push(v);
    let id = v.uuid->0;
    let n = entries.len() as int;
    assert forall|i: int| 0 <= i < n implies (#[trigger] e2[i]) == entries[i] && entries[i].uuid
        != Some(id) by {
        assert(entries[i].uuid is Some);
    }
    assert(e2[n] == v);
    assert(keyed(e2));
    let want = table_of(entries).insert(id, v);
    assert forall|k: Seq<char>| table_of(e2).contains_key(k) <==> want.contains_key(k) by {
        if holds_key(e2, k) {
            let i = place_of(e2, k);
            if i < n {
                assert(entries[i].uuid == Some(k));
            }
        }
        if holds_key(entries, k) {
            let i = place_of(entries, k);
            assert(e2[i].uuid == Some(k));
        }
        if k == id {
            assert(e2[n].uuid == Some(k));
        }
    }
    assert forall|k: Seq<char>| table_of(e2).contains_key(k) implies table_of(e2)[k] == want[k] by {
        let i = place_of(e2, k);
        lemma_place(e2, k);
        if i < n {
            assert(entries[i].uuid == Some(k));
            lemma_entry(entries, i);
        }
    }
    assert(table_of(e2) =~= want);
}

/// Replacing an entry by one with the same identifier replaces it in the table.
pub proof fn lemma_update(entries: Seq<ItemView>, p: int, v: ItemView)
    requires
        keyed(entries),
        0 <= p < entries.len(),
        v.uuid == entries[p].uuid,
    ensures
        keyed(entries.update(p, v)),
        table_of(entries.update(p, v)) == table_of(entries).insert(v.uuid->0, v),
{
    let e2 = entries.update(p, v);
    let id = v.uuid->0;
    assert(entries[p].uuid is Some);
    assert forall|i: int| 0 <= i < entries.len() implies (#[trigger] e2[i]).uuid
        == entries[i].uuid by {}
    assert forall|i: int, j: int| 0 <= i < j < e2.len() implies (#[trigger] e2[i]).uuid != (
    #[trigger] e2[j]).uuid by {
        assert(entries[i].uuid != entries[j].uuid);
    }
    assert forall|i: int| 0 <= i < e2.len() implies (#[trigger] e2[i]).uuid is Some by {
        assert(entries[i].uuid is Some);
    }
    assert(keyed(e2));
    let want = table_of(entries).insert(id, v);
    lemma_entry(entries, p);
    assert forall|k: Seq<char>| table_of(e2).contains_key(k) <==> want.contains_key(k) by {
        if holds_key(e2, k) {
            let i = place_of(e2, k);
            assert(entries[i].uuid == Some(k));
        }
        if holds_key(entries, k) {
            let i = place_of(entries, k);
            assert(e2[i].uuid == Some(k));
        }
    }
    assert forall|k: Seq<char>| table_of(e2).contains_key(k) implies table_of(e2)[k] == want[k] by {
        let i = place_of(e2, k);
        lemma_place(e2, k);
        assert(entries[i].uuid == Some(k));
        lemma_entry(entries, i);
        if i == p {
            assert(k == id);
        } else {
            lemma_entry(e2, p);
            if i < p {
                assert(entries[i].uuid != entries[p].uuid);
            } else {
                assert(entries[p].uuid != entries[i].uuid);
            }
        }
    }
    assert(table_of(e2) =~= want);
}

/// Taking an entry out takes its identifier out of the table.
pub proof fn lemma_remove(entries: Seq<ItemView>, p: int)
    requires
        keyed(entries),
        0 <= p < entries.len(),
    ensures
        keyed(entries.remove(p)),
        table_of(entries.remove(p)) == table_of(entries).remove(entries[p].uuid->0),
{
    let e2 = entries.remove(p);
    let id = entries[p].uuid->0;
    assert forall|i: int| 0 <= i < e2.len() implies (#[trigger] e2[i]) == entries[if i < p {
        i
    } else {
        i + 1
    }] by {}
    assert forall|i: int| 0 <= i < e2.len() implies (#[trigger] e2[i]).uuid is Some && e2[i].uuid
        != Some(id) by {
        let s = if i < p {
            i
        } else {
            i + 1
        };
        assert(entries[s].uuid is Some);
        if s < p {
            assert(entries[s].uuid != entries[p].uuid);
        } else {
            assert(entries[p].uuid != entries[s].uuid);
        }
    }
    assert forall|i: int, j: int| 0 <= i < j < e2.len() implies (#[trigger] e2[i]).uuid != (
    #[trigger] e2[j]).uuid by {
        let si = if i < p {
            i
        } else {
            i + 1
        };
        let sj = if j < p {
            j
        } else {
            j + 1
        };
        assert(entries[si].uuid != entries[sj].uuid);
    }
    assert(keyed(e2));
    let want = table_of(entries).remove(id);
    assert forall|k: Seq<char>| table_of(e2).contains_key(k) <==> want.contains_key(k) by {
        if holds_key(e2, k) {
            let i = place_of(e2, k);
            let s = if i < p {
                i
            } else {
                i + 1
            };
            assert(entries[s].uuid == Some(k));
        }
        if holds_key(entries, k) && k != id {
            let s = place_of(entries, k);
            let i = if s < p {
                s
            } else {
                s - 1
            };
            assert(e2[i] == entries[s]);
            assert(e2[i].uuid == Some(k));
        }
    }
    assert forall|k: Seq<char>| table_of(e2).contains_key(k) implies table_of(e2)[k] == want[k] by {
        let i = place_of(e2, k);
        lemma_place(e2, k);
        let s = if i < p {
            i
        } else {
            i + 1
        };
        assert(entries[s].uuid == Some(k));
        lemma_entry(entries, s);
    }
    assert(table_of(e2) =~= want);
}

/// A keyed run has as many entries as its table has keys.
pub proof fn lemma_len(entries: Seq<ItemView>)
    requires
        keyed(entries),
    ensures
        table_of(entries).dom().finite(),
        table_of(entries).dom().len() == entries.len(),
    decreases entries.len(),
{
    if entries.len() == 0 {
        assert(table_of(entries).dom() =~= Set::<Seq<char>>::empty());
    } else {
        let prev = entries.drop_last();
        let v = entries.last();
        assert forall|i: int| 0 <= i < prev.len() implies (#[trigger] prev[i]) == entries[i] by {}
        assert forall|i: int| 0 <= i < prev.len() implies (#[trigger] prev[i]).uuid is Some
            && prev[i].uuid != v.uuid by {
            assert(entries[i].uuid is Some);
            assert(entries[i].uuid != entries[entries.len() - 1].uuid);
        }
        assert forall|i: int, j: int| 0 <= i < j < prev.len() implies (#[trigger] prev[i]).uuid != (
        #[trigger] prev[j]).uuid by {
            assert(entries[i].uuid != entries[j].uuid);
        }
        assert(keyed(prev));
        assert(v.uuid is Some);
        if holds_key(prev, v.uuid->0) {
            let i = place_of(prev, v.uuid->0);
            assert(prev[i].uuid != v.uuid);
        }
        lemma_len(prev);
        assert(prev.push(v) =~= entries);
        lemma_push(prev, v);
        assert(table_of(entries).dom() =~= table_of(prev).dom().insert(v.uuid->0));
    }
}

/// The store. Its entries are kept in the order in which they came in; what
/// it means is the table of those entries by identifier.
pub struct Database {
    item_table: Vec<Item>,
}

impl View for Database {
    type V = Map<Seq<char>, ItemView>;

    closed spec fn view(&self) -> Map<Seq<char>, ItemView> {
        table_of(views_of(self.item_table@))
    }
}

impl Database {
    /// Every entry carries an identifier, and no two carry the same.
    pub closed spec fn well_formed(&self) -> bool {
        keyed(views_of(self.item_table@))
    }

    /// A store with no entry.
    pub fn new() -> (r: Database)
        ensures
            r.well_formed(),
            r@ == Map::<Seq<char>, ItemView>::empty(),
    {
        let r = Database { item_table: Vec::new() };
        assert(r@ =~= Map::<Seq<char>, ItemView>::empty());
        r
    }

    /// The number of entries.
    pub fn len(&self) -> (r: usize)
        requires
            self.well_formed(),
        ensures
            self@.dom().finite(),
            r == self@.dom().len(),
    {
        proof {
            lemma_len(views_of(self.item_table@));
        }
        self.item_table.len()
    }

    /// Every entry of a store carries the identifier it stands under.
    pub proof fn lemma_carries_keys(&self)
        requires
            self.well_formed(),
        ensures
            carries_keys(self@),
    {
        let entries = views_of(self.item_table@);
        assert forall|k: Seq<char>| self@.contains_key(k) implies (#[trigger] self@[k]).uuid
            == Some(k) by {
            lemma_place(entries, k);
        }
    }

    /// Where the entry under `uuid` stands, if there is one.
    fn position(&self, uuid: &String) -> (r: Option<usize>)
        ensures
            match r {
                Some(p) => p < self.item_table.len() && views_of(self.item_table@)[p as int].uuid
                    == Some(uuid@),
                None => !holds_key(views_of(self.item_table@), uuid@),
            },
    {
        let mut i: usize = 0;
        while i < self.item_table.len()
            invariant
                i <= self.item_table.len(),
                forall|j: int|
                    0 <= j < i ==> (#[trigger] views_of(self.item_table@)[j]).uuid != Some(uuid@),
            decreases self.item_table.len() - i,
        {
            let hit = match &self.item_table[i].uuid {
                Some(s) => *s == *uuid,
                None => false,
            };
            if hit {
                return Some(i);
            }
            i += 1;
        }
        None
    }

    /// Whether an entry stands under `uuid`.
    pub fn contains(&self, uuid: &String) -> (r: bool)
        ensures
            r == self@.contains_key(uuid@),
    {
        self.position(uuid).is_some()
    }

    /// Takes `item` in under `uuid`, an identifier drawn by the caller, and
    /// returns it as stored. Fails with `AlreadyAssigned`, and changes
    /// nothing, where `item` carries an identifier or `uuid` is in use.
    pub fn place_item(&mut self, uuid: String, item: Item) -> (r: Result<Item, StoreError>)
        requires
            old(self).well_formed(),
        ensures
            final(self).well_formed(),
            match r {
                Ok(s) => {
                    &&& can_add(old(self)@, uuid@, item@)
                    &&& s@ == stored(uuid@, item@)
                    &&& final(self)@ == with_item(old(self)@, uuid@, item@)
                },
                Err(e) => {
                    &&& !can_add(old(self)@, uuid@, item@)
                    &&& e == StoreError::AlreadyAssigned
                    &&& final(self)@ == old(self)@
                },
            },
    {
        if item.uuid.is_some() {
            return Err(StoreError::AlreadyAssigned);
        }
        if self.position(&uuid).is_some() {
            return Err(StoreError::AlreadyAssigned);
        }
        let kept = item.with_uuid(uuid);
        let back = kept.clone();
        proof {
            lemma_push(views_of(self.item_table@), kept@);
            assert(views_of(self.item_table@.push(kept)) =~= views_of(self.item_table@).push(
                kept@,
            ));
        }
        self.item_table.push(kept);
        Ok(back)
    }
}

impl DB for Database {
    open spec fn wf(&self) -> bool {
        self.well_formed()
    }

    open spec fn table(&self) -> Map<Seq<char>, ItemView> {
        self@
    }

    fn get_items(&self) -> (r: Vec<Item>) {
        let mut out: Vec<Item> = Vec::new();
        let mut i: usize = 0;
        while i < self.item_table.len()
            invariant
                i <= self.item_table.len(),
                out@.len() == i,
                forall|j: int| 0 <= j < i ==> (#[trigger] out@[j])@ == self.item_table@[j]@,
            decreases self.item_table.len() - i,
        {
            out.push(self.item_table[i].clone());
            i += 1;
        }
        proof {
            let entries = views_of(self.item_table@);
            assert(views_of(out@) =~= entries);
            lemma_len(entries);
            assert forall|j: int| 0 <= j < entries.len() implies (#[trigger] entries[j]).uuid is Some
                && self@.contains_key(entries[j].uuid->0) && self@[entries[j].uuid->0]
                == entries[j] by {
                lemma_entry(entries, j);
            }
        }
        out
    }

    fn add_item(&mut self, item: Item) -> (r: Result<Item, StoreError>) {
        if item.uuid.is_some() {
            return Err(StoreError::AlreadyAssigned);
        }
        let uuid = new_uuid_text();
        let r = self.place_item(uuid, item);
        proof {
            if r is Err {
                assert(is_uuid_text(uuid@) && old(self).table().contains_key(uuid@));
            }
        }
        r
    }

    fn get_item(&self, uuid: String) -> (r: Result<&Item, StoreError>) {
        match self.position(&uuid) {
            None => Err(StoreError::NotFound),
            Some(p) => {
                proof {
                    lemma_entry(views_of(self.item_table@), p as int);
                }
                Ok(&self.item_table[p])
            },
        }
    }

    fn delete_item(&mut self, uuid: String) -> (r: Result<(), StoreError>) {
        match self.position(&uuid) {
            None => {
                assert(self@.remove(uuid@) =~= self@);
                Err(StoreError::NotFound)
            },
            Some(p) => {
                proof {
                    lemma_entry(views_of(self.item_table@), p as int);
                    lemma_remove(views_of(self.item_table@), p as int);
                    assert(views_of(self.item_table@.remove(p as int)) =~= views_of(
                        self.item_table@,
                    ).remove(p as int));
                }
                self.item_table.remove(p);
                Ok(())
            },
        }
    }

    fn update_item(&mut self, uuid: String, item: Item) -> (r: Result<(), StoreError>) {
        let found = self.position(&uuid);
        let kept = item.with_uuid(uuid);
        match found {
            None => {
                proof {
                    lemma_push(views_of(self.item_table@), kept@);
                    assert(views_of(self.item_table@.push(kept)) =~= views_of(
                        self.item_table@,
                    ).push(kept@));
                }
                self.item_table.push(kept);
            },
            Some(p) => {
                proof {
                    lemma_update(views_of(self.item_table@), p as int, kept@);
                    assert(views_of(self.item_table@.update(p as int, kept)) =~= views_of(
                        self.item_table@,
                    ).update(p as int, kept@));
                }
                self.item_table.set(p, kept);
            },
        }
        Ok(())
    }
}

/// The table that holds the first `n` of `seeds`, each under the identifier
/// at the same place in `ids`.
pub open spec fn seeded_with(ids: Seq<Seq<char>>, seeds: Seq<ItemView>, n: nat) -> Map<
    Seq<char>,
    ItemView,
>
    decreases n,
{
    if n == 0 || n > ids.len() || n > seeds.len() {
        Map::empty()
    } else {
        with_item(seeded_with(ids, seeds, (n - 1) as nat), ids[n - 1], seeds[n - 1])
    }
}

/// Identifiers as a store draws them: each of the generated shape, no two
/// the same.
pub open spec fn fresh_ids(ids: Seq<Seq<char>>) -> bool {
    &&& ids.no_duplicates()
    &&& forall|i: int| 0 <= i < ids.len() ==> is_uuid_text(#[trigger] ids[i])
}

/// `table` holds exactly `seeds`, each under an identifier of its own.
pub open spec fn seeded(table: Map<Seq<char>, ItemView>, seeds: Seq<ItemView>) -> bool {
    exists|ids: Seq<Seq<char>>|
        ids.len() == seeds.len() && fresh_ids(ids) && table == #[trigger] seeded_with(
            ids,
            seeds,
            seeds.len(),
        )
}

/// A seeded table looks at no identifier beyond the seeds it holds.
proof fn lemma_seeded_prefix(ids: Seq<Seq<char>>, id: Seq<char>, seeds: Seq<ItemView>, n: nat)
    requires
        n <= ids.len(),
        n <= seeds.len(),
    ensures
        seeded_with(ids.push(id), seeds, n) == seeded_with(ids, seeds, n),
    decreases n,
{
    if n > 0 {
        lemma_seeded_prefix(ids, id, seeds, (n - 1) as nat);
        assert(ids.push(id)[n - 1] == ids[n - 1]);
    }
}

/// A table seeded with identifiers of which no two are the same has one entry
/// for each seed: the seed as stored under the identifier at its place.
pub proof fn lemma_seeded_with(ids: Seq<Seq<char>>, seeds: Seq<ItemView>, n: nat)
    requires
        n <= ids.len(),
        n <= seeds.len(),
        ids.no_duplicates(),
    ensures
        seeded_with(ids, seeds, n).dom().finite(),
        seeded_with(ids, seeds, n).dom().len() == n,
        forall|i: int|
            0 <= i < n ==> seeded_with(ids, seeds, n).contains_key(#[trigger] ids[i])
                && seeded_with(ids, seeds, n)[ids[i]] == stored(ids[i], seeds[i]),
        forall|k: Seq<char>| #[trigger]
            seeded_with(ids, seeds, n).contains_key(k) ==> exists|i: int|
                0 <= i < n && ids[i] == k,
    decreases n,
{
    if n > 0 {
        let prev = seeded_with(ids, seeds, (n - 1) as nat);
        lemma_seeded_with(ids, seeds, (n - 1) as nat);
        let id = ids[n - 1];
        if prev.contains_key(id) {
            let i = choose|i: int| 0 <= i < n - 1 && ids[i] == id;
            assert(ids[i] != ids[n - 1]);
        }
        let now = seeded_with(ids, seeds, n);
        assert(now == prev.insert(id, stored(id, seeds[n - 1])));
        assert forall|i: int| 0 <= i < n implies now.contains_key(#[trigger] ids[i]) && now[ids[i]]
            == stored(ids[i], seeds[i]) by {
            if i < n - 1 {
                assert(ids[i] != ids[n - 1]);
            }
        }
        assert forall|k: Seq<char>| #[trigger] now.contains_key(k) implies exists|i: int|
            0 <= i < n && ids[i] == k by {
            if k == id {
                assert(ids[n - 1] == k);
            } else {
                let i = choose|i: int| 0 <= i < n - 1 && ids[i] == k;
                assert(0 <= i < n && ids[i] == k);
            }
        }
    } else {
        assert(seeded_with(ids, seeds, n).dom() =~= Set::<Seq<char>>::empty());
    }
}

/// A seeded table has as many entries as there are seeds, and each of its
/// entries is one of the seeds as stored.
pub proof fn lemma_seeded(table: Map<Seq<char>, ItemView>, seeds: Seq<ItemView>)
    requires
        seeded(table, seeds),
    ensures
        table.dom().finite(),
        table.dom().len() == seeds.len(),
        forall|k: Seq<char>| #[trigger]
            table.contains_key(k) ==> is_uuid_text(k) && exists|i: int|
                0 <= i < seeds.len() && table[k] == stored(k, seeds[i]),
{
    let ids = choose|ids: Seq<Seq<char>>|
        ids.len() == seeds.len() && fresh_ids(ids) && table == #[trigger] seeded_with(
            ids,
            seeds,
            seeds.len(),
        );
    lemma_seeded_with(ids, seeds, seeds.len());
    assert forall|k: Seq<char>| #[trigger] table.contains_key(k) implies is_uuid_text(k)
        && exists|i: int| 0 <= i < seeds.len() && table[k] == stored(k, seeds[i]) by {
        let i = choose|i: int| 0 <= i < seeds.len() && ids[i] == k;
        assert(table[ids[i]] == stored(ids[i], seeds[i]));
    }
}

/// A store that holds the seed items, each under a freshly drawn identifier,
/// or an empty store where there is no seed. Fails with `AlreadyAssigned`
/// where a seed item carries an identifier, or where an identifier drawn for
/// one is in use, which takes a seed before it: one seed without an
/// identifier is always taken in.
pub fn init_db(seed: Option<Vec<Item>>) -> (r: Result<Database, StoreError>)
    ensures
        seed is None ==> r is Ok,
        seed is Some && (exists|i: int|
            0 <= i < seed->0@.len() && (#[trigger] seed->0@[i])@.uuid is Some) ==> r is Err,
        r is Err ==> seed is Some && ((exists|i: int|
            0 <= i < seed->0@.len() && (#[trigger] seed->0@[i])@.uuid is Some) || seed->0@.len()
            >= 2),
        match r {
            Ok(db) => {
                &&& db.well_formed()
                &&& match seed {
                    None => db@ == Map::<Seq<char>, ItemView>::empty(),
                    Some(s) => {
                        &&& seeded(db@, views_of(s@))
                        &&& forall|i: int| 0 <= i < s@.len() ==> (#[trigger] s@[i])@.uuid is None
                    },
                }
            },
            Err(e) => e == StoreError::AlreadyAssigned,
        },
{
    let mut db = Database::new();
    match seed {
        None => Ok(db),
        Some(s) => {
            let ghost seeds = views_of(s@);
            let ghost mut ids: Seq<Seq<char>> = Seq::empty();
            let mut i: usize = 0;
            while i < s.len()
                invariant
                    i <= s.len(),
                    seeds == views_of(s@),
                    db.well_formed(),
                    ids.len() == i,
                    fresh_ids(ids),
                    db@ == seeded_with(ids, seeds, i as nat),
                    seed == Some(s),
                    forall|k: Seq<char>| #[trigger] db@.contains_key(k) ==> ids.contains(k),
                    forall|k: Seq<char>| #[trigger] ids.contains(k) ==> db@.contains_key(k),
                    forall|j: int| 0 <= j < i ==> (#[trigger] s@[j])@.uuid is None,
                decreases s.len() - i,
            {
                let item = s[i].clone();
                let ghost before = db@;
                match db.add_item(item) {
                    Err(e) => {
                        proof {
                            if i == 0 {
                                assert(before =~= Map::<Seq<char>, ItemView>::empty());
                                assert(s@[0]@.uuid is Some);
                            }
                        }
                        return Err(e);
                    },
                    Ok(kept) => {
                        proof {
                            let id = kept@.uuid->0;
                            assert(seeds[i as int] == s@[i as int]@);
                            lemma_seeded_prefix(ids, id, seeds, i as nat);
                            let ids2 = ids.push(id);
                            assert(ids2[i as int] == id);
                            assert forall|k: Seq<char>|
                                db@.contains_key(k) <==> ids2.contains(k) by {
                                if ids2.contains(k) {
                                    let j = choose|j: int| 0 <= j < ids2.len() && ids2[j] == k;
                                    if j < i {
                                        assert(ids[j] == k);
                                        assert(ids.contains(k));
                                    }
                                }
                                if before.contains_key(k) {
                                    let j = choose|j: int| 0 <= j < ids.len() && ids[j] == k;
                                    assert(ids2[j] == k);
                                }
                                if k == id {
                                    assert(ids2[i as int] == k);
                                }
                            }
                            assert forall|a: int, b: int|
                                0 <= a < ids2.len() && 0 <= b < ids2.len() && a != b implies ids2[a]
                                != ids2[b] by {
                                if a < i && b < i {
                                    assert(ids[a] != ids[b]);
                                } else if a < i {
                                    assert(ids.contains(ids[a]));
                                } else if b < i {
                                    assert(ids.contains(ids[b]));
                                }
                            }
                            ids = ids2;
                        }
                    },
                }
                i += 1;
            }
            assert(seeded(db@, seeds));
            Ok(db)
        },
    }
}

} // verus!
