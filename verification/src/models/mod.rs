//! The catalogue record, the failures of the store, and the contract that
//! every store meets.

use vstd::prelude::*;

pub mod inmemdb;
pub mod laws;

verus! {

/// Why a store operation or a request was turned down.
#[derive(Clone, Copy, Debug, PartialEq, Eq, Structural)]
pub enum StoreError {
    /// No live entry has the identifier asked for.
    NotFound,
    /// The item already carries an identifier, or the identifier meant for it
    /// belongs to a live entry.
    AlreadyAssigned,
    /// A request body is over the size limit or could not be decoded.
    MalformedInput,
}

/// The text that goes with `AlreadyAssigned`.
pub open spec fn already_assigned_text() -> Seq<char> {
    "UUID is already set"@
}

/// The text that goes with `NotFound`.
pub open spec fn not_found_text() -> Seq<char> {
    "Could not get item"@
}

/// The text that goes with `MalformedInput`.
pub open spec fn malformed_input_text() -> Seq<char> {
    "Could not read item"@
}

/// The text of each failure.
pub open spec fn message_of(e: StoreError) -> Seq<char> {
    match e {
        StoreError::NotFound => not_found_text(),
        StoreError::AlreadyAssigned => already_assigned_text(),
        StoreError::MalformedInput => malformed_input_text(),
    }
}

/// The status code that reports each failure: 404 for a missing entry, 400
/// for anything wrong with what the client sent.
pub open spec fn status_of(e: StoreError) -> u16 {
    match e {
        StoreError::NotFound => 404,
        StoreError::AlreadyAssigned => 400,
        StoreError::MalformedInput => 400,
    }
}

impl StoreError {
    /// A short description of the failure.
    pub fn message(&self) -> (r: &'static str)
        ensures
            r@ == message_of(*self),
    {
        match self {
            StoreError::NotFound => "Could not get item",
            StoreError::AlreadyAssigned => "UUID is already set",
            StoreError::MalformedInput => "Could not read item",
        }
    }

    /// The status code that reports the failure.
    pub fn status(&self) -> (r: u16)
        ensures
            r == status_of(*self),
    {
        match self {
            StoreError::NotFound => 404,
            StoreError::AlreadyAssigned => 400,
            StoreError::MalformedInput => 400,
        }
    }
}

/// What an item is, as plain values.
pub struct ItemView {
    pub uuid: Option<Seq<char>>,
    pub title: Seq<char>,
    pub artist: Seq<char>,
    pub format: Seq<char>,
    pub year: u16,
}

/// One record of the catalogue. `uuid` is absent until a store takes the
/// item in.
#[derive(Debug)]
pub struct Item {
    pub uuid: Option<String>,
    pub title: String,
    pub artist: String,
    pub format: String,
    pub year: u16,
}

impl View for Item {
    type V = ItemView;

    open spec fn view(&self) -> ItemView {
        ItemView {
            uuid: match self.uuid {
                Some(s) => Some(s@),
                None => None,
            },
            title: self.title@,
            artist: self.artist@,
            format: self.format@,
            year: self.year,
        }
    }
}

impl Clone for Item {
    fn clone(&self) -> (r: Self)
        ensures
            r@ == self@,
    {
        let uuid = match &self.uuid {
            Some(s) => Some(s.clone()),
            None => None,
        };
        Item {
            uuid,
            title: self.title.clone(),
            artist: self.artist.clone(),
            format: self.format.clone(),
            year: self.year,
        }
    }
}

impl Default for Item {
    fn default() -> (r: Self)
        ensures
            r@ == (ItemView {
                uuid: None,
                title: Seq::<char>::empty(),
                artist: Seq::<char>::empty(),
                format: Seq::<char>::empty(),
                year: 0,
            }),
    {
        Item {
            uuid: None,
            title: String::new(),
            artist: String::new(),
            format: String::new(),
            year: 0,
        }
    }
}

/// A digit of lower-case hexadecimal.
pub open spec fn is_lower_hex(c: char) -> bool {
    ('0' <= c && c <= '9') || ('a' <= c && c <= 'f')
}

/// The places of the four hyphens in an identifier.
pub open spec fn is_hyphen_place(i: int) -> bool {
    i == 8 || i == 13 || i == 18 || i == 23
}

/// The shape of a generated identifier: 36 characters, hyphens after the
/// 8th, 12th, 16th and 20th digit, lower-case hexadecimal digits elsewhere.
/// The 13th digit is the version, 4, and the 17th holds the variant in its
/// two high bits, which makes it 8, 9, a or b.
pub open spec fn is_uuid_text(s: Seq<char>) -> bool {
    &&& s.len() == 36
    &&& forall|i: int|
        0 <= i < 36 ==> if is_hyphen_place(i) {
            #[trigger] s[i] == '-'
        } else {
            is_lower_hex(s[i])
        }
    &&& s[14] == '4'
    &&& (s[19] == '8' || s[19] == '9' || s[19] == 'a' || s[19] == 'b')
}

/// Draws a random identifier with `uuid::Uuid::new_v4` and writes it out with
/// the `to_string` that `uuid` gives it. Nothing is proved here. The contract
/// claims only what is the same for every draw: the hyphenated lower-case
/// form of 36 characters, with the version and variant digits that `new_v4`
/// sets. It claims nothing of which identifier comes, so none is known to
/// differ from another. `new_v4` does not return where the operating system
/// hands out no random bytes.
#[verifier::external_body]
pub(crate) fn new_uuid_text() -> (r: String)
    ensures
        is_uuid_text(r@),
{
    uuid::Uuid::new_v4().to_string()
}

/// The item as a store holds it under `id`: it carries `id`, and every other
/// field is as given.
pub open spec fn stored(id: Seq<char>, item: ItemView) -> ItemView {
    ItemView { uuid: Some(id), ..item }
}

impl Item {
    /// Gives the item a freshly drawn identifier and returns it. An item that
    /// has one already keeps it, and the call fails with `AlreadyAssigned`.
    pub fn add_uuid(&mut self) -> (r: Result<String, StoreError>)
        ensures
            match r {
                Ok(id) => {
                    &&& old(self)@.uuid is None
                    &&& is_uuid_text(id@)
                    &&& final(self)@ == stored(id@, old(self)@)
                },
                Err(e) => {
                    &&& old(self)@.uuid is Some
                    &&& e == StoreError::AlreadyAssigned
                    &&& *final(self) == *old(self)
                },
            },
    {
        match &self.uuid {
            None => {
                let id = new_uuid_text();
                self.uuid = Some(id.clone());
                Ok(id)
            },
            Some(_) => Err(StoreError::AlreadyAssigned),
        }
    }

    /// An item without an identifier.
    pub fn new(title: String, artist: String, format: String, year: u16) -> (r: Item)
        ensures
            r@ == (ItemView {
                uuid: None,
                title: title@,
                artist: artist@,
                format: format@,
                year: year,
            }),
    {
        Item { uuid: None, title, artist, format, year }
    }

    /// A copy of the item that carries `id`, whatever it carried before.
    pub fn with_uuid(self, id: String) -> (r: Item)
        ensures
            r@ == stored(id@, self@),
    {
        Item {
            uuid: Some(id),
            title: self.title,
            artist: self.artist,
            format: self.format,
            year: self.year,
        }
    }
}

/// The views of a run of items, in the same order.
pub open spec fn views_of(items: Seq<Item>) -> Seq<ItemView> {
    items.map_values(|it: Item| it@)
}

/// `items` lists `table`: each entry once, under its own identifier, in any
/// order.
pub open spec fn lists(table: Map<Seq<char>, ItemView>, items: Seq<ItemView>) -> bool {
    &&& table.dom().finite()
    &&& items.len() == table.dom().len()
    &&& forall|i: int|
        0 <= i < items.len() ==> (#[trigger] items[i]).uuid is Some && table.contains_key(
            items[i].uuid->0,
        ) && table[items[i].uuid->0] == items[i]
    &&& forall|i: int, j: int|
        0 <= i < j < items.len() ==> (#[trigger] items[i]).uuid != (#[trigger] items[j]).uuid
}

/// What a lookup of `id` in `table` gives.
pub open spec fn lookup(table: Map<Seq<char>, ItemView>, id: Seq<char>) -> Result<
    ItemView,
    StoreError,
> {
    if table.contains_key(id) {
        Ok(table[id])
    } else {
        Err(StoreError::NotFound)
    }
}

/// Whether `item` can enter `table` under `id`: it carries no identifier and
/// `id` is free.
pub open spec fn can_add(table: Map<Seq<char>, ItemView>, id: Seq<char>, item: ItemView) -> bool {
    item.uuid is None && !table.contains_key(id)
}

/// Whether a store that holds `table` may turn `item` down: the item carries
/// an identifier, or some entry stands under an identifier of the generated
/// shape, which a draw could hit. Where neither holds the item is taken in.
pub open spec fn may_refuse(table: Map<Seq<char>, ItemView>, item: ItemView) -> bool {
    item.uuid is Some || exists|k: Seq<char>| is_uuid_text(k) && #[trigger] table.contains_key(k)
}

/// `table` with `item` stored under `id`.
pub open spec fn with_item(table: Map<Seq<char>, ItemView>, id: Seq<char>, item: ItemView) -> Map<
    Seq<char>,
    ItemView,
> {
    table.insert(id, stored(id, item))
}

/// A store of items by identifier. `table` is what the store holds; every
/// entry of it carries the identifier it is stored under.
pub trait DB {
    /// The store's own invariant.
    spec fn wf(&self) -> bool;

    /// The entries, by identifier.
    spec fn table(&self) -> Map<Seq<char>, ItemView>;

    /// Every entry, in no particular order.
    fn get_items(&self) -> (r: Vec<Item>)
        requires
            self.wf(),
        ensures
            lists(self.table(), views_of(r@)),
    ;

    /// Takes `item` in under a freshly drawn identifier and returns it as
    /// stored. An item that carries an identifier is turned down. So is one
    /// whose drawn identifier is in use, which leaves the store as it was;
    /// that can only be where an entry stands under an identifier of the
    /// generated shape, so never in an empty store.
    fn add_item(&mut self, item: Item) -> (r: Result<Item, StoreError>)
        requires
            old(self).wf(),
        ensures
            final(self).wf(),
            item@.uuid is Some ==> r is Err,
            r is Err ==> may_refuse(old(self).table(), item@),
            match r {
                Ok(s) => {
                    &&& s@.uuid is Some
                    &&& is_uuid_text(s@.uuid->0)
                    &&& can_add(old(self).table(), s@.uuid->0, item@)
                    &&& s@ == stored(s@.uuid->0, item@)
                    &&& final(self).table() == with_item(old(self).table(), s@.uuid->0, item@)
                },
                Err(e) => e == StoreError::AlreadyAssigned && final(self).table() == old(
                    self,
                ).table(),
            },
    ;

    /// The entry under `uuid`, or `NotFound`.
    fn get_item(&self, uuid: String) -> (r: Result<&Item, StoreError>)
        requires
            self.wf(),
        ensures
            match r {
                Ok(it) => lookup(self.table(), uuid@) == Ok::<ItemView, StoreError>(it@),
                Err(e) => lookup(self.table(), uuid@) == Err::<ItemView, StoreError>(e),
            },
    ;

    /// Removes the entry under `uuid` for good, or fails with `NotFound` and
    /// changes nothing.
    fn delete_item(&mut self, uuid: String) -> (r: Result<(), StoreError>)
        requires
            old(self).wf(),
        ensures
            final(self).wf(),
            r is Ok <==> old(self).table().contains_key(uuid@),
            r is Err ==> r == Err::<(), StoreError>(StoreError::NotFound),
            final(self).table() == old(self).table().remove(uuid@),
    ;

    /// Stores `item` under `uuid`, in place of the entry there or as a new
    /// entry. Whatever identifier `item` carries is ignored. Never fails.
    fn update_item(&mut self, uuid: String, item: Item) -> (r: Result<(), StoreError>)
        requires
            old(self).wf(),
        ensures
            final(self).wf(),
            r is Ok,
            final(self).table() == with_item(old(self).table(), uuid@, item@),
    ;
}

} // verus!
