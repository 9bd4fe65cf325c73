//! One handler for each operation: it calls the store and turns the outcome
//! into a status code and a body.

use crate::models::{can_add, is_uuid_text, lists, lookup, may_refuse, status_of, stored};
use crate::models::{views_of, with_item};
use crate::models::{Item, ItemView, StoreError, DB};
use vstd::prelude::*;

verus! {

/// What a reply carries.
#[derive(Debug)]
pub enum Body {
    /// Nothing.
    Empty,
    /// One item.
    One(Item),
    /// A run of items.
    Many(Vec<Item>),
}

/// A body as plain values.
pub enum BodyView {
    Empty,
    One(ItemView),
    Many(Seq<ItemView>),
}

impl View for Body {
    type V = BodyView;

    open spec fn view(&self) -> BodyView {
        match self {
            Body::Empty => BodyView::Empty,
            Body::One(it) => BodyView::One(it@),
            Body::Many(its) => BodyView::Many(views_of(its@)),
        }
    }
}

/// The answer to a request: a status code and a body.
#[derive(Debug)]
pub struct Reply {
    pub status: u16,
    pub body: Body,
}

/// A reply as plain values.
pub struct ReplyView {
    pub status: u16,
    pub body: BodyView,
}

impl View for Reply {
    type V = ReplyView;

    open spec fn view(&self) -> ReplyView {
        ReplyView { status: self.status, body: self.body@ }
    }
}

/// Status 200 and nothing else.
pub open spec fn done() -> ReplyView {
    ReplyView { status: 200, body: BodyView::Empty }
}

/// The status of the failure and nothing else.
pub open spec fn refused(e: StoreError) -> ReplyView {
    ReplyView { status: status_of(e), body: BodyView::Empty }
}

/// `reply` is status 200 with every entry of `table`, in some order.
pub open spec fn listed(table: Map<Seq<char>, ItemView>, reply: ReplyView) -> bool {
    &&& reply.status == 200
    &&& reply.body is Many
    &&& lists(table, reply.body->Many_0)
}

/// The reply to a fetch of `id`: status 200 with the entry, or 404.
pub open spec fn fetched(table: Map<Seq<char>, ItemView>, id: Seq<char>) -> ReplyView {
    match lookup(table, id) {
        Ok(it) => ReplyView { status: 200, body: BodyView::One(it) },
        Err(e) => refused(e),
    }
}

/// The reply to a removal of `id`: status 200 where there was an entry, 404
/// where there was none.
pub open spec fn deleted(table: Map<Seq<char>, ItemView>, id: Seq<char>) -> ReplyView {
    if table.contains_key(id) {
        done()
    } else {
        refused(StoreError::NotFound)
    }
}

/// `reply` and `next` are an outcome of creating `item` in `table`: either
/// status 200 with the item as stored under an identifier of the generated
/// shape that was free, and the table with that entry more; or status 400
/// and the table as it was. An item that carries an identifier has only the
/// second. One that carries none has only the first, unless an entry stands
/// under an identifier of the generated shape.
pub open spec fn added(
    table: Map<Seq<char>, ItemView>,
    item: ItemView,
    reply: ReplyView,
    next: Map<Seq<char>, ItemView>,
) -> bool {
    match reply.body {
        BodyView::One(s) => {
            &&& reply.status == 200
            &&& s.uuid is Some
            &&& is_uuid_text(s.uuid->0)
            &&& can_add(table, s.uuid->0, item)
            &&& s == stored(s.uuid->0, item)
            &&& next == with_item(table, s.uuid->0, item)
        },
        _ => {
            &&& reply == refused(StoreError::AlreadyAssigned)
            &&& next == table
            &&& may_refuse(table, item)
        },
    }
}

/// Answers a failure with its status and an empty body.
pub fn refuse(e: StoreError) -> (r: Reply)
    ensures
        r@ == refused(e),
{
    Reply { status: e.status(), body: Body::Empty }
}

/// Lists every entry of the store.
pub fn get_items<D: DB>(db: &D) -> (r: Reply)
    requires
        db.wf(),
    ensures
        listed(db.table(), r@),
{
    Reply { status: 200, body: Body::Many(db.get_items()) }
}

/// Fetches the entry under `uuid`.
pub fn get_item<D: DB>(uuid: String, db: &D) -> (r: Reply)
    requires
        db.wf(),
    ensures
        r@ == fetched(db.table(), uuid@),
{
    match db.get_item(uuid) {
        Err(e) => refuse(e),
        Ok(it) => Reply { status: 200, body: Body::One(it.clone()) },
    }
}

/// Removes the entry under `uuid`.
pub fn delete_item<D: DB>(uuid: String, db: &mut D) -> (r: Reply)
    requires
        old(db).wf(),
    ensures
        final(db).wf(),
        r@ == deleted(old(db).table(), uuid@),
        final(db).table() == old(db).table().remove(uuid@),
{
    match db.delete_item(uuid) {
        Err(e) => refuse(e),
        Ok(_) => Reply { status: 200, body: Body::Empty },
    }
}

/// Creates an entry for `item` under a fresh identifier.
pub fn add_item<D: DB>(db: &mut D, item: Item) -> (r: Reply)
    requires
        old(db).wf(),
    ensures
        final(db).wf(),
        added(old(db).table(), item@, r@, final(db).table()),
        item@.uuid is Some ==> r@ == refused(StoreError::AlreadyAssigned),
{
    match db.add_item(item) {
        Err(e) => refuse(e),
        Ok(kept) => Reply { status: 200, body: Body::One(kept) },
    }
}

/// Puts `item` under `uuid`, whether or not an entry stood there.
pub fn update_item<D: DB>(uuid: String, db: &mut D, item: Item) -> (r: Reply)
    requires
        old(db).wf(),
    ensures
        final(db).wf(),
        r@ == done(),
        final(db).table() == with_item(old(db).table(), uuid@, item@),
{
    match db.update_item(uuid, item) {
        Err(e) => refuse(e),
        Ok(_) => Reply { status: 200, body: Body::Empty },
    }
}

} // verus!
