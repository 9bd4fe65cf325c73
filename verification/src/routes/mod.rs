//! Which handler answers a request: by its method, its path and, for the two
//! operations that take one, its body.

use crate::handlers::{add_item, delete_item, get_item, get_items, refuse, update_item};
use crate::handlers::{added, deleted, done, fetched, listed, refused};
use crate::handlers::{Body, BodyView, Reply, ReplyView};
use crate::models::{with_item, Item, ItemView, StoreError, DB};
use vstd::prelude::*;
use vstd::string::*;

verus! {

/// The largest body, in bytes, that is read: 16 KiB.
pub const BODY_LIMIT: u64 = 16384;

/// The method of a request.
#[derive(Clone, Copy, Debug, PartialEq, Eq, Structural)]
pub enum Method {
    Get,
    Post,
    Put,
    Delete,
    /// Any method that no operation uses.
    Other,
}

/// What a path names.
#[derive(Debug)]
pub enum Target {
    /// The whole catalogue: `/item` or `/item/`.
    Collection,
    /// The entry under an identifier: `/item/` and the identifier.
    Member(String),
    /// Nothing that is served.
    Unknown,
}

/// A target as plain values.
pub enum TargetView {
    Collection,
    Member(Seq<char>),
    Unknown,
}

impl View for Target {
    type V = TargetView;

    open spec fn view(&self) -> TargetView {
        match self {
            Target::Collection => TargetView::Collection,
            Target::Member(id) => TargetView::Member(id@),
            Target::Unknown => TargetView::Unknown,
        }
    }
}

/// A request as the dispatcher sees it. `body_len` is the size of the body
/// in bytes as it came in; `body` is the item decoded from it, absent where
/// there was no body or it could not be decoded.
#[derive(Debug)]
pub struct Request {
    pub method: Method,
    pub path: String,
    pub body_len: u64,
    pub body: Option<Item>,
}

/// What was decoded from a body, as plain values.
pub open spec fn decoded(body: Option<Item>) -> Option<ItemView> {
    match body {
        Some(it) => Some(it@),
        None => None,
    }
}

/// A request as plain values.
pub struct RequestView {
    pub method: Method,
    pub path: Seq<char>,
    pub body_len: u64,
    pub body: Option<ItemView>,
}

impl View for Request {
    type V = RequestView;

    open spec fn view(&self) -> RequestView {
        RequestView {
            method: self.method,
            path: self.path@,
            body_len: self.body_len,
            body: decoded(self.body),
        }
    }
}

/// The path of the catalogue.
pub open spec fn items_path() -> Seq<char> {
    seq!['/', 'i', 't', 'e', 'm']
}

/// What `path` names. The catalogue is `/item`, with or without a slash
/// behind it. An entry is `/item/` and then an identifier, which is not
/// empty and holds no slash. Every other path names nothing.
pub open spec fn target_of(path: Seq<char>) -> TargetView {
    if path.len() < 5 || path.subrange(0, 5) != items_path() {
        TargetView::Unknown
    } else if path.len() == 5 {
        TargetView::Collection
    } else if path[5] != '/' {
        TargetView::Unknown
    } else if path.len() == 6 {
        TargetView::Collection
    } else if path.subrange(6, path.len() as int).contains('/') {
        TargetView::Unknown
    } else {
        TargetView::Member(path.subrange(6, path.len() as int))
    }
}

/// The item that a body gives, or `MalformedInput` where the body is over
/// the limit or gave no item.
pub open spec fn body_of(body_len: u64, body: Option<ItemView>) -> Result<ItemView, StoreError> {
    if body_len > BODY_LIMIT || body is None {
        Err(StoreError::MalformedInput)
    } else {
        Ok(body->0)
    }
}

/// Whether the body of a request is read at all: only a create or a replace
/// takes one, and only one within the limit is decoded.
pub open spec fn body_is_read(method: Method, body_len: u64) -> bool {
    (method == Method::Post || method == Method::Put) && body_len <= BODY_LIMIT
}

/// `reply` and `next` answer `req` on `table`. The identifier drawn for a
/// new entry and the order of a listing are left open; everything else is
/// fixed. A path that names nothing gets 404, and a method that the named
/// target does not offer gets 405.
pub open spec fn answers(
    table: Map<Seq<char>, ItemView>,
    req: RequestView,
    reply: ReplyView,
    next: Map<Seq<char>, ItemView>,
) -> bool {
    match target_of(req.path) {
        TargetView::Unknown => reply == refused(StoreError::NotFound) && next == table,
        TargetView::Collection => match req.method {
            Method::Get => listed(table, reply) && next == table,
            Method::Post => match body_of(req.body_len, req.body) {
                Ok(item) => added(table, item, reply, next),
                Err(e) => reply == refused(e) && next == table,
            },
            _ => reply == not_allowed() && next == table,
        },
        TargetView::Member(id) => match req.method {
            Method::Get => reply == fetched(table, id) && next == table,
            Method::Delete => reply == deleted(table, id) && next == table.remove(id),
            Method::Put => match body_of(req.body_len, req.body) {
                Ok(item) => reply == done() && next == with_item(table, id, item),
                Err(e) => reply == refused(e) && next == table,
            },
            _ => reply == not_allowed() && next == table,
        },
    }
}

/// Status 405 and nothing else.
pub open spec fn not_allowed() -> ReplyView {
    ReplyView { status: 405, body: BodyView::Empty }
}

/// Reads what `path` names.
pub fn parse_path(path: &str) -> (r: Target)
    ensures
        r@ == target_of(path@),
{
    let n = path.unicode_len();
    if n < 5 {
        return Target::Unknown;
    }
    if path.get_char(0) != '/' || path.get_char(1) != 'i' || path.get_char(2) != 't'
        || path.get_char(3) != 'e' || path.get_char(4) != 'm' {
        proof {
            let head = path@.subrange(0, 5);
            assert(head[0] == path@[0] && head[1] == path@[1] && head[2] == path@[2] && head[3]
                == path@[3] && head[4] == path@[4]);
        }
        return Target::Unknown;
    }
    assert(path@.subrange(0, 5) =~= items_path());
    if n == 5 {
        return Target::Collection;
    }
    if path.get_char(5) != '/' {
        return Target::Unknown;
    }
    if n == 6 {
        return Target::Collection;
    }
    let ghost rest = path@.subrange(6, n as int);
    let mut i: usize = 6;
    while i < n
        invariant
            6 <= i <= n,
            n == path@.len(),
            rest == path@.subrange(6, n as int),
            forall|j: int| 0 <= j < i - 6 ==> rest[j] != '/',
        decreases n - i,
    {
        if path.get_char(i) == '/' {
            assert(rest[i - 6] == '/');
            return Target::Unknown;
        }
        i += 1;
    }
    Target::Member(path.substring_char(6, n).to_owned())
}

/// Says whether to decode the body of a request, before anything is decoded.
pub fn reads_body(method: Method, body_len: u64) -> (r: bool)
    ensures
        r == body_is_read(method, body_len),
{
    let takes = match method {
        Method::Post => true,
        Method::Put => true,
        _ => false,
    };
    takes && body_len <= BODY_LIMIT
}

/// Takes the item out of a body: one that is within the limit and was
/// decoded.
pub fn json_body(body_len: u64, body: Option<Item>) -> (r: Result<Item, StoreError>)
    ensures
        match r {
            Ok(item) => body_of(body_len, decoded(body)) == Ok::<ItemView, StoreError>(item@),
            Err(e) => body_of(body_len, decoded(body)) == Err::<ItemView, StoreError>(e),
        },
{
    if body_len > BODY_LIMIT {
        return Err(StoreError::MalformedInput);
    }
    match body {
        None => Err(StoreError::MalformedInput),
        Some(item) => Ok(item),
    }
}

/// Status 405 and an empty body.
fn refuse_method() -> (r: Reply)
    ensures
        r@ == not_allowed(),
{
    Reply { status: 405, body: Body::Empty }
}

/// Answers one request on the store.
pub fn item_routes<D: DB>(db: &mut D, req: Request) -> (r: Reply)
    requires
        old(db).wf(),
    ensures
        final(db).wf(),
        answers(old(db).table(), req@, r@, final(db).table()),
{
    let Request { method, path, body_len, body } = req;
    match parse_path(path.as_str()) {
        Target::Unknown => refuse(StoreError::NotFound),
        Target::Collection => match method {
            Method::Get => get_items(db),
            Method::Post => match json_body(body_len, body) {
                Ok(item) => add_item(db, item),
                Err(e) => refuse(e),
            },
            _ => refuse_method(),
        },
        Target::Member(id) => match method {
            Method::Get => get_item(id, db),
            Method::Delete => delete_item(id, db),
            Method::Put => match json_body(body_len, body) {
                Ok(item) => update_item(id, db, item),
                Err(e) => refuse(e),
            },
            _ => refuse_method(),
        },
    }
}

} // verus!
