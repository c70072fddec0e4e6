use vstd::prelude::*;

use crate::book::{Book, BookModel};
use crate::ident::{is_uuid_v4_text, new_v4_text};
use crate::store::{BookStore, has_id, index_of, after_create, after_update, after_delete};

verus! {

/// Status of a successful read or update.
pub const OK: u16 = 200;

/// Status of a successful create.
pub const CREATED: u16 = 201;

/// Status of a successful delete.
pub const NO_CONTENT: u16 = 204;

/// Status when the requested identifier names no stored record.
pub const NOT_FOUND: u16 = 404;

/// Status when a new record could not be given an identifier of its own.
pub const INTERNAL_ERROR: u16 = 500;

/// The text sent with a not-found reply.
pub open spec fn not_found_text() -> Seq<char> {
    "Book not found"@
}

/// The text sent when a drawn identifier is already in use.
pub open spec fn id_conflict_text() -> Seq<char> {
    "Book id already in use"@
}

/// What a reply carries.
pub enum Body {
    /// Nothing.
    Empty,
    /// Plain text.
    Text(String),
    /// One record.
    One(Book),
    /// A list of records.
    Many(Vec<Book>),
}

impl Body {
    /// The body is the text `t`.
    pub open spec fn is_text(&self, t: Seq<char>) -> bool {
        match self {
            Body::Text(s) => s@ == t,
            _ => false,
        }
    }

    /// The body is one record whose picture is `m`.
    pub open spec fn is_one(&self, m: BookModel) -> bool {
        match self {
            Body::One(b) => b@ == m,
            _ => false,
        }
    }

    /// The body is a list of records whose pictures are `s`, in order.
    pub open spec fn is_many(&self, s: Seq<BookModel>) -> bool {
        match self {
            Body::Many(v) => v@.map_values(|b: Book| b@) == s,
            _ => false,
        }
    }
}

/// A status code and what goes with it.
pub struct Response {
    pub status: u16,
    pub body: Body,
}

/// The reply to a request for an identifier that names no stored record.
pub open spec fn is_not_found(r: Response) -> bool {
    r.status == NOT_FOUND && r.body.is_text(not_found_text())
}

fn not_found() -> (r: Response)
    ensures
        is_not_found(r),
{
    Response { status: NOT_FOUND, body: Body::Text(String::from_str("Book not found")) }
}

/// Lists every stored record, in insertion order.
pub fn get_books(store: &BookStore) -> (r: Response)
    ensures
        r.status == OK,
        r.body.is_many(store@),
{
    Response { status: OK, body: Body::Many(store.list()) }
}

/// Fetches the record named `id`.
pub fn get_book(store: &BookStore, id: &String) -> (r: Response)
    ensures
        has_id(store@, id@) ==> r.status == OK && r.body.is_one(store@[index_of(store@, id@)]),
        !has_id(store@, id@) ==> is_not_found(r),
{
    match store.get(id) {
        Ok(b) => Response { status: OK, body: Body::One(b) },
        Err(_) => not_found(),
    }
}

/// Stores `book` under the identifier `id`, ignoring any identifier the
/// record already carries, and replies with the stored record.
pub fn create_book_with_id(store: &mut BookStore, book: Book, id: String) -> (r: Response)
    requires
        old(store).wf(),
        id@.len() > 0,
    ensures
        final(store).wf(),
        !has_id(old(store)@, id@) ==> {
            &&& r.status == CREATED
            &&& r.body.is_one(book@.stamped(id@))
            &&& final(store)@ == after_create(old(store)@, book@, id@)
        },
        has_id(old(store)@, id@) ==> {
            &&& r.status == INTERNAL_ERROR
            &&& r.body.is_text(id_conflict_text())
            &&& final(store)@ == old(store)@
        },
{
    match store.insert(book, id) {
        Ok(b) => Response { status: CREATED, body: Body::One(b) },
        Err(_) => Response {
            status: INTERNAL_ERROR,
            body: Body::Text(String::from_str("Book id already in use")),
        },
    }
}

/// Stores `book` under a freshly drawn random identifier and replies with the
/// stored record. Should the drawn identifier already be in use, the
/// collection is left as it was.
pub fn create_book(store: &mut BookStore, book: Book) -> (r: Response)
    requires
        old(store).wf(),
    ensures
        final(store).wf(),
        r.status == CREATED || r.status == INTERNAL_ERROR,
        r.status == CREATED ==> exists|id: Seq<char>| {
            &&& is_uuid_v4_text(id)
            &&& !has_id(old(store)@, id)
            &&& r.body.is_one(book@.stamped(id))
            &&& #[trigger] after_create(old(store)@, book@, id) == final(store)@
        },
        r.status == INTERNAL_ERROR ==> {
            &&& r.body.is_text(id_conflict_text())
            &&& final(store)@ == old(store)@
            &&& exists|id: Seq<char>| is_uuid_v4_text(id) && #[trigger] has_id(old(store)@, id)
        },
{
    let id = new_v4_text();
    let ghost g = id@;
    let r = create_book_with_id(store, book, id);
    assert(r.status == CREATED ==> after_create(old(store)@, book@, g) == store@);
    assert(r.status == INTERNAL_ERROR ==> has_id(old(store)@, g));
    r
}

/// Replaces the record named `id` by `book`, stamped with `id` whatever
/// identifier `book` carries, and replies with the stored record.
pub fn update_book(store: &mut BookStore, id: &String, book: Book) -> (r: Response)
    requires
        old(store).wf(),
    ensures
        final(store).wf(),
        final(store)@ == after_update(old(store)@, id@, book@),
        has_id(old(store)@, id@) ==> r.status == OK && r.body.is_one(book@.stamped(id@)),
        !has_id(old(store)@, id@) ==> is_not_found(r),
{
    match store.update(id, book) {
        Ok(b) => Response { status: OK, body: Body::One(b) },
        Err(_) => not_found(),
    }
}

/// Removes the record named `id`; the reply carries nothing.
pub fn delete_book(store: &mut BookStore, id: &String) -> (r: Response)
    requires
        old(store).wf(),
    ensures
        final(store).wf(),
        final(store)@ == after_delete(old(store)@, id@),
        has_id(old(store)@, id@) ==> r.status == NO_CONTENT && r.body is Empty,
        !has_id(old(store)@, id@) ==> is_not_found(r),
{
    match store.remove(id) {
        Ok(()) => Response { status: NO_CONTENT, body: Body::Empty },
        Err(_) => not_found(),
    }
}

} // verus!
