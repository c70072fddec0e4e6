use vstd::prelude::*;

use crate::book::{Book, BookModel};

verus! {

/// `s` holds a record whose identifier is `id`.
pub open spec fn has_id(s: Seq<BookModel>, id: Seq<char>) -> bool {
    exists|i: int| 0 <= i < s.len() && #[trigger] s[i].id == Some(id)
}

/// `i` is the position of the first record of `s` whose identifier is `id`.
pub open spec fn is_first_match(s: Seq<BookModel>, id: Seq<char>, i: int) -> bool {
    &&& 0 <= i < s.len()
    &&& s[i].id == Some(id)
    &&& forall|j: int| 0 <= j < i ==> #[trigger] s[j].id != Some(id)
}

/// The position of the first record of `s` whose identifier is `id`
/// (meaningful only where `has_id(s, id)`).
pub open spec fn index_of(s: Seq<BookModel>, id: Seq<char>) -> int {
    choose|i: int| is_first_match(s, id, i)
}

/// Every record carries a non-empty identifier, and no two carry the same one.
pub open spec fn well_formed(s: Seq<BookModel>) -> bool {
    &&& forall|i: int| 0 <= i < s.len() ==> (#[trigger] s[i].id).is_some() && s[i].id.unwrap().len() > 0
    &&& forall|i: int, j: int|
        0 <= i < s.len() && 0 <= j < s.len() && i != j ==> #[trigger] s[i].id != #[trigger] s[j].id
}

/// The collection after `b` is stored under the fresh identifier `id`.
pub open spec fn after_create(s: Seq<BookModel>, b: BookModel, id: Seq<char>) -> Seq<BookModel> {
    s.push(b.stamped(id))
}

/// The collection after the record named `id` is replaced by `b`, stamped with
/// `id`, in the same position.
pub open spec fn after_update(s: Seq<BookModel>, id: Seq<char>, b: BookModel) -> Seq<BookModel> {
    if has_id(s, id) {
        s.update(index_of(s, id), b.stamped(id))
    } else {
        s
    }
}

/// The collection after the record named `id` is removed, the others keeping
/// their order.
pub open spec fn after_delete(s: Seq<BookModel>, id: Seq<char>) -> Seq<BookModel> {
    if has_id(s, id) {
        s.remove(index_of(s, id))
    } else {
        s
    }
}

/// A first match is the one `index_of` picks.
pub proof fn lemma_first_match_unique(s: Seq<BookModel>, id: Seq<char>, i: int)
    requires
        is_first_match(s, id, i),
    ensures
        has_id(s, id),
        index_of(s, id) == i,
{
    let k = index_of(s, id);
    assert(is_first_match(s, id, k));
    if k < i {
        assert(s[k].id != Some(id));
    } else if i < k {
        assert(s[i].id != Some(id));
    }
}

/// In a well-formed collection, every record named `id` is the first match.
pub proof fn lemma_unique_is_first(s: Seq<BookModel>, id: Seq<char>, i: int)
    requires
        well_formed(s),
        0 <= i < s.len(),
        s[i].id == Some(id),
    ensures
        is_first_match(s, id, i),
        index_of(s, id) == i,
{
    assert forall|j: int| 0 <= j < i implies #[trigger] s[j].id != Some(id) by {
        assert(s[j].id != s[i].id);
    }
    lemma_first_match_unique(s, id, i);
}

/// The record every collection starts with.
pub open spec fn seed_model() -> BookModel {
    BookModel {
        id: Some("1"@),
        title: "The Lord of the Rings"@,
        author: "J.R.R. Tolkien"@,
        published_date: Some("1954-07-29"@),
        cover_image_url: "https://covers.openlibrary.org/b/id/6660100-L.jpg"@,
    }
}

/// Errors of the collection's operations.
pub enum StoreError {
    /// No stored record carries the requested identifier.
    NotFound,
    /// The identifier offered for a new record is already in use.
    DuplicateId,
    /// The identifier offered for a new record is empty.
    EmptyId,
}

/// An ordered collection of book records, each stamped with an identifier
/// unique within the collection.
pub struct BookStore {
    books: Vec<Book>,
}

impl View for BookStore {
    type V = Seq<BookModel>;

    closed spec fn view(&self) -> Seq<BookModel> {
        self.books@.map_values(|b: Book| b@)
    }
}

impl BookStore {
    /// The invariant every operation keeps.
    pub open spec fn wf(&self) -> bool {
        well_formed(self@)
    }

    /// An empty collection.
    pub fn new() -> (r: BookStore)
        ensures
            r@ == Seq::<BookModel>::empty(),
            r.wf(),
    {
        let r = BookStore { books: Vec::new() };
        assert(r@ =~= Seq::<BookModel>::empty());
        r
    }

    /// A collection holding the seed record alone.
    pub fn seeded() -> (r: BookStore)
        ensures
            r@ == seq![seed_model()],
            r.wf(),
    {
        let seed = Book {
            id: Some(String::from_str("1")),
            title: String::from_str("The Lord of the Rings"),
            author: String::from_str("J.R.R. Tolkien"),
            published_date: Some(String::from_str("1954-07-29")),
            cover_image_url: String::from_str("https://covers.openlibrary.org/b/id/6660100-L.jpg"),
        };
        let mut books: Vec<Book> = Vec::new();
        books.push(seed);
        let r = BookStore { books };
        proof {
            reveal_strlit("1");
        }
        assert(r@ =~= seq![seed_model()]);
        r
    }

    /// Number of stored records.
    pub fn len(&self) -> (r: usize)
        ensures
            r == self@.len(),
    {
        self.books.len()
    }

    /// Position of the first record whose identifier is `id`, if any.
    pub fn position(&self, id: &String) -> (r: Option<usize>)
        ensures
            match r {
                Some(i) => is_first_match(self@, id@, i as int),
                None => !has_id(self@, id@),
            },
    {
        let mut i: usize = 0;
        while i < self.books.len()
            invariant
                i <= self.books@.len(),
                self@.len() == self.books@.len(),
                forall|j: int| 0 <= j < i ==> #[trigger] self@[j].id != Some(id@),
            decreases self.books@.len() - i,
        {
            let b = &self.books[i];
            assert(self@[i as int] == b@);
            match &b.id {
                Some(s) => {
                    if *s == *id {
                        return Some(i);
                    }
                },
                None => {},
            }
            i = i + 1;
        }
        None
    }

    /// Every stored record, in insertion order.
    pub fn list(&self) -> (r: Vec<Book>)
        ensures
            r@.map_values(|b: Book| b@) == self@,
    {
        let mut out: Vec<Book> = Vec::new();
        let mut i: usize = 0;
        while i < self.books.len()
            invariant
                i <= self.books@.len(),
                self@.len() == self.books@.len(),
                out@.map_values(|b: Book| b@) =~= self@.subrange(0, i as int),
            decreases self.books@.len() - i,
        {
            let b = self.books[i].clone();
            assert(b@ == self@[i as int]);
            let ghost before = out@;
            out.push(b);
            assert(out@.map_values(|b: Book| b@) =~= before.map_values(|b: Book| b@).push(self@[i as int]));
            assert(self@.subrange(0, i + 1) =~= self@.subrange(0, i as int).push(self@[i as int]));
            i = i + 1;
        }
        assert(self@.subrange(0, self@.len() as int) =~= self@);
        out
    }

    /// The stored record whose identifier is `id`.
    pub fn get(&self, id: &String) -> (r: Result<Book, StoreError>)
        ensures
            r is Ok <==> has_id(self@, id@),
            r matches Ok(b) ==> b@ == self@[index_of(self@, id@)],
            r matches Err(e) ==> e == StoreError::NotFound,
    {
        match self.position(id) {
            Some(i) => {
                proof {
                    lemma_first_match_unique(self@, id@, i as int);
                }
                let b = self.books[i].clone();
                assert(b@ == self@[i as int]);
                Ok(b)
            },
            None => Err(StoreError::NotFound),
        }
    }

    /// Appends `book` under the identifier `id`, which must be non-empty and
    /// not yet in use. Returns the record as stored.
    pub fn insert(&mut self, book: Book, id: String) -> (r: Result<Book, StoreError>)
        requires
            old(self).wf(),
        ensures
            final(self).wf(),
            r is Ok <==> id@.len() > 0 && !has_id(old(self)@, id@),
            r is Ok ==> final(self)@ == after_create(old(self)@, book@, id@),
            r is Err ==> final(self)@ == old(self)@,
            r matches Ok(b) ==> b@ == book@.stamped(id@),
            r matches Err(e) ==> e == (if id@.len() == 0 {
                StoreError::EmptyId
            } else {
                StoreError::DuplicateId
            }),
    {
        if id.as_str().is_empty() {
            return Err(StoreError::EmptyId);
        }
        if self.position(&id).is_some() {
            return Err(StoreError::DuplicateId);
        }
        let mut book = book;
        book.stamp(id);
        let stored = book.clone();
        let ghost before = self.books@;
        self.books.push(book);
        assert(self.books@.map_values(|b: Book| b@) =~= before.map_values(|b: Book| b@).push(stored@));
        assert forall|i: int| 0 <= i < self@.len() - 1 implies #[trigger] self@[i].id != stored@.id by {
            if self@[i].id == stored@.id {
                assert(old(self)@[i].id == Some(id@));
            }
        }
        Ok(stored)
    }

    /// Replaces the record named `id` by `book`, stamped with `id`, in the same
    /// position. Returns the record as stored.
    pub fn update(&mut self, id: &String, book: Book) -> (r: Result<Book, StoreError>)
        requires
            old(self).wf(),
        ensures
            final(self).wf(),
            r is Ok <==> has_id(old(self)@, id@),
            final(self)@ == after_update(old(self)@, id@, book@),
            r matches Ok(b) ==> b@ == book@.stamped(id@),
            r matches Err(e) ==> e == StoreError::NotFound,
    {
        match self.position(id) {
            Some(i) => {
                proof {
                    lemma_first_match_unique(self@, id@, i as int);
                }
                let mut book = book;
                book.stamp(id.clone());
                let stored = book.clone();
                let ghost before = self.books@;
                self.books.set(i, book);
                assert(self.books@.map_values(|b: Book| b@) =~= before.map_values(|b: Book| b@).update(i as int, stored@));
                assert(forall|j: int| 0 <= j < self@.len() ==> #[trigger] self@[j].id == old(self)@[j].id);
                Ok(stored)
            },
            None => Err(StoreError::NotFound),
        }
    }

    /// Removes the record named `id`, the others keeping their order.
    pub fn remove(&mut self, id: &String) -> (r: Result<(), StoreError>)
        requires
            old(self).wf(),
        ensures
            final(self).wf(),
            r is Ok <==> has_id(old(self)@, id@),
            final(self)@ == after_delete(old(self)@, id@),
            r matches Err(e) ==> e == StoreError::NotFound,
    {
        match self.position(id) {
            Some(i) => {
                proof {
                    lemma_first_match_unique(self@, id@, i as int);
                }
                let ghost before = self.books@;
                self.books.remove(i);
                assert(self.books@.map_values(|b: Book| b@) =~= before.map_values(|b: Book| b@).remove(i as int));
                assert(forall|j: int| 0 <= j < self@.len() ==>
                    #[trigger] self@[j] == old(self)@[if j < i { j } else { j + 1 }]);
                Ok(())
            },
            None => Err(StoreError::NotFound),
        }
    }
}

} // verus!
