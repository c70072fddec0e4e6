use vstd::prelude::*;

verus! {

/// The mathematical picture of a book record: each text field as a sequence
/// of characters.
pub ghost struct BookModel {
    pub id: Option<Seq<char>>,
    pub title: Seq<char>,
    pub author: Seq<char>,
    pub published_date: Option<Seq<char>>,
    pub cover_image_url: Seq<char>,
}

/// The characters of an optional text field.
pub open spec fn opt_text(o: Option<String>) -> Option<Seq<char>> {
    match o {
        Some(s) => Some(s@),
        None => None,
    }
}

impl BookModel {
    /// The same record carrying `id` as its identifier.
    pub open spec fn stamped(self, id: Seq<char>) -> BookModel {
        BookModel { id: Some(id), ..self }
    }
}

/// A bibliographic record. `id` is assigned by the store; whatever a caller
/// puts there is overwritten when the record is stored.
pub struct Book {
    pub id: Option<String>,
    pub title: String,
    pub author: String,
    pub published_date: Option<String>,
    pub cover_image_url: String,
}

impl View for Book {
    type V = BookModel;

    open spec fn view(&self) -> BookModel {
        BookModel {
            id: opt_text(self.id),
            title: self.title@,
            author: self.author@,
            published_date: opt_text(self.published_date),
            cover_image_url: self.cover_image_url@,
        }
    }
}

fn copy_opt_text(o: &Option<String>) -> (r: Option<String>)
    ensures
        opt_text(r) == opt_text(*o),
{
    match o {
        Some(s) => Some(s.clone()),
        None => None,
    }
}

impl Clone for Book {
    fn clone(&self) -> (r: Self)
        ensures
            r@ == self@,
    {
        Book {
            id: copy_opt_text(&self.id),
            title: self.title.clone(),
            author: self.author.clone(),
            published_date: copy_opt_text(&self.published_date),
            cover_image_url: self.cover_image_url.clone(),
        }
    }
}

impl Book {
    /// A record with no identifier yet, as a client submits it.
    pub fn new(
        title: String,
        author: String,
        published_date: Option<String>,
        cover_image_url: String,
    ) -> (r: Book)
        ensures
            r@ == (BookModel {
                id: None,
                title: title@,
                author: author@,
                published_date: opt_text(published_date),
                cover_image_url: cover_image_url@,
            }),
    {
        Book { id: None, title, author, published_date, cover_image_url }
    }

    /// Replaces the identifier with `id`, keeping every other field.
    pub fn stamp(&mut self, id: String)
        ensures
            final(self)@ == old(self)@.stamped(id@),
    {
        self.id = Some(id);
    }
}

} // verus!
