use vstd::prelude::*;
use crate::location::Location;

verus! {

/// The mathematical value of a highlight record.
pub ghost struct SpecHighlight {
    pub book: Seq<char>,
    pub author: Seq<char>,
    pub quote: Seq<char>,
    pub page: Option<i32>,
    pub location: Location,
    pub date_added: i64,
}

/// One highlight record assembled from a block: the book and author from
/// the header line, the quote body, and the page, location markers and
/// normalized timestamp from the metadata line.
#[derive(Debug, PartialEq)]
pub struct Highlight {
    pub book: String,
    pub author: String,
    pub quote: String,
    pub page: Option<i32>,
    pub location: Location,
    pub date_added: i64,
}

impl View for Highlight {
    type V = SpecHighlight;

    open spec fn view(&self) -> SpecHighlight {
        SpecHighlight {
            book: self.book@,
            author: self.author@,
            quote: self.quote@,
            page: self.page,
            location: self.location,
            date_added: self.date_added,
        }
    }
}

impl DeepView for Highlight {
    type V = SpecHighlight;

    open spec fn deep_view(&self) -> SpecHighlight {
        self.view()
    }
}

} // verus!
