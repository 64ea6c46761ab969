//! Number series: what documents are numbered by.

use crate::text::opt_text;
use vstd::prelude::*;

verus! {

/// A series of document numbers, which starts anew each year.
#[derive(Clone, Copy, Debug)]
pub struct Series {
    pub key: &'static str,
    pub name: &'static str,
    /// What a number looks like: the year and the running number are filled
    /// in.
    pub template: &'static str,
}

/// What a series says: its key, its name and its template.
pub type Numbered = (Seq<char>, Seq<char>, Seq<char>);

impl View for Series {
    type V = (Seq<char>, Seq<char>, Seq<char>);

    open spec fn view(&self) -> (Seq<char>, Seq<char>, Seq<char>) {
        (self.key@, self.name@, self.template@)
    }
}

pub open spec fn all_numbered(list: Seq<Series>) -> Seq<Numbered> {
    list.map_values(|s: Series| s@)
}

impl Series {
    pub fn new(key: &'static str, name: &'static str, template: &'static str) -> (r: Series)
        ensures
            r@ == (key@, name@, template@),
    {
        Series { key, name, template }
    }
}

/// The currency that a tenant is seeded in: its own, or the fallback.
pub open spec fn seeding_currency(own: Option<Seq<char>>, fallback: Seq<char>) -> Seq<char> {
    match own {
        Some(c) => c,
        None => fallback,
    }
}

pub(crate) fn seed_currency(own: &Option<String>, fallback: &str) -> (r: String)
    ensures
        r@ == seeding_currency(opt_text(*own), fallback@),
{
    match own {
        Some(c) => c.clone(),
        None => fallback.to_owned(),
    }
}

} // verus!
