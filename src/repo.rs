//! The storage interface for the categories of every site, for stores that
//! keep categories of several sites side by side.

use vstd::prelude::*;

use crate::spider::{Sort, SortID};

verus! {

/// Which stored categories to list.
#[derive(Debug, Copy, Clone)]
pub struct ListOpt<'a> {
    /// Only categories last updated before this time (seconds since the
    /// epoch).
    pub updated_at_less_than: Option<i64>,
    /// Only the categories of this site.
    pub relation_spider_id: Option<&'a str>,
}

/// A store of the categories of several sites.
pub trait SortRepo {
    /// Replaces the categories of site `id` by `sorts`.
    fn add_or_recover(&mut self, id: &str, sorts: Vec<&Sort>) -> Result<(), String>;

    /// The categories of site `id` that `opts` selects.
    fn list(&self, id: &str, opts: ListOpt<'_>) -> Result<Vec<SortID>, String>;
}

} // verus!
