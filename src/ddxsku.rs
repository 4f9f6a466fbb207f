//! The ddxsku site: its catalogue of categories and novels, and the links
//! of its category pages.

use vstd::prelude::*;

use crate::catalog::{entity_links, find_name, first_id_named, last_link, model_links, link_of_id, page_only, rendered_page_link, upsert_outcome, upserted_rows, SortCatalog, SortModel, Upsert};
use crate::ids::IdGenerator;
use crate::novels::{NovelModel, NovelTable};
use crate::spider::{CrawlError, NovelID, Sort, SortID, SpiderMetadata, Support};

verus! {

/// The site's address, which identifies the adapter.
pub const DATA_URL: &'static str = "http://www.ddxsku.com";

/// A category as scraped from the site: its name and its link template,
/// which holds a `{{page}}` placeholder.
#[derive(Debug, Clone)]
pub struct SortEntity {
    pub name: String,
    pub link: String,
}

/// What the crawler keeps of the site: its categories, its novels, and the
/// source of identifiers for new rows.
pub struct DDSpider {
    pub sorts: SortCatalog,
    pub novels: NovelTable,
    pub ids: IdGenerator,
}

impl DDSpider {
    pub open spec fn wf(self) -> bool {
        self.sorts.wf() && self.novels.wf()
    }

    /// An adapter with no categories and no novels yet.
    pub fn new(ids: IdGenerator) -> (r: Self)
        ensures
            r.wf(),
            r.sorts.view_rows().len() == 0,
            r.novels.view_rows().len() == 0,
    {
        DDSpider { sorts: SortCatalog::new(), novels: NovelTable::new(), ids }
    }

    /// Replaces the categories by `data` (see [`SortCatalog::set_sort`]).
    pub fn set_sort(&mut self, data: &Vec<SortEntity>)
        requires
            old(self).wf(),
        ensures
            final(self).wf(),
            final(self).novels == old(self).novels,
            forall|k: int|
                0 <= k < data@.len() ==> find_name(
                    final(self).sorts.view_rows(),
                    (#[trigger] data@[k]).name@,
                ) is Some,
            forall|j: int| #![trigger final(self).sorts.view_rows()[j]]
                0 <= j < final(self).sorts.view_rows().len() && find_name(
                    old(self).sorts.view_rows(),
                    final(self).sorts.view_rows()[j].1,
                ) is Some ==> final(self).sorts.view_rows()[j].0 == old(self).sorts.view_rows()[find_name(
                    old(self).sorts.view_rows(),
                    final(self).sorts.view_rows()[j].1,
                )->0].0,
            forall|j: int| #![trigger final(self).sorts.view_rows()[j]]
                0 <= j < final(self).sorts.view_rows().len() ==> last_link(
                    entity_links(data@),
                    final(self).sorts.view_rows()[j].1,
                ) == Some(final(self).sorts.view_rows()[j].2),
    {
        self.sorts.set_sort(data, &mut self.ids);
    }

    /// Takes the stored categories (see [`SortCatalog::load_sorts`]).
    pub fn load_sorts(&mut self, models: &Vec<SortModel>)
        requires
            old(self).wf(),
        ensures
            final(self).wf(),
            final(self).novels == old(self).novels,
            forall|k: int|
                0 <= k < models@.len() ==> find_name(
                    final(self).sorts.view_rows(),
                    (#[trigger] models@[k]).name@,
                ) is Some,
            forall|j: int| #![trigger final(self).sorts.view_rows()[j]]
                0 <= j < final(self).sorts.view_rows().len() ==> first_id_named(
                    models@,
                    final(self).sorts.view_rows()[j].1,
                ) == Some(final(self).sorts.view_rows()[j].0),
            forall|j: int| #![trigger final(self).sorts.view_rows()[j]]
                0 <= j < final(self).sorts.view_rows().len() ==> last_link(
                    model_links(models@),
                    final(self).sorts.view_rows()[j].1,
                ) == Some(final(self).sorts.view_rows()[j].2),
    {
        self.sorts = SortCatalog::load_sorts(models);
    }

    /// Records one category (see [`SortCatalog::add_or_recover`]).
    pub fn add_or_recover(&mut self, name: &str, link: &str) -> (r: Result<Upsert, CrawlError>)
        requires
            old(self).wf(),
        ensures
            final(self).wf(),
            final(self).novels == old(self).novels,
            find_name(old(self).sorts.view_rows(), name@) is Some ==> r is Ok,
            r is Err ==> r->Err_0 is SpiderInnerFailed && final(self).sorts.view_rows() == old(
                self,
            ).sorts.view_rows(),
            r is Ok ==> {
                let u = r->Ok_0;
                &&& u == upsert_outcome(old(self).sorts.view_rows(), name@, link@, u.spec_id())
                &&& final(self).sorts.view_rows() == upserted_rows(
                    old(self).sorts.view_rows(),
                    name@,
                    link@,
                    u.spec_id(),
                )
                &&& u is Inserted ==> forall|j: int|
                    0 <= j < old(self).sorts.view_rows().len() ==> (#[trigger] old(
                        self,
                    ).sorts.view_rows()[j]).0 != u.spec_id()
            },
    {
        self.sorts.add_or_recover(name, link, &mut self.ids)
    }

    /// The link of page `idx` of category `id` (see
    /// [`SortCatalog::render_sort_link`]).
    pub fn render_sort_link(&self, id: SortID, idx: i32) -> (r: Result<String, CrawlError>)
        ensures
            link_of_id(self.sorts.view_rows(), id.0) is None ==> r == Err::<String, CrawlError>(
                CrawlError::ResourceNotFound,
            ),
            link_of_id(self.sorts.view_rows(), id.0) is Some ==> {
                let t = link_of_id(self.sorts.view_rows(), id.0)->0;
                let rendered = rendered_page_link(t, idx as int);
                &&& r is Err ==> r->Err_0 is SpiderInnerFailed
                &&& !page_only(t) ==> r is Err
                &&& page_only(t) ==> (r is Ok <==> rendered is Some)
                &&& page_only(t) && r is Ok ==> r->Ok_0@ == rendered->0
            },
    {
        self.sorts.render_sort_link(id, idx)
    }

    /// The site's categories.
    pub fn sorts(&self) -> (r: Vec<Sort>)
        ensures
            r@.len() == self.sorts.view_rows().len(),
            forall|i: int|
                0 <= i < r@.len() ==> (#[trigger] r@[i]).id == SortID(self.sorts.view_rows()[i].0)
                    && r@[i].name@ == self.sorts.view_rows()[i].1,
    {
        self.sorts.sorts()
    }

    /// The stored novel `id`, or `ResourceNotFound`.
    pub fn novel_by_id(&self, id: NovelID) -> (r: Result<NovelModel, CrawlError>)
        ensures
            r is Err <==> forall|i: int|
                0 <= i < self.novels.view_rows().len() ==> (#[trigger] self.novels.view_rows()[i]).0
                    != id.0,
            r is Err ==> r->Err_0 is ResourceNotFound,
            r is Ok ==> r->Ok_0.id == id.0,
    {
        match self.novels.novel_by_id(id) {
            Some(m) => Ok(m),
            None => Err(CrawlError::ResourceNotFound),
        }
    }
}

impl SpiderMetadata for DDSpider {
    /// The site lists categories and their novels; it offers no search.
    fn supported() -> (r: Support) {
        Support { get_sort: true, get_novel_from_sort: true, search_novel: false, exact_search_novel: false }
    }

    fn id() -> (r: &'static str) {
        DATA_URL
    }
}

} // verus!
