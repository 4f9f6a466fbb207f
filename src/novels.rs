//! The novels found on a site, kept unique by name and author so that a
//! novel keeps its identifier across crawls.

use vstd::prelude::*;

use crate::catalog::Upsert;
use crate::ids::IdGenerator;
use crate::spider::{CrawlError, NovelID};
use crate::text::text_eq;

verus! {

/// A stored novel: identifier, the site's own identifier, name, author, the
/// link of its page and the link of its table of contents.
#[derive(Debug, Clone)]
pub struct NovelModel {
    pub id: i64,
    pub raw_id: String,
    pub name: String,
    pub author: String,
    pub raw_link: String,
    pub section_link: Option<String>,
}

/// The links of a stored novel: page link, table-of-contents link, and
/// the site's identifier.
pub type NovelLinks = (Seq<char>, Option<Seq<char>>, Seq<char>);

/// A novel row as plain values: identifier, name, author, links.
pub type NovelRow = (i64, Seq<char>, Seq<char>, NovelLinks);

pub open spec fn opt_view(s: Option<String>) -> Option<Seq<char>> {
    match s {
        Some(t) => Some(t@),
        None => None,
    }
}

pub open spec fn novel_row_view(m: NovelModel) -> NovelRow {
    (m.id, m.name@, m.author@, (m.raw_link@, opt_view(m.section_link), m.raw_id@))
}

/// No two rows share a name and an author.
pub open spec fn keys_unique(rows: Seq<NovelRow>) -> bool {
    forall|i: int, j: int|
        0 <= i < rows.len() && 0 <= j < rows.len() && (#[trigger] rows[i]).1 == (
        #[trigger] rows[j]).1 && rows[i].2 == rows[j].2 ==> i == j
}

/// Where the row of `(name, author)` stands, if one does.
pub open spec fn find_key(rows: Seq<NovelRow>, name: Seq<char>, author: Seq<char>) -> Option<int> {
    if exists|i: int| 0 <= i < rows.len() && (#[trigger] rows[i]).1 == name && rows[i].2 == author {
        Some(choose|i: int| 0 <= i < rows.len() && (#[trigger] rows[i]).1 == name && rows[i].2 == author)
    } else {
        None
    }
}

/// The rows after an upsert: the row of `(name, author)` gets the links
/// and keeps its identifier; without one, a row is added under `fresh`.
pub open spec fn upserted_novels(
    rows: Seq<NovelRow>,
    name: Seq<char>,
    author: Seq<char>,
    links: NovelLinks,
    fresh: i64,
) -> Seq<NovelRow> {
    match find_key(rows, name, author) {
        Some(i) => rows.update(i, (rows[i].0, name, author, links)),
        None => rows.push((fresh, name, author, links)),
    }
}

/// What an upsert of a novel reports.
pub open spec fn novel_upsert_outcome(
    rows: Seq<NovelRow>,
    name: Seq<char>,
    author: Seq<char>,
    links: NovelLinks,
    fresh: i64,
) -> Upsert {
    match find_key(rows, name, author) {
        Some(i) => if rows[i].3 == links {
            Upsert::Unchanged(rows[i].0)
        } else {
            Upsert::LinkUpdated(rows[i].0)
        },
        None => Upsert::Inserted(fresh),
    }
}

proof fn lemma_find_key_unique(rows: Seq<NovelRow>, name: Seq<char>, author: Seq<char>, i: int)
    requires
        keys_unique(rows),
        0 <= i < rows.len(),
        rows[i].1 == name,
        rows[i].2 == author,
    ensures
        find_key(rows, name, author) == Some(i),
{
    let j = choose|j: int| 0 <= j < rows.len() && (#[trigger] rows[j]).1 == name && rows[j].2 == author;
    assert(rows[j].1 == rows[i].1 && rows[j].2 == rows[i].2);
}

/// An upsert keeps keys unique and leaves one row for `(name, author)`,
/// holding the links, under the identifier it reports.
pub proof fn lemma_novel_upsert_leaves_one_row(
    rows: Seq<NovelRow>,
    name: Seq<char>,
    author: Seq<char>,
    links: NovelLinks,
    fresh: i64,
)
    requires
        keys_unique(rows),
    ensures
        keys_unique(upserted_novels(rows, name, author, links, fresh)),
        find_key(upserted_novels(rows, name, author, links, fresh), name, author) is Some,
        upserted_novels(rows, name, author, links, fresh)[find_key(
            upserted_novels(rows, name, author, links, fresh),
            name,
            author,
        )->0] == (novel_upsert_outcome(rows, name, author, links, fresh).spec_id(), name, author, links),
{
    let after = upserted_novels(rows, name, author, links, fresh);
    match find_key(rows, name, author) {
        Some(i) => {
            assert forall|a: int, b: int|
                0 <= a < after.len() && 0 <= b < after.len() && (#[trigger] after[a]).1 == (
                #[trigger] after[b]).1 && after[a].2 == after[b].2 implies a == b by {
                if a != i && b != i {
                    assert(rows[a].1 == rows[b].1 && rows[a].2 == rows[b].2);
                } else if a == i && b != i {
                    assert(rows[b].1 == rows[i].1 && rows[b].2 == rows[i].2);
                } else if b == i && a != i {
                    assert(rows[a].1 == rows[i].1 && rows[a].2 == rows[i].2);
                }
            }
            lemma_find_key_unique(after, name, author, i);
        },
        None => {
            assert forall|a: int, b: int|
                0 <= a < after.len() && 0 <= b < after.len() && (#[trigger] after[a]).1 == (
                #[trigger] after[b]).1 && after[a].2 == after[b].2 implies a == b by {
                if a < rows.len() && b == rows.len() {
                    assert(rows[a].1 == name && rows[a].2 == author);
                } else if b < rows.len() && a == rows.len() {
                    assert(rows[b].1 == name && rows[b].2 == author);
                } else if a < rows.len() && b < rows.len() {
                    assert(rows[a].1 == rows[b].1 && rows[a].2 == rows[b].2);
                }
            }
            lemma_find_key_unique(after, name, author, rows.len() as int);
        },
    }
}

/// Recording the same novel (same name and author) twice, as repeated
/// crawls do, reports the same identifier both times, adds no row the
/// second time, and leaves a single row for it.
pub proof fn lemma_novel_upsert_twice_same_id(
    rows: Seq<NovelRow>,
    name: Seq<char>,
    author: Seq<char>,
    links1: NovelLinks,
    links2: NovelLinks,
    fresh1: i64,
    fresh2: i64,
)
    requires
        keys_unique(rows),
    ensures
        ({
            let rows1 = upserted_novels(rows, name, author, links1, fresh1);
            let rows2 = upserted_novels(rows1, name, author, links2, fresh2);
            let u1 = novel_upsert_outcome(rows, name, author, links1, fresh1);
            let u2 = novel_upsert_outcome(rows1, name, author, links2, fresh2);
            &&& u2.spec_id() == u1.spec_id()
            &&& !(u2 is Inserted)
            &&& rows2.len() == rows1.len()
            &&& keys_unique(rows2)
            &&& find_key(rows2, name, author) is Some
            &&& rows2[find_key(rows2, name, author)->0] == (u1.spec_id(), name, author, links2)
        }),
{
    let rows1 = upserted_novels(rows, name, author, links1, fresh1);
    lemma_novel_upsert_leaves_one_row(rows, name, author, links1, fresh1);
    lemma_novel_upsert_leaves_one_row(rows1, name, author, links2, fresh2);
}

/// The identifier of the first model with this name and author, if any.
pub open spec fn first_id_keyed(models: Seq<NovelModel>, name: Seq<char>, author: Seq<char>) -> Option<i64>
    decreases models.len(),
{
    if models.len() == 0 {
        None
    } else if models[0].name@ == name && models[0].author@ == author {
        Some(models[0].id)
    } else {
        first_id_keyed(models.drop_first(), name, author)
    }
}

proof fn lemma_first_keyed_push(models: Seq<NovelModel>, m: NovelModel, name: Seq<char>, author: Seq<char>)
    ensures
        first_id_keyed(models.push(m), name, author) == (if first_id_keyed(models, name, author) is Some {
            first_id_keyed(models, name, author)
        } else if m.name@ == name && m.author@ == author {
            Some(m.id)
        } else {
            None
        }),
    decreases models.len(),
{
    if models.len() > 0 {
        assert(models.push(m)[0] == models[0]);
        assert(models.push(m).drop_first() =~= models.drop_first().push(m));
        lemma_first_keyed_push(models.drop_first(), m, name, author);
    } else {
        assert(models.push(m).drop_first() =~= Seq::<NovelModel>::empty());
        assert(first_id_keyed(Seq::<NovelModel>::empty(), name, author) is None);
        assert(models.push(m)[0] == m);
    }
}

proof fn lemma_first_keyed_found(models: Seq<NovelModel>, name: Seq<char>, author: Seq<char>) -> (k: int)
    requires
        first_id_keyed(models, name, author) is Some,
    ensures
        0 <= k < models.len(),
        models[k].name@ == name,
        models[k].author@ == author,
    decreases models.len(),
{
    if models[0].name@ == name && models[0].author@ == author {
        0
    } else {
        let k = lemma_first_keyed_found(models.drop_first(), name, author);
        k + 1
    }
}

fn opt_text_eq(a: &Option<String>, b: &Option<String>) -> (r: bool)
    ensures
        r == (opt_view(*a) == opt_view(*b)),
{
    match (a, b) {
        (Some(x), Some(y)) => text_eq(x.as_str(), y.as_str()),
        (None, None) => true,
        _ => false,
    }
}

fn opt_clone(a: &Option<String>) -> (r: Option<String>)
    ensures
        opt_view(r) == opt_view(*a),
{
    match a {
        Some(x) => Some(x.clone()),
        None => None,
    }
}

/// The novels of one site.
pub struct NovelTable {
    rows: Vec<NovelModel>,
}

impl NovelTable {
    /// The rows, as plain values, in insertion order.
    pub closed spec fn view_rows(self) -> Seq<NovelRow> {
        self.rows@.map_values(|m: NovelModel| novel_row_view(m))
    }

    /// No two novels share a name and an author.
    pub open spec fn wf(self) -> bool {
        keys_unique(self.view_rows())
    }

    /// Whether some row has identifier `id`.
    fn id_in_use(&self, id: i64) -> (r: bool)
        ensures
            r == exists|j: int| 0 <= j < self.view_rows().len() && (#[trigger] self.view_rows()[j]).0 == id,
    {
        let mut i: usize = 0;
        while i < self.rows.len()
            invariant
                0 <= i <= self.rows@.len(),
                forall|k: int| 0 <= k < i ==> (#[trigger] self.view_rows()[k]).0 != id,
            decreases self.rows@.len() - i,
        {
            assert(self.view_rows()[i as int] == novel_row_view(self.rows@[i as int]));
            if self.rows[i].id == id {
                return true;
            }
            i = i + 1;
        }
        false
    }

    /// An empty table.
    pub fn new() -> (r: Self)
        ensures
            r.wf(),
            r.view_rows() == Seq::<NovelRow>::empty(),
    {
        let r = NovelTable { rows: Vec::new() };
        assert(r.view_rows() =~= Seq::<NovelRow>::empty());
        r
    }

    fn position_of_key(&self, name: &str, author: &str) -> (r: Option<usize>)
        requires
            self.wf(),
        ensures
            r is Some <==> find_key(self.view_rows(), name@, author@) is Some,
            r is Some ==> find_key(self.view_rows(), name@, author@) == Some(r->0 as int),
    {
        let ghost rows = self.view_rows();
        let mut i: usize = 0;
        while i < self.rows.len()
            invariant
                rows == self.view_rows(),
                keys_unique(rows),
                rows.len() == self.rows@.len(),
                0 <= i <= rows.len(),
                forall|k: int| 0 <= k < i ==> !((#[trigger] rows[k]).1 == name@ && rows[k].2 == author@),
            decreases self.rows@.len() - i,
        {
            assert(rows[i as int] == novel_row_view(self.rows@[i as int]));
            if text_eq(self.rows[i].name.as_str(), name) && text_eq(self.rows[i].author.as_str(), author) {
                proof {
                    lemma_find_key_unique(rows, name@, author@, i as int);
                }
                return Some(i);
            }
            i = i + 1;
        }
        None
    }

    /// Records a novel, adding a row under `fresh` when none has its name
    /// and author.
    fn record_novel(
        &mut self,
        name: &str,
        link: &str,
        section_link: &Option<String>,
        author: &str,
        raw_id: &str,
        fresh: i64,
    ) -> (r: Upsert)
        requires
            old(self).wf(),
        ensures
            final(self).wf(),
            r == novel_upsert_outcome(
                old(self).view_rows(),
                name@,
                author@,
                (link@, opt_view(*section_link), raw_id@),
                fresh,
            ),
            final(self).view_rows() == upserted_novels(
                old(self).view_rows(),
                name@,
                author@,
                (link@, opt_view(*section_link), raw_id@),
                fresh,
            ),
    {
        let ghost rows = self.view_rows();
        let ghost links = (link@, opt_view(*section_link), raw_id@);
        match self.position_of_key(name, author) {
            Some(i) => {
                let id = self.rows[i].id;
                assert(rows[i as int] == novel_row_view(self.rows@[i as int]));
                let same = text_eq(self.rows[i].raw_link.as_str(), link) && opt_text_eq(
                    &self.rows[i].section_link,
                    section_link,
                ) && text_eq(self.rows[i].raw_id.as_str(), raw_id);
                if !same {
                    let row = NovelModel {
                        id,
                        raw_id: String::from_str(raw_id),
                        name: self.rows[i].name.clone(),
                        author: self.rows[i].author.clone(),
                        raw_link: String::from_str(link),
                        section_link: opt_clone(section_link),
                    };
                    self.rows.set(i, row);
                    assert(self.view_rows() =~= upserted_novels(rows, name@, author@, links, id));
                    proof {
                        lemma_novel_upsert_leaves_one_row(rows, name@, author@, links, id);
                    }
                    Upsert::LinkUpdated(id)
                } else {
                    assert(self.view_rows() =~= upserted_novels(rows, name@, author@, links, id));
                    Upsert::Unchanged(id)
                }
            },
            None => {
                let id = fresh;
                self.rows.push(
                    NovelModel {
                        id,
                        raw_id: String::from_str(raw_id),
                        name: String::from_str(name),
                        author: String::from_str(author),
                        raw_link: String::from_str(link),
                        section_link: opt_clone(section_link),
                    },
                );
                assert(self.view_rows() =~= upserted_novels(rows, name@, author@, links, id));
                proof {
                    lemma_novel_upsert_leaves_one_row(rows, name@, author@, links, id);
                }
                Upsert::Inserted(id)
            },
        }
    }

    /// Records a novel found while crawling: the row with the same name and
    /// author keeps its identifier and gets the links; without one, a row
    /// is added under a fresh identifier from `ids`. Should the generator
    /// hand out an identifier some row already has, nothing changes and
    /// the upsert fails with `SpiderInnerFailed`.
    pub fn add_or_recover_novel(
        &mut self,
        name: &str,
        link: &str,
        section_link: &Option<String>,
        author: &str,
        raw_id: &str,
        ids: &mut IdGenerator,
    ) -> (r: Result<Upsert, CrawlError>)
        requires
            old(self).wf(),
        ensures
            final(self).wf(),
            find_key(old(self).view_rows(), name@, author@) is Some ==> r is Ok,
            r is Err ==> r->Err_0 is SpiderInnerFailed && final(self).view_rows() == old(self).view_rows(),
            r is Ok ==> {
                let u = r->Ok_0;
                let links = (link@, opt_view(*section_link), raw_id@);
                &&& u == novel_upsert_outcome(old(self).view_rows(), name@, author@, links, u.spec_id())
                &&& final(self).view_rows() == upserted_novels(
                    old(self).view_rows(),
                    name@,
                    author@,
                    links,
                    u.spec_id(),
                )
                &&& u is Inserted ==> forall|j: int|
                    0 <= j < old(self).view_rows().len() ==> (#[trigger] old(self).view_rows()[j]).0 != u.spec_id()
            },
    {
        let fresh = match self.position_of_key(name, author) {
            Some(_) => 0,
            None => {
                let id = ids.generate();
                if self.id_in_use(id) {
                    return Err(CrawlError::SpiderInnerFailed(String::from_str("a fresh identifier is already in use")));
                }
                id
            },
        };
        Ok(self.record_novel(name, link, section_link, author, raw_id, fresh))
    }

    /// A table of stored rows: each name and author once, under the
    /// identifier of its first row, with the links of its last.
    pub fn load_novels(models: &Vec<NovelModel>) -> (r: Self)
        ensures
            r.wf(),
            forall|k: int|
                0 <= k < models@.len() ==> find_key(
                    r.view_rows(),
                    (#[trigger] models@[k]).name@,
                    models@[k].author@,
                ) is Some,
            forall|j: int| #![trigger r.view_rows()[j]]
                0 <= j < r.view_rows().len() ==> first_id_keyed(
                    models@,
                    r.view_rows()[j].1,
                    r.view_rows()[j].2,
                ) == Some(r.view_rows()[j].0),
    {
        let mut t = NovelTable::new();
        let mut i: usize = 0;
        while i < models.len()
            invariant
                t.wf(),
                0 <= i <= models@.len(),
                forall|k: int|
                    0 <= k < i ==> find_key(
                        t.view_rows(),
                        (#[trigger] models@[k]).name@,
                        models@[k].author@,
                    ) is Some,
                forall|j: int| #![trigger t.view_rows()[j]]
                    0 <= j < t.view_rows().len() ==> first_id_keyed(
                        models@.subrange(0, i as int),
                        t.view_rows()[j].1,
                        t.view_rows()[j].2,
                    ) == Some(t.view_rows()[j].0),
            decreases models@.len() - i,
        {
            let ghost before = t.view_rows();
            let ghost prefix = models@.subrange(0, i as int);
            let m = &models[i];
            let ghost links = (m.raw_link@, opt_view(m.section_link), m.raw_id@);
            t.record_novel(
                m.name.as_str(),
                m.raw_link.as_str(),
                &m.section_link,
                m.author.as_str(),
                m.raw_id.as_str(),
                m.id,
            );
            proof {
                let after = t.view_rows();
                lemma_novel_upsert_leaves_one_row(before, m.name@, m.author@, links, m.id);
                assert forall|k: int| 0 <= k < i + 1 implies find_key(
                    after,
                    (#[trigger] models@[k]).name@,
                    models@[k].author@,
                ) is Some by {
                    if k < i {
                        let p = find_key(before, models@[k].name@, models@[k].author@)->0;
                        assert(before[p].1 == models@[k].name@ && before[p].2 == models@[k].author@);
                        assert(after[p].1 == before[p].1 && after[p].2 == before[p].2);
                        lemma_find_key_unique(after, models@[k].name@, models@[k].author@, p);
                    }
                }
                let next = models@.subrange(0, i + 1);
                assert(next =~= prefix.push(*m));
                assert forall|j: int| #![trigger after[j]] 0 <= j < after.len() implies first_id_keyed(
                    next,
                    after[j].1,
                    after[j].2,
                ) == Some(after[j].0) by {
                    lemma_first_keyed_push(prefix, *m, after[j].1, after[j].2);
                    if j < before.len() {
                        assert(after[j].0 == before[j].0 && after[j].1 == before[j].1 && after[j].2
                            == before[j].2);
                        assert(first_id_keyed(prefix, before[j].1, before[j].2) == Some(before[j].0));
                    } else {
                        assert(find_key(before, m.name@, m.author@) is None);
                        assert(after[j] == (m.id, m.name@, m.author@, links));
                        if first_id_keyed(prefix, m.name@, m.author@) is Some {
                            let k = lemma_first_keyed_found(prefix, m.name@, m.author@);
                            assert(models@[k] == prefix[k]);
                            assert(find_key(before, models@[k].name@, models@[k].author@) is Some);
                        }
                    }
                }
            }
            i = i + 1;
        }
        assert(models@.subrange(0, models@.len() as int) =~= models@);
        t
    }

    /// The stored novel with identifier `id`, if there is one.
    pub fn novel_by_id(&self, id: NovelID) -> (r: Option<NovelModel>)
        ensures
            r is None ==> forall|i: int|
                0 <= i < self.view_rows().len() ==> (#[trigger] self.view_rows()[i]).0 != id.0,
            r is Some ==> exists|i: int|
                0 <= i < self.view_rows().len() && #[trigger] self.view_rows()[i] == novel_row_view(
                    r->0,
                ) && r->0.id == id.0,
    {
        let mut i: usize = 0;
        while i < self.rows.len()
            invariant
                0 <= i <= self.rows@.len(),
                forall|k: int| 0 <= k < i ==> (#[trigger] self.view_rows()[k]).0 != id.0,
            decreases self.rows@.len() - i,
        {
            assert(self.view_rows()[i as int] == novel_row_view(self.rows@[i as int]));
            if self.rows[i].id == id.0 {
                let m = &self.rows[i];
                let r = NovelModel {
                    id: m.id,
                    raw_id: m.raw_id.clone(),
                    name: m.name.clone(),
                    author: m.author.clone(),
                    raw_link: m.raw_link.clone(),
                    section_link: opt_clone(&m.section_link),
                };
                assert(self.view_rows()[i as int] == novel_row_view(r));
                return Some(r);
            }
            i = i + 1;
        }
        None
    }
}

} // verus!
