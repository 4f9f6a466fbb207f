//! The categories of a site, kept unique by name so that a category keeps
//! its identifier when it is scraped again, and the links of their pages.

use vstd::prelude::*;

use crate::ids::IdGenerator;
use crate::ddxsku::SortEntity;
use crate::spider::{CrawlError, Sort, SortID};
use crate::text::{has_at, stands_at, text_eq};

verus! {

/// A stored category: its identifier, its name, and its link template,
/// which holds a `{{page}}` placeholder.
#[derive(Debug, Clone)]
pub struct SortModel {
    pub id: i64,
    pub name: String,
    pub link: String,
}

/// What an upsert did, with the identifier of the row it left.
#[derive(Debug, Copy, Clone, PartialEq, Eq, Structural)]
pub enum Upsert {
    /// No row had the key: a row was added under a new identifier.
    Inserted(i64),
    /// A row had the key and another link: its link was replaced.
    LinkUpdated(i64),
    /// A row had the key and the same link.
    Unchanged(i64),
}

impl Upsert {
    pub open spec fn spec_id(self) -> i64 {
        match self {
            Upsert::Inserted(id) => id,
            Upsert::LinkUpdated(id) => id,
            Upsert::Unchanged(id) => id,
        }
    }

    /// The identifier of the row the upsert left.
    pub fn id(&self) -> (r: i64)
        ensures
            r == self.spec_id(),
    {
        match self {
            Upsert::Inserted(id) => *id,
            Upsert::LinkUpdated(id) => *id,
            Upsert::Unchanged(id) => *id,
        }
    }
}

/// A category row as plain values: identifier, name, link.
pub type SortRow = (i64, Seq<char>, Seq<char>);

pub open spec fn row_view(m: SortModel) -> SortRow {
    (m.id, m.name@, m.link@)
}

/// No two rows share a name.
pub open spec fn names_unique(rows: Seq<SortRow>) -> bool {
    forall|i: int, j: int|
        0 <= i < rows.len() && 0 <= j < rows.len() && #[trigger] rows[i].1 == #[trigger] rows[j].1
            ==> i == j
}

/// Where the row named `name` stands, if one is.
pub open spec fn find_name(rows: Seq<SortRow>, name: Seq<char>) -> Option<int> {
    if exists|i: int| 0 <= i < rows.len() && #[trigger] rows[i].1 == name {
        Some(choose|i: int| 0 <= i < rows.len() && #[trigger] rows[i].1 == name)
    } else {
        None
    }
}

/// The rows after an upsert of `(name, link)`: the row with that name gets
/// the link and keeps its identifier; without one, a row is added under
/// `fresh`.
pub open spec fn upserted_rows(rows: Seq<SortRow>, name: Seq<char>, link: Seq<char>, fresh: i64) -> Seq<
    SortRow,
> {
    match find_name(rows, name) {
        Some(i) => rows.update(i, (rows[i].0, name, link)),
        None => rows.push((fresh, name, link)),
    }
}

/// What an upsert of `(name, link)` reports.
pub open spec fn upsert_outcome(rows: Seq<SortRow>, name: Seq<char>, link: Seq<char>, fresh: i64) -> Upsert {
    match find_name(rows, name) {
        Some(i) => if rows[i].2 == link {
            Upsert::Unchanged(rows[i].0)
        } else {
            Upsert::LinkUpdated(rows[i].0)
        },
        None => Upsert::Inserted(fresh),
    }
}

proof fn lemma_find_name_unique(rows: Seq<SortRow>, name: Seq<char>, i: int)
    requires
        names_unique(rows),
        0 <= i < rows.len(),
        rows[i].1 == name,
    ensures
        find_name(rows, name) == Some(i),
{
    let j = choose|j: int| 0 <= j < rows.len() && #[trigger] rows[j].1 == name;
    assert(rows[j].1 == rows[i].1);
}

/// An upsert keeps names unique and leaves exactly one row named `name`,
/// holding `link`, under the identifier the upsert reports.
pub proof fn lemma_upsert_leaves_one_row(rows: Seq<SortRow>, name: Seq<char>, link: Seq<char>, fresh: i64)
    requires
        names_unique(rows),
    ensures
        names_unique(upserted_rows(rows, name, link, fresh)),
        find_name(upserted_rows(rows, name, link, fresh), name) is Some,
        upserted_rows(rows, name, link, fresh)[find_name(upserted_rows(rows, name, link, fresh), name)->0]
            == (upsert_outcome(rows, name, link, fresh).spec_id(), name, link),
{
    let after = upserted_rows(rows, name, link, fresh);
    match find_name(rows, name) {
        Some(i) => {
            assert forall|a: int, b: int|
                0 <= a < after.len() && 0 <= b < after.len() && #[trigger] after[a].1
                    == #[trigger] after[b].1 implies a == b by {
                if a != i && b != i {
                    assert(rows[a].1 == rows[b].1);
                } else if a == i && b != i {
                    assert(rows[b].1 == rows[i].1);
                } else if b == i && a != i {
                    assert(rows[a].1 == rows[i].1);
                }
            }
            lemma_find_name_unique(after, name, i);
        },
        None => {
            assert forall|a: int, b: int|
                0 <= a < after.len() && 0 <= b < after.len() && #[trigger] after[a].1
                    == #[trigger] after[b].1 implies a == b by {
                if a < rows.len() && b == rows.len() {
                    assert(rows[a].1 == name);
                } else if b < rows.len() && a == rows.len() {
                    assert(rows[b].1 == name);
                } else if a < rows.len() && b < rows.len() {
                    assert(rows[a].1 == rows[b].1);
                }
            }
            lemma_find_name_unique(after, name, rows.len() as int);
        },
    }
}

/// Recording the same category name twice reports the same identifier
/// both times, adds no row the second time, and leaves a single row under
/// that name, holding the second link; the second upsert updates the link
/// exactly when it changed.
pub proof fn lemma_upsert_twice_same_id(
    rows: Seq<SortRow>,
    name: Seq<char>,
    link1: Seq<char>,
    link2: Seq<char>,
    fresh1: i64,
    fresh2: i64,
)
    requires
        names_unique(rows),
    ensures
        ({
            let rows1 = upserted_rows(rows, name, link1, fresh1);
            let rows2 = upserted_rows(rows1, name, link2, fresh2);
            let u1 = upsert_outcome(rows, name, link1, fresh1);
            let u2 = upsert_outcome(rows1, name, link2, fresh2);
            &&& u2.spec_id() == u1.spec_id()
            &&& !(u2 is Inserted)
            &&& (u2 is LinkUpdated <==> link1 != link2)
            &&& rows2.len() == rows1.len()
            &&& names_unique(rows2)
            &&& find_name(rows2, name) is Some
            &&& rows2[find_name(rows2, name)->0] == (u1.spec_id(), name, link2)
        }),
{
    let rows1 = upserted_rows(rows, name, link1, fresh1);
    lemma_upsert_leaves_one_row(rows, name, link1, fresh1);
    lemma_upsert_leaves_one_row(rows1, name, link2, fresh2);
}

/// The link template of the first row with identifier `id`, if any.
pub open spec fn link_of_id(rows: Seq<SortRow>, id: i64) -> Option<Seq<char>>
    decreases rows.len(),
{
    if rows.len() == 0 {
        None
    } else if rows[0].0 == id {
        Some(rows[0].2)
    } else {
        link_of_id(rows.drop_first(), id)
    }
}

/// The placeholder of the page number in a link template.
pub const PAGE_TAG: &'static str = "{{page}}";

/// The same placeholder, with spaces inside the braces.
pub const SPACED_PAGE_TAG: &'static str = "{{ page }}";

/// A link template whose only tera markup is the page placeholder: every
/// brace belongs to a `{{page}}` or `{{ page }}`. Such a template holds no
/// statement, comment, filter or function call, so what tera renders from
/// it depends on the template and the page alone.
pub open spec fn page_only(t: Seq<char>) -> bool
    decreases t.len(),
{
    if t.len() == 0 {
        true
    } else if t.len() >= 8 && stands_at(t, 0, PAGE_TAG@) {
        page_only(t.subrange(8, t.len() as int))
    } else if t.len() >= 10 && stands_at(t, 0, SPACED_PAGE_TAG@) {
        page_only(t.subrange(10, t.len() as int))
    } else if t[0] == '{' || t[0] == '}' {
        false
    } else {
        page_only(t.drop_first())
    }
}

/// Whether a link template's only markup is the page placeholder.
pub fn is_page_template(t: &str) -> (r: bool)
    ensures
        r == page_only(t@),
{
    proof {
        reveal_strlit("{{page}}");
        reveal_strlit("{{ page }}");
    }
    let n = t.unicode_len();
    let mut i: usize = 0;
    assert(t@.subrange(0, n as int) =~= t@);
    while i < n
        invariant
            n == t@.len(),
            0 <= i <= n,
            PAGE_TAG@.len() == 8,
            SPACED_PAGE_TAG@.len() == 10,
            page_only(t@) == page_only(t@.subrange(i as int, n as int)),
        decreases n - i,
    {
        let ghost rest = t@.subrange(i as int, n as int);
        if has_at(t, n, i, PAGE_TAG) {
            assert(stands_at(rest, 0, PAGE_TAG@)) by {
                assert(rest.subrange(0, 8) =~= t@.subrange(i as int, i + 8));
            }
            assert(rest.subrange(8, rest.len() as int) =~= t@.subrange(i + 8, n as int));
            i = i + 8;
        } else if has_at(t, n, i, SPACED_PAGE_TAG) {
            assert(!stands_at(rest, 0, PAGE_TAG@)) by {
                if rest.len() >= 8 {
                    assert(rest.subrange(0, 8) =~= t@.subrange(i as int, i + 8));
                }
            }
            assert(stands_at(rest, 0, SPACED_PAGE_TAG@)) by {
                assert(rest.subrange(0, 10) =~= t@.subrange(i as int, i + 10));
            }
            assert(rest.subrange(10, rest.len() as int) =~= t@.subrange(i + 10, n as int));
            i = i + 10;
        } else {
            assert(!stands_at(rest, 0, PAGE_TAG@)) by {
                if rest.len() >= 8 {
                    assert(rest.subrange(0, 8) =~= t@.subrange(i as int, i + 8));
                }
            }
            assert(!stands_at(rest, 0, SPACED_PAGE_TAG@)) by {
                if rest.len() >= 10 {
                    assert(rest.subrange(0, 10) =~= t@.subrange(i as int, i + 10));
                }
            }
            let c = t.get_char(i);
            if c == '{' || c == '}' {
                return false;
            }
            assert(rest.drop_first() =~= t@.subrange(i + 1, n as int));
            i = i + 1;
        }
    }
    true
}

/// What tera renders from a template whose only markup is the page
/// placeholder, when `page` is the only variable, if it renders it.
pub uninterp spec fn rendered_page_link(template: Seq<char>, page: int) -> Option<Seq<char>>;

/// Relies on `tera::Tera::one_off`, without autoescaping, on a context
/// that holds `page`. The template is one whose only markup is the page
/// placeholder, so no tera function (the environment, the clock, a random
/// number) is reached and the result depends on the template and the page
/// alone.
#[verifier::external_body]
fn render_page(template: &str, page: i32) -> (r: Result<String, String>)
    requires
        page_only(template@),
    ensures
        r is Ok <==> rendered_page_link(template@, page as int) is Some,
        r is Ok ==> r->Ok_0@ == rendered_page_link(template@, page as int)->0,
{
    let mut context = tera::Context::new();
    context.insert("page", &page);
    tera::Tera::one_off(template, &context, false).map_err(|e| e.to_string())
}

/// The identifier of the first model named `name`, if any.
pub open spec fn first_id_named(models: Seq<SortModel>, name: Seq<char>) -> Option<i64>
    decreases models.len(),
{
    if models.len() == 0 {
        None
    } else if models[0].name@ == name {
        Some(models[0].id)
    } else {
        first_id_named(models.drop_first(), name)
    }
}

proof fn lemma_first_id_push(models: Seq<SortModel>, m: SortModel, name: Seq<char>)
    ensures
        first_id_named(models.push(m), name) == (if first_id_named(models, name) is Some {
            first_id_named(models, name)
        } else if m.name@ == name {
            Some(m.id)
        } else {
            None
        }),
    decreases models.len(),
{
    if models.len() > 0 {
        assert(models.push(m)[0] == models[0]);
        assert(models.push(m).drop_first() =~= models.drop_first().push(m));
        lemma_first_id_push(models.drop_first(), m, name);
    } else {
        assert(models.push(m).drop_first() =~= Seq::<SortModel>::empty());
        assert(first_id_named(Seq::<SortModel>::empty(), name) is None);
        assert(models.push(m)[0] == m);
    }
}

proof fn lemma_first_id_found(models: Seq<SortModel>, name: Seq<char>) -> (k: int)
    requires
        first_id_named(models, name) is Some,
    ensures
        0 <= k < models.len(),
        models[k].name@ == name,
    decreases models.len(),
{
    if models[0].name@ == name {
        0
    } else {
        let k = lemma_first_id_found(models.drop_first(), name);
        k + 1
    }
}

/// A list of (name, link) entries.
pub type NamedLinks = Seq<(Seq<char>, Seq<char>)>;

/// The link of the last entry named `name`, if any.
pub open spec fn last_link(pairs: NamedLinks, name: Seq<char>) -> Option<Seq<char>>
    decreases pairs.len(),
{
    if pairs.len() == 0 {
        None
    } else if pairs.last().0 == name {
        Some(pairs.last().1)
    } else {
        last_link(pairs.drop_last(), name)
    }
}

/// The categories in `data` as (name, link) entries.
pub open spec fn entity_links(data: Seq<SortEntity>) -> NamedLinks {
    data.map_values(|e: SortEntity| (e.name@, e.link@))
}

/// The stored rows in `models` as (name, link) entries.
pub open spec fn model_links(models: Seq<SortModel>) -> NamedLinks {
    models.map_values(|m: SortModel| (m.name@, m.link@))
}

/// After an upsert, every row still holds the link of the last entry of
/// its name, the upserted entry now being the last.
proof fn lemma_links_follow(before: Seq<SortRow>, pairs: NamedLinks, name: Seq<char>, link: Seq<char>, fresh: i64)
    requires
        names_unique(before),
        forall|j: int| 0 <= j < before.len() ==> last_link(pairs, (#[trigger] before[j]).1) == Some(before[j].2),
    ensures
        forall|j: int| #![trigger upserted_rows(before, name, link, fresh)[j]]
            0 <= j < upserted_rows(before, name, link, fresh).len() ==> last_link(
                pairs.push((name, link)),
                upserted_rows(before, name, link, fresh)[j].1,
            ) == Some(upserted_rows(before, name, link, fresh)[j].2),
{
    let after = upserted_rows(before, name, link, fresh);
    let next = pairs.push((name, link));
    assert(next.drop_last() =~= pairs);
    lemma_upsert_leaves_one_row(before, name, link, fresh);
    let p = find_name(after, name)->0;
    assert forall|j: int| 0 <= j < after.len() implies last_link(next, (#[trigger] after[j]).1) == Some(
        after[j].2,
    ) by {
        if after[j].1 == name {
            assert(after[j].1 == after[p].1);
        } else {
            match find_name(before, name) {
                Some(i) => {
                    assert(j != i);
                    assert(after[j] == before[j]);
                },
                None => {
                    assert(j < before.len());
                    assert(after[j] == before[j]);
                },
            }
        }
    }
}

/// The categories of one site.
pub struct SortCatalog {
    rows: Vec<SortModel>,
}

impl SortCatalog {
    /// The rows, as plain values, in insertion order.
    pub closed spec fn view_rows(self) -> Seq<SortRow> {
        self.rows@.map_values(|m: SortModel| row_view(m))
    }

    /// No two categories share a name.
    pub open spec fn wf(self) -> bool {
        names_unique(self.view_rows())
    }

    /// Whether some row has identifier `id`.
    fn id_in_use(&self, id: i64) -> (r: bool)
        ensures
            r == exists|j: int| 0 <= j < self.view_rows().len() && (#[trigger] self.view_rows()[j]).0 == id,
    {
        let mut i: usize = 0;
        while i < self.rows.len()
            invariant
                0 <= i <= self.rows@.len(),
                forall|k: int| 0 <= k < i ==> (#[trigger] self.view_rows()[k]).0 != id,
            decreases self.rows@.len() - i,
        {
            assert(self.view_rows()[i as int] == row_view(self.rows@[i as int]));
            if self.rows[i].id == id {
                return true;
            }
            i = i + 1;
        }
        false
    }

    /// An empty catalogue.
    pub fn new() -> (r: Self)
        ensures
            r.wf(),
            r.view_rows() == Seq::<SortRow>::empty(),
    {
        let r = SortCatalog { rows: Vec::new() };
        assert(r.view_rows() =~= Seq::<SortRow>::empty());
        r
    }

    /// Where the row named `name` stands, if one is.
    fn position_of_name(&self, name: &str) -> (r: Option<usize>)
        requires
            self.wf(),
        ensures
            r is Some <==> find_name(self.view_rows(), name@) is Some,
            r is Some ==> find_name(self.view_rows(), name@) == Some(r->0 as int),
    {
        let ghost rows = self.view_rows();
        let mut i: usize = 0;
        while i < self.rows.len()
            invariant
                rows == self.view_rows(),
                names_unique(rows),
                rows.len() == self.rows@.len(),
                0 <= i <= rows.len(),
                forall|k: int| 0 <= k < i ==> (#[trigger] rows[k]).1 != name@,
            decreases self.rows@.len() - i,
        {
            assert(rows[i as int] == row_view(self.rows@[i as int]));
            if text_eq(self.rows[i].name.as_str(), name) {
                assert(rows[i as int].1 == name@);
                assert(find_name(rows, name@) == Some(i as int)) by {
                    let j = choose|j: int| 0 <= j < rows.len() && #[trigger] rows[j].1 == name@;
                    assert(rows[j].1 == rows[i as int].1);
                }
                return Some(i);
            }
            i = i + 1;
        }
        None
    }

    /// Where the first row with identifier `id` stands, if one does.
    fn position_of_id(&self, id: i64) -> (r: Option<usize>)
        ensures
            r is Some <==> link_of_id(self.view_rows(), id) is Some,
            r is Some ==> r->0 < self.view_rows().len() && link_of_id(self.view_rows(), id) == Some(
                self.view_rows()[r->0 as int].2,
            ) && self.view_rows()[r->0 as int].0 == id,
    {
        let ghost rows = self.view_rows();
        let mut i: usize = 0;
        assert(rows.subrange(0, rows.len() as int) =~= rows);
        while i < self.rows.len()
            invariant
                rows == self.view_rows(),
                rows.len() == self.rows@.len(),
                0 <= i <= rows.len(),
                link_of_id(rows, id) == link_of_id(rows.subrange(i as int, rows.len() as int), id),
            decreases self.rows@.len() - i,
        {
            let ghost rest = rows.subrange(i as int, rows.len() as int);
            assert(rest[0] == rows[i as int]);
            assert(rest.drop_first() =~= rows.subrange(i + 1, rows.len() as int));
            assert(rows[i as int] == row_view(self.rows@[i as int]));
            if self.rows[i].id == id {
                return Some(i);
            }
            i = i + 1;
        }
        assert(rows.subrange(i as int, rows.len() as int).len() == 0);
        None
    }

    /// The stored row of category `id`, if there is one.
    pub fn sort_by_id(&self, id: SortID) -> (r: Option<SortModel>)
        ensures
            r is Some <==> link_of_id(self.view_rows(), id.0) is Some,
            r is Some ==> r->0.id == id.0 && Some(r->0.link@) == link_of_id(self.view_rows(), id.0),
    {
        match self.position_of_id(id.0) {
            Some(i) => {
                assert(self.view_rows()[i as int] == row_view(self.rows@[i as int]));
                let row = &self.rows[i];
                Some(SortModel { id: row.id, name: row.name.clone(), link: row.link.clone() })
            },
            None => None,
        }
    }

    /// The link of page `idx` of category `id`: its template rendered with
    /// `page` set to `idx`. An unknown category is `ResourceNotFound`; a
    /// template that does not render is `SpiderInnerFailed`.
    pub fn render_sort_link(&self, id: SortID, idx: i32) -> (r: Result<String, CrawlError>)
        ensures
            link_of_id(self.view_rows(), id.0) is None ==> r == Err::<String, CrawlError>(
                CrawlError::ResourceNotFound,
            ),
            link_of_id(self.view_rows(), id.0) is Some ==> {
                let t = link_of_id(self.view_rows(), id.0)->0;
                let rendered = rendered_page_link(t, idx as int);
                &&& r is Err ==> r->Err_0 is SpiderInnerFailed
                &&& !page_only(t) ==> r is Err
                &&& page_only(t) ==> (r is Ok <==> rendered is Some)
                &&& page_only(t) && r is Ok ==> r->Ok_0@ == rendered->0
            },
    {
        let i = match self.position_of_id(id.0) {
            Some(i) => i,
            None => {
                return Err(CrawlError::ResourceNotFound);
            },
        };
        assert(self.view_rows()[i as int] == row_view(self.rows@[i as int]));
        if !is_page_template(self.rows[i].link.as_str()) {
            return Err(
                CrawlError::SpiderInnerFailed(
                    String::from_str("the link template holds markup other than the page number"),
                ),
            );
        }
        match render_page(self.rows[i].link.as_str(), idx) {
            Ok(link) => Ok(link),
            Err(e) => Err(CrawlError::SpiderInnerFailed(e)),
        }
    }

    /// The categories, as the crawler shows them, in catalogue order.
    pub fn sorts(&self) -> (r: Vec<Sort>)
        ensures
            r@.len() == self.view_rows().len(),
            forall|i: int|
                0 <= i < r@.len() ==> (#[trigger] r@[i]).id == SortID(self.view_rows()[i].0)
                    && r@[i].name@ == self.view_rows()[i].1,
    {
        let mut out: Vec<Sort> = Vec::new();
        let mut i: usize = 0;
        while i < self.rows.len()
            invariant
                0 <= i <= self.rows@.len(),
                out@.len() == i,
                forall|k: int|
                    0 <= k < i ==> (#[trigger] out@[k]).id == SortID(self.view_rows()[k].0)
                        && out@[k].name@ == self.view_rows()[k].1,
            decreases self.rows@.len() - i,
        {
            assert(self.view_rows()[i as int] == row_view(self.rows@[i as int]));
            out.push(Sort { id: SortID(self.rows[i].id), name: self.rows[i].name.clone() });
            i = i + 1;
        }
        out
    }

    /// Forgets every category.
    pub fn clear_sort(&mut self)
        ensures
            final(self).wf(),
            final(self).view_rows() == Seq::<SortRow>::empty(),
    {
        self.rows = Vec::new();
        assert(self.view_rows() =~= Seq::<SortRow>::empty());
    }

    /// Records `(name, link)`, adding a row under `fresh` when no row has
    /// the name.
    fn record(&mut self, name: &str, link: &str, fresh: i64) -> (r: Upsert)
        requires
            old(self).wf(),
        ensures
            final(self).wf(),
            r == upsert_outcome(old(self).view_rows(), name@, link@, fresh),
            final(self).view_rows() == upserted_rows(old(self).view_rows(), name@, link@, fresh),
    {
        let ghost rows = self.view_rows();
        match self.position_of_name(name) {
            Some(i) => {
                let id = self.rows[i].id;
                let same = text_eq(self.rows[i].link.as_str(), link);
                assert(rows[i as int] == row_view(self.rows@[i as int]));
                if !same {
                    let row = SortModel {
                        id,
                        name: self.rows[i].name.clone(),
                        link: String::from_str(link),
                    };
                    self.rows.set(i, row);
                    assert(self.view_rows() =~= upserted_rows(rows, name@, link@, id));
                    Upsert::LinkUpdated(id)
                } else {
                    assert(self.view_rows() =~= upserted_rows(rows, name@, link@, id));
                    Upsert::Unchanged(id)
                }
            },
            None => {
                let id = fresh;
                self.rows.push(
                    SortModel { id, name: String::from_str(name), link: String::from_str(link) },
                );
                assert(self.view_rows() =~= upserted_rows(rows, name@, link@, id));
                assert forall|a: int, b: int|
                    0 <= a < self.view_rows().len() && 0 <= b < self.view_rows().len()
                        && #[trigger] self.view_rows()[a].1 == #[trigger] self.view_rows()[b].1
                        implies a == b by {
                    if a < rows.len() && b == rows.len() {
                        assert(rows[a].1 == name@);
                    } else if b < rows.len() && a == rows.len() {
                        assert(rows[b].1 == name@);
                    }
                }
                Upsert::Inserted(id)
            },
        }
    }

    /// Records category `name` with link template `link`: the row with
    /// that name keeps its identifier and gets the link; without one, a row
    /// is added under a fresh identifier from `ids`. Should the generator
    /// hand out an identifier some row already has, nothing changes and
    /// the upsert fails with `SpiderInnerFailed`.
    pub fn add_or_recover(&mut self, name: &str, link: &str, ids: &mut IdGenerator) -> (r: Result<Upsert, CrawlError>)
        requires
            old(self).wf(),
        ensures
            final(self).wf(),
            find_name(old(self).view_rows(), name@) is Some ==> r is Ok,
            r is Err ==> r->Err_0 is SpiderInnerFailed && final(self).view_rows() == old(self).view_rows(),
            r is Ok ==> {
                let u = r->Ok_0;
                &&& u == upsert_outcome(old(self).view_rows(), name@, link@, u.spec_id())
                &&& final(self).view_rows() == upserted_rows(old(self).view_rows(), name@, link@, u.spec_id())
                &&& u is Inserted ==> forall|j: int|
                    0 <= j < old(self).view_rows().len() ==> (#[trigger] old(self).view_rows()[j]).0 != u.spec_id()
            },
    {
        let fresh = match self.position_of_name(name) {
            Some(_) => 0,
            None => {
                let id = ids.generate();
                if self.id_in_use(id) {
                    return Err(CrawlError::SpiderInnerFailed(String::from_str("a fresh identifier is already in use")));
                }
                id
            },
        };
        let r = self.record(name, link, fresh);
        proof {
            if find_name(old(self).view_rows(), name@) is Some {
                assert(upserted_rows(old(self).view_rows(), name@, link@, fresh) == upserted_rows(
                    old(self).view_rows(),
                    name@,
                    link@,
                    r.spec_id(),
                ));
            }
        }
        Ok(r)
    }

    /// A catalogue of stored rows: each name once, under the identifier of
    /// its first row, with the link of its last.
    pub fn load_sorts(models: &Vec<SortModel>) -> (r: Self)
        ensures
            r.wf(),
            forall|k: int|
                0 <= k < models@.len() ==> find_name(r.view_rows(), (#[trigger] models@[k]).name@) is Some,
            forall|j: int| #![trigger r.view_rows()[j]]
                0 <= j < r.view_rows().len() ==> first_id_named(models@, r.view_rows()[j].1) == Some(
                    r.view_rows()[j].0,
                ),
            forall|j: int| #![trigger r.view_rows()[j]]
                0 <= j < r.view_rows().len() ==> last_link(model_links(models@), r.view_rows()[j].1)
                    == Some(r.view_rows()[j].2),
    {
        let mut cat = SortCatalog::new();
        let mut i: usize = 0;
        while i < models.len()
            invariant
                cat.wf(),
                0 <= i <= models@.len(),
                forall|k: int|
                    0 <= k < i ==> find_name(cat.view_rows(), (#[trigger] models@[k]).name@) is Some,
                forall|j: int| #![trigger cat.view_rows()[j]]
                    0 <= j < cat.view_rows().len() ==> first_id_named(
                        models@.subrange(0, i as int),
                        cat.view_rows()[j].1,
                    ) == Some(cat.view_rows()[j].0),
                forall|j: int| #![trigger cat.view_rows()[j]]
                    0 <= j < cat.view_rows().len() ==> last_link(
                        model_links(models@.subrange(0, i as int)),
                        cat.view_rows()[j].1,
                    ) == Some(cat.view_rows()[j].2),
            decreases models@.len() - i,
        {
            let ghost before = cat.view_rows();
            let ghost prefix = models@.subrange(0, i as int);
            let m = &models[i];
            cat.record(m.name.as_str(), m.link.as_str(), m.id);
            proof {
                let after = cat.view_rows();
                let next = models@.subrange(0, i + 1);
                assert(next =~= prefix.push(*m));
                lemma_links_follow(before, model_links(prefix), m.name@, m.link@, m.id);
                assert(model_links(next) =~= model_links(prefix).push((m.name@, m.link@)));
                lemma_upsert_leaves_one_row(before, m.name@, m.link@, m.id);
                assert forall|k: int| 0 <= k < i + 1 implies find_name(
                    after,
                    (#[trigger] models@[k]).name@,
                ) is Some by {
                    if k < i {
                        let p = find_name(before, models@[k].name@)->0;
                        assert(before[p].1 == models@[k].name@);
                        assert(after[p].1 == before[p].1);
                        lemma_find_name_unique(after, models@[k].name@, p);
                    }
                }
                assert forall|j: int| #![trigger after[j]] 0 <= j < after.len() implies first_id_named(
                    next,
                    after[j].1,
                ) == Some(after[j].0) by {
                    lemma_first_id_push(prefix, *m, after[j].1);
                    if j < before.len() {
                        assert(after[j].0 == before[j].0 && after[j].1 == before[j].1);
                        assert(first_id_named(prefix, before[j].1) == Some(before[j].0));
                    } else {
                        assert(find_name(before, m.name@) is None);
                        assert(after[j] == (m.id, m.name@, m.link@));
                        if first_id_named(prefix, m.name@) is Some {
                            let k = lemma_first_id_found(prefix, m.name@);
                            assert(models@[k] == prefix[k]);
                            assert(find_name(before, models@[k].name@) is Some);
                        }
                    }
                }
            }
            i = i + 1;
        }
        assert(models@.subrange(0, models@.len() as int) =~= models@);
        cat
    }

    /// Replaces the catalogue by the categories in `data`: each name once,
    /// with the link of its last entry. A name that was known keeps its
    /// identifier; a new name gets a fresh one from `ids`.
    pub fn set_sort(&mut self, data: &Vec<SortEntity>, ids: &mut IdGenerator)
        requires
            old(self).wf(),
        ensures
            final(self).wf(),
            forall|k: int|
                0 <= k < data@.len() ==> find_name(final(self).view_rows(), (#[trigger] data@[k]).name@)
                    is Some,
            forall|j: int| #![trigger final(self).view_rows()[j]]
                0 <= j < final(self).view_rows().len() && find_name(
                    old(self).view_rows(),
                    final(self).view_rows()[j].1,
                ) is Some ==> final(self).view_rows()[j].0 == old(self).view_rows()[find_name(
                    old(self).view_rows(),
                    final(self).view_rows()[j].1,
                )->0].0,
            forall|j: int| #![trigger final(self).view_rows()[j]]
                0 <= j < final(self).view_rows().len() ==> last_link(
                    entity_links(data@),
                    final(self).view_rows()[j].1,
                ) == Some(final(self).view_rows()[j].2),
    {
        let ghost prior = self.view_rows();
        let mut cat = SortCatalog::new();
        let mut i: usize = 0;
        while i < data.len()
            invariant
                self.wf(),
                prior == self.view_rows(),
                cat.wf(),
                0 <= i <= data@.len(),
                forall|k: int|
                    0 <= k < i ==> find_name(cat.view_rows(), (#[trigger] data@[k]).name@) is Some,
                forall|j: int| #![trigger cat.view_rows()[j]]
                    0 <= j < cat.view_rows().len() ==> last_link(
                        entity_links(data@.subrange(0, i as int)),
                        cat.view_rows()[j].1,
                    ) == Some(cat.view_rows()[j].2),
                forall|j: int| #![trigger cat.view_rows()[j]]
                    0 <= j < cat.view_rows().len() && find_name(prior, cat.view_rows()[j].1) is Some
                        ==> cat.view_rows()[j].0 == prior[find_name(prior, cat.view_rows()[j].1)->0].0,
            decreases data@.len() - i,
        {
            let ghost before = cat.view_rows();
            let e = &data[i];
            let fresh = match self.position_of_name(e.name.as_str()) {
                Some(p) => {
                    assert(prior[p as int] == row_view(self.rows@[p as int]));
                    self.rows[p].id
                },
                None => ids.generate(),
            };
            cat.record(e.name.as_str(), e.link.as_str(), fresh);
            proof {
                let after = cat.view_rows();
                lemma_links_follow(before, entity_links(data@.subrange(0, i as int)), e.name@, e.link@, fresh);
                assert(entity_links(data@.subrange(0, i + 1)) =~= entity_links(data@.subrange(0, i as int)).push(
                    (e.name@, e.link@),
                ));
                lemma_upsert_leaves_one_row(before, e.name@, e.link@, fresh);
                assert forall|k: int| 0 <= k < i + 1 implies find_name(
                    after,
                    (#[trigger] data@[k]).name@,
                ) is Some by {
                    if k < i {
                        let p = find_name(before, data@[k].name@)->0;
                        assert(before[p].1 == data@[k].name@);
                        assert(after[p].1 == before[p].1);
                        lemma_find_name_unique(after, data@[k].name@, p);
                    }
                }
                assert forall|j: int| #![trigger after[j]]
                    0 <= j < after.len() && find_name(prior, after[j].1) is Some implies after[j].0
                    == prior[find_name(prior, after[j].1)->0].0 by {
                    if j < before.len() {
                        assert(after[j].0 == before[j].0 && after[j].1 == before[j].1);
                    } else {
                        assert(after[j].1 == e.name@);
                    }
                }
            }
            i = i + 1;
        }
        assert(data@.subrange(0, data@.len() as int) =~= data@);
        *self = cat;
    }
}

} // verus!
