//! The scheduler's decisions: which registered site adapters take part in a
//! sweep, when a site's categories must be scraped again, and the state of
//! each site through a sweep. The driver performs the actions and reports
//! back what happened.
//!
//! A site goes `Idle -> RefreshingCategories -> Crawling -> Ready`, or
//! straight from `Idle` to `Crawling` when its categories are fresh. A
//! failure leaves it `Failed`, skipped for the rest of the sweep; the next
//! sweep starts it from `Idle` again.

use vstd::prelude::*;

use crate::spider::{SpiderMetadata, Support};

verus! {

/// Seconds in a day.
pub const DAY_SECONDS: i64 = 86400;

/// How often categories are scraped again.
#[derive(Debug, Copy, Clone)]
pub struct Policy {
    /// Seconds after which a site's categories are stale.
    pub sort_update_interval: i64,
}

impl Default for Policy {
    /// Categories are scraped again after seven days.
    fn default() -> (r: Self)
        ensures
            r.sort_update_interval == 7 * DAY_SECONDS,
    {
        Policy { sort_update_interval: 7 * DAY_SECONDS }
    }
}

/// Where a site stands in the current sweep.
#[derive(Debug, Copy, Clone, PartialEq, Eq, Structural)]
pub enum TargetState {
    Idle,
    RefreshingCategories,
    Ready,
    Crawling,
    Failed,
}

/// What the driver reports about a site.
#[derive(Debug, Copy, Clone, PartialEq, Eq, Structural)]
pub enum KeeperEvent {
    /// The categories were scraped and stored.
    CategoriesRefreshed,
    /// Scraping or storing the categories failed.
    RefreshFailed,
    /// The crawl of the site's categories ended.
    CrawlDone,
    /// The crawl failed.
    CrawlFailed,
}

/// What the driver is to do for a site.
#[derive(Debug, Copy, Clone, PartialEq, Eq, Structural)]
pub enum KeeperAction {
    /// Nothing.
    Skip,
    /// Scrape and store the site's categories.
    RefreshCategories,
    /// Crawl the novels of the site's categories.
    Crawl,
}

/// A registered site adapter.
#[derive(Debug)]
pub struct Target {
    pub id: &'static str,
    pub supported: Support,
    pub state: TargetState,
    /// When its categories were last scraped, in seconds since the epoch.
    pub sorts_refreshed_at: Option<i64>,
}

/// Whether a site takes part in sweeps: it can list its categories and
/// the novels of a category.
pub open spec fn takes_part(s: Support) -> bool {
    s.get_sort && s.get_novel_from_sort
}

/// Whether categories scraped at `refreshed_at` are stale at `now`.
pub open spec fn stale(refreshed_at: Option<i64>, now: i64, interval: i64) -> bool {
    match refreshed_at {
        None => true,
        Some(t) => now - t >= interval,
    }
}

/// Whether categories scraped at `refreshed_at` must be scraped again at
/// `now`: when they never were, or when `interval` seconds have passed.
pub fn needs_refresh(refreshed_at: Option<i64>, now: i64, interval: i64) -> (r: bool)
    ensures
        r == stale(refreshed_at, now, interval),
{
    match refreshed_at {
        None => true,
        Some(t) => (now as i128) - (t as i128) >= interval as i128,
    }
}

/// The registry of site adapters and the sweep policy.
pub struct Keeper {
    spiders: Vec<Target>,
    policy: Policy,
}

impl Keeper {
    pub closed spec fn targets(self) -> Seq<Target> {
        self.spiders@
    }

    pub closed spec fn policy(self) -> Policy {
        self.policy
    }

    /// A keeper with no sites and the default policy.
    pub fn new() -> (r: Self)
        ensures
            r.targets().len() == 0,
            r.policy().sort_update_interval == 7 * DAY_SECONDS,
    {
        Keeper { spiders: Vec::new(), policy: Policy::default() }
    }

    /// A keeper with no sites and the given policy.
    pub fn with_policy(policy: Policy) -> (r: Self)
        ensures
            r.targets().len() == 0,
            r.policy() == policy,
    {
        Keeper { spiders: Vec::new(), policy }
    }

    /// Registers the site adapter `T`, idle and with no categories
    /// scraped yet; returns its place.
    pub fn add_spider<T: SpiderMetadata>(&mut self) -> (r: usize)
        ensures
            final(self).policy() == old(self).policy(),
            final(self).targets().len() == old(self).targets().len() + 1,
            r == old(self).targets().len(),
            final(self).targets().subrange(0, r as int) == old(self).targets(),
            final(self).targets()[r as int].state == TargetState::Idle,
            final(self).targets()[r as int].sorts_refreshed_at is None,
    {
        let r = self.spiders.len();
        self.spiders.push(
            Target { id: T::id(), supported: T::supported(), state: TargetState::Idle, sorts_refreshed_at: None },
        );
        assert(self.spiders@.subrange(0, r as int) =~= old(self).spiders@);
        r
    }

    /// The number of registered sites.
    pub fn len(&self) -> (r: usize)
        ensures
            r == self.targets().len(),
    {
        self.spiders.len()
    }

    /// The state of site `i`.
    pub fn state(&self, i: usize) -> (r: TargetState)
        requires
            i < self.targets().len(),
        ensures
            r == self.targets()[i as int].state,
    {
        self.spiders[i].state
    }

    /// Starts a sweep: every site is idle again, whatever the last sweep
    /// left it in.
    pub fn start_sweep(&mut self)
        ensures
            final(self).policy() == old(self).policy(),
            final(self).targets().len() == old(self).targets().len(),
            forall|i: int|
                0 <= i < final(self).targets().len() ==> (#[trigger] final(self).targets()[i]).state
                    == TargetState::Idle && final(self).targets()[i].id == old(self).targets()[i].id && final(self).targets()[i].sorts_refreshed_at == old(
                    self,
                ).targets()[i].sorts_refreshed_at && final(self).targets()[i].supported == old(
                    self,
                ).targets()[i].supported,
    {
        let mut i: usize = 0;
        while i < self.spiders.len()
            invariant
                self.policy == old(self).policy,
                self.spiders@.len() == old(self).spiders@.len(),
                0 <= i <= self.spiders@.len(),
                forall|k: int|
                    0 <= k < i ==> (#[trigger] self.spiders@[k]).state == TargetState::Idle
                        && self.spiders@[k].id == old(self).spiders@[k].id
                        && self.spiders@[k].sorts_refreshed_at == old(self).spiders@[k].sorts_refreshed_at
                        && self.spiders@[k].supported == old(self).spiders@[k].supported,
                forall|k: int| i <= k < self.spiders@.len() ==> #[trigger] self.spiders@[k] == old(
                    self,
                ).spiders@[k],
            decreases self.spiders@.len() - i,
        {
            let t = &self.spiders[i];
            let idle = Target {
                id: t.id,
                supported: t.supported,
                state: TargetState::Idle,
                sorts_refreshed_at: t.sorts_refreshed_at,
            };
            self.spiders.set(i, idle);
            i = i + 1;
        }
    }

    /// Decides what to do for idle site `i` at time `now`: skip it when it
    /// does not take part in sweeps or is not idle; scrape its categories
    /// again when they are stale; else crawl.
    pub fn next_action(&mut self, i: usize, now: i64) -> (r: KeeperAction)
        requires
            i < old(self).targets().len(),
        ensures
            final(self).policy() == old(self).policy(),
            final(self).targets().len() == old(self).targets().len(),
            forall|k: int|
                0 <= k < final(self).targets().len() && k != i ==> #[trigger] final(self).targets()[k]
                    == old(self).targets()[k],
            ({
                let t = old(self).targets()[i as int];
                let u = final(self).targets()[i as int];
                &&& u.id == t.id
                &&& u.supported == t.supported
                &&& u.sorts_refreshed_at == t.sorts_refreshed_at
                &&& if t.state != TargetState::Idle || !takes_part(t.supported) {
                    r == KeeperAction::Skip && u.state == t.state
                } else if stale(t.sorts_refreshed_at, now, old(self).policy().sort_update_interval) {
                    r == KeeperAction::RefreshCategories && u.state == TargetState::RefreshingCategories
                } else {
                    r == KeeperAction::Crawl && u.state == TargetState::Crawling
                }
            }),
    {
        let t = &self.spiders[i];
        if t.state != TargetState::Idle || !(t.supported.get_sort && t.supported.get_novel_from_sort) {
            return KeeperAction::Skip;
        }
        let (state, action) = if needs_refresh(
            t.sorts_refreshed_at,
            now,
            self.policy.sort_update_interval,
        ) {
            (TargetState::RefreshingCategories, KeeperAction::RefreshCategories)
        } else {
            (TargetState::Crawling, KeeperAction::Crawl)
        };
        let u = Target { id: t.id, supported: t.supported, state, sorts_refreshed_at: t.sorts_refreshed_at };
        self.spiders.set(i, u);
        action
    }

    /// Takes in what happened to site `i` at time `now`. Categories scraped
    /// lead to the crawl; a failure marks the site failed for this sweep;
    /// the end of a crawl leaves it ready. An event that does not fit the
    /// site's state changes nothing.
    pub fn on_event(&mut self, i: usize, event: KeeperEvent, now: i64) -> (r: KeeperAction)
        requires
            i < old(self).targets().len(),
        ensures
            final(self).policy() == old(self).policy(),
            final(self).targets().len() == old(self).targets().len(),
            forall|k: int|
                0 <= k < final(self).targets().len() && k != i ==> #[trigger] final(self).targets()[k]
                    == old(self).targets()[k],
            ({
                let t = old(self).targets()[i as int];
                let u = final(self).targets()[i as int];
                &&& u.id == t.id
                &&& u.supported == t.supported
                &&& if t.state == TargetState::RefreshingCategories
                    && event == KeeperEvent::CategoriesRefreshed {
                    r == KeeperAction::Crawl && u.state == TargetState::Crawling
                        && u.sorts_refreshed_at == Some(now)
                } else if t.state == TargetState::RefreshingCategories && event
                    == KeeperEvent::RefreshFailed {
                    r == KeeperAction::Skip && u.state == TargetState::Failed
                        && u.sorts_refreshed_at == t.sorts_refreshed_at
                } else if t.state == TargetState::Crawling && event == KeeperEvent::CrawlDone {
                    r == KeeperAction::Skip && u.state == TargetState::Ready
                        && u.sorts_refreshed_at == t.sorts_refreshed_at
                } else if t.state == TargetState::Crawling && event == KeeperEvent::CrawlFailed {
                    r == KeeperAction::Skip && u.state == TargetState::Failed
                        && u.sorts_refreshed_at == t.sorts_refreshed_at
                } else {
                    r == KeeperAction::Skip && u == t
                }
            }),
    {
        let t = &self.spiders[i];
        let (state, refreshed, action) = match (t.state, event) {
            (TargetState::RefreshingCategories, KeeperEvent::CategoriesRefreshed) => (
                TargetState::Crawling,
                Some(now),
                KeeperAction::Crawl,
            ),
            (TargetState::RefreshingCategories, KeeperEvent::RefreshFailed) => (
                TargetState::Failed,
                t.sorts_refreshed_at,
                KeeperAction::Skip,
            ),
            (TargetState::Crawling, KeeperEvent::CrawlDone) => (
                TargetState::Ready,
                t.sorts_refreshed_at,
                KeeperAction::Skip,
            ),
            (TargetState::Crawling, KeeperEvent::CrawlFailed) => (
                TargetState::Failed,
                t.sorts_refreshed_at,
                KeeperAction::Skip,
            ),
            _ => {
                return KeeperAction::Skip;
            },
        };
        let u = Target { id: t.id, supported: t.supported, state, sorts_refreshed_at: refreshed };
        self.spiders.set(i, u);
        action
    }
}

} // verus!
