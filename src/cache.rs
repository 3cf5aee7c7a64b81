//! The look-aside cache: the keys the handlers use, how long entries live,
//! and a key-value store whose entries expire.
use crate::config::RedisConfig;
use crate::text::{i64_text, int_text, uuid_hyphenated, uuid_text};
use crate::transaction::Flow;
use vstd::prelude::*;

verus! {

/// Seconds a summary, category breakdown or trend stays cached.
pub const ANALYTICS_TTL: u64 = 900;

/// Seconds a list of recent transactions stays cached.
pub const RECENT_TTL: u64 = 300;

/// Seconds a budget summary stays cached.
pub const BUDGET_SUMMARY_TTL: u64 = 600;

/// Seconds a budget performance report stays cached.
pub const BUDGET_PERFORMANCE_TTL: u64 = 300;

/// Seconds budget suggestions stay cached.
pub const BUDGET_SUGGESTIONS_TTL: u64 = 1800;

/// Seconds the list of budget categories stays cached.
pub const BUDGET_CATEGORIES_TTL: u64 = 900;

/// Seconds a page of budgets stays cached.
pub const BUDGET_LIST_TTL: u64 = 300;

/// Seconds a user's pockets stay cached.
pub const POCKETS_TTL: u64 = 180;

/// Seconds a user profile stays cached.
pub const USER_PROFILE_TTL: u64 = 300;

/// Which analysis a cache entry holds.
#[derive(Clone, Copy, Debug, PartialEq, Eq, Structural)]
pub enum AnalyticsView {
    Summary,
    CategorySummary,
    MonthlyTrend,
    DailyTrend,
}

/// Which budget report a cache entry holds.
#[derive(Clone, Copy, Debug, PartialEq, Eq, Structural)]
pub enum BudgetView {
    Summary,
    Performance,
    Categories,
    Suggestions,
}

pub open spec fn analytics_prefix(flow: Flow, view: AnalyticsView) -> Seq<char> {
    match (flow, view) {
        (Flow::Expense, AnalyticsView::Summary) => "expense_summary"@,
        (Flow::Expense, AnalyticsView::CategorySummary) => "expense_category_summary"@,
        (Flow::Expense, AnalyticsView::MonthlyTrend) => "expense_monthly_trend"@,
        (Flow::Expense, AnalyticsView::DailyTrend) => "expense_daily_trend"@,
        (Flow::Income, AnalyticsView::Summary) => "income_summary"@,
        (Flow::Income, AnalyticsView::CategorySummary) => "income_category_summary"@,
        (Flow::Income, AnalyticsView::MonthlyTrend) => "income_monthly_trend"@,
        (Flow::Income, AnalyticsView::DailyTrend) => "income_daily_trend"@,
    }
}

fn analytics_prefix_text(flow: Flow, view: AnalyticsView) -> (r: &'static str)
    ensures
        r@ == analytics_prefix(flow, view),
{
    match (flow, view) {
        (Flow::Expense, AnalyticsView::Summary) => "expense_summary",
        (Flow::Expense, AnalyticsView::CategorySummary) => "expense_category_summary",
        (Flow::Expense, AnalyticsView::MonthlyTrend) => "expense_monthly_trend",
        (Flow::Expense, AnalyticsView::DailyTrend) => "expense_daily_trend",
        (Flow::Income, AnalyticsView::Summary) => "income_summary",
        (Flow::Income, AnalyticsView::CategorySummary) => "income_category_summary",
        (Flow::Income, AnalyticsView::MonthlyTrend) => "income_monthly_trend",
        (Flow::Income, AnalyticsView::DailyTrend) => "income_daily_trend",
    }
}

/// `{analysis}:{user}:{from}:{to}`, e.g. `expense_summary:<uuid>:2024-01-01:2024-01-31`.
pub fn analytics_cache_key(flow: Flow, view: AnalyticsView, user: u128, from: &str, to: &str) -> (r: String)
    ensures
        r@ == analytics_prefix(flow, view) + ":"@ + uuid_hyphenated(user) + ":"@ + from@ + ":"@ + to@,
{
    let r = String::from_str(analytics_prefix_text(flow, view)).concat(":").concat(
        uuid_text(user).as_str(),
    ).concat(":").concat(from).concat(":").concat(to);
    r
}

pub open spec fn recent_prefix(flow: Flow) -> Seq<char> {
    match flow {
        Flow::Expense => "recent_expense_transactions"@,
        Flow::Income => "recent_income_transactions"@,
    }
}

/// `recent_{flow}_transactions:{user}:{limit}`.
pub fn recent_cache_key(flow: Flow, user: u128, limit: i32) -> (r: String)
    ensures
        r@ == recent_prefix(flow) + ":"@ + uuid_hyphenated(user) + ":"@ + int_text(limit as int),
{
    let prefix = match flow {
        Flow::Expense => "recent_expense_transactions",
        Flow::Income => "recent_income_transactions",
    };
    String::from_str(prefix).concat(":").concat(uuid_text(user).as_str()).concat(":").concat(
        i64_text(limit as i64).as_str(),
    )
}

pub open spec fn budget_prefix(view: BudgetView) -> Seq<char> {
    match view {
        BudgetView::Summary => "budget_summary"@,
        BudgetView::Performance => "budget_performance"@,
        BudgetView::Categories => "budget_categories"@,
        BudgetView::Suggestions => "budget_suggestions"@,
    }
}

/// `budget_{report}:{user}`.
pub fn budget_cache_key(view: BudgetView, user: u128) -> (r: String)
    ensures
        r@ == budget_prefix(view) + ":"@ + uuid_hyphenated(user),
{
    let prefix = match view {
        BudgetView::Summary => "budget_summary",
        BudgetView::Performance => "budget_performance",
        BudgetView::Categories => "budget_categories",
        BudgetView::Suggestions => "budget_suggestions",
    };
    String::from_str(prefix).concat(":").concat(uuid_text(user).as_str())
}

/// `budgets:{user}:`, the start of every cached page of a user's budgets.
pub fn budget_list_prefix(user: u128) -> (r: String)
    ensures
        r@ == "budgets:"@ + uuid_hyphenated(user) + ":"@,
{
    String::from_str("budgets:").concat(uuid_text(user).as_str()).concat(":")
}

/// `user:{user}`.
pub fn user_cache_key(user: u128) -> (r: String)
    ensures
        r@ == "user:"@ + uuid_hyphenated(user),
{
    String::from_str("user:").concat(uuid_text(user).as_str())
}

/// `user:{user}:pockets`.
pub fn user_pockets_cache_key(user: u128) -> (r: String)
    ensures
        r@ == "user:"@ + uuid_hyphenated(user) + ":pockets"@,
{
    String::from_str("user:").concat(uuid_text(user).as_str()).concat(":pockets")
}

/// `jwt:{token_hash}`.
pub fn jwt_cache_key(token_hash: &str) -> (r: String)
    ensures
        r@ == "jwt:"@ + token_hash@,
{
    String::from_str("jwt:").concat(token_hash)
}

/// A cache entry as key, value and the second at which it expires (`None`:
/// never).
pub type EntryView = (Seq<char>, Seq<char>, Option<u128>);

/// A stored value.
#[derive(Debug)]
pub struct CacheEntry {
    pub key: String,
    pub value: String,
    pub expires_at: Option<u128>,
}

impl View for CacheEntry {
    type V = EntryView;

    open spec fn view(&self) -> EntryView {
        (self.key@, self.value@, self.expires_at)
    }
}

pub open spec fn entry_views(s: Seq<CacheEntry>) -> Seq<EntryView> {
    s.map_values(|e: CacheEntry| e@)
}

/// The newest entry under `key`.
pub open spec fn lookup(es: Seq<EntryView>, key: Seq<char>) -> Option<EntryView>
    decreases es.len(),
{
    if es.len() == 0 {
        None
    } else if es.last().0 == key {
        Some(es.last())
    } else {
        lookup(es.drop_last(), key)
    }
}

/// An entry is alive before the second at which it expires.
pub open spec fn alive(e: EntryView, now: u64) -> bool {
    e.2 matches Some(t) ==> (now as int) < t
}

/// What a read of `key` at second `now` finds: the value of the newest entry
/// under it, if that entry is alive.
pub open spec fn read(es: Seq<EntryView>, key: Seq<char>, now: u64) -> Option<Seq<char>> {
    match lookup(es, key) {
        Some(e) => if alive(e, now) {
            Some(e.1)
        } else {
            None
        },
        None => None,
    }
}

/// The entries other than those under `key`.
pub open spec fn without(es: Seq<EntryView>, key: Seq<char>) -> Seq<EntryView>
    decreases es.len(),
{
    if es.len() == 0 {
        seq![]
    } else if es.last().0 == key {
        without(es.drop_last(), key)
    } else {
        without(es.drop_last(), key).push(es.last())
    }
}

/// The entries whose key does not start with `prefix`.
pub open spec fn without_prefix(es: Seq<EntryView>, prefix: Seq<char>) -> Seq<EntryView>
    decreases es.len(),
{
    if es.len() == 0 {
        seq![]
    } else if starts_with(es.last().0, prefix) {
        without_prefix(es.drop_last(), prefix)
    } else {
        without_prefix(es.drop_last(), prefix).push(es.last())
    }
}

pub open spec fn starts_with(s: Seq<char>, prefix: Seq<char>) -> bool {
    prefix.len() <= s.len() && s.take(prefix.len() as int) == prefix
}

/// When an entry written at `now` with time to live `ttl` expires.
pub open spec fn expiry(now: u64, ttl: Option<u64>) -> Option<u128> {
    match ttl {
        Some(d) => Some((now + d) as u128),
        None => None,
    }
}

/// The entries after writing `value` under `key` at second `now`.
pub open spec fn written(
    es: Seq<EntryView>,
    key: Seq<char>,
    value: Seq<char>,
    ttl: Option<u64>,
    now: u64,
) -> Seq<EntryView> {
    without(es, key).push((key, value, expiry(now, ttl)))
}

/// Whether `s` starts with `prefix`.
pub fn has_prefix(s: &str, prefix: &str) -> (r: bool)
    ensures
        r == starts_with(s@, prefix@),
{
    let ls = s.unicode_len();
    let lp = prefix.unicode_len();
    if lp > ls {
        return false;
    }
    let mut i: usize = 0;
    while i < lp
        invariant
            i <= lp <= ls,
            ls == s@.len(),
            lp == prefix@.len(),
            forall|k: int| 0 <= k < i ==> s@[k] == prefix@[k],
        decreases lp - i,
    {
        if s.get_char(i) != prefix.get_char(i) {
            assert(s@.take(lp as int)[i as int] != prefix@[i as int]);
            return false;
        }
        i = i + 1;
    }
    assert(s@.take(lp as int) =~= prefix@);
    true
}

/// A key-value store whose entries expire; time is given in seconds by the caller.
pub struct TtlCache {
    entries: Vec<CacheEntry>,
}

impl View for TtlCache {
    type V = Seq<EntryView>;

    closed spec fn view(&self) -> Seq<EntryView> {
        entry_views(self.entries@)
    }
}

fn copy_entry(e: &CacheEntry) -> (r: CacheEntry)
    ensures
        r@ == e@,
{
    CacheEntry { key: e.key.clone(), value: e.value.clone(), expires_at: e.expires_at }
}

impl TtlCache {
    pub fn new() -> (r: TtlCache)
        ensures
            r@ == Seq::<EntryView>::empty(),
    {
        let r = TtlCache { entries: Vec::new() };
        assert(r@ =~= Seq::<EntryView>::empty());
        r
    }

    /// The value under `key` at second `now`, if its entry is alive.
    pub fn get(&self, key: &str, now: u64) -> (r: Option<String>)
        ensures
            match r {
                Some(v) => read(self@, key@, now) == Some(v@),
                None => read(self@, key@, now) is None,
            },
    {
        let ghost es = self@;
        let wanted = String::from_str(key);
        let mut i: usize = self.entries.len();
        assert(es.take(i as int) =~= es);
        while i > 0
            invariant
                i <= self.entries@.len(),
                es == entry_views(self.entries@),
                wanted@ == key@,
                lookup(es, key@) == lookup(es.take(i as int), key@),
            decreases i,
        {
            let e = &self.entries[i - 1];
            assert(es.take(i as int).drop_last() =~= es.take(i - 1));
            assert(es.take(i as int).last() == e@);
            if e.key == wanted {
                let live = match e.expires_at {
                    Some(t) => (now as u128) < t,
                    None => true,
                };
                if live {
                    return Some(e.value.clone());
                } else {
                    return None;
                }
            }
            i = i - 1;
        }
        assert(es.take(0) =~= Seq::<EntryView>::empty());
        None
    }

    /// Drops the entries under `key`, or those whose key starts with it.
    fn retain_entries(&mut self, key: &str, by_prefix: bool)
        ensures
            !by_prefix ==> final(self)@ == without(old(self)@, key@),
            by_prefix ==> final(self)@ == without_prefix(old(self)@, key@),
    {
        let ghost es = old(self)@;
        let wanted = String::from_str(key);
        let mut kept: Vec<CacheEntry> = Vec::new();
        let mut i: usize = 0;
        assert(es.take(0) =~= Seq::<EntryView>::empty());
        assert(entry_views(kept@) =~= Seq::<EntryView>::empty());
        while i < self.entries.len()
            invariant
                i <= self.entries@.len(),
                es == entry_views(self.entries@),
                wanted@ == key@,
                !by_prefix ==> entry_views(kept@) == without(es.take(i as int), key@),
                by_prefix ==> entry_views(kept@) == without_prefix(es.take(i as int), key@),
            decreases self.entries@.len() - i,
        {
            let e = &self.entries[i];
            assert(es.take(i + 1).drop_last() =~= es.take(i as int));
            assert(es.take(i + 1).last() == e@);
            let drop = if by_prefix {
                has_prefix(e.key.as_str(), key)
            } else {
                e.key == wanted
            };
            if !drop {
                let ghost before = entry_views(kept@);
                kept.push(copy_entry(e));
                assert(entry_views(kept@) =~= before.push(e@));
            }
            i = i + 1;
        }
        assert(es.take(i as int) =~= es);
        self.entries = kept;
    }

    /// Stores `value` under `key` at second `now`, to expire `ttl` seconds
    /// later (`None`: never); an older entry under `key` goes.
    pub fn set(&mut self, key: &str, value: String, ttl: Option<u64>, now: u64)
        ensures
            final(self)@ == written(old(self)@, key@, value@, ttl, now),
    {
        self.retain_entries(key, false);
        let expires_at = match ttl {
            Some(d) => Some(now as u128 + d as u128),
            None => None,
        };
        let ghost before = self@;
        self.entries.push(CacheEntry { key: String::from_str(key), value, expires_at });
        assert(self@ =~= before.push((key@, value@, expiry(now, ttl))));
    }

    /// Removes the entries under `key`; tells whether there was one.
    pub fn delete(&mut self, key: &str) -> (r: bool)
        ensures
            final(self)@ == without(old(self)@, key@),
            r == (lookup(old(self)@, key@) is Some),
    {
        let found = self.contains(key);
        self.retain_entries(key, false);
        found
    }

    /// Whether an entry is stored under `key`, alive or not.
    fn contains(&self, key: &str) -> (r: bool)
        ensures
            r == (lookup(self@, key@) is Some),
    {
        let ghost es = self@;
        let wanted = String::from_str(key);
        let mut i: usize = self.entries.len();
        assert(es.take(i as int) =~= es);
        while i > 0
            invariant
                i <= self.entries@.len(),
                es == entry_views(self.entries@),
                wanted@ == key@,
                lookup(es, key@) == lookup(es.take(i as int), key@),
            decreases i,
        {
            assert(es.take(i as int).drop_last() =~= es.take(i - 1));
            assert(es.take(i as int).last() == self.entries@[i - 1]@);
            if self.entries[i - 1].key == wanted {
                return true;
            }
            i = i - 1;
        }
        assert(es.take(0) =~= Seq::<EntryView>::empty());
        false
    }

    /// Removes every entry whose key starts with `prefix`.
    pub fn delete_prefix(&mut self, prefix: &str)
        ensures
            final(self)@ == without_prefix(old(self)@, prefix@),
    {
        self.retain_entries(prefix, true);
    }
}

/// The cache as the handlers use it: a store that can be switched off, in
/// which case every read misses and every write is refused.
pub struct CacheService {
    enabled: bool,
    store: TtlCache,
}

impl CacheService {
    pub closed spec fn spec_enabled(&self) -> bool {
        self.enabled
    }

    pub closed spec fn entries(&self) -> Seq<EntryView> {
        self.store@
    }

    /// An empty cache, switched on or off as the configuration says.
    pub fn new(config: &RedisConfig) -> (r: CacheService)
        ensures
            r.spec_enabled() == config.enabled,
            r.entries() == Seq::<EntryView>::empty(),
    {
        CacheService { enabled: config.enabled, store: TtlCache::new() }
    }

    pub fn is_enabled(&self) -> (r: bool)
        ensures
            r == self.spec_enabled(),
    {
        self.enabled
    }

    /// The value under `key` at second `now`; a miss when the cache is off.
    pub fn get(&self, key: &str, now: u64) -> (r: Option<String>)
        ensures
            !self.spec_enabled() ==> r is None,
            self.spec_enabled() ==> match r {
                Some(v) => read(self.entries(), key@, now) == Some(v@),
                None => read(self.entries(), key@, now) is None,
            },
    {
        if !self.enabled {
            return None;
        }
        self.store.get(key, now)
    }

    /// Stores `value` under `key`; tells whether it was stored.
    pub fn set(&mut self, key: &str, value: String, ttl_seconds: Option<u64>, now: u64) -> (r: bool)
        ensures
            r == old(self).spec_enabled(),
            final(self).spec_enabled() == old(self).spec_enabled(),
            r ==> final(self).entries() == written(old(self).entries(), key@, value@, ttl_seconds, now),
            !r ==> final(self).entries() == old(self).entries(),
    {
        if !self.enabled {
            return false;
        }
        self.store.set(key, value, ttl_seconds, now);
        true
    }

    /// Removes the entries under `key`; tells whether the cache was on.
    pub fn delete(&mut self, key: &str) -> (r: bool)
        ensures
            r == old(self).spec_enabled(),
            final(self).spec_enabled() == old(self).spec_enabled(),
            r ==> final(self).entries() == without(old(self).entries(), key@),
            !r ==> final(self).entries() == old(self).entries(),
    {
        if !self.enabled {
            return false;
        }
        self.store.delete(key);
        true
    }

    /// Removes every entry whose key starts with `prefix`; tells whether the
    /// cache was on.
    pub fn delete_prefix(&mut self, prefix: &str) -> (r: bool)
        ensures
            r == old(self).spec_enabled(),
            final(self).spec_enabled() == old(self).spec_enabled(),
            r ==> final(self).entries() == without_prefix(old(self).entries(), prefix@),
            !r ==> final(self).entries() == old(self).entries(),
    {
        if !self.enabled {
            return false;
        }
        self.store.delete_prefix(prefix);
        true
    }

    /// Whether a live entry is under `key` at second `now`.
    pub fn has_live(&self, key: &str, now: u64) -> (r: bool)
        ensures
            r == (self.spec_enabled() && read(self.entries(), key@, now) is Some),
    {
        if !self.enabled {
            return false;
        }
        self.store.get(key, now).is_some()
    }
}

proof fn lemma_lookup_without(es: Seq<EntryView>, key: Seq<char>)
    ensures
        lookup(without(es, key), key) is None,
    decreases es.len(),
{
    if es.len() > 0 {
        lemma_lookup_without(es.drop_last(), key);
        let w = without(es.drop_last(), key);
        if es.last().0 != key {
            assert(w.push(es.last()).drop_last() =~= w);
        }
    }
}

/// Cache round trip: a value written under a key at second `written_at` is
/// read back unchanged at any later second before its time to live runs
/// out, and a read at or after that second misses. Other keys are not
/// touched by the write.
pub proof fn lemma_cache_round_trip(
    es: Seq<EntryView>,
    key: Seq<char>,
    value: Seq<char>,
    ttl: Option<u64>,
    written_at: u64,
    read_at: u64,
    other: Seq<char>,
)
    requires
        written_at <= read_at,
        other != key,
    ensures
        (ttl is None || (read_at as int) < written_at + ttl->Some_0) ==> read(
            written(es, key, value, ttl, written_at),
            key,
            read_at,
        ) == Some(value),
        (ttl matches Some(d) && (read_at as int) >= written_at + d) ==> read(
            written(es, key, value, ttl, written_at),
            key,
            read_at,
        ) is None,
        read(written(es, key, value, ttl, written_at), other, read_at) == read(
            without(es, key),
            other,
            read_at,
        ),
{
    let w = without(es, key);
    assert(w.push((key, value, expiry(written_at, ttl))).drop_last() =~= w);
}

/// After a key is deleted, a read of it misses.
pub proof fn lemma_deleted_key_misses(es: Seq<EntryView>, key: Seq<char>, now: u64)
    ensures
        read(without(es, key), key, now) is None,
{
    lemma_lookup_without(es, key);
}

} // verus!
