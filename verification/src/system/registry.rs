//! The handler registry at the heart of the event system: which handlers
//! are registered under which event key, and the counters kept about them.

use crate::system::stats::{HandlerCategoryStats, HandlerStats};
use crate::text::{has_prefix, contains_infix, str_eq, str_starts_with, str_contains, push_decimal, decimal_text};
use vstd::prelude::*;
use vstd::string::StringExecFns;

verus! {

/// The registry as a sequence of (event key, handlers) entries.
pub type EntriesView<H> = Seq<(Seq<char>, Seq<H>)>;

/// No event key occurs twice.
pub open spec fn distinct_keys<H>(es: EntriesView<H>) -> bool {
    forall|i: int, j: int| 0 <= i < j < es.len() ==> es[i].0 != es[j].0
}

/// Every entry holds at least one handler.
pub open spec fn nonempty_lists<H>(es: EntriesView<H>) -> bool {
    forall|i: int| 0 <= i < es.len() ==> (#[trigger] es[i]).1.len() > 0
}

/// Whether an entry has the key.
pub open spec fn has_key<H>(es: EntriesView<H>, key: Seq<char>) -> bool {
    exists|i: int| 0 <= i < es.len() && (#[trigger] es[i]).0 == key
}

/// The handlers registered under a key (none when the key is absent).
pub open spec fn lookup<H>(es: EntriesView<H>, key: Seq<char>) -> Seq<H> {
    if has_key(es, key) {
        es[choose|i: int| 0 <= i < es.len() && (#[trigger] es[i]).0 == key].1
    } else {
        Seq::empty()
    }
}

/// The number of handlers in the entries whose key satisfies `pred`.
pub open spec fn count_where<H>(es: EntriesView<H>, pred: spec_fn(Seq<char>) -> bool) -> nat
    decreases es.len(),
{
    if es.len() == 0 {
        0
    } else {
        count_where(es.drop_last(), pred) + if pred(es.last().0) { es.last().1.len() } else { 0 }
    }
}

/// The number of handlers in all entries.
pub open spec fn count_all<H>(es: EntriesView<H>) -> nat {
    count_where(es, |k: Seq<char>| true)
}

/// Categories of event keys, by prefix.
#[derive(Debug, Clone, Copy, PartialEq, Eq, Structural)]
pub enum EventCategory {
    Core,
    Client,
    Plugin,
    GorcInstance,
    Gorc,
    Uncategorized,
}

/// The category of an event key, tested in the order core, client,
/// plugin, GORC instance, GORC.
pub open spec fn key_category(key: Seq<char>) -> EventCategory {
    if has_prefix(key, "core:"@) {
        EventCategory::Core
    } else if has_prefix(key, "client:"@) {
        EventCategory::Client
    } else if has_prefix(key, "plugin:"@) {
        EventCategory::Plugin
    } else if has_prefix(key, "gorc_instance:"@) {
        EventCategory::GorcInstance
    } else if has_prefix(key, "gorc:"@) {
        EventCategory::Gorc
    } else {
        EventCategory::Uncategorized
    }
}

/// The category of an event key.
pub fn categorize_key(key: &str) -> (c: EventCategory)
    ensures
        c == key_category(key@),
{
    if str_starts_with(key, "core:") {
        EventCategory::Core
    } else if str_starts_with(key, "client:") {
        EventCategory::Client
    } else if str_starts_with(key, "plugin:") {
        EventCategory::Plugin
    } else if str_starts_with(key, "gorc_instance:") {
        EventCategory::GorcInstance
    } else if str_starts_with(key, "gorc:") {
        EventCategory::Gorc
    } else {
        EventCategory::Uncategorized
    }
}

proof fn lemma_count_where_push<H>(es: EntriesView<H>, e: (Seq<char>, Seq<H>), pred: spec_fn(Seq<char>) -> bool)
    ensures
        count_where(es.push(e), pred) == count_where(es, pred) + if pred(e.0) { e.1.len() } else { 0 },
{
    assert(es.push(e).drop_last() =~= es);
}

proof fn lemma_count_where_le<H>(es: EntriesView<H>, pred: spec_fn(Seq<char>) -> bool)
    ensures
        count_where(es, pred) <= count_all(es),
    decreases es.len(),
{
    if es.len() > 0 {
        lemma_count_where_le(es.drop_last(), pred);
    }
}

proof fn lemma_count_where_update<H>(es: EntriesView<H>, i: int, e: (Seq<char>, Seq<H>), pred: spec_fn(Seq<char>) -> bool)
    requires
        0 <= i < es.len(),
        e.0 == es[i].0,
    ensures
        count_where(es.update(i, e), pred) + (if pred(e.0) { es[i].1.len() } else { 0 })
            == count_where(es, pred) + (if pred(e.0) { e.1.len() } else { 0 }),
    decreases es.len(),
{
    if i == es.len() - 1 {
        assert(es.update(i, e).drop_last() =~= es.drop_last());
    } else {
        lemma_count_where_update(es.drop_last(), i, e, pred);
        assert(es.update(i, e).drop_last() =~= es.drop_last().update(i, e));
    }
}

proof fn lemma_count_where_prefix<H>(es: EntriesView<H>, pred: spec_fn(Seq<char>) -> bool, n: int)
    requires
        0 <= n <= es.len(),
    ensures
        count_where(es.take(n), pred) <= count_where(es, pred),
    decreases es.len() - n,
{
    if n < es.len() {
        lemma_count_where_prefix(es, pred, n + 1);
        assert(es.take(n + 1).drop_last() =~= es.take(n));
    } else {
        assert(es.take(n) =~= es);
    }
}

proof fn lemma_lookup_at<H>(es: EntriesView<H>, i: int)
    requires
        distinct_keys(es),
        0 <= i < es.len(),
    ensures
        has_key(es, es[i].0),
        lookup(es, es[i].0) == es[i].1,
{
    assert(has_key(es, es[i].0));
    let j = choose|j: int| 0 <= j < es.len() && (#[trigger] es[j]).0 == es[i].0;
    if j != i {
        if j < i {
            assert(es[j].0 != es[i].0);
        } else {
            assert(es[i].0 != es[j].0);
        }
    }
}

proof fn lemma_lookup_push<H>(es: EntriesView<H>, e: (Seq<char>, Seq<H>), k: Seq<char>)
    requires
        distinct_keys(es.push(e)),
        k != e.0,
    ensures
        has_key(es.push(e), k) == has_key(es, k),
        lookup(es.push(e), k) == lookup(es, k),
{
    let ps = es.push(e);
    if has_key(es, k) {
        let j = choose|j: int| 0 <= j < es.len() && (#[trigger] es[j]).0 == k;
        assert(ps[j] == es[j]);
        assert(distinct_keys(es)) by {
            assert forall|a: int, b: int| 0 <= a < b < es.len() implies es[a].0 != es[b].0 by {
                assert(ps[a] == es[a] && ps[b] == es[b]);
            }
        }
        lemma_lookup_at(es, j);
        lemma_lookup_at(ps, j);
    } else if has_key(ps, k) {
        let j = choose|j: int| 0 <= j < ps.len() && (#[trigger] ps[j]).0 == k;
        assert(j < es.len());
        assert(es[j] == ps[j]);
    }
}

/// The entries whose key does not contain `pattern`.
pub open spec fn keeps<H>(pattern: Seq<char>) -> spec_fn((Seq<char>, Seq<H>)) -> bool {
    |e: (Seq<char>, Seq<H>)| !contains_infix(e.0, pattern)
}

/// Keys that contain `pattern`.
pub open spec fn matches_pattern(pattern: Seq<char>) -> spec_fn(Seq<char>) -> bool {
    |k: Seq<char>| contains_infix(k, pattern)
}

proof fn lemma_filter_entries<H>(es: EntriesView<H>, pattern: Seq<char>)
    requires
        distinct_keys(es),
        nonempty_lists(es),
    ensures
        distinct_keys(es.filter(keeps::<H>(pattern))),
        nonempty_lists(es.filter(keeps::<H>(pattern))),
        forall|k: Seq<char>| #[trigger] has_key(es.filter(keeps::<H>(pattern)), k) ==> has_key(es, k),
        forall|k: Seq<char>| contains_infix(k, pattern) ==> !#[trigger] has_key(es.filter(keeps::<H>(pattern)), k),
        forall|k: Seq<char>| !contains_infix(k, pattern) ==> #[trigger] lookup(es.filter(keeps::<H>(pattern)), k) == lookup(es, k),
        count_all(es.filter(keeps::<H>(pattern))) + count_where(es, matches_pattern(pattern)) == count_all(es),
    decreases es.len(),
{
    reveal(Seq::filter);
    let p = keeps::<H>(pattern);
    let f = es.filter(p);
    if es.len() == 0 {
        assert(count_all(f) == 0);
        assert forall|k: Seq<char>| #[trigger] has_key(f, k) implies has_key(es, k) by {}
        assert forall|k: Seq<char>| contains_infix(k, pattern) implies !#[trigger] has_key(f, k) by {}
    } else {
        let pre = es.drop_last();
        let e = es.last();
        assert(es =~= pre.push(e));
        assert(distinct_keys(pre)) by {
            assert forall|a: int, b: int| 0 <= a < b < pre.len() implies pre[a].0 != pre[b].0 by {
                assert(es[a] == pre[a] && es[b] == pre[b]);
            }
        }
        assert(nonempty_lists(pre)) by {
            assert forall|a: int| 0 <= a < pre.len() implies (#[trigger] pre[a]).1.len() > 0 by {
                assert(es[a] == pre[a]);
            }
        }
        lemma_filter_entries(pre, pattern);
        let fp = pre.filter(p);
        lemma_count_where_push(pre, e, matches_pattern(pattern));
        lemma_count_where_push(pre, e, |k: Seq<char>| true);
        assert(!has_key(pre, e.0)) by {
            if has_key(pre, e.0) {
                let j = choose|j: int| 0 <= j < pre.len() && (#[trigger] pre[j]).0 == e.0;
                assert(es[j].0 == es[es.len() - 1].0);
            }
        }
        if p(e) {
            assert(f == fp.push(e));
            lemma_count_where_push(fp, e, |k: Seq<char>| true);
            assert(distinct_keys(f)) by {
                assert forall|a: int, b: int| 0 <= a < b < f.len() implies f[a].0 != f[b].0 by {
                    if b == f.len() - 1 {
                        assert(f[a] == fp[a]);
                        if f[a].0 == e.0 {
                            assert(has_key(fp, e.0));
                        }
                    } else {
                        assert(f[a] == fp[a] && f[b] == fp[b]);
                    }
                }
            }
            assert(nonempty_lists(f)) by {
                assert forall|a: int| 0 <= a < f.len() implies (#[trigger] f[a]).1.len() > 0 by {
                    if a < fp.len() {
                        assert(f[a] == fp[a]);
                    } else {
                        assert(e == es[es.len() - 1]);
                    }
                }
            }
            assert forall|k: Seq<char>| #[trigger] has_key(f, k) implies has_key(es, k) by {
                if k == e.0 {
                    assert(es[es.len() - 1].0 == k);
                } else {
                    lemma_lookup_push(fp, e, k);
                    let j = choose|j: int| 0 <= j < pre.len() && (#[trigger] pre[j]).0 == k;
                    assert(es[j] == pre[j]);
                }
            }
            assert forall|k: Seq<char>| contains_infix(k, pattern) implies !#[trigger] has_key(f, k) by {
                lemma_lookup_push(fp, e, k);
            }
            assert forall|k: Seq<char>| !contains_infix(k, pattern) implies #[trigger] lookup(f, k) == lookup(es, k) by {
                if k == e.0 {
                    lemma_lookup_at(f, f.len() - 1);
                    lemma_lookup_at(es, es.len() - 1);
                } else {
                    lemma_lookup_push(fp, e, k);
                    lemma_lookup_push(pre, e, k);
                }
            }
        } else {
            assert(f == fp);
            assert forall|k: Seq<char>| #[trigger] has_key(f, k) implies has_key(es, k) by {
                let j = choose|j: int| 0 <= j < pre.len() && (#[trigger] pre[j]).0 == k;
                assert(es[j] == pre[j]);
            }
            assert forall|k: Seq<char>| !contains_infix(k, pattern) implies #[trigger] lookup(f, k) == lookup(es, k) by {
                lemma_lookup_push(pre, e, k);
            }
        }
    }
}

proof fn lemma_count_where_split<H>(es: EntriesView<H>)
    ensures
        count_all(es) == count_where(es, |k: Seq<char>| key_category(k) == EventCategory::Core)
            + count_where(es, |k: Seq<char>| key_category(k) == EventCategory::Client)
            + count_where(es, |k: Seq<char>| key_category(k) == EventCategory::Plugin)
            + count_where(es, |k: Seq<char>| key_category(k) == EventCategory::GorcInstance)
            + count_where(es, |k: Seq<char>| key_category(k) == EventCategory::Gorc)
            + count_where(es, |k: Seq<char>| key_category(k) == EventCategory::Uncategorized),
    decreases es.len(),
{
    if es.len() > 0 {
        lemma_count_where_split(es.drop_last());
    }
}

/// The issue reported for a key without handlers.
pub open spec fn no_handlers_issue(key: Seq<char>) -> Seq<char> {
    "Event key '"@ + key + "' has no handlers"@
}

/// The issue reported for a key with more than a hundred handlers.
pub open spec fn excessive_handlers_issue(key: Seq<char>, n: nat) -> Seq<char> {
    "Event key '"@ + key + "' has excessive handlers: "@ + decimal_text(n)
}

/// The issue reported for a large number of GORC objects.
pub open spec fn high_object_count_issue(n: nat) -> Seq<char> {
    "High number of GORC objects: "@ + decimal_text(n)
}

/// The issues of one entry.
pub open spec fn entry_issues(key: Seq<char>, n: nat) -> Seq<Seq<char>> {
    (if n == 0 { seq![no_handlers_issue(key)] } else { Seq::empty() })
        + (if n > 100 { seq![excessive_handlers_issue(key, n)] } else { Seq::empty() })
}

/// The issues of all entries, in order.
pub open spec fn registry_issues<H>(es: EntriesView<H>) -> Seq<Seq<char>>
    decreases es.len(),
{
    if es.len() == 0 {
        Seq::empty()
    } else {
        registry_issues(es.drop_last()) + entry_issues(es.last().0, es.last().1.len())
    }
}

/// The issues reported by validation, given the number of GORC objects
/// when an instance manager is attached.
pub open spec fn validation_issues<H>(es: EntriesView<H>, gorc_objects: Option<u64>) -> Seq<Seq<char>> {
    registry_issues(es) + match gorc_objects {
        Some(n) => if n > 10000 { seq![high_object_count_issue(n as nat)] } else { Seq::empty() },
        None => Seq::empty(),
    }
}

fn no_handlers_message(key: &str) -> (r: String)
    ensures
        r@ == no_handlers_issue(key@),
{
    let mut s = "Event key '".to_owned();
    s.append(key);
    s.append("' has no handlers");
    s
}

fn excessive_handlers_message(key: &str, n: u64) -> (r: String)
    ensures
        r@ == excessive_handlers_issue(key@, n as nat),
{
    let mut s = "Event key '".to_owned();
    s.append(key);
    s.append("' has excessive handlers: ");
    push_decimal(&mut s, n);
    s
}

fn high_object_count_message(n: u64) -> (r: String)
    ensures
        r@ == high_object_count_issue(n as nat),
{
    let mut s = "High number of GORC objects: ".to_owned();
    push_decimal(&mut s, n);
    s
}

/// The views of a list of strings.
pub open spec fn string_views(v: Seq<String>) -> Seq<Seq<char>> {
    v.map_values(|s: String| s@)
}

/// The handler registry and its counters.
pub struct HandlerRegistry<H> {
    entries: Vec<(String, Vec<H>)>,
    stats: HandlerStats,
}

impl<H> HandlerRegistry<H> {
    /// The entries: event keys with their handlers, in registration order of
    /// the keys.
    pub closed spec fn entries(&self) -> EntriesView<H> {
        self.entries@.map_values(|e: (String, Vec<H>)| (e.0@, e.1@))
    }

    /// The counters.
    pub closed spec fn counters(&self) -> HandlerStats {
        self.stats
    }

    /// Keys are distinct and the handler count matches the handlers held.
    pub open spec fn wf(&self) -> bool {
        &&& distinct_keys(self.entries())
        &&& nonempty_lists(self.entries())
        &&& self.counters().total_handlers == count_all(self.entries())
    }

    /// Creates an empty registry.
    pub fn new() -> (r: Self)
        ensures
            r.wf(),
            r.entries().len() == 0,
            r.counters() == (HandlerStats { total_handlers: 0, events_emitted: 0, gorc_events_emitted: 0 }),
    {
        let r = HandlerRegistry {
            entries: Vec::new(),
            stats: HandlerStats { total_handlers: 0, events_emitted: 0, gorc_events_emitted: 0 },
        };
        assert(r.entries() =~= Seq::<(Seq<char>, Seq<H>)>::empty());
        r
    }

    /// The current counters.
    pub fn get_stats(&self) -> (s: HandlerStats)
        ensures
            s == self.counters(),
    {
        self.stats
    }

    fn find(&self, key: &str) -> (r: Option<usize>)
        ensures
            match r {
                Some(i) => i < self.entries().len() && self.entries()[i as int].0 == key@,
                None => !has_key(self.entries(), key@),
            },
    {
        let mut i: usize = 0;
        while i < self.entries.len()
            invariant
                i <= self.entries@.len(),
                self.entries().len() == self.entries@.len(),
                forall|k: int| 0 <= k < i ==> self.entries()[k].0 != key@,
            decreases self.entries@.len() - i,
        {
            if str_eq(self.entries[i].0.as_str(), key) {
                return Some(i);
            }
            i = i + 1;
        }
        None
    }

    /// The handlers registered under an event key.
    pub fn handlers_for(&self, event_key: &str) -> (r: Option<&Vec<H>>)
        requires
            self.wf(),
        ensures
            match r {
                Some(v) => has_key(self.entries(), event_key@) && v@ == lookup(self.entries(), event_key@),
                None => !has_key(self.entries(), event_key@),
            },
    {
        match self.find(event_key) {
            Some(i) => {
                proof {
                    lemma_lookup_at(self.entries(), i as int);
                }
                Some(&self.entries[i].1)
            },
            None => None,
        }
    }

    /// Whether handlers are registered under an event key.
    pub fn has_handlers(&self, event_key: &str) -> (r: bool)
        ensures
            r == has_key(self.entries(), event_key@),
    {
        self.find(event_key).is_some()
    }

    /// The number of handlers registered under an event key (zero when
    /// none are).
    pub fn get_handler_count(&self, event_key: &str) -> (r: usize)
        requires
            self.wf(),
        ensures
            r == lookup(self.entries(), event_key@).len(),
    {
        match self.find(event_key) {
            Some(i) => {
                proof {
                    lemma_lookup_at(self.entries(), i as int);
                }
                self.entries[i].1.len()
            },
            None => 0,
        }
    }

    /// The registered event keys, in the order they were first registered.
    pub fn get_registered_events(&self) -> (r: Vec<String>)
        ensures
            string_views(r@) == self.entries().map_values(|e: (Seq<char>, Seq<H>)| e.0),
    {
        let mut out: Vec<String> = Vec::new();
        let mut i: usize = 0;
        while i < self.entries.len()
            invariant
                i <= self.entries@.len(),
                self.entries().len() == self.entries@.len(),
                out@.len() == i,
                forall|k: int| 0 <= k < i ==> (#[trigger] out@[k])@ == self.entries()[k].0,
            decreases self.entries@.len() - i,
        {
            out.push(self.entries[i].0.clone());
            i = i + 1;
        }
        assert(string_views(out@) =~= self.entries().map_values(|e: (Seq<char>, Seq<H>)| e.0));
        out
    }

    /// Counts an emission under an event key: when handlers are registered
    /// under it, the emitted-events counter grows by one, and the GORC
    /// counter too when the key starts with "gorc". Returns whether
    /// handlers were registered.
    pub fn record_emission(&mut self, event_key: &str) -> (r: bool)
        requires
            old(self).counters().events_emitted < u64::MAX,
            old(self).counters().gorc_events_emitted < u64::MAX,
        ensures
            r == has_key(old(self).entries(), event_key@),
            final(self).entries() == old(self).entries(),
            final(self).counters().total_handlers == old(self).counters().total_handlers,
            final(self).counters().events_emitted == old(self).counters().events_emitted + if r { 1int } else { 0 },
            final(self).counters().gorc_events_emitted == old(self).counters().gorc_events_emitted
                + if r && has_prefix(event_key@, "gorc"@) { 1int } else { 0 },
    {
        let found = self.find(event_key).is_some();
        if found {
            self.stats.events_emitted = self.stats.events_emitted + 1;
            if str_starts_with(event_key, "gorc") {
                self.stats.gorc_events_emitted = self.stats.gorc_events_emitted + 1;
            }
        }
        found
    }

    /// Removes every entry whose key contains `pattern`, and returns how
    /// many handlers were removed.
    pub fn remove_handlers(&mut self, pattern: &str) -> (removed: usize)
        requires
            old(self).wf(),
        ensures
            final(self).wf(),
            final(self).entries() == old(self).entries().filter(keeps::<H>(pattern@)),
            removed == count_where(old(self).entries(), matches_pattern(pattern@)),
            forall|k: Seq<char>| contains_infix(k, pattern@) ==> !#[trigger] has_key(final(self).entries(), k),
            forall|k: Seq<char>| !contains_infix(k, pattern@)
                ==> #[trigger] lookup(final(self).entries(), k) == lookup(old(self).entries(), k),
            final(self).counters() == (HandlerStats {
                total_handlers: (old(self).counters().total_handlers - removed) as usize,
                ..old(self).counters()
            }),
    {
        let ghost es = self.entries();
        let ghost p = keeps::<H>(pattern@);
        let ghost m = matches_pattern(pattern@);
        let mut rest: Vec<(String, Vec<H>)> = Vec::new();
        std::mem::swap(&mut rest, &mut self.entries);
        let ghost orig = rest@;
        let mut kept: Vec<(String, Vec<H>)> = Vec::new();
        let mut removed: usize = 0;
        let ghost mut i: int = 0;
        proof {
            lemma_count_where_le(es, m);
        }
        while rest.len() > 0
            invariant
                0 <= i <= orig.len(),
                es == orig.map_values(|e: (String, Vec<H>)| (e.0@, e.1@)),
                rest@ == orig.subrange(i, orig.len() as int),
                kept@.map_values(|e: (String, Vec<H>)| (e.0@, e.1@)) == es.take(i).filter(p),
                removed == count_where(es.take(i), m),
                count_where(es, m) <= count_all(es),
                count_all(es) <= usize::MAX,
                p == keeps::<H>(pattern@),
                m == matches_pattern(pattern@),
            decreases rest@.len(),
        {
            let entry = rest.remove(0);
            let ghost e = (entry.0@, entry.1@);
            proof {
                reveal(Seq::filter);
                assert(es.take(i + 1).drop_last() =~= es.take(i));
                assert(es.take(i + 1).last() == e);
                assert(es.take(i + 1) =~= es.take(i).push(e));
                lemma_count_where_push(es.take(i), e, m);
                lemma_count_where_prefix(es, m, i + 1);
            }
            if str_contains(entry.0.as_str(), pattern) {
                removed = removed + entry.1.len();
            } else {
                kept.push(entry);
            }
            proof {
                i = i + 1;
                assert(kept@.map_values(|e: (String, Vec<H>)| (e.0@, e.1@)) =~= es.take(i).filter(p));
            }
        }
        proof {
            assert(es.take(i) =~= es);
            lemma_filter_entries(es, pattern@);
        }
        self.entries = kept;
        self.stats.total_handlers = self.stats.total_handlers.saturating_sub(removed);
        removed
    }

    /// The number of handlers in each category of event keys.
    pub fn handler_count_by_category(&self) -> (r: HandlerCategoryStats)
        requires
            self.wf(),
        ensures
            r.core_handlers == count_where(self.entries(), |k: Seq<char>| key_category(k) == EventCategory::Core),
            r.client_handlers == count_where(self.entries(), |k: Seq<char>| key_category(k) == EventCategory::Client),
            r.plugin_handlers == count_where(self.entries(), |k: Seq<char>| key_category(k) == EventCategory::Plugin),
            r.gorc_instance_handlers == count_where(self.entries(), |k: Seq<char>| key_category(k) == EventCategory::GorcInstance),
            r.gorc_handlers == count_where(self.entries(), |k: Seq<char>| key_category(k) == EventCategory::Gorc),
    {
        let ghost es = self.entries();
        let mut r = HandlerCategoryStats {
            core_handlers: 0,
            client_handlers: 0,
            plugin_handlers: 0,
            gorc_handlers: 0,
            gorc_instance_handlers: 0,
        };
        let mut other: usize = 0;
        let mut i: usize = 0;
        proof {
            lemma_count_where_split(es);
        }
        while i < self.entries.len()
            invariant
                i <= self.entries@.len(),
                es == self.entries(),
                es.len() == self.entries@.len(),
                count_all(es) <= usize::MAX,
                r.core_handlers == count_where(es.take(i as int), |k: Seq<char>| key_category(k) == EventCategory::Core),
                r.client_handlers == count_where(es.take(i as int), |k: Seq<char>| key_category(k) == EventCategory::Client),
                r.plugin_handlers == count_where(es.take(i as int), |k: Seq<char>| key_category(k) == EventCategory::Plugin),
                r.gorc_instance_handlers == count_where(es.take(i as int), |k: Seq<char>| key_category(k) == EventCategory::GorcInstance),
                r.gorc_handlers == count_where(es.take(i as int), |k: Seq<char>| key_category(k) == EventCategory::Gorc),
                other == count_where(es.take(i as int), |k: Seq<char>| key_category(k) == EventCategory::Uncategorized),
            decreases self.entries@.len() - i,
        {
            let ghost t = es.take(i + 1);
            proof {
                assert(t.drop_last() =~= es.take(i as int));
                lemma_count_where_split(t);
                lemma_count_where_prefix(es, |k: Seq<char>| true, i + 1);
            }
            let n = self.entries[i].1.len();
            match categorize_key(self.entries[i].0.as_str()) {
                EventCategory::Core => { r.core_handlers = r.core_handlers + n; },
                EventCategory::Client => { r.client_handlers = r.client_handlers + n; },
                EventCategory::Plugin => { r.plugin_handlers = r.plugin_handlers + n; },
                EventCategory::GorcInstance => { r.gorc_instance_handlers = r.gorc_instance_handlers + n; },
                EventCategory::Gorc => { r.gorc_handlers = r.gorc_handlers + n; },
                EventCategory::Uncategorized => { other = other + n; },
            }
            i = i + 1;
        }
        assert(es.take(i as int) =~= es);
        r
    }

    /// Reports configuration issues: keys without handlers, keys with more
    /// than a hundred handlers, and, given the number of GORC objects when
    /// an instance manager is attached, more than ten thousand objects.
    pub fn validate(&self, gorc_objects: Option<u64>) -> (issues: Vec<String>)
        ensures
            string_views(issues@) == validation_issues(self.entries(), gorc_objects),
    {
        let ghost es = self.entries();
        let mut issues: Vec<String> = Vec::new();
        let mut i: usize = 0;
        while i < self.entries.len()
            invariant
                i <= self.entries@.len(),
                es == self.entries(),
                es.len() == self.entries@.len(),
                string_views(issues@) == registry_issues(es.take(i as int)),
            decreases self.entries@.len() - i,
        {
            let ghost before = issues@;
            let key = self.entries[i].0.as_str();
            let n = self.entries[i].1.len();
            if n == 0 {
                issues.push(no_handlers_message(key));
            }
            if n > 100 {
                issues.push(excessive_handlers_message(key, n as u64));
            }
            proof {
                assert(es.take(i + 1).drop_last() =~= es.take(i as int));
                assert(string_views(issues@) =~= string_views(before) + entry_issues(es[i as int].0, es[i as int].1.len()));
            }
            i = i + 1;
        }
        assert(es.take(i as int) =~= es);
        let ghost before = issues@;
        match gorc_objects {
            Some(n) => {
                if n > 10000 {
                    issues.push(high_object_count_message(n));
                }
            },
            None => {},
        }
        assert(string_views(issues@) =~= validation_issues(es, gorc_objects));
        issues
    }

    /// Registers a handler under an event key; the handler count grows by
    /// one.
    pub fn register_handler(&mut self, event_key: &str, handler: H)
        requires
            old(self).wf(),
            old(self).counters().total_handlers < usize::MAX,
        ensures
            final(self).wf(),
            has_key(old(self).entries(), event_key@) ==> exists|i: int|
                0 <= i < old(self).entries().len() && old(self).entries()[i].0 == event_key@
                && final(self).entries() == old(self).entries().update(i, (event_key@, old(self).entries()[i].1.push(handler))),
            !has_key(old(self).entries(), event_key@) ==> final(self).entries() == old(self).entries().push((event_key@, seq![handler])),
            lookup(final(self).entries(), event_key@) == lookup(old(self).entries(), event_key@).push(handler),
            forall|k: Seq<char>| k != event_key@ ==> #[trigger] lookup(final(self).entries(), k) == lookup(old(self).entries(), k),
            final(self).counters() == (HandlerStats { total_handlers: (old(self).counters().total_handlers + 1) as usize, ..old(self).counters() }),
    {
        let ghost es = self.entries();
        match self.find(event_key) {
            Some(i) => {
                let mut entry = self.entries.remove(i);
                entry.1.push(handler);
                self.entries.insert(i, entry);
                let ghost ne = (event_key@, es[i as int].1.push(handler));
                proof {
                    assert(self.entries() =~= es.update(i as int, ne));
                    lemma_count_where_update(es, i as int, ne, |k: Seq<char>| true);
                    lemma_lookup_at(self.entries(), i as int);
                    lemma_lookup_at(es, i as int);
                    assert forall|k: Seq<char>| k != event_key@ implies #[trigger] lookup(self.entries(), k) == lookup(es, k) by {
                        if has_key(es, k) {
                            let j = choose|j: int| 0 <= j < es.len() && (#[trigger] es[j]).0 == k;
                            lemma_lookup_at(es, j);
                            lemma_lookup_at(self.entries(), j);
                        } else {
                            if has_key(self.entries(), k) {
                                let j = choose|j: int| 0 <= j < self.entries().len() && (#[trigger] self.entries()[j]).0 == k;
                                assert(es[j].0 == k);
                            }
                        }
                    }
                }
            },
            None => {
                let mut list: Vec<H> = Vec::new();
                list.push(handler);
                self.entries.push((event_key.to_owned(), list));
                let ghost ne = (event_key@, seq![handler]);
                proof {
                    assert(self.entries() =~= es.push(ne));
                    lemma_count_where_push(es, ne, |k: Seq<char>| true);
                    lemma_lookup_at(self.entries(), es.len() as int);
                    assert forall|k: Seq<char>| k != event_key@ implies #[trigger] lookup(self.entries(), k) == lookup(es, k) by {
                        if has_key(es, k) {
                            let j = choose|j: int| 0 <= j < es.len() && (#[trigger] es[j]).0 == k;
                            lemma_lookup_at(es, j);
                            lemma_lookup_at(self.entries(), j);
                        } else {
                            if has_key(self.entries(), k) {
                                let j = choose|j: int| 0 <= j < self.entries().len() && (#[trigger] self.entries()[j]).0 == k;
                                assert(es[j].0 == k);
                            }
                        }
                    }
                }
            },
        }
        self.stats.total_handlers = self.stats.total_handlers + 1;
    }
}

proof fn lemma_no_issues<H>(es: EntriesView<H>)
    requires
        forall|i: int| 0 <= i < es.len() ==> 0 < (#[trigger] es[i]).1.len() <= 100,
    ensures
        registry_issues(es) == Seq::<Seq<char>>::empty(),
    decreases es.len(),
{
    if es.len() > 0 {
        let pre = es.drop_last();
        assert forall|i: int| 0 <= i < pre.len() implies 0 < (#[trigger] pre[i]).1.len() <= 100 by {
            assert(pre[i] == es[i]);
        }
        lemma_no_issues(pre);
        assert(es.last() == es[es.len() - 1]);
        assert(entry_issues(es.last().0, es.last().1.len()) =~= Seq::<Seq<char>>::empty());
        assert(registry_issues(es) =~= Seq::<Seq<char>>::empty());
    }
}

/// In a well-formed registry every registered key has at least one
/// handler: registering adds a handler, and removal drops whole entries.
pub proof fn law_registered_keys_have_handlers<H>(reg: &HandlerRegistry<H>, key: Seq<char>)
    requires
        reg.wf(),
        has_key(reg.entries(), key),
    ensures
        lookup(reg.entries(), key).len() > 0,
{
    let es = reg.entries();
    let j = choose|j: int| 0 <= j < es.len() && (#[trigger] es[j]).0 == key;
    lemma_lookup_at(es, j);
}

/// Validation of a well-formed registry reports nothing while no key has
/// more than a hundred handlers and no instance manager reports more than
/// ten thousand objects.
pub proof fn law_validation_clean<H>(reg: &HandlerRegistry<H>, gorc_objects: Option<u64>)
    requires
        reg.wf(),
        forall|k: Seq<char>| has_key(reg.entries(), k) ==> #[trigger] lookup(reg.entries(), k).len() <= 100,
        match gorc_objects { Some(n) => n <= 10000, None => true },
    ensures
        validation_issues(reg.entries(), gorc_objects) == Seq::<Seq<char>>::empty(),
{
    let es = reg.entries();
    assert forall|i: int| 0 <= i < es.len() implies 0 < (#[trigger] es[i]).1.len() <= 100 by {
        lemma_lookup_at(es, i);
        assert(lookup(es, es[i].0).len() <= 100);
    }
    lemma_no_issues(es);
    assert(validation_issues(es, gorc_objects) =~= Seq::<Seq<char>>::empty());
}

} // verus!
