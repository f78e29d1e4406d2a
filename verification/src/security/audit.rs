//! The audit ledger: an append-only record of security actions with
//! filtered queries, reports and retention-based cleanup.

use vstd::prelude::*;
use crate::error::DreasError;
use crate::metadata::Metadata;
use crate::sequences::{lemma_filter_empty, lemma_filter_members, lemma_filter_push};
use crate::string_map::StringMap;
use crate::text::{
    clone_opt_text, clone_texts, contains_text, opt_text, same_opt_text, text_views,
};
use crate::time::{current_time, Timestamp};
use crate::unique_id::fresh_id;

verus! {

/// How the recorded action ended.
#[derive(Clone, Copy, Debug, PartialEq, Eq, Structural)]
pub enum AuditResult {
    Success,
    Failure,
    Partial,
}

/// One record of the ledger. It is never changed after it was appended.
#[derive(Debug)]
pub struct AuditEntry {
    pub entry_id: u128,
    pub timestamp: Timestamp,
    pub user_id: Option<String>,
    pub session_id: Option<String>,
    pub action: String,
    pub resource: String,
    pub result: AuditResult,
    pub ip_address: Option<String>,
    pub user_agent: Option<String>,
    pub metadata: Metadata,
    /// Set for the actions that the ledger treats as sensitive.
    pub elevated: bool,
}

/// The mathematical value of an [`AuditEntry`].
pub struct AuditEntryView {
    pub entry_id: u128,
    pub timestamp: Timestamp,
    pub user_id: Option<Seq<char>>,
    pub session_id: Option<Seq<char>>,
    pub action: Seq<char>,
    pub resource: Seq<char>,
    pub result: AuditResult,
    pub ip_address: Option<Seq<char>>,
    pub user_agent: Option<Seq<char>>,
    pub metadata: Map<Seq<char>, Seq<char>>,
    pub elevated: bool,
}

impl View for AuditEntry {
    type V = AuditEntryView;

    open spec fn view(&self) -> AuditEntryView {
        AuditEntryView {
            entry_id: self.entry_id,
            timestamp: self.timestamp,
            user_id: opt_text(self.user_id),
            session_id: opt_text(self.session_id),
            action: self.action@,
            resource: self.resource@,
            result: self.result,
            ip_address: opt_text(self.ip_address),
            user_agent: opt_text(self.user_agent),
            metadata: self.metadata@,
            elevated: self.elevated,
        }
    }
}

impl Clone for AuditEntry {
    fn clone(&self) -> (r: Self)
        ensures
            r@ == self@,
    {
        AuditEntry {
            entry_id: self.entry_id,
            timestamp: self.timestamp,
            user_id: clone_opt_text(&self.user_id),
            session_id: clone_opt_text(&self.session_id),
            action: self.action.clone(),
            resource: self.resource.clone(),
            result: self.result,
            ip_address: clone_opt_text(&self.ip_address),
            user_agent: clone_opt_text(&self.user_agent),
            metadata: self.metadata.clone(),
            elevated: self.elevated,
        }
    }
}

/// The entries of a vector by their values.
pub open spec fn entry_views(entries: Seq<AuditEntry>) -> Seq<AuditEntryView> {
    entries.map_values(|e: AuditEntry| e@)
}

/// The actions that every ledger treats as sensitive.
pub open spec fn sensitive_actions() -> Seq<Seq<char>> {
    seq![
        "key_escrow"@,
        "key_recovery"@,
        "user_authentication"@,
        "permission_change"@,
        "data_encryption"@,
        "data_decryption"@,
    ]
}

/// The entry that the ledger appends for one logged operation.
pub open spec fn recorded_entry(
    entry_id: u128,
    timestamp: Timestamp,
    user_id: Option<Seq<char>>,
    session_id: Option<Seq<char>>,
    action: Seq<char>,
    resource: Seq<char>,
    result: AuditResult,
    metadata: Map<Seq<char>, Seq<char>>,
    sensitive: Seq<Seq<char>>,
) -> AuditEntryView {
    AuditEntryView {
        entry_id,
        timestamp,
        user_id,
        session_id,
        action,
        resource,
        result,
        ip_address: None,
        user_agent: None,
        metadata,
        elevated: sensitive.contains(action),
    }
}

/// The annotations of an optional [`Metadata`]; none where it is absent.
pub open spec fn metadata_or_empty(metadata: Option<Metadata>) -> Map<Seq<char>, Seq<char>> {
    match metadata {
        Some(m) => m@,
        None => Map::empty(),
    }
}

/// What a query asks of each entry. The conditions that are present must
/// all hold; `limit` caps the number of entries returned.
#[derive(Debug)]
pub struct AuditQuery {
    pub start_date: Option<Timestamp>,
    pub end_date: Option<Timestamp>,
    pub user_id: Option<String>,
    pub action: Option<String>,
    pub resource: Option<String>,
    pub result: Option<AuditResult>,
    pub limit: Option<usize>,
}

/// The mathematical value of an [`AuditQuery`].
pub struct AuditQueryView {
    pub start_date: Option<Timestamp>,
    pub end_date: Option<Timestamp>,
    pub user_id: Option<Seq<char>>,
    pub action: Option<Seq<char>>,
    pub resource: Option<Seq<char>>,
    pub result: Option<AuditResult>,
    pub limit: Option<usize>,
}

impl View for AuditQuery {
    type V = AuditQueryView;

    open spec fn view(&self) -> AuditQueryView {
        AuditQueryView {
            start_date: self.start_date,
            end_date: self.end_date,
            user_id: opt_text(self.user_id),
            action: opt_text(self.action),
            resource: opt_text(self.resource),
            result: self.result,
            limit: self.limit,
        }
    }
}

/// Whether an entry meets every condition that the query holds.
pub open spec fn entry_matches(e: AuditEntryView, q: AuditQueryView) -> bool {
    &&& q.start_date matches Some(start) ==> start.le(e.timestamp)
    &&& q.end_date matches Some(end) ==> e.timestamp.le(end)
    &&& q.user_id is Some ==> e.user_id == q.user_id
    &&& q.action matches Some(action) ==> e.action == action
    &&& q.resource matches Some(resource) ==> e.resource == resource
    &&& q.result matches Some(result) ==> e.result == result
}

/// The entries that meet the query, in ledger order.
pub open spec fn matching_entries(entries: Seq<AuditEntryView>, q: AuditQueryView) -> Seq<
    AuditEntryView,
> {
    entries.filter(|e: AuditEntryView| entry_matches(e, q))
}

/// `sorted` with `e` put behind every entry that is at least as new.
pub open spec fn place_newest_first(sorted: Seq<AuditEntryView>, e: AuditEntryView) -> Seq<
    AuditEntryView,
>
    decreases sorted.len(),
{
    if sorted.len() == 0 {
        seq![e]
    } else if e.timestamp.le(sorted.last().timestamp) {
        sorted.push(e)
    } else {
        place_newest_first(sorted.drop_last(), e).push(sorted.last())
    }
}

/// The entries ordered from newest to oldest; entries of one instant keep
/// the order that they had.
pub open spec fn newest_first(entries: Seq<AuditEntryView>) -> Seq<AuditEntryView>
    decreases entries.len(),
{
    if entries.len() == 0 {
        Seq::empty()
    } else {
        place_newest_first(newest_first(entries.drop_last()), entries.last())
    }
}

/// The first `limit` items of a sequence, or all of it.
pub open spec fn limited<A>(s: Seq<A>, limit: Option<usize>) -> Seq<A> {
    match limit {
        Some(n) => if n < s.len() {
            s.take(n as int)
        } else {
            s
        },
        None => s,
    }
}

/// What a query returns: the matching entries, newest first, cut at the
/// limit.
pub open spec fn query_result(entries: Seq<AuditEntryView>, q: AuditQueryView) -> Seq<
    AuditEntryView,
> {
    limited(newest_first(matching_entries(entries, q)), q.limit)
}

/// Whether a sequence of entries runs from newest to oldest.
pub open spec fn is_newest_first(s: Seq<AuditEntryView>) -> bool {
    forall|i: int, j: int|
        0 <= i < j < s.len() ==> (#[trigger] s[j]).timestamp.le((#[trigger] s[i]).timestamp)
}

/// Placing an entry into a sequence that runs from newest to oldest puts
/// it at the one place behind all entries that are at least as new and
/// before all older ones.
pub proof fn lemma_place_newest_first(sorted: Seq<AuditEntryView>, e: AuditEntryView, at: int)
    requires
        0 <= at <= sorted.len(),
        forall|j: int| at <= j < sorted.len() ==> !e.timestamp.le(sorted[j].timestamp),
        at > 0 ==> e.timestamp.le(sorted[at - 1].timestamp),
    ensures
        place_newest_first(sorted, e) == sorted.insert(at, e),
    decreases sorted.len(),
{
    if sorted.len() == 0 {
        assert(sorted.insert(at, e) =~= seq![e]);
    } else if at == sorted.len() {
        assert(sorted.insert(at, e) =~= sorted.push(e));
    } else {
        let front = sorted.drop_last();
        assert(!e.timestamp.le(sorted[sorted.len() - 1].timestamp));
        lemma_place_newest_first(front, e, at);
        assert(front.insert(at, e).push(sorted.last()) =~= sorted.insert(at, e));
    }
}

/// Placing an entry keeps a sequence running from newest to oldest, and
/// adds the entry to what the sequence holds and nothing else.
pub proof fn lemma_place_keeps_order(sorted: Seq<AuditEntryView>, e: AuditEntryView)
    requires
        is_newest_first(sorted),
    ensures
        is_newest_first(place_newest_first(sorted, e)),
        place_newest_first(sorted, e).to_multiset() == sorted.to_multiset().insert(e),
        place_newest_first(sorted, e).len() == sorted.len() + 1,
    decreases sorted.len(),
{
    broadcast use vstd::seq_lib::group_to_multiset_ensures;

    if sorted.len() == 0 {
        assert(seq![e] =~= Seq::<AuditEntryView>::empty().push(e));
    } else if e.timestamp.le(sorted.last().timestamp) {
        let out = sorted.push(e);
        assert forall|i: int, j: int| 0 <= i < j < out.len() implies (
        #[trigger] out[j]).timestamp.le((#[trigger] out[i]).timestamp) by {
            if j == sorted.len() {
                if i < sorted.len() - 1 {
                    assert(sorted[sorted.len() - 1].timestamp.le(sorted[i].timestamp));
                }
            } else {
                assert(sorted[j].timestamp.le(sorted[i].timestamp));
            }
        }
    } else {
        let front = sorted.drop_last();
        let last = sorted.last();
        assert(is_newest_first(front)) by {
            assert forall|i: int, j: int| 0 <= i < j < front.len() implies (
            #[trigger] front[j]).timestamp.le((#[trigger] front[i]).timestamp) by {
                assert(sorted[j].timestamp.le(sorted[i].timestamp));
            }
        }
        lemma_place_keeps_order(front, e);
        let placed = place_newest_first(front, e);
        let out = placed.push(last);
        assert(front.push(last) =~= sorted);
        assert forall|i: int| 0 <= i < placed.len() implies last.timestamp.le(
            #[trigger] placed[i].timestamp,
        ) by {
            assert(placed.to_multiset().count(placed[i]) > 0);
            if placed[i] == e {
            } else {
                assert(front.to_multiset().count(placed[i]) > 0);
                let k = choose|k: int| 0 <= k < front.len() && front[k] == placed[i];
                assert(sorted[k] == front[k]);
                assert(sorted[sorted.len() - 1].timestamp.le(sorted[k].timestamp));
            }
        }
        assert forall|i: int, j: int| 0 <= i < j < out.len() implies (
        #[trigger] out[j]).timestamp.le((#[trigger] out[i]).timestamp) by {
            if j < placed.len() {
                assert(placed[j].timestamp.le(placed[i].timestamp));
            } else {
                assert(last.timestamp.le(placed[i].timestamp));
            }
        }
        assert(out.to_multiset() =~= sorted.to_multiset().insert(e));
    }
}

/// The ordered entries run from newest to oldest and are the given
/// entries, each as often as it was given.
pub proof fn lemma_newest_first_is_ordered(entries: Seq<AuditEntryView>)
    ensures
        is_newest_first(newest_first(entries)),
        newest_first(entries).to_multiset() == entries.to_multiset(),
        newest_first(entries).len() == entries.len(),
    decreases entries.len(),
{
    broadcast use vstd::seq_lib::group_to_multiset_ensures;

    if entries.len() > 0 {
        lemma_newest_first_is_ordered(entries.drop_last());
        lemma_place_keeps_order(newest_first(entries.drop_last()), entries.last());
        assert(entries.drop_last().push(entries.last()) =~= entries);
    }
}

/// The matching entries of a ledger that got one more entry.
pub proof fn lemma_matching_entries_push(
    entries: Seq<AuditEntryView>,
    e: AuditEntryView,
    q: AuditQueryView,
)
    ensures
        matching_entries(entries.push(e), q) == if entry_matches(e, q) {
            matching_entries(entries, q).push(e)
        } else {
            matching_entries(entries, q)
        },
{
    lemma_filter_push(entries, e, |e: AuditEntryView| entry_matches(e, q));
}

/// Ordering a sequence that got one more entry places that entry into the
/// ordered rest.
pub proof fn lemma_newest_first_push(entries: Seq<AuditEntryView>, e: AuditEntryView)
    ensures
        newest_first(entries.push(e)) == place_newest_first(newest_first(entries), e),
{
    assert(entries.push(e).drop_last() =~= entries);
}

/// A query that no entry meets returns the empty sequence.
pub proof fn lemma_query_without_match_is_empty(entries: Seq<AuditEntryView>, q: AuditQueryView)
    requires
        forall|i: int| 0 <= i < entries.len() ==> !entry_matches(#[trigger] entries[i], q),
    ensures
        matching_entries(entries, q) == Seq::<AuditEntryView>::empty(),
        query_result(entries, q) == Seq::<AuditEntryView>::empty(),
    decreases entries.len(),
{
    if entries.len() > 0 {
        let front = entries.drop_last();
        lemma_query_without_match_is_empty(front, q);
        lemma_matching_entries_push(front, entries.last(), q);
        assert(front.push(entries.last()) =~= entries);
        assert(!entry_matches(entries[entries.len() - 1], q));
    } else {
        lemma_filter_empty(|e: AuditEntryView| entry_matches(e, q));
        assert(entries =~= Seq::<AuditEntryView>::empty());
    }
    assert(query_result(entries, q) =~= Seq::<AuditEntryView>::empty());
}

/// Whether an entry is still inside the retention window at `now`: its
/// time lies after the instant `days` whole days before `now`.
pub open spec fn within_retention(e: AuditEntryView, now: Timestamp, days: u32) -> bool {
    !e.timestamp.at_least_days_before(now, days as nat)
}

/// The entries that a cleanup at `now` keeps, in ledger order.
pub open spec fn retained_entries(entries: Seq<AuditEntryView>, now: Timestamp, days: u32) -> Seq<
    AuditEntryView,
> {
    entries.filter(|e: AuditEntryView| within_retention(e, now, days))
}

/// A cleanup never removes an entry that is inside the retention window
/// and removes every entry that is outside it: what it keeps is inside the
/// window and was in the ledger, and each entry of the ledger that is
/// inside the window is kept.
pub proof fn lemma_cleanup_keeps_exactly_recent(
    entries: Seq<AuditEntryView>,
    now: Timestamp,
    days: u32,
)
    ensures
        retained_entries(entries, now, days).len() <= entries.len(),
        forall|i: int|
            0 <= i < retained_entries(entries, now, days).len() ==> within_retention(
                #[trigger] retained_entries(entries, now, days)[i],
                now,
                days,
            ) && entries.contains(retained_entries(entries, now, days)[i]),
        forall|i: int|
            0 <= i < entries.len() && within_retention(entries[i], now, days)
                ==> retained_entries(entries, now, days).contains(#[trigger] entries[i]),
        forall|i: int|
            0 <= i < entries.len() && !within_retention(entries[i], now, days)
                ==> !retained_entries(entries, now, days).contains(#[trigger] entries[i]),
{
    let pred = |e: AuditEntryView| within_retention(e, now, days);
    lemma_filter_members(entries, pred);
    let kept = retained_entries(entries, now, days);
    assert forall|i: int|
        0 <= i < entries.len() && !within_retention(entries[i], now, days) implies !kept.contains(
        #[trigger] entries[i],
    ) by {
        if kept.contains(entries[i]) {
            let k = choose|k: int| 0 <= k < kept.len() && kept[k] == entries[i];
            assert(pred(kept[k]));
        }
    }
}

/// A snapshot of the ledger for health checks.
#[derive(Clone, Copy, Debug)]
pub struct AuditStats {
    pub audit_log_id: u128,
    pub total_entries: usize,
    pub retention_days: u32,
    pub sensitive_operations_tracked: usize,
    pub oldest_entry: Option<Timestamp>,
    pub newest_entry: Option<Timestamp>,
}

/// `t` is the earliest time among the entries; nothing where there is no
/// entry.
pub open spec fn is_oldest_time(entries: Seq<AuditEntryView>, t: Option<Timestamp>) -> bool {
    match t {
        None => entries.len() == 0,
        Some(t) => {
            &&& exists|i: int| 0 <= i < entries.len() && (#[trigger] entries[i]).timestamp == t
            &&& forall|i: int| 0 <= i < entries.len() ==> t.le((#[trigger] entries[i]).timestamp)
        },
    }
}

/// `t` is the latest time among the entries; nothing where there is no
/// entry.
pub open spec fn is_newest_time(entries: Seq<AuditEntryView>, t: Option<Timestamp>) -> bool {
    match t {
        None => entries.len() == 0,
        Some(t) => {
            &&& exists|i: int| 0 <= i < entries.len() && (#[trigger] entries[i]).timestamp == t
            &&& forall|i: int| 0 <= i < entries.len() ==> (#[trigger] entries[i]).timestamp.le(t)
        },
    }
}

/// The query that a report over the period from `start` to `end` makes.
pub open spec fn period_query(start: Timestamp, end: Timestamp) -> AuditQueryView {
    AuditQueryView {
        start_date: Some(start),
        end_date: Some(end),
        user_id: None,
        action: None,
        resource: None,
        result: None,
        limit: None,
    }
}

/// The test "ended with `result`".
pub open spec fn has_result(result: AuditResult) -> spec_fn(AuditEntryView) -> bool {
    |e: AuditEntryView| e.result == result
}

/// The test "the action is `action`".
pub open spec fn has_action(action: Seq<char>) -> spec_fn(AuditEntryView) -> bool {
    |e: AuditEntryView| e.action == action
}

/// The test "the user is `user`".
pub open spec fn has_user(user: Seq<char>) -> spec_fn(AuditEntryView) -> bool {
    |e: AuditEntryView| e.user_id == Some(user)
}

/// How many of the entries pass a test.
pub open spec fn count_of(entries: Seq<AuditEntryView>, test: spec_fn(AuditEntryView) -> bool)
    -> nat {
    entries.filter(test).len()
}

/// The counts of a report over `selected`.
#[derive(Debug)]
pub struct AuditReport {
    pub report_id: u128,
    pub generated_at: Timestamp,
    pub start_date: Timestamp,
    pub end_date: Timestamp,
    pub total_operations: usize,
    pub successful_operations: usize,
    pub failed_operations: usize,
    pub partial_operations: usize,
    /// For each action that occurs, the number of entries with it.
    pub action_breakdown: StringMap<usize>,
    /// For each user that occurs, the number of entries of that user.
    pub user_activity: StringMap<usize>,
    pub audit_log_id: u128,
}

impl AuditReport {
    /// The report states the counts over `selected`.
    pub open spec fn summarizes(&self, selected: Seq<AuditEntryView>) -> bool {
        &&& self.total_operations == selected.len()
        &&& self.successful_operations == count_of(selected, has_result(AuditResult::Success))
        &&& self.failed_operations == count_of(selected, has_result(AuditResult::Failure))
        &&& self.partial_operations == count_of(selected, has_result(AuditResult::Partial))
        &&& tallies(self.action_breakdown@, selected, |a: Seq<char>| has_action(a))
        &&& tallies(self.user_activity@, selected, |u: Seq<char>| has_user(u))
    }
}

/// `counts` holds, for exactly the keys whose test some entry passes, the
/// number of entries that pass it.
pub open spec fn tallies(
    counts: Map<Seq<char>, usize>,
    entries: Seq<AuditEntryView>,
    test_for: spec_fn(Seq<char>) -> spec_fn(AuditEntryView) -> bool,
) -> bool {
    &&& forall|k: Seq<char>| #[trigger]
        counts.contains_key(k) <==> count_of(entries, test_for(k)) > 0
    &&& forall|k: Seq<char>| #[trigger]
        counts.contains_key(k) ==> counts[k] == count_of(entries, test_for(k))
}

/// The counts of a sequence that got one more entry.
pub proof fn lemma_count_push(
    entries: Seq<AuditEntryView>,
    e: AuditEntryView,
    test: spec_fn(AuditEntryView) -> bool,
)
    ensures
        count_of(entries.push(e), test) == count_of(entries, test) + if test(e) {
            1nat
        } else {
            0nat
        },
        count_of(entries, test) <= entries.len(),
{
    lemma_filter_push(entries, e, test);
    lemma_filter_members(entries, test);
}

/// The ledger. Entries are appended at the end and leave only through
/// retention cleanup.
#[derive(Debug)]
pub struct AuditLogger {
    log_id: u128,
    retention_days: u32,
    audit_entries: Vec<AuditEntry>,
    sensitive_operations: Vec<String>,
}

impl Clone for AuditLogger {
    fn clone(&self) -> (r: Self)
        ensures
            r.entries() == self.entries(),
            r.unchanged_but_entries(self),
    {
        let mut entries: Vec<AuditEntry> = Vec::new();
        let mut i: usize = 0;
        while i < self.audit_entries.len()
            invariant
                i <= self.audit_entries.len(),
                entry_views(entries@) == self.entries().take(i as int),
            decreases self.audit_entries.len() - i,
        {
            let ghost prior = entry_views(entries@);
            let entry = self.audit_entries[i].clone();
            entries.push(entry);
            proof {
                assert(entry_views(entries@) =~= prior.push(entry@));
                assert(self.entries().take(i as int).push(self.entries()[i as int])
                    =~= self.entries().take(i as int + 1));
            }
            i += 1;
        }
        proof {
            assert(self.entries().take(self.audit_entries.len() as int) =~= self.entries());
        }
        AuditLogger {
            log_id: self.log_id,
            retention_days: self.retention_days,
            audit_entries: entries,
            sensitive_operations: clone_texts(&self.sensitive_operations),
        }
    }
}

impl AuditLogger {
    /// The identity of this ledger.
    pub closed spec fn log_id(&self) -> u128 {
        self.log_id
    }

    /// The days for which an entry is kept.
    pub closed spec fn retention_days(&self) -> u32 {
        self.retention_days
    }

    /// The entries, oldest insertion first.
    pub closed spec fn entries(&self) -> Seq<AuditEntryView> {
        entry_views(self.audit_entries@)
    }

    /// The actions that this ledger flags.
    pub closed spec fn sensitive_operations(&self) -> Seq<Seq<char>> {
        text_views(self.sensitive_operations@)
    }

    /// `self` is `before` with one more entry at its end, which records
    /// the given operation under some identity and some time. Nothing else
    /// of the ledger differs.
    pub open spec fn logged(
        &self,
        before: &AuditLogger,
        user_id: Option<Seq<char>>,
        session_id: Option<Seq<char>>,
        action: Seq<char>,
        resource: Seq<char>,
        result: AuditResult,
        metadata: Map<Seq<char>, Seq<char>>,
    ) -> bool {
        &&& self.entries().len() == before.entries().len() + 1
        &&& self.entries() == before.entries().push(
            recorded_entry(
                self.entries().last().entry_id,
                self.entries().last().timestamp,
                user_id,
                session_id,
                action,
                resource,
                result,
                metadata,
                before.sensitive_operations(),
            ),
        )
        &&& self.unchanged_but_entries(before)
    }

    /// `self` and `before` have the same identity, retention and flagged
    /// actions.
    pub open spec fn unchanged_but_entries(&self, before: &AuditLogger) -> bool {
        &&& self.log_id() == before.log_id()
        &&& self.retention_days() == before.retention_days()
        &&& self.sensitive_operations() == before.sensitive_operations()
    }

    /// An empty ledger that keeps entries for `retention_days` days and
    /// flags the six sensitive actions.
    pub fn new(retention_days: u32) -> (ledger: Self)
        ensures
            ledger.retention_days() == retention_days,
            ledger.entries() == Seq::<AuditEntryView>::empty(),
            ledger.sensitive_operations() == sensitive_actions(),
    {
        let mut sensitive: Vec<String> = Vec::new();
        sensitive.push("key_escrow".to_string());
        sensitive.push("key_recovery".to_string());
        sensitive.push("user_authentication".to_string());
        sensitive.push("permission_change".to_string());
        sensitive.push("data_encryption".to_string());
        sensitive.push("data_decryption".to_string());
        let ledger = AuditLogger {
            log_id: fresh_id(),
            retention_days,
            audit_entries: Vec::new(),
            sensitive_operations: sensitive,
        };
        proof {
            assert(ledger.sensitive_operations() =~= sensitive_actions());
            assert(ledger.entries() =~= Seq::<AuditEntryView>::empty());
        }
        ledger
    }

    /// Whether the ledger flags `action` as sensitive.
    pub fn is_sensitive(&self, action: &String) -> (flagged: bool)
        ensures
            flagged == self.sensitive_operations().contains(action@),
    {
        contains_text(&self.sensitive_operations, action)
    }

    /// Appends the entry for one operation, with the identity and the time
    /// that the caller hands in, and returns the identity.
    pub fn log_operation_at(
        &mut self,
        entry_id: u128,
        timestamp: Timestamp,
        user_id: Option<String>,
        session_id: Option<String>,
        action: String,
        resource: String,
        result: AuditResult,
        metadata: Option<Metadata>,
    ) -> (id: u128)
        ensures
            id == entry_id,
            final(self).entries() == old(self).entries().push(
                recorded_entry(
                    entry_id,
                    timestamp,
                    opt_text(user_id),
                    opt_text(session_id),
                    action@,
                    resource@,
                    result,
                    metadata_or_empty(metadata),
                    old(self).sensitive_operations(),
                ),
            ),
            final(self).unchanged_but_entries(old(self)),
    {
        let elevated = self.is_sensitive(&action);
        let entry = AuditEntry {
            entry_id,
            timestamp,
            user_id,
            session_id,
            action,
            resource,
            result,
            ip_address: None,
            user_agent: None,
            metadata: match metadata {
                Some(m) => m,
                None => Metadata::new(),
            },
            elevated,
        };
        self.audit_entries.push(entry);
        proof {
            assert(self.entries() =~= old(self).entries().push(entry@));
        }
        entry_id
    }

    /// Appends the entry for one operation under a fresh identity and the
    /// current time. It never refuses: the result is always `Ok` with the
    /// identity of the new entry, which is the last of the ledger.
    pub fn log_operation(
        &mut self,
        user_id: Option<String>,
        session_id: Option<String>,
        action: String,
        resource: String,
        result: AuditResult,
        metadata: Option<Metadata>,
    ) -> (r: Result<u128, DreasError>)
        ensures
            r is Ok,
            r->Ok_0 == final(self).entries().last().entry_id,
            final(self).logged(
                old(self),
                opt_text(user_id),
                opt_text(session_id),
                action@,
                resource@,
                result,
                metadata_or_empty(metadata),
            ),
    {
        let entry_id = fresh_id();
        let now = current_time();
        let id = self.log_operation_at(
            entry_id,
            now,
            user_id,
            session_id,
            action,
            resource,
            result,
            metadata,
        );
        Ok(id)
    }
    /// Whether `entry` meets every condition of `query`.
    pub fn matches_query(entry: &AuditEntry, query: &AuditQuery) -> (b: bool)
        ensures
            b == entry_matches(entry@, query@),
    {
        if let Some(start) = &query.start_date {
            if !start.is_at_or_before(&entry.timestamp) {
                return false;
            }
        }
        if let Some(end) = &query.end_date {
            if !entry.timestamp.is_at_or_before(end) {
                return false;
            }
        }
        if query.user_id.is_some() {
            if !same_opt_text(&entry.user_id, &query.user_id) {
                return false;
            }
        }
        if let Some(action) = &query.action {
            if !(entry.action == *action) {
                return false;
            }
        }
        if let Some(resource) = &query.resource {
            if !(entry.resource == *resource) {
                return false;
            }
        }
        if let Some(result) = &query.result {
            if !(entry.result == *result) {
                return false;
            }
        }
        true
    }

    /// The entries that meet `query`, newest first, at most `query.limit`
    /// of them. A query that nothing meets gives the empty vector; the
    /// result is never an error.
    pub fn query_audit_entries(&self, query: AuditQuery) -> (r: Result<Vec<AuditEntry>, DreasError>)
        ensures
            r is Ok,
            entry_views(r->Ok_0@) == query_result(self.entries(), query@),
    {
        let mut results: Vec<AuditEntry> = Vec::new();
        let mut i: usize = 0;
        while i < self.audit_entries.len()
            invariant
                i <= self.audit_entries.len(),
                entry_views(results@) == newest_first(
                    matching_entries(self.entries().take(i as int), query@),
                ),
            decreases self.audit_entries.len() - i,
        {
            let entry = &self.audit_entries[i];
            let ghost seen = self.entries().take(i as int);
            let ghost next = self.entries().take(i as int + 1);
            proof {
                assert(seen.push(entry@) =~= next);
                lemma_matching_entries_push(seen, entry@, query@);
            }
            if Self::matches_query(entry, &query) {
                let mut at: usize = results.len();
                while at > 0 && !entry.timestamp.is_at_or_before(&results[at - 1].timestamp)
                    invariant
                        at <= results.len(),
                        forall|j: int|
                            at <= j < results.len() ==> !entry.timestamp.le(
                                (#[trigger] results[j]).timestamp,
                            ),
                    decreases at,
                {
                    at -= 1;
                }
                let ghost sorted = entry_views(results@);
                proof {
                    assert forall|j: int| at <= j < sorted.len() implies !entry@.timestamp.le(
                        sorted[j].timestamp,
                    ) by {
                        assert(sorted[j] == results[j]@);
                    }
                    if at > 0 {
                        assert(sorted[at - 1] == results[at - 1]@);
                    }
                    lemma_place_newest_first(sorted, entry@, at as int);
                    lemma_newest_first_push(matching_entries(seen, query@), entry@);
                }
                results.insert(at, entry.clone());
                proof {
                    assert(entry_views(results@) =~= sorted.insert(at as int, entry@));
                }
            }
            i += 1;
        }
        proof {
            assert(self.entries().take(i as int) =~= self.entries());
        }
        if let Some(limit) = query.limit {
            if limit < results.len() {
                let ghost full = entry_views(results@);
                results.truncate(limit);
                proof {
                    assert(entry_views(results@) =~= full.take(limit as int));
                }
            }
        }
        Ok(results)
    }
    /// Removes the entries that lie outside the retention window at `now`
    /// and returns how many left. The entries inside the window stay, in
    /// their order.
    pub fn cleanup_old_entries_at(&mut self, now: Timestamp) -> (r: Result<usize, DreasError>)
        ensures
            final(self).entries() == retained_entries(
                old(self).entries(),
                now,
                old(self).retention_days(),
            ),
            r is Ok,
            r->Ok_0 == old(self).entries().len() - final(self).entries().len(),
            final(self).unchanged_but_entries(old(self)),
    {
        let days = self.retention_days;
        let mut all: Vec<AuditEntry> = Vec::new();
        std::mem::swap(&mut all, &mut self.audit_entries);
        let initial_count = all.len();
        let ghost before = entry_views(all@);
        let ghost pred = |e: AuditEntryView| within_retention(e, now, days);
        let mut kept: Vec<AuditEntry> = Vec::new();
        proof {
            lemma_filter_empty(pred);
            assert(before.take(0) =~= Seq::<AuditEntryView>::empty());
        }
        for entry in it: all
            invariant
                entry_views(it.seq()) == before,
                pred == (|e: AuditEntryView| within_retention(e, now, days)),
                entry_views(kept@) == retained_entries(before.take(it.index() as int), now, days),
        {
            proof {
                let seen = before.take(it.index() as int);
                assert(seen.push(entry@) =~= before.take(it.index() as int + 1));
                lemma_filter_push(seen, entry@, pred);
            }
            if !entry.timestamp.is_at_least_days_before(&now, days) {
                let ghost prior = entry_views(kept@);
                kept.push(entry);
                proof {
                    assert(entry_views(kept@) =~= prior.push(entry@));
                }
            }
        }
        proof {
            assert(before.take(before.len() as int) =~= before);
            lemma_filter_members(before, pred);
        }
        let removed_count = initial_count - kept.len();
        self.audit_entries = kept;
        Ok(removed_count)
    }

    /// Removes the entries that have left the retention window by the
    /// current time and returns how many left. What is kept is stated for
    /// whatever time the clock gave.
    pub fn cleanup_old_entries(&mut self) -> (r: Result<usize, DreasError>)
        ensures
            r is Ok,
            r->Ok_0 == old(self).entries().len() - final(self).entries().len(),
            exists|now: Timestamp|
                final(self).entries() == retained_entries(
                    old(self).entries(),
                    now,
                    old(self).retention_days(),
                ),
            final(self).unchanged_but_entries(old(self)),
    {
        let now = current_time();
        self.cleanup_old_entries_at(now)
    }
    /// Counts `key` once more in `counts`.
    fn tally(counts: &mut StringMap<usize>, key: &String)
        requires
            old(counts)@.contains_key(key@) ==> old(counts)@[key@] < usize::MAX,
        ensures
            final(counts)@ == old(counts)@.insert(
                key@,
                if old(counts)@.contains_key(key@) {
                    (old(counts)@[key@] + 1) as usize
                } else {
                    1usize
                },
            ),
    {
        let next: usize = match counts.get(key) {
            Some(n) => *n + 1,
            None => 1,
        };
        counts.insert(key.clone(), next);
    }

    /// The report over the entries from `start` to `end`: how many there
    /// are, how many ended in each way, and how many each action and each
    /// user has. The report gets a fresh identity and the current time.
    pub fn generate_report(&self, start_date: Timestamp, end_date: Timestamp) -> (r: Result<
        AuditReport,
        DreasError,
    >)
        ensures
            r is Ok,
            r->Ok_0.summarizes(query_result(self.entries(), period_query(start_date, end_date))),
            r->Ok_0.start_date == start_date,
            r->Ok_0.end_date == end_date,
            r->Ok_0.audit_log_id == self.log_id(),
    {
        let query = AuditQuery {
            start_date: Some(start_date),
            end_date: Some(end_date),
            user_id: None,
            action: None,
            resource: None,
            result: None,
            limit: None,
        };
        let ghost selected = query_result(self.entries(), period_query(start_date, end_date));
        let entries = match self.query_audit_entries(query) {
            Ok(entries) => entries,
            Err(e) => { return Err(e); },
        };
        assert(entry_views(entries@) == selected);
        let total_operations = entries.len();
        let mut successful_operations: usize = 0;
        let mut failed_operations: usize = 0;
        let mut partial_operations: usize = 0;
        let mut action_counts: StringMap<usize> = StringMap::new();
        let mut user_counts: StringMap<usize> = StringMap::new();
        let ghost action_test = |a: Seq<char>| has_action(a);
        let ghost user_test = |u: Seq<char>| has_user(u);
        proof {
            assert(selected.take(0) =~= Seq::<AuditEntryView>::empty());
            assert forall|k: Seq<char>| count_of(selected.take(0), has_action(k)) == 0 by {
                lemma_filter_empty(has_action(k));
            }
            assert forall|k: Seq<char>| count_of(selected.take(0), has_user(k)) == 0 by {
                lemma_filter_empty(has_user(k));
            }
            lemma_filter_empty(has_result(AuditResult::Success));
            lemma_filter_empty(has_result(AuditResult::Failure));
            lemma_filter_empty(has_result(AuditResult::Partial));
        }
        let mut i: usize = 0;
        while i < entries.len()
            invariant
                i <= entries.len(),
                entry_views(entries@) == selected,
                action_test == (|a: Seq<char>| has_action(a)),
                user_test == (|u: Seq<char>| has_user(u)),
                successful_operations == count_of(
                    selected.take(i as int),
                    has_result(AuditResult::Success),
                ),
                failed_operations == count_of(
                    selected.take(i as int),
                    has_result(AuditResult::Failure),
                ),
                partial_operations == count_of(
                    selected.take(i as int),
                    has_result(AuditResult::Partial),
                ),
                tallies(action_counts@, selected.take(i as int), action_test),
                tallies(user_counts@, selected.take(i as int), user_test),
            decreases entries.len() - i,
        {
            let entry = &entries[i];
            let ghost seen = selected.take(i as int);
            let ghost next = selected.take(i as int + 1);
            proof {
                assert(selected[i as int] == entry@);
                assert(seen.push(entry@) =~= next);
                lemma_count_push(seen, entry@, has_result(AuditResult::Success));
                lemma_count_push(seen, entry@, has_result(AuditResult::Failure));
                lemma_count_push(seen, entry@, has_result(AuditResult::Partial));
                assert forall|k: Seq<char>|
                    count_of(next, has_action(k)) == count_of(seen, has_action(k)) + if k
                        == entry@.action {
                        1nat
                    } else {
                        0nat
                    } && count_of(seen, has_action(k)) <= i by {
                    lemma_count_push(seen, entry@, has_action(k));
                }
                assert forall|k: Seq<char>|
                    count_of(next, has_user(k)) == count_of(seen, has_user(k)) + if Some(k)
                        == entry@.user_id {
                        1nat
                    } else {
                        0nat
                    } && count_of(seen, has_user(k)) <= i by {
                    lemma_count_push(seen, entry@, has_user(k));
                }
            }
            match entry.result {
                AuditResult::Success => { successful_operations += 1; },
                AuditResult::Failure => { failed_operations += 1; },
                AuditResult::Partial => { partial_operations += 1; },
            }
            proof {
                assert(action_counts@.contains_key(entry.action@) ==> action_counts@[entry.action@]
                    == count_of(seen, action_test(entry.action@)));
            }
            Self::tally(&mut action_counts, &entry.action);
            if let Some(user_id) = &entry.user_id {
                proof {
                    assert(user_counts@.contains_key(user_id@) ==> user_counts@[user_id@]
                        == count_of(seen, user_test(user_id@)));
                }
                Self::tally(&mut user_counts, user_id);
            }
            i += 1;
        }
        proof {
            assert(selected.take(i as int) =~= selected);
        }
        Ok(
            AuditReport {
                report_id: fresh_id(),
                generated_at: current_time(),
                start_date,
                end_date,
                total_operations,
                successful_operations,
                failed_operations,
                partial_operations,
                action_breakdown: action_counts,
                user_activity: user_counts,
                audit_log_id: self.log_id,
            },
        )
    }

    /// A snapshot of the ledger: how many entries it holds, its retention,
    /// the number of flagged actions, and its earliest and latest entry
    /// time.
    pub fn get_audit_stats(&self) -> (stats: AuditStats)
        ensures
            stats.audit_log_id == self.log_id(),
            stats.total_entries == self.entries().len(),
            stats.retention_days == self.retention_days(),
            stats.sensitive_operations_tracked == self.sensitive_operations().len(),
            is_oldest_time(self.entries(), stats.oldest_entry),
            is_newest_time(self.entries(), stats.newest_entry),
    {
        let mut oldest: Option<Timestamp> = None;
        let mut newest: Option<Timestamp> = None;
        let mut i: usize = 0;
        while i < self.audit_entries.len()
            invariant
                i <= self.audit_entries.len(),
                is_oldest_time(self.entries().take(i as int), oldest),
                is_newest_time(self.entries().take(i as int), newest),
            decreases self.audit_entries.len() - i,
        {
            let t = self.audit_entries[i].timestamp;
            let ghost seen = self.entries().take(i as int);
            let ghost next = self.entries().take(i as int + 1);
            proof {
                assert(next[i as int].timestamp == t);
                assert forall|j: int| 0 <= j < seen.len() implies seen[j] == next[j] by {}
            }
            let ghost old_oldest = oldest;
            let ghost old_newest = newest;
            oldest = match oldest {
                None => Some(t),
                Some(o) => if t.is_before(&o) {
                    Some(t)
                } else {
                    Some(o)
                },
            };
            newest = match newest {
                None => Some(t),
                Some(n) => if n.is_before(&t) {
                    Some(t)
                } else {
                    Some(n)
                },
            };
            proof {
                let o = oldest->0;
                let n = newest->0;
                if old_oldest is Some && o == old_oldest->0 {
                    let k = choose|k: int| 0 <= k < seen.len() && (#[trigger] seen[k]).timestamp == o;
                    assert(next[k].timestamp == o);
                }
                if old_newest is Some && n == old_newest->0 {
                    let k = choose|k: int| 0 <= k < seen.len() && (#[trigger] seen[k]).timestamp == n;
                    assert(next[k].timestamp == n);
                }
                assert forall|j: int| 0 <= j < next.len() implies o.le(
                    (#[trigger] next[j]).timestamp,
                ) by {
                    if j < seen.len() {
                        assert(seen[j] == next[j]);
                    }
                }
                assert forall|j: int| 0 <= j < next.len() implies (
                #[trigger] next[j]).timestamp.le(n) by {
                    if j < seen.len() {
                        assert(seen[j] == next[j]);
                    }
                }
            }
            i += 1;
        }
        proof {
            assert(self.entries().take(i as int) =~= self.entries());
        }
        AuditStats {
            audit_log_id: self.log_id,
            total_entries: self.audit_entries.len(),
            retention_days: self.retention_days,
            sensitive_operations_tracked: self.sensitive_operations.len(),
            oldest_entry: oldest,
            newest_entry: newest,
        }
    }
}

} // verus!
