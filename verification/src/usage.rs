//! The usage-statistics actor.
//!
//! Per-connection counters over tool calls: per-category and per-tool
//! counts, success and failure totals, first/last activity stamps and a
//! session count driven by an inactivity heuristic — a gap longer than
//! `SESSION_TIMEOUT_SECS` since the connection's last recorded activity
//! opens a new session. The whole map is snapshotted to one JSON
//! document, which the caller writes atomically (temporary file plus
//! rename) on every periodic save and once more on shutdown.
//!
//! Tool categories are a declared capability: the caller registers each
//! tool's category up front instead of the tracker introspecting a tool
//! registry.

use vstd::prelude::*;
use vstd::string::*;
use crate::table::StrTable;
use crate::encode::{
    spec_json_string, spec_u64_dec, spec_i64_dec, spec_comma_join, push_json_string, push_u64_dec,
    push_i64_dec,
};
use crate::clock::now_unix;

verus! {

/// A gap of more than this many seconds since a connection's last
/// recorded activity counts the next event as a new session.
pub const SESSION_TIMEOUT_SECS: i64 = 1800;

/// The category a tool belongs to, for the per-category counters.
#[derive(Clone, Copy, Debug, PartialEq, Eq, Structural)]
pub enum ToolCategory {
    Filesystem,
    Terminal,
    Edit,
    Search,
    Introspection,
    Config,
    Prompt,
    Process,
}

/// A counter bumped by one, staying put at its ceiling.
pub open spec fn spec_inc(x: u64) -> u64 {
    if x == u64::MAX {
        x
    } else {
        (x + 1) as u64
    }
}

/// Bump a counter, saturating at its ceiling.
pub fn inc_u64(x: u64) -> (r: u64)
    ensures
        r == spec_inc(x),
{
    if x < u64::MAX {
        x + 1
    } else {
        x
    }
}

/// The mathematical content of one connection's statistics.
pub ghost struct StatsModel {
    pub filesystem_operations: u64,
    pub terminal_operations: u64,
    pub edit_operations: u64,
    pub search_operations: u64,
    pub config_operations: u64,
    pub process_operations: u64,
    pub total_tool_calls: u64,
    pub successful_calls: u64,
    pub failed_calls: u64,
    pub tool_counts: Map<Seq<char>, u64>,
    pub first_used: i64,
    pub last_used: i64,
    pub total_sessions: u64,
}

/// Statistics tracked for one connection's tool usage.
pub struct UsageStats {
    pub filesystem_operations: u64,
    pub terminal_operations: u64,
    pub edit_operations: u64,
    pub search_operations: u64,
    pub config_operations: u64,
    pub process_operations: u64,
    pub total_tool_calls: u64,
    pub successful_calls: u64,
    pub failed_calls: u64,
    pub tool_counts: StrTable<u64>,
    pub first_used: i64,
    pub last_used: i64,
    pub total_sessions: u64,
}

impl View for UsageStats {
    type V = StatsModel;

    open spec fn view(&self) -> StatsModel {
        StatsModel {
            filesystem_operations: self.filesystem_operations,
            terminal_operations: self.terminal_operations,
            edit_operations: self.edit_operations,
            search_operations: self.search_operations,
            config_operations: self.config_operations,
            process_operations: self.process_operations,
            total_tool_calls: self.total_tool_calls,
            successful_calls: self.successful_calls,
            failed_calls: self.failed_calls,
            tool_counts: self.tool_counts@,
            first_used: self.first_used,
            last_used: self.last_used,
            total_sessions: self.total_sessions,
        }
    }
}

/// Fresh statistics for a connection first seen at `now`: one session,
/// no calls yet.
pub open spec fn spec_fresh_stats(now: i64) -> StatsModel {
    StatsModel {
        filesystem_operations: 0,
        terminal_operations: 0,
        edit_operations: 0,
        search_operations: 0,
        config_operations: 0,
        process_operations: 0,
        total_tool_calls: 0,
        successful_calls: 0,
        failed_calls: 0,
        tool_counts: Map::empty(),
        first_used: now,
        last_used: now,
        total_sessions: 1,
    }
}

/// Whether a gap from `last_used` to `now` opens a new session.
pub open spec fn spec_new_session(last_used: i64, now: i64) -> bool {
    now - last_used > SESSION_TIMEOUT_SECS
}

/// Whether the next recorded event counts as a new session: more than
/// the inactivity threshold has passed since the last activity.
pub fn is_new_session(last_used: i64, now: i64) -> (r: bool)
    ensures
        r == spec_new_session(last_used, now),
{
    (now as i128) - (last_used as i128) > SESSION_TIMEOUT_SECS as i128
}

/// Whether this category bumps the configuration counter (three
/// categories share it).
pub open spec fn spec_counts_as_config(c: ToolCategory) -> bool {
    c is Introspection || c is Config || c is Prompt
}

/// The per-tool count held for `tool`, zero before the first call.
pub open spec fn count_or_zero(m: Map<Seq<char>, u64>, tool: Seq<char>) -> u64 {
    if m.contains_key(tool) {
        m[tool]
    } else {
        0
    }
}

/// The statistics after folding in one outcome for `tool` in `category`
/// at time `now`: a new session after a long gap, the totals, the
/// per-tool counter and the category's counter bumped, the activity
/// stamped.
pub open spec fn spec_fold_outcome(
    pre: StatsModel,
    tool: Seq<char>,
    category: Option<ToolCategory>,
    success: bool,
    now: i64,
) -> StatsModel {
    StatsModel {
        filesystem_operations: if category == Some(ToolCategory::Filesystem) {
            spec_inc(pre.filesystem_operations)
        } else {
            pre.filesystem_operations
        },
        terminal_operations: if category == Some(ToolCategory::Terminal) {
            spec_inc(pre.terminal_operations)
        } else {
            pre.terminal_operations
        },
        edit_operations: pre.edit_operations,
        search_operations: pre.search_operations,
        config_operations: if (category matches Some(c) && spec_counts_as_config(c)) {
            spec_inc(pre.config_operations)
        } else {
            pre.config_operations
        },
        process_operations: if category == Some(ToolCategory::Process) {
            spec_inc(pre.process_operations)
        } else {
            pre.process_operations
        },
        total_tool_calls: spec_inc(pre.total_tool_calls),
        successful_calls: if success {
            spec_inc(pre.successful_calls)
        } else {
            pre.successful_calls
        },
        failed_calls: if success {
            pre.failed_calls
        } else {
            spec_inc(pre.failed_calls)
        },
        tool_counts: pre.tool_counts.insert(tool, spec_inc(count_or_zero(pre.tool_counts, tool))),
        first_used: pre.first_used,
        last_used: now,
        total_sessions: if spec_new_session(pre.last_used, now) {
            spec_inc(pre.total_sessions)
        } else {
            pre.total_sessions
        },
    }
}

impl UsageStats {
    /// Well-formed: the per-tool counters have unique tool names.
    pub open spec fn wf(&self) -> bool {
        self.tool_counts.wf()
    }

    /// Fresh statistics for a connection first seen at `now`.
    pub fn new(now: i64) -> (s: UsageStats)
        ensures
            s.wf(),
            s@ == spec_fresh_stats(now),
            s.tool_counts.entries() =~= Seq::<(String, u64)>::empty(),
    {
        UsageStats {
            filesystem_operations: 0,
            terminal_operations: 0,
            edit_operations: 0,
            search_operations: 0,
            config_operations: 0,
            process_operations: 0,
            total_tool_calls: 0,
            successful_calls: 0,
            failed_calls: 0,
            tool_counts: StrTable::new(),
            first_used: now,
            last_used: now,
            total_sessions: 1,
        }
    }

    /// A field-for-field copy.
    pub fn snapshot(&self) -> (r: UsageStats)
        requires
            self.wf(),
        ensures
            r@ == self@,
            r.tool_counts.entries() == self.tool_counts.entries(),
            r.wf(),
    {
        UsageStats {
            filesystem_operations: self.filesystem_operations,
            terminal_operations: self.terminal_operations,
            edit_operations: self.edit_operations,
            search_operations: self.search_operations,
            config_operations: self.config_operations,
            process_operations: self.process_operations,
            total_tool_calls: self.total_tool_calls,
            successful_calls: self.successful_calls,
            failed_calls: self.failed_calls,
            tool_counts: self.tool_counts.duplicate(),
            first_used: self.first_used,
            last_used: self.last_used,
            total_sessions: self.total_sessions,
        }
    }

    /// Fold one tool-call outcome in.
    pub fn record_outcome(
        &mut self,
        tool_name: &str,
        category: Option<ToolCategory>,
        success: bool,
        now: i64,
    )
        requires
            old(self).wf(),
        ensures
            final(self).wf(),
            final(self)@ == spec_fold_outcome(old(self)@, tool_name@, category, success, now),
    {
        if is_new_session(self.last_used, now) {
            self.total_sessions = inc_u64(self.total_sessions);
        }
        self.total_tool_calls = inc_u64(self.total_tool_calls);
        if success {
            self.successful_calls = inc_u64(self.successful_calls);
        } else {
            self.failed_calls = inc_u64(self.failed_calls);
        }
        self.last_used = now;
        let current = match self.tool_counts.get(tool_name) {
            Some(c) => *c,
            None => 0,
        };
        self.tool_counts.set(tool_name, inc_u64(current));
        match category {
            Some(ToolCategory::Filesystem) => {
                self.filesystem_operations = inc_u64(self.filesystem_operations);
            },
            Some(ToolCategory::Terminal) => {
                self.terminal_operations = inc_u64(self.terminal_operations);
            },
            Some(ToolCategory::Introspection) => {
                self.config_operations = inc_u64(self.config_operations);
            },
            Some(ToolCategory::Config) => {
                self.config_operations = inc_u64(self.config_operations);
            },
            Some(ToolCategory::Prompt) => {
                self.config_operations = inc_u64(self.config_operations);
            },
            Some(ToolCategory::Process) => {
                self.process_operations = inc_u64(self.process_operations);
            },
            Some(ToolCategory::Edit) => {},
            Some(ToolCategory::Search) => {},
            None => {},
        }
    }
}

/// One per-tool counter as a JSON object member.
pub open spec fn spec_count_item(p: (String, u64)) -> Seq<char> {
    spec_json_string(p.0@) + ":"@ + spec_u64_dec(p.1 as nat)
}

/// The per-tool counters as a JSON object, in table order.
pub open spec fn spec_encode_counts(s: Seq<(String, u64)>) -> Seq<char> {
    "{"@ + spec_comma_join(s.map_values(|p: (String, u64)| spec_count_item(p))) + "}"@
}

/// The category counters of the statistics object.
pub open spec fn spec_stats_head(st: UsageStats) -> Seq<char> {
    "{\"filesystem_operations\":"@ + spec_u64_dec(st.filesystem_operations as nat)
        + ",\"terminal_operations\":"@ + spec_u64_dec(st.terminal_operations as nat)
        + ",\"edit_operations\":"@ + spec_u64_dec(st.edit_operations as nat)
        + ",\"search_operations\":"@ + spec_u64_dec(st.search_operations as nat)
        + ",\"config_operations\":"@ + spec_u64_dec(st.config_operations as nat)
        + ",\"process_operations\":"@ + spec_u64_dec(st.process_operations as nat)
}

/// The overall counters of the statistics object.
pub open spec fn spec_stats_mid(st: UsageStats) -> Seq<char> {
    ",\"total_tool_calls\":"@ + spec_u64_dec(st.total_tool_calls as nat)
        + ",\"successful_calls\":"@ + spec_u64_dec(st.successful_calls as nat)
        + ",\"failed_calls\":"@ + spec_u64_dec(st.failed_calls as nat)
}

/// The per-tool counters and the timing fields of the statistics
/// object.
pub open spec fn spec_stats_tail(st: UsageStats) -> Seq<char> {
    ",\"tool_counts\":"@ + spec_encode_counts(st.tool_counts.entries()) + ",\"first_used\":"@
        + spec_i64_dec(st.first_used as int) + ",\"last_used\":"@ + spec_i64_dec(
        st.last_used as int,
    ) + ",\"total_sessions\":"@ + spec_u64_dec(st.total_sessions as nat) + "}"@
}

/// One connection's statistics as a JSON object: every counter, the
/// per-tool counters as a nested object, and the activity stamps.
pub open spec fn spec_encode_stats(st: UsageStats) -> Seq<char> {
    spec_stats_head(st) + spec_stats_mid(st) + spec_stats_tail(st)
}

/// The whole snapshot as one JSON object: connection identifier to that
/// connection's statistics object, in table order.
pub open spec fn spec_encode_snapshot(s: Seq<(String, UsageStats)>) -> Seq<char> {
    "{"@ + spec_comma_join(
        s.map_values(
            |p: (String, UsageStats)| spec_json_string(p.0@) + ":"@ + spec_encode_stats(p.1),
        ),
    ) + "}"@
}

/// Append the per-tool counters of `counts` as a JSON object.
#[verifier::rlimit(100)]
fn push_counts(out: &mut String, counts: &StrTable<u64>)
    ensures
        final(out)@ == old(out)@ + spec_encode_counts(counts.entries()),
{
    proof {
        reveal_strlit("{");
        reveal_strlit("}");
        reveal_strlit(",");
        reveal_strlit(":");
    }
    let ghost f = |p: (String, u64)| spec_count_item(p);
    let ghost s = counts.entries();
    out.append("{");
    let n = counts.len();
    let mut i: usize = 0;
    proof {
        assert(s.subrange(0, 0).map_values(f) =~= Seq::<Seq<char>>::empty());
        assert(out@ =~= old(out)@ + "{"@ + spec_comma_join(s.subrange(0, 0).map_values(f)));
    }
    while i < n
        invariant
            i <= n,
            n == counts.entries().len(),
            s == counts.entries(),
            f == (|p: (String, u64)| spec_count_item(p)),
            out@ == old(out)@ + "{"@ + spec_comma_join(s.subrange(0, i as int).map_values(f)),
        decreases n - i,
    {
        if i > 0 {
            out.append(",");
        }
        push_json_string(out, counts.key_at(i).as_str());
        out.append(":");
        push_u64_dec(out, *counts.value_at(i));
        proof {
            let prefix = s.subrange(0, i as int).map_values(f);
            let whole = s.subrange(0, i + 1).map_values(f);
            assert(whole.drop_last() =~= prefix);
            assert(whole.last() == f(s[i as int]));
            if i == 0 {
                assert(spec_comma_join(whole) == f(s[0]));
            } else {
                assert(spec_comma_join(whole) == spec_comma_join(prefix) + ","@ + f(s[i as int]));
            }
            assert(out@ =~= old(out)@ + "{"@ + spec_comma_join(whole));
        }
        i = i + 1;
    }
    out.append("}");
    proof {
        assert(s.subrange(0, n as int) =~= s);
        assert(out@ =~= old(out)@ + spec_encode_counts(s));
    }
}

/// Append one connection's statistics as a JSON object.
#[verifier::rlimit(60)]
fn push_stats(out: &mut String, st: &UsageStats)
    ensures
        final(out)@ == old(out)@ + spec_encode_stats(*st),
{
    proof {
        reveal_strlit("{\"filesystem_operations\":");
        reveal_strlit(",\"terminal_operations\":");
        reveal_strlit(",\"edit_operations\":");
        reveal_strlit(",\"search_operations\":");
        reveal_strlit(",\"config_operations\":");
        reveal_strlit(",\"process_operations\":");
        reveal_strlit(",\"total_tool_calls\":");
        reveal_strlit(",\"successful_calls\":");
        reveal_strlit(",\"failed_calls\":");
        reveal_strlit(",\"tool_counts\":");
        reveal_strlit(",\"first_used\":");
        reveal_strlit(",\"last_used\":");
        reveal_strlit(",\"total_sessions\":");
        reveal_strlit("}");
    }
    out.append("{\"filesystem_operations\":");
    push_u64_dec(out, st.filesystem_operations);
    out.append(",\"terminal_operations\":");
    push_u64_dec(out, st.terminal_operations);
    out.append(",\"edit_operations\":");
    push_u64_dec(out, st.edit_operations);
    out.append(",\"search_operations\":");
    push_u64_dec(out, st.search_operations);
    out.append(",\"config_operations\":");
    push_u64_dec(out, st.config_operations);
    out.append(",\"process_operations\":");
    push_u64_dec(out, st.process_operations);
    proof {
        assert(out@ =~= old(out)@ + spec_stats_head(*st));
    }
    let ghost after_head = out@;
    out.append(",\"total_tool_calls\":");
    push_u64_dec(out, st.total_tool_calls);
    out.append(",\"successful_calls\":");
    push_u64_dec(out, st.successful_calls);
    out.append(",\"failed_calls\":");
    push_u64_dec(out, st.failed_calls);
    proof {
        assert(out@ =~= after_head + spec_stats_mid(*st));
    }
    let ghost after_mid = out@;
    out.append(",\"tool_counts\":");
    push_counts(out, &st.tool_counts);
    out.append(",\"first_used\":");
    push_i64_dec(out, st.first_used);
    out.append(",\"last_used\":");
    push_i64_dec(out, st.last_used);
    out.append(",\"total_sessions\":");
    push_u64_dec(out, st.total_sessions);
    out.append("}");
    proof {
        assert(out@ =~= after_mid + spec_stats_tail(*st));
        assert(out@ =~= old(out)@ + spec_encode_stats(*st));
    }
}

/// Usage tracker: per-connection statistics for all tool calls of one
/// server instance.
pub struct UsageTracker {
    stats_by_connection: StrTable<UsageStats>,
    stats_file: String,
    started_at: i64,
    categories: StrTable<ToolCategory>,
}

/// The model a map of statistics values presents.
pub open spec fn stats_models(m: Map<Seq<char>, UsageStats>) -> Map<Seq<char>, StatsModel> {
    m.map_values(|s: UsageStats| s@)
}

/// The statistics a connection starts its next event from: its current
/// model, or fresh statistics when it was never seen (or was removed).
pub open spec fn spec_base_stats(
    m: Map<Seq<char>, StatsModel>,
    k: Seq<char>,
    now: i64,
) -> StatsModel {
    if m.contains_key(k) {
        m[k]
    } else {
        spec_fresh_stats(now)
    }
}

/// The registered category of a tool, if any was declared.
pub open spec fn spec_category_of(
    cats: Map<Seq<char>, ToolCategory>,
    tool: Seq<char>,
) -> Option<ToolCategory> {
    if cats.contains_key(tool) {
        Some(cats[tool])
    } else {
        None
    }
}

impl UsageTracker {
    /// The per-connection statistics models.
    pub closed spec fn stats_map(&self) -> Map<Seq<char>, StatsModel> {
        stats_models(self.stats_by_connection@)
    }

    /// The statistics entries, in the order a snapshot renders them.
    pub closed spec fn stats_entries(&self) -> Seq<(String, UsageStats)> {
        self.stats_by_connection.entries()
    }

    /// The declared tool categories.
    pub closed spec fn categories_map(&self) -> Map<Seq<char>, ToolCategory> {
        self.categories@
    }

    /// The snapshot file name of this instance.
    pub closed spec fn file_name(&self) -> Seq<char> {
        self.stats_file@
    }

    /// When this tracker was created (seconds since the Unix epoch).
    pub closed spec fn started(&self) -> i64 {
        self.started_at
    }

    /// Well-formed: unique connection keys, every statistics value
    /// well-formed, unique declared tool names.
    pub closed spec fn wf(&self) -> bool {
        &&& self.stats_by_connection.wf()
        &&& forall|i: int|
            0 <= i < self.stats_by_connection.entries().len() ==> (
            #[trigger] self.stats_by_connection.entries()[i]).1.wf()
        &&& self.categories.wf()
    }

    /// A fresh tracker for one server instance; its snapshot file is
    /// named for the instance, and its start time is read off the
    /// clock.
    pub fn new(instance_id: String) -> (t: UsageTracker)
        ensures
            t.wf(),
            t.stats_map() == Map::<Seq<char>, StatsModel>::empty(),
            t.stats_entries() =~= Seq::<(String, UsageStats)>::empty(),
            t.categories_map() == Map::<Seq<char>, ToolCategory>::empty(),
            t.file_name() == "stats_"@ + instance_id@ + ".json"@,
    {
        let mut name = "stats_".to_owned();
        name.append(instance_id.as_str());
        name.append(".json");
        let started_at = now_unix();
        let t = UsageTracker {
            stats_by_connection: StrTable::new(),
            stats_file: name,
            started_at,
            categories: StrTable::new(),
        };
        proof {
            assert(t.stats_map() =~= Map::<Seq<char>, StatsModel>::empty());
            assert(t.file_name() =~= "stats_"@ + instance_id@ + ".json"@);
        }
        t
    }

    /// Declare a tool's category, so its calls count toward that
    /// category's counter.
    pub fn register_tool_category(&mut self, tool_name: &str, category: ToolCategory)
        requires
            old(self).wf(),
        ensures
            final(self).wf(),
            final(self).categories_map() == old(self).categories_map().insert(
                tool_name@,
                category,
            ),
            final(self).stats_map() == old(self).stats_map(),
            final(self).stats_entries() == old(self).stats_entries(),
            final(self).file_name() == old(self).file_name(),
            final(self).started() == old(self).started(),
    {
        self.categories.set(tool_name, category);
    }

    /// Fold one tool-call outcome for a connection in at time `now`:
    /// the connection's statistics (fresh ones on first sight) advance
    /// by exactly that outcome, under the tool's declared category.
    pub fn record_outcome(&mut self, connection_id: &str, tool_name: &str, success: bool, now: i64)
        requires
            old(self).wf(),
        ensures
            final(self).wf(),
            final(self).stats_map() == old(self).stats_map().insert(
                connection_id@,
                spec_fold_outcome(
                    spec_base_stats(old(self).stats_map(), connection_id@, now),
                    tool_name@,
                    spec_category_of(old(self).categories_map(), tool_name@),
                    success,
                    now,
                ),
            ),
            final(self).categories_map() == old(self).categories_map(),
            final(self).file_name() == old(self).file_name(),
            final(self).started() == old(self).started(),
    {
        let category: Option<ToolCategory> = match self.categories.get(tool_name) {
            Some(c) => Some(*c),
            None => None,
        };
        match self.stats_by_connection.index_of(connection_id) {
            Some(i) => {
                let mut stats = self.stats_by_connection.replace_at(i, UsageStats::new(now));
                proof {
                    assert(stats.wf());
                }
                stats.record_outcome(tool_name, category, success, now);
                let _ = self.stats_by_connection.replace_at(i, stats);
                proof {
                    assert(self.stats_map() =~= old(self).stats_map().insert(
                        connection_id@,
                        spec_fold_outcome(
                            spec_base_stats(old(self).stats_map(), connection_id@, now),
                            tool_name@,
                            spec_category_of(old(self).categories_map(), tool_name@),
                            success,
                            now,
                        ),
                    ));
                    assert forall|j: int|
                        0 <= j < self.stats_by_connection.entries().len() implies (
                    #[trigger] self.stats_by_connection.entries()[j]).1.wf() by {
                        if j != i as int {
                            assert(self.stats_by_connection.entries()[j] == old(
                                self,
                            ).stats_by_connection.entries()[j]);
                        }
                    }
                }
            },
            None => {
                let mut stats = UsageStats::new(now);
                stats.record_outcome(tool_name, category, success, now);
                self.stats_by_connection.set(connection_id, stats);
                proof {
                    assert(self.stats_map() =~= old(self).stats_map().insert(
                        connection_id@,
                        spec_fold_outcome(
                            spec_base_stats(old(self).stats_map(), connection_id@, now),
                            tool_name@,
                            spec_category_of(old(self).categories_map(), tool_name@),
                            success,
                            now,
                        ),
                    ));
                    assert forall|j: int|
                        0 <= j < self.stats_by_connection.entries().len() implies (
                    #[trigger] self.stats_by_connection.entries()[j]).1.wf() by {
                        let t = self.stats_by_connection.entries();
                        if j < t.len() - 1 {
                            assert(t[j] == t.drop_last()[j]);
                            assert(old(self).stats_by_connection.entries()[j].1.wf());
                        }
                    }
                }
            },
        }
    }

    /// Track a successful tool call for a connection: its statistics
    /// advance by one success, stamped with the current clock.
    pub fn track_success(&mut self, connection_id: &str, tool_name: &str)
        requires
            old(self).wf(),
        ensures
            final(self).wf(),
            exists|now: i64|
                final(self).stats_map() == old(self).stats_map().insert(
                    connection_id@,
                    spec_fold_outcome(
                        spec_base_stats(old(self).stats_map(), connection_id@, now),
                        tool_name@,
                        spec_category_of(old(self).categories_map(), tool_name@),
                        true,
                        now,
                    ),
                ),
            final(self).categories_map() == old(self).categories_map(),
            final(self).file_name() == old(self).file_name(),
            final(self).started() == old(self).started(),
    {
        let now = now_unix();
        self.record_outcome(connection_id, tool_name, true, now);
    }

    /// Track a failed tool call for a connection: its statistics
    /// advance by one failure, stamped with the current clock.
    pub fn track_failure(&mut self, connection_id: &str, tool_name: &str)
        requires
            old(self).wf(),
        ensures
            final(self).wf(),
            exists|now: i64|
                final(self).stats_map() == old(self).stats_map().insert(
                    connection_id@,
                    spec_fold_outcome(
                        spec_base_stats(old(self).stats_map(), connection_id@, now),
                        tool_name@,
                        spec_category_of(old(self).categories_map(), tool_name@),
                        false,
                        now,
                    ),
                ),
            final(self).categories_map() == old(self).categories_map(),
            final(self).file_name() == old(self).file_name(),
            final(self).started() == old(self).started(),
    {
        let now = now_unix();
        self.record_outcome(connection_id, tool_name, false, now);
    }

    /// A copy of the statistics for a connection, or nothing for one
    /// never seen (or since removed).
    pub fn get_stats_for_connection(&self, connection_id: &str) -> (r: Option<UsageStats>)
        requires
            self.wf(),
        ensures
            r matches Some(st) ==> self.stats_map().contains_key(connection_id@) && st@
                == self.stats_map()[connection_id@] && st.wf(),
            r is None ==> !self.stats_map().contains_key(connection_id@),
    {
        match self.stats_by_connection.index_of(connection_id) {
            Some(i) => {
                let st = self.stats_by_connection.value_at(i);
                Some(st.snapshot())
            },
            None => None,
        }
    }

    /// Drop the statistics of a connection.
    pub fn remove_connection(&mut self, connection_id: &str)
        requires
            old(self).wf(),
        ensures
            final(self).wf(),
            final(self).stats_map() == old(self).stats_map().remove(connection_id@),
            final(self).categories_map() == old(self).categories_map(),
            final(self).file_name() == old(self).file_name(),
            final(self).started() == old(self).started(),
    {
        self.stats_by_connection.remove(connection_id);
        proof {
            assert(self.stats_map() =~= old(self).stats_map().remove(connection_id@));
            assert forall|j: int|
                0 <= j < self.stats_by_connection.entries().len() implies (
            #[trigger] self.stats_by_connection.entries()[j]).1.wf() by {
                let p = self.stats_by_connection.entries()[j];
                assert(old(self).stats_by_connection.entries().contains(p));
                let w = choose|w: int|
                    0 <= w < old(self).stats_by_connection.entries().len() && old(
                        self,
                    ).stats_by_connection.entries()[w] == p;
                assert(old(self).stats_by_connection.entries()[w].1.wf());
            }
        }
    }

    /// The snapshot of every connection's statistics, as the one JSON
    /// document the periodic save persists (temporary file plus rename
    /// at the caller).
    pub fn save(&self) -> (r: String)
        ensures
            r@ == spec_encode_snapshot(self.stats_entries()),
    {
        self.render_snapshot()
    }

    /// The final snapshot to persist before the process exits, so
    /// updates accepted just before shutdown are not lost. Same
    /// document as a periodic save.
    pub fn shutdown(&self) -> (r: String)
        ensures
            r@ == spec_encode_snapshot(self.stats_entries()),
    {
        self.render_snapshot()
    }

    /// Render the snapshot document.
    #[verifier::rlimit(100)]
    fn render_snapshot(&self) -> (r: String)
        ensures
            r@ == spec_encode_snapshot(self.stats_entries()),
    {
        proof {
            reveal_strlit("{");
            reveal_strlit("}");
            reveal_strlit(",");
            reveal_strlit(":");
        }
        let ghost f = |p: (String, UsageStats)| spec_json_string(p.0@) + ":"@ + spec_encode_stats(
            p.1,
        );
        let ghost s = self.stats_entries();
        let mut out = String::new();
        out.append("{");
        let n = self.stats_by_connection.len();
        let mut i: usize = 0;
        proof {
            assert(s.subrange(0, 0).map_values(f) =~= Seq::<Seq<char>>::empty());
            assert(out@ =~= Seq::<char>::empty() + "{"@ + spec_comma_join(
                s.subrange(0, 0).map_values(f),
            ));
        }
        while i < n
            invariant
                i <= n,
                n == self.stats_by_connection.entries().len(),
                s == self.stats_entries(),
                f == (|p: (String, UsageStats)| spec_json_string(p.0@) + ":"@ + spec_encode_stats(
                    p.1,
                )),
                out@ == Seq::<char>::empty() + "{"@ + spec_comma_join(
                    s.subrange(0, i as int).map_values(f),
                ),
            decreases n - i,
        {
            if i > 0 {
                out.append(",");
            }
            push_json_string(&mut out, self.stats_by_connection.key_at(i).as_str());
            out.append(":");
            push_stats(&mut out, self.stats_by_connection.value_at(i));
            proof {
                let prefix = s.subrange(0, i as int).map_values(f);
                let whole = s.subrange(0, i + 1).map_values(f);
                assert(whole.drop_last() =~= prefix);
                assert(whole.last() == f(s[i as int]));
                if i == 0 {
                    assert(spec_comma_join(whole) == f(s[0]));
                } else {
                    assert(spec_comma_join(whole) == spec_comma_join(prefix) + ","@ + f(
                        s[i as int],
                    ));
                }
                assert(out@ =~= Seq::<char>::empty() + "{"@ + spec_comma_join(whole));
            }
            i = i + 1;
        }
        out.append("}");
        proof {
            assert(s.subrange(0, n as int) =~= s);
            assert(out@ =~= spec_encode_snapshot(s));
        }
        out
    }

    /// How long this tracker has been running at time `now`, in
    /// seconds; zero for a clock that moved backwards.
    pub fn uptime(&self, now: i64) -> (r: u64)
        ensures
            self.started() <= now ==> r == now - self.started(),
            self.started() > now ==> r == 0,
    {
        let d: i128 = (now as i128) - (self.started_at as i128);
        if d < 0 {
            0
        } else {
            d as u64
        }
    }

    /// The snapshot file name of this instance.
    pub fn stats_file_path(&self) -> (r: &String)
        ensures
            r@ == self.file_name(),
    {
        &self.stats_file
    }
}

} // verus!
