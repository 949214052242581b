//! The tool-call history actor.
//!
//! Per-connection ring buffers of recent tool calls (most-recent
//! `MAX_HISTORY_ENTRIES` kept, oldest evicted), a pending write batch
//! per connection, and a periodic flush that drains every batch into
//! newline-delimited JSON lines for the append-only log. Every flush
//! advances a write counter; when the counter crosses
//! `ROTATION_CHECK_INTERVAL` it resets and a rotation pass is due:
//! a log grown past `MAX_DISK_ENTRIES` lines is truncated to the most
//! recent `MAX_DISK_ENTRIES`. The caller owns the file itself (append,
//! read, and the atomic temp-file-plus-rename replacement); everything
//! decided about its contents is decided here.

use vstd::prelude::*;
use vstd::string::*;
use vstd::seq_lib::*;
use crate::table::{StrTable, key_index};
use crate::encode::{spec_json_string, spec_u64_dec, push_json_string, push_u64_dec};
use crate::clock::{rfc3339_millis, parse_rfc3339_millis, now_rfc3339};
use crate::jsontext::{json_text_of, value_to_json_string};

verus! {

/// In-memory retention cap per connection: the most recent this many
/// records are kept, the oldest evicted first.
pub const MAX_HISTORY_ENTRIES: usize = 1000;

/// On-disk retention cap: a rotation pass keeps the most recent this
/// many log lines.
pub const MAX_DISK_ENTRIES: usize = 5000;

/// Number of flushed records after which a rotation check runs.
pub const ROTATION_CHECK_INTERVAL: usize = 100;

/// One tool call: when it ran, what was called, the serialized
/// arguments and result, and how long it took. A plain immutable
/// snapshot once constructed.
pub struct ToolCallRecord {
    pub timestamp: String,
    pub tool_name: String,
    pub args_json: String,
    pub output_json: String,
    pub duration_ms: Option<u64>,
}

impl ToolCallRecord {
    /// A field-for-field copy.
    pub fn duplicate(&self) -> (r: ToolCallRecord)
        ensures
            r == *self,
    {
        ToolCallRecord {
            timestamp: self.timestamp.clone(),
            tool_name: self.tool_name.clone(),
            args_json: self.args_json.clone(),
            output_json: self.output_json.clone(),
            duration_ms: self.duration_ms,
        }
    }
}

/// The JSON line a record is persisted as.
pub open spec fn spec_encode_record(r: ToolCallRecord) -> Seq<char> {
    "{\"timestamp\":"@ + spec_json_string(r.timestamp@) + ",\"tool_name\":"@ + spec_json_string(
        r.tool_name@,
    ) + ",\"args_json\":"@ + spec_json_string(r.args_json@) + ",\"output_json\":"@
        + spec_json_string(r.output_json@) + ",\"duration_ms\":"@ + (match r.duration_ms {
        Some(d) => spec_u64_dec(d as nat),
        None => "null"@,
    }) + "}"@
}

/// Render one record as its JSON log line.
pub fn encode_record(r: &ToolCallRecord) -> (s: String)
    ensures
        s@ == spec_encode_record(*r),
{
    proof {
        reveal_strlit("{\"timestamp\":");
        reveal_strlit(",\"tool_name\":");
        reveal_strlit(",\"args_json\":");
        reveal_strlit(",\"output_json\":");
        reveal_strlit(",\"duration_ms\":");
        reveal_strlit("null");
        reveal_strlit("}");
    }
    let mut out = String::new();
    out.append("{\"timestamp\":");
    push_json_string(&mut out, r.timestamp.as_str());
    out.append(",\"tool_name\":");
    push_json_string(&mut out, r.tool_name.as_str());
    out.append(",\"args_json\":");
    push_json_string(&mut out, r.args_json.as_str());
    out.append(",\"output_json\":");
    push_json_string(&mut out, r.output_json.as_str());
    out.append(",\"duration_ms\":");
    match r.duration_ms {
        Some(d) => push_u64_dec(&mut out, d),
        None => out.append("null"),
    }
    out.append("}");
    proof {
        assert(out@ =~= spec_encode_record(*r));
    }
    out
}

/// A record's JSON line never holds a line break, whatever the record's
/// strings held: one record always occupies exactly one line of the
/// log, so counting lines counts records and rotation by lines drops
/// whole records only.
pub proof fn lemma_record_is_single_line(r: ToolCallRecord)
    ensures
        crate::encode::single_line(spec_encode_record(r)),
{
    crate::encode::lemma_json_string_single_line(r.timestamp@);
    crate::encode::lemma_json_string_single_line(r.tool_name@);
    crate::encode::lemma_json_string_single_line(r.args_json@);
    crate::encode::lemma_json_string_single_line(r.output_json@);
    if r.duration_ms is Some {
        crate::encode::lemma_u64_dec_single_line(r.duration_ms->0 as nat);
    }
    reveal_strlit("{\"timestamp\":");
    reveal_strlit(",\"tool_name\":");
    reveal_strlit(",\"args_json\":");
    reveal_strlit(",\"output_json\":");
    reveal_strlit(",\"duration_ms\":");
    reveal_strlit("null");
    reveal_strlit("}");
}

/// A per-connection record sequence after appending under the in-memory
/// cap: the new record goes last, and if that bursts the cap the oldest
/// record leaves.
pub open spec fn spec_ring_push(rs: Seq<ToolCallRecord>, r: ToolCallRecord, cap: int) -> Seq<
    ToolCallRecord,
> {
    if rs.push(r).len() > cap {
        rs.push(r).drop_first()
    } else {
        rs.push(r)
    }
}

/// The records a map holds for `k`, or none at all.
pub open spec fn map_records_or_empty(
    m: Map<Seq<char>, Seq<ToolCallRecord>>,
    k: Seq<char>,
) -> Seq<ToolCallRecord> {
    if m.contains_key(k) {
        m[k]
    } else {
        Seq::empty()
    }
}

/// The in-memory history after recording `r` for connection `cid`.
pub open spec fn spec_history_after_add(
    h: Map<Seq<char>, Seq<ToolCallRecord>>,
    cid: Seq<char>,
    r: ToolCallRecord,
) -> Map<Seq<char>, Seq<ToolCallRecord>> {
    h.insert(cid, spec_ring_push(map_records_or_empty(h, cid), r, MAX_HISTORY_ENTRIES as int))
}

/// The pending write batches after recording `r` for connection `cid`.
pub open spec fn spec_pending_after_add(
    p: Map<Seq<char>, Seq<ToolCallRecord>>,
    cid: Seq<char>,
    r: ToolCallRecord,
) -> Map<Seq<char>, Seq<ToolCallRecord>> {
    p.insert(cid, map_records_or_empty(p, cid).push(r))
}

/// Recording a call makes it readable at once: after recording `r` for
/// connection `cid`, the read path for `cid` holds `r` as its most
/// recent record.
pub proof fn lemma_recorded_call_is_readable(
    h: Map<Seq<char>, Seq<ToolCallRecord>>,
    cid: Seq<char>,
    r: ToolCallRecord,
)
    ensures
        spec_history_after_add(h, cid, r).contains_key(cid),
        spec_history_after_add(h, cid, r)[cid].len() > 0,
        spec_history_after_add(h, cid, r)[cid].last() == r,
{
    let stored = map_records_or_empty(h, cid);
    let pushed = stored.push(r);
    if pushed.len() > MAX_HISTORY_ENTRIES {
        assert(pushed.drop_first().last() == r);
    }
}

/// Removing a connection empties its read path: after the removal,
/// nothing is stored for it, whatever had been recorded.
pub proof fn lemma_removed_connection_reads_empty(
    h: Map<Seq<char>, Seq<ToolCallRecord>>,
    cid: Seq<char>,
)
    ensures
        !h.remove(cid).contains_key(cid),
{
}

/// Ring-buffer eviction: a connection already at the retention cap
/// keeps exactly the cap after one more record — the oldest record
/// leaves and the rest shift up, the new record last.
pub proof fn lemma_ring_push_evicts_oldest(rs: Seq<ToolCallRecord>, r: ToolCallRecord, cap: int)
    requires
        rs.len() == cap,
        cap > 0,
    ensures
        spec_ring_push(rs, r, cap).len() == cap,
        spec_ring_push(rs, r, cap) == rs.drop_first().push(r),
        forall|i: int| 0 <= i < cap - 1 ==> spec_ring_push(rs, r, cap)[i] == rs[i + 1],
        spec_ring_push(rs, r, cap).last() == r,
{
    assert(spec_ring_push(rs, r, cap) =~= rs.drop_first().push(r));
}

/// A connection under the cap loses nothing: the new record simply goes
/// last.
pub proof fn lemma_ring_push_appends_under_cap(
    rs: Seq<ToolCallRecord>,
    r: ToolCallRecord,
    cap: int,
)
    requires
        rs.len() < cap,
    ensures
        spec_ring_push(rs, r, cap) == rs.push(r),
{
}

/// The log lines of one drained batch, in batch order.
pub open spec fn spec_batch_texts(b: Seq<ToolCallRecord>) -> Seq<Seq<char>> {
    b.map_values(|r: ToolCallRecord| spec_encode_record(r))
}

/// The log lines of a whole flush: every batch drained, in table walk
/// order.
pub open spec fn spec_flush_texts(bs: Seq<Seq<ToolCallRecord>>) -> Seq<Seq<char>>
    decreases bs.len(),
{
    if bs.len() == 0 {
        Seq::empty()
    } else {
        spec_flush_texts(bs.drop_last()) + spec_batch_texts(bs.last())
    }
}

/// The view of an optional string slice.
pub open spec fn opt_str_view(o: Option<&str>) -> Option<Seq<char>> {
    match o {
        Some(s) => Some(s@),
        None => None,
    }
}

/// The instant an optional `since` bound denotes: none when absent, and
/// none again when given but not a valid RFC 3339 timestamp — an
/// unusable bound filters nothing.
pub open spec fn opt_since_millis(since: Option<&str>) -> Option<i64> {
    match since {
        Some(s) => rfc3339_millis(s@),
        None => None,
    }
}

/// How many records a set of batches holds in all.
pub open spec fn total_records(bs: Seq<Seq<ToolCallRecord>>) -> int
    decreases bs.len(),
{
    if bs.len() == 0 {
        0
    } else {
        total_records(bs.drop_last()) + bs.last().len()
    }
}

/// A flush loses nothing: it emits exactly one log line per pending
/// record, so writes accepted just before shutdown still reach the
/// final flush.
pub proof fn lemma_flush_drains_every_record(bs: Seq<Seq<ToolCallRecord>>)
    ensures
        spec_flush_texts(bs).len() == total_records(bs),
    decreases bs.len(),
{
    if bs.len() > 0 {
        lemma_flush_drains_every_record(bs.drop_last());
    }
}

/// Every line of a flush is a single log line: flushing any batches
/// yields texts free of line breaks, so the append-only log stays one
/// record per line.
pub proof fn lemma_flush_lines_are_single_lines(bs: Seq<Seq<ToolCallRecord>>)
    ensures
        forall|i: int|
            0 <= i < spec_flush_texts(bs).len() ==> crate::encode::single_line(
                #[trigger] spec_flush_texts(bs)[i],
            ),
    decreases bs.len(),
{
    if bs.len() > 0 {
        lemma_flush_lines_are_single_lines(bs.drop_last());
        let prefix = spec_flush_texts(bs.drop_last());
        let batch = spec_batch_texts(bs.last());
        assert forall|i: int|
            0 <= i < spec_flush_texts(bs).len() implies crate::encode::single_line(
            #[trigger] spec_flush_texts(bs)[i]) by {
            if i < prefix.len() {
                assert(spec_flush_texts(bs)[i] == prefix[i]);
            } else {
                assert(spec_flush_texts(bs)[i] == batch[i - prefix.len()]);
                lemma_record_is_single_line(bs.last()[i - prefix.len()]);
            }
        }
    }
}

/// Whether `r` passes the read-path filters: a tool-name filter keeps
/// records of that tool alone, and a `since` bound keeps records whose
/// timestamp parses to that instant or later (a record whose timestamp
/// does not parse is kept).
pub open spec fn spec_passes_filters(
    r: ToolCallRecord,
    name_filter: Option<Seq<char>>,
    since_millis: Option<i64>,
) -> bool {
    (match name_filter {
        Some(n) => r.tool_name@ == n,
        None => true,
    }) && (match since_millis {
        Some(s) => match rfc3339_millis(r.timestamp@) {
            Some(t) => t >= s,
            None => true,
        },
        None => true,
    })
}

/// The page of a filtered result the read path returns: a negative
/// offset asks for the tail of that many records (`max_results`
/// ignored); a non-negative offset reads forward from it, returning at
/// most `max_results` records (itself capped at the in-memory
/// retention).
pub open spec fn spec_page_bounds(total: int, max_results: int, offset: int) -> (int, int) {
    if offset < 0 {
        let tail = if -offset < total {
            -offset
        } else {
            total
        };
        (total - tail, total)
    } else {
        let limit = if max_results < MAX_HISTORY_ENTRIES {
            max_results
        } else {
            MAX_HISTORY_ENTRIES as int
        };
        let start = if offset < total {
            offset
        } else {
            total
        };
        let end = if start + limit < total {
            start + limit
        } else {
            total
        };
        (start, end)
    }
}

/// What the read path returns for a stored record sequence and the
/// given filters and page.
pub open spec fn spec_recent(
    rs: Seq<ToolCallRecord>,
    max_results: int,
    offset: int,
    name_filter: Option<Seq<char>>,
    since_millis: Option<i64>,
) -> Seq<ToolCallRecord> {
    let filtered = rs.filter(|r: ToolCallRecord| spec_passes_filters(r, name_filter, since_millis));
    let bounds = spec_page_bounds(filtered.len() as int, max_results, offset);
    filtered.subrange(bounds.0, bounds.1)
}

proof fn lemma_filter_all_pass(s: Seq<ToolCallRecord>, pred: spec_fn(ToolCallRecord) -> bool)
    requires
        forall|i: int| 0 <= i < s.len() ==> pred(s[i]),
    ensures
        s.filter(pred) == s,
    decreases s.len(),
{
    reveal(Seq::filter);
    if s.len() > 0 {
        lemma_filter_all_pass(s.drop_last(), pred);
        assert(s.drop_last().push(s.last()) =~= s);
    }
}

/// The read path hides nothing: with no filters, a forward read from
/// the start with room for every record returns the stored records
/// exactly, oldest first. In particular a record just stored comes
/// back.
pub proof fn lemma_recent_unfiltered_returns_all(rs: Seq<ToolCallRecord>, max_results: int)
    requires
        rs.len() <= max_results,
        max_results <= MAX_HISTORY_ENTRIES,
    ensures
        spec_recent(rs, max_results, 0, None, None) == rs,
{
    let pred = |r: ToolCallRecord| spec_passes_filters(r, None, None);
    lemma_filter_all_pass(rs, pred);
    assert(rs.subrange(0, rs.len() as int) =~= rs);
}

/// Tool-call history with per-connection in-memory retention and
/// batched persistence.
pub struct ToolHistory {
    entries: StrTable<Vec<ToolCallRecord>>,
    pending: StrTable<Vec<ToolCallRecord>>,
    writes_since_check: usize,
    history_file: String,
}

impl ToolHistory {
    /// The in-memory history: connection identifier to retained
    /// records, oldest first.
    pub closed spec fn history_map(&self) -> Map<Seq<char>, Seq<ToolCallRecord>> {
        self.entries@.map_values(|v: Vec<ToolCallRecord>| v@)
    }

    /// The pending write batches, keyed by connection identifier.
    pub closed spec fn pending_map(&self) -> Map<Seq<char>, Seq<ToolCallRecord>> {
        self.pending@.map_values(|v: Vec<ToolCallRecord>| v@)
    }

    /// The connection identifiers of the pending batches, in the order
    /// a flush drains them.
    pub closed spec fn pending_keys(&self) -> Seq<Seq<char>> {
        self.pending.entries().map_values(|p: (String, Vec<ToolCallRecord>)| p.0@)
    }

    /// The pending batches, in the order a flush drains them.
    pub closed spec fn pending_batches(&self) -> Seq<Seq<ToolCallRecord>> {
        self.pending.entries().map_values(|p: (String, Vec<ToolCallRecord>)| p.1@)
    }

    /// Records flushed since the last rotation check.
    pub closed spec fn writes_count(&self) -> int {
        self.writes_since_check as int
    }

    /// The log file name this instance persists to.
    pub closed spec fn file_name(&self) -> Seq<char> {
        self.history_file@
    }

    /// Well-formed: unique connection keys, every retained ring within
    /// the cap, and the write counter strictly below the check interval.
    pub closed spec fn wf(&self) -> bool {
        &&& self.entries.wf()
        &&& self.pending.wf()
        &&& forall|i: int|
            0 <= i < self.entries.entries().len()
                ==> (#[trigger] self.entries.entries()[i]).1@.len() <= MAX_HISTORY_ENTRIES
        &&& self.writes_since_check < ROTATION_CHECK_INTERVAL
    }

    /// A fresh history for one server instance; its log file is named
    /// for the instance.
    pub fn new(instance_id: String) -> (h: ToolHistory)
        ensures
            h.wf(),
            h.history_map() == Map::<Seq<char>, Seq<ToolCallRecord>>::empty(),
            h.pending_map() == Map::<Seq<char>, Seq<ToolCallRecord>>::empty(),
            h.pending_batches() =~= Seq::<Seq<ToolCallRecord>>::empty(),
            h.writes_count() == 0,
            h.file_name() == "tool-history_"@ + instance_id@ + ".jsonl"@,
    {
        let mut name = "tool-history_".to_owned();
        name.append(instance_id.as_str());
        name.append(".jsonl");
        let h = ToolHistory {
            entries: StrTable::new(),
            pending: StrTable::new(),
            writes_since_check: 0,
            history_file: name,
        };
        proof {
            assert(h.history_map() =~= Map::<Seq<char>, Seq<ToolCallRecord>>::empty());
            assert(h.pending_map() =~= Map::<Seq<char>, Seq<ToolCallRecord>>::empty());
            assert(h.pending_batches() =~= Seq::<Seq<ToolCallRecord>>::empty());
            assert(h.file_name() =~= "tool-history_"@ + instance_id@ + ".jsonl"@);
        }
        h
    }

    /// The name of the log file this instance appends to.
    pub fn log_file_name(&self) -> (r: &String)
        ensures
            r@ == self.file_name(),
    {
        &self.history_file
    }

    /// Record `record` for `connection_id`: append to the connection's
    /// in-memory ring (evicting the oldest past the cap) and to its
    /// pending write batch.
    pub fn add_record(&mut self, connection_id: &str, record: ToolCallRecord)
        requires
            old(self).wf(),
        ensures
            final(self).wf(),
            final(self).history_map() == spec_history_after_add(
                old(self).history_map(),
                connection_id@,
                record,
            ),
            final(self).pending_map() == spec_pending_after_add(
                old(self).pending_map(),
                connection_id@,
                record,
            ),
            old(self).pending_map().contains_key(connection_id@) ==> final(self).pending_keys()
                == old(self).pending_keys() && final(self).pending_batches() == old(
                self,
            ).pending_batches().update(
                key_index(old(self).pending_keys(), connection_id@),
                old(self).pending_map()[connection_id@].push(record),
            ),
            !old(self).pending_map().contains_key(connection_id@) ==> final(self).pending_keys()
                == old(self).pending_keys().push(connection_id@) && final(self).pending_batches()
                == old(self).pending_batches().push(seq![record]),
            final(self).writes_count() == old(self).writes_count(),
            final(self).file_name() == old(self).file_name(),
    {
        let in_memory = record.duplicate();
        match self.entries.index_of(connection_id) {
            Some(i) => {
                let mut records = self.entries.replace_at(i, Vec::new());
                records.push(in_memory);
                if records.len() > MAX_HISTORY_ENTRIES {
                    records.remove(0);
                    proof {
                        assert(records@ =~= old(self).history_map()[connection_id@].push(
                            record,
                        ).drop_first());
                    }
                }
                let _ = self.entries.replace_at(i, records);
                proof {
                    assert(self.history_map() =~= spec_history_after_add(
                        old(self).history_map(),
                        connection_id@,
                        record,
                    ));
                    assert forall|j: int|
                        0 <= j < self.entries.entries().len() implies (
                        #[trigger] self.entries.entries()[j]).1@.len() <= MAX_HISTORY_ENTRIES by {
                        if j == i as int {
                            assert(self.entries.entries()[j].1 == records);
                        } else {
                            assert(self.entries.entries()[j] == old(self).entries.entries()[j]);
                            assert(old(self).entries.entries()[j].1@.len()
                                <= MAX_HISTORY_ENTRIES);
                        }
                    }
                }
            },
            None => {
                let mut records: Vec<ToolCallRecord> = Vec::new();
                records.push(in_memory);
                self.entries.set(connection_id, records);
                proof {
                    assert(records@ =~= Seq::<ToolCallRecord>::empty().push(record));
                    assert(self.history_map() =~= spec_history_after_add(
                        old(self).history_map(),
                        connection_id@,
                        record,
                    ));
                    assert forall|j: int|
                        0 <= j < self.entries.entries().len() implies (
                        #[trigger] self.entries.entries()[j]).1@.len() <= MAX_HISTORY_ENTRIES by {
                        if j < self.entries.entries().len() - 1 {
                            let t = self.entries.entries();
                            assert(t[j] == t.drop_last()[j]);
                            assert(old(self).entries.entries()[j].1@.len()
                                <= MAX_HISTORY_ENTRIES);
                        } else {
                            assert(self.entries.entries()[j].1 == records);
                        }
                    }
                }
            },
        }
        let ghost mid = *self;
        match self.pending.index_of(connection_id) {
            Some(i) => {
                let mut batch = self.pending.replace_at(i, Vec::new());
                batch.push(record);
                let _ = self.pending.replace_at(i, batch);
                proof {
                    let s = mid.pending.entries();
                    assert(key_index(mid.pending_keys(), connection_id@) == i as int) by {
                        let w = key_index(mid.pending_keys(), connection_id@);
                        assert(mid.pending_keys()[i as int] == connection_id@);
                        assert(0 <= w < mid.pending_keys().len() && mid.pending_keys()[w]
                            == connection_id@);
                        if w != i as int {
                            assert(s[w].0@ == s[i as int].0@);
                            assert(false);
                        }
                    }
                    assert(self.pending_map() =~= spec_pending_after_add(
                        mid.pending_map(),
                        connection_id@,
                        record,
                    ));
                    assert(self.pending_keys() =~= mid.pending_keys());
                    assert(self.pending_batches() =~= mid.pending_batches().update(
                        i as int,
                        mid.pending_map()[connection_id@].push(record),
                    ));
                }
            },
            None => {
                let mut batch: Vec<ToolCallRecord> = Vec::new();
                batch.push(record);
                self.pending.set(connection_id, batch);
                proof {
                    assert(batch@ =~= Seq::<ToolCallRecord>::empty().push(record));
                    assert(self.pending_map() =~= spec_pending_after_add(
                        mid.pending_map(),
                        connection_id@,
                        record,
                    ));
                    assert(self.pending_keys() =~= mid.pending_keys().push(connection_id@));
                    assert(self.pending_batches() =~= mid.pending_batches().push(seq![record]));
                }
            },
        }
    }

    /// Record a tool call for a connection: the record is stamped with
    /// the current clock and carries the serialized argument and result
    /// payloads. Fire-and-forget at the caller; the effect on the
    /// history is exactly `add_record` of that record.
    pub fn track_call(
        &mut self,
        connection_id: &str,
        tool_name: String,
        arguments: serde_json::Value,
        output: serde_json::Value,
        duration_ms: Option<u64>,
    )
        requires
            old(self).wf(),
        ensures
            final(self).wf(),
            exists|rec: ToolCallRecord|
                {
                    &&& rfc3339_millis(rec.timestamp@) is Some
                    &&& rec.tool_name == tool_name
                    &&& rec.args_json@ == json_text_of(arguments)
                    &&& rec.output_json@ == json_text_of(output)
                    &&& rec.duration_ms == duration_ms
                    &&& final(self).history_map() == spec_history_after_add(
                        old(self).history_map(),
                        connection_id@,
                        rec,
                    )
                    &&& final(self).pending_map() == spec_pending_after_add(
                        old(self).pending_map(),
                        connection_id@,
                        rec,
                    )
                },
            final(self).writes_count() == old(self).writes_count(),
            final(self).file_name() == old(self).file_name(),
    {
        let args_json = value_to_json_string(&arguments);
        let output_json = value_to_json_string(&output);
        let timestamp = now_rfc3339();
        let record = ToolCallRecord { timestamp, tool_name, args_json, output_json, duration_ms };
        let ghost rec = record;
        self.add_record(connection_id, record);
        proof {
            assert(rfc3339_millis(rec.timestamp@) is Some);
        }
    }

    /// The retained records for a connection, oldest first — or nothing
    /// for a connection never recorded (or since removed).
    pub fn get_history_for_connection(&self, connection_id: &str) -> (r: Option<
        Vec<ToolCallRecord>,
    >)
        requires
            self.wf(),
        ensures
            r matches Some(v) ==> self.history_map().contains_key(connection_id@) && v@
                == self.history_map()[connection_id@],
            r is None ==> !self.history_map().contains_key(connection_id@),
    {
        match self.entries.get(connection_id) {
            Some(records) => Some(copy_records(records)),
            None => None,
        }
    }

    /// The retained records for a connection after the read-path
    /// filters and pagination: keep records of the filtered tool name
    /// (all, when none given) stamped no earlier than `since` (a
    /// `since` or a record stamp that does not parse filters nothing),
    /// then page — a negative `offset` returns the tail of that many
    /// records and ignores `max_results`, a non-negative one reads
    /// forward from it, `max_results` records at most.
    pub fn get_recent_calls_for_connection(
        &self,
        connection_id: &str,
        max_results: usize,
        offset: i64,
        tool_name: Option<&str>,
        since: Option<&str>,
    ) -> (r: Vec<ToolCallRecord>)
        requires
            self.wf(),
            offset > i64::MIN,
        ensures
            r@ == spec_recent(
                map_records_or_empty(self.history_map(), connection_id@),
                max_results as int,
                offset as int,
                opt_str_view(tool_name),
                opt_since_millis(since),
            ),
    {
        let ghost stored = map_records_or_empty(self.history_map(), connection_id@);
        let ghost nf = opt_str_view(tool_name);
        let ghost sm = opt_since_millis(since);
        let ghost pred = |rec: ToolCallRecord| spec_passes_filters(rec, nf, sm);
        let records = match self.entries.get(connection_id) {
            Some(v) => v,
            None => {
                let empty: Vec<ToolCallRecord> = Vec::new();
                proof {
                    reveal(Seq::filter);
                    assert(stored =~= Seq::<ToolCallRecord>::empty());
                    assert(empty@ =~= spec_recent(
                        stored,
                        max_results as int,
                        offset as int,
                        nf,
                        sm,
                    ));
                }
                return empty;
            },
        };
        proof {
            assert(records@ == stored);
        }
        let since_millis: Option<i64> = match since {
            Some(s) => parse_rfc3339_millis(s),
            None => None,
        };
        let n = records.len();
        let mut filtered: Vec<ToolCallRecord> = Vec::new();
        let mut i: usize = 0;
        proof {
            reveal(Seq::filter);
            assert(records@.subrange(0, 0) =~= Seq::<ToolCallRecord>::empty());
        }
        while i < n
            invariant
                i <= n,
                n == records@.len(),
                filtered@ == records@.subrange(0, i as int).filter(pred),
                since_millis == sm,
                pred == (|rec: ToolCallRecord| spec_passes_filters(rec, nf, sm)),
                nf == opt_str_view(tool_name),
            decreases n - i,
        {
            let rec = &records[i];
            let name_ok = match tool_name {
                Some(nm) => crate::table::str_eq(rec.tool_name.as_str(), nm),
                None => true,
            };
            let time_ok = match since_millis {
                Some(s) => match parse_rfc3339_millis(rec.timestamp.as_str()) {
                    Some(t) => t >= s,
                    None => true,
                },
                None => None == since_millis,
            };
            proof {
                assert((name_ok && time_ok) == pred(records@[i as int]));
                reveal(Seq::filter);
                assert(records@.subrange(0, i + 1).drop_last() =~= records@.subrange(0, i as int));
                assert(records@.subrange(0, i + 1).last() == records@[i as int]);
            }
            if name_ok && time_ok {
                filtered.push(rec.duplicate());
            }
            i = i + 1;
        }
        proof {
            assert(records@.subrange(0, n as int) =~= records@);
        }
        let total = filtered.len();
        let start: usize;
        let end: usize;
        if offset < 0 {
            let neg: i64 = -offset;
            let tail: usize = if (neg as u64) < (total as u64) {
                neg as usize
            } else {
                total
            };
            start = total - tail;
            end = total;
        } else {
            let limit: usize = if max_results < MAX_HISTORY_ENTRIES {
                max_results
            } else {
                MAX_HISTORY_ENTRIES
            };
            start = if (offset as u64) < (total as u64) {
                offset as usize
            } else {
                total
            };
            end = if limit < total - start {
                start + limit
            } else {
                total
            };
        }
        let mut out: Vec<ToolCallRecord> = Vec::new();
        let mut k: usize = start;
        proof {
            assert(out@ =~= filtered@.subrange(start as int, start as int));
        }
        while k < end
            invariant
                start <= k <= end,
                end <= filtered@.len(),
                out@ =~= filtered@.subrange(start as int, k as int),
            decreases end - k,
        {
            out.push(filtered[k].duplicate());
            proof {
                assert(out@ =~= filtered@.subrange(start as int, k + 1));
            }
            k = k + 1;
        }
        proof {
            assert((start as int, end as int) == spec_page_bounds(
                filtered@.len() as int,
                max_results as int,
                offset as int,
            ));
            assert(out@ == spec_recent(stored, max_results as int, offset as int, nf, sm));
        }
        out
    }

    /// Drain every pending batch into its JSON log lines, one line per
    /// record, batches in table order. Advances the write counter by
    /// the number of drained records; when it reaches the check
    /// interval it resets and the returned flag says a rotation pass is
    /// due. An empty flush leaves the counter alone and never asks for
    /// rotation.
    pub fn flush_pending(&mut self) -> (r: (Vec<String>, bool))
        requires
            old(self).wf(),
        ensures
            final(self).wf(),
            final(self).history_map() == old(self).history_map(),
            final(self).pending_map() == Map::<Seq<char>, Seq<ToolCallRecord>>::empty(),
            final(self).pending_batches() == Seq::<Seq<ToolCallRecord>>::empty(),
            final(self).file_name() == old(self).file_name(),
            r.0@.map_values(|l: String| l@) == spec_flush_texts(old(self).pending_batches()),
            r.0@.len() == 0 ==> final(self).writes_count() == old(self).writes_count() && r.1
                == false,
            r.0@.len() > 0 ==> {
                let c = old(self).writes_count() + r.0@.len();
                if c >= ROTATION_CHECK_INTERVAL {
                    final(self).writes_count() == 0 && r.1 == true
                } else {
                    final(self).writes_count() == c && r.1 == false
                }
            },
    {
        let ghost batches = old(self).pending_batches();
        let items = self.pending.take_items();
        proof {
            assert(items@.map_values(|p: (String, Vec<ToolCallRecord>)| p.1@) =~= batches);
        }
        let mut lines: Vec<String> = Vec::new();
        let m = items.len();
        let mut i: usize = 0;
        proof {
            assert(batches.subrange(0, 0) =~= Seq::<Seq<ToolCallRecord>>::empty());
            assert(lines@.map_values(|l: String| l@) =~= spec_flush_texts(batches.subrange(0, 0)));
        }
        while i < m
            invariant
                i <= m,
                m == items@.len(),
                batches == items@.map_values(|p: (String, Vec<ToolCallRecord>)| p.1@),
                lines@.map_values(|l: String| l@) == spec_flush_texts(
                    batches.subrange(0, i as int),
                ),
            decreases m - i,
        {
            let batch = &items[i].1;
            let b = batch.len();
            let mut j: usize = 0;
            proof {
                assert(batches[i as int] == items@[i as int].1@);
                assert(spec_batch_texts(batches[i as int].subrange(0, 0)) =~= Seq::<
                    Seq<char>,
                >::empty());
                assert(lines@.map_values(|l: String| l@) + Seq::<Seq<char>>::empty()
                    =~= lines@.map_values(|l: String| l@));
            }
            while j < b
                invariant
                    j <= b,
                    b == batch@.len(),
                    i < m,
                    m == items@.len(),
                    batch == &items@[i as int].1,
                    batches == items@.map_values(|p: (String, Vec<ToolCallRecord>)| p.1@),
                    batches[i as int] == batch@,
                    lines@.map_values(|l: String| l@) == spec_flush_texts(
                        batches.subrange(0, i as int),
                    ) + spec_batch_texts(batch@.subrange(0, j as int)),
                decreases b - j,
            {
                let ghost prev_lines = lines@;
                let line = encode_record(&batch[j]);
                proof {
                    assert(line@ == spec_encode_record(batch@[j as int]));
                }
                lines.push(line);
                proof {
                    let f = |l: String| l@;
                    let prefix = spec_flush_texts(batches.subrange(0, i as int));
                    assert(lines@ == prev_lines.push(line));
                    assert(lines@.map_values(f) =~= prev_lines.map_values(f).push(line@));
                    assert(batch@.subrange(0, j + 1) =~= batch@.subrange(0, j as int).push(
                        batch@[j as int],
                    ));
                    assert(spec_batch_texts(batch@.subrange(0, j + 1)) =~= spec_batch_texts(
                        batch@.subrange(0, j as int),
                    ).push(spec_encode_record(batch@[j as int])));
                    assert((prefix + spec_batch_texts(batch@.subrange(0, j as int))).push(line@)
                        =~= prefix + spec_batch_texts(batch@.subrange(0, j + 1)));
                    assert(lines@.map_values(f) =~= prefix + spec_batch_texts(
                        batch@.subrange(0, j + 1),
                    ));
                }
                j = j + 1;
            }
            proof {
                assert(batch@.subrange(0, b as int) =~= batch@);
                assert(batches.subrange(0, i + 1).drop_last() =~= batches.subrange(0, i as int));
                assert(batches.subrange(0, i + 1).last() == batches[i as int]);
                assert(spec_flush_texts(batches.subrange(0, i + 1)) == spec_flush_texts(
                    batches.subrange(0, i as int),
                ) + spec_batch_texts(batches[i as int]));
            }
            i = i + 1;
        }
        proof {
            assert(batches.subrange(0, m as int) =~= batches);
        }
        let count = lines.len();
        let due: bool;
        if count == 0 {
            due = false;
        } else if count >= ROTATION_CHECK_INTERVAL {
            due = true;
            self.writes_since_check = 0;
        } else if self.writes_since_check >= ROTATION_CHECK_INTERVAL - count {
            due = true;
            self.writes_since_check = 0;
        } else {
            due = false;
            self.writes_since_check = self.writes_since_check + count;
        }
        (lines, due)
    }

    /// Seed the history from previously persisted records: the most
    /// recent `MAX_HISTORY_ENTRIES` of them are retained under the
    /// legacy connection key, older ones are dropped. Nothing changes
    /// when there is nothing to load.
    pub fn ingest_loaded(&mut self, records: Vec<ToolCallRecord>)
        requires
            old(self).wf(),
        ensures
            final(self).wf(),
            records@.len() == 0 ==> final(self).history_map() == old(self).history_map(),
            records@.len() > 0 ==> final(self).history_map() == old(self).history_map().insert(
                "__legacy__"@,
                records@.skip(
                    if records@.len() > MAX_HISTORY_ENTRIES {
                        records@.len() - MAX_HISTORY_ENTRIES
                    } else {
                        0
                    },
                ),
            ),
            final(self).pending_map() == old(self).pending_map(),
            final(self).writes_count() == old(self).writes_count(),
            final(self).file_name() == old(self).file_name(),
    {
        let n = records.len();
        if n == 0 {
            return ;
        }
        let start: usize = if n > MAX_HISTORY_ENTRIES {
            n - MAX_HISTORY_ENTRIES
        } else {
            0
        };
        let mut rest = records;
        let kept = rest.split_off(start);
        self.entries.set("__legacy__", kept);
        proof {
            assert(self.history_map() =~= old(self).history_map().insert(
                "__legacy__"@,
                records@.skip(start as int),
            ));
            assert forall|j: int|
                0 <= j < self.entries.entries().len() implies (
            #[trigger] self.entries.entries()[j]).1@.len() <= MAX_HISTORY_ENTRIES by {
                let p = self.entries.entries()[j];
                if old(self).entries.entries().contains(p) {
                    let w = choose|w: int|
                        0 <= w < old(self).entries.entries().len() && old(
                            self,
                        ).entries.entries()[w] == p;
                    assert(old(self).entries.entries()[w].1@.len() <= MAX_HISTORY_ENTRIES);
                }
            }
        }
    }

    /// Drop all state for a connection: its retained records and its
    /// pending batch.
    pub fn remove_connection(&mut self, connection_id: &str)
        requires
            old(self).wf(),
        ensures
            final(self).wf(),
            final(self).history_map() == old(self).history_map().remove(connection_id@),
            final(self).pending_map() == old(self).pending_map().remove(connection_id@),
            final(self).writes_count() == old(self).writes_count(),
            final(self).file_name() == old(self).file_name(),
    {
        self.entries.remove(connection_id);
        self.pending.remove(connection_id);
        proof {
            assert(self.history_map() =~= old(self).history_map().remove(connection_id@));
            assert(self.pending_map() =~= old(self).pending_map().remove(connection_id@));
            assert forall|j: int|
                0 <= j < self.entries.entries().len() implies (
                #[trigger] self.entries.entries()[j]).1@.len() <= MAX_HISTORY_ENTRIES by {
                let p = self.entries.entries()[j];
                assert(old(self).entries.entries().contains(p));
                let w = choose|w: int|
                    0 <= w < old(self).entries.entries().len() && old(self).entries.entries()[w]
                        == p;
                assert(old(self).entries.entries()[w].1@.len() <= MAX_HISTORY_ENTRIES);
            }
        }
    }
}

/// What a rotation pass keeps: nothing to do while the log holds at
/// most `MAX_DISK_ENTRIES` lines; past that, exactly the most recent
/// `MAX_DISK_ENTRIES` lines survive, in order. The caller writes the
/// kept lines to a temporary file and renames it over the log, so a
/// reader only ever sees the old log or the new one whole.
pub fn rotation_keep(lines: &Vec<String>) -> (r: Option<Vec<String>>)
    ensures
        lines@.len() <= MAX_DISK_ENTRIES ==> r is None,
        lines@.len() > MAX_DISK_ENTRIES ==> (r matches Some(kept) && kept@ == lines@.skip(
            lines@.len() - MAX_DISK_ENTRIES,
        )),
{
    let n = lines.len();
    if n <= MAX_DISK_ENTRIES {
        return None;
    }
    let start = n - MAX_DISK_ENTRIES;
    let mut kept: Vec<String> = Vec::new();
    let mut k: usize = start;
    proof {
        assert(kept@ =~= lines@.subrange(start as int, start as int));
    }
    while k < n
        invariant
            start <= k <= n,
            n == lines@.len(),
            kept@ =~= lines@.subrange(start as int, k as int),
        decreases n - k,
    {
        kept.push(lines[k].clone());
        proof {
            assert(kept@ =~= lines@.subrange(start as int, k + 1));
        }
        k = k + 1;
    }
    proof {
        assert(lines@.subrange(start as int, n as int) =~= lines@.skip(start as int));
    }
    Some(kept)
}

/// Copy a record sequence field for field.
fn copy_records(rs: &Vec<ToolCallRecord>) -> (r: Vec<ToolCallRecord>)
    ensures
        r@ == rs@,
{
    let n = rs.len();
    let mut out: Vec<ToolCallRecord> = Vec::new();
    let mut i: usize = 0;
    while i < n
        invariant
            i <= n,
            n == rs@.len(),
            out@ =~= rs@.subrange(0, i as int),
        decreases n - i,
    {
        out.push(rs[i].duplicate());
        proof {
            assert(out@ =~= rs@.subrange(0, i + 1));
        }
        i = i + 1;
    }
    proof {
        assert(rs@.subrange(0, n as int) =~= rs@);
    }
    out
}

} // verus!
