//! Structured log analysis: a bounded store of log entries, search over it, patterns
//! that count the entries whose message holds a word, indexes by level, module, time
//! and word, and the counts that the statistics are made of.

use vstd::prelude::*;
use vstd::string::StrSliceExecFns;
use vstd::string::StringSliceAdditionalSpecFns;
use crate::outside::{hour_text_limit, lowercase, plain_time_pattern, to_lower, utc_format, utc_text};
use crate::text::{chars_of, clone_strings, contains, has_substring, join3, occurs_at};

verus! {

/// Severity of a log entry.
#[derive(Clone, Copy, Debug, PartialEq, Eq, Structural)]
pub enum LogLevel {
    Trace,
    Debug,
    Info,
    Warn,
    Error,
    Fatal,
}

/// The name of a level.
pub open spec fn level_name(level: LogLevel) -> Seq<char> {
    match level {
        LogLevel::Trace => "Trace"@,
        LogLevel::Debug => "Debug"@,
        LogLevel::Info => "Info"@,
        LogLevel::Warn => "Warn"@,
        LogLevel::Error => "Error"@,
        LogLevel::Fatal => "Fatal"@,
    }
}

/// The name of a level: "Trace", "Debug", "Info", "Warn", "Error" or "Fatal".
pub fn level_to_string(level: &LogLevel) -> (r: String)
    ensures
        r@ == level_name(*level),
{
    let r = match level {
        LogLevel::Trace => String::from_str("Trace"),
        LogLevel::Debug => String::from_str("Debug"),
        LogLevel::Info => String::from_str("Info"),
        LogLevel::Warn => String::from_str("Warn"),
        LogLevel::Error => String::from_str("Error"),
        LogLevel::Fatal => String::from_str("Fatal"),
    };
    proof {
        reveal_strlit("Trace");
        reveal_strlit("Debug");
        reveal_strlit("Info");
        reveal_strlit("Warn");
        reveal_strlit("Error");
        reveal_strlit("Fatal");
    }
    r
}

/// One log entry.
#[derive(Debug)]
pub struct LogEntry {
    pub id: String,
    pub timestamp: u64,
    pub level: LogLevel,
    pub message: String,
    pub module: String,
    pub thread_id: String,
    pub file: String,
    pub line: u32,
    pub metadata: std::collections::HashMap<String, String>,
    pub tags: Vec<String>,
}

impl View for LogEntry {
    type V = (
        Seq<char>,
        u64,
        LogLevel,
        Seq<char>,
        Seq<char>,
        Seq<char>,
        Seq<char>,
        u32,
        Map<String, String>,
        Seq<String>,
    );

    open spec fn view(&self) -> Self::V {
        (
            self.id@,
            self.timestamp,
            self.level,
            self.message@,
            self.module@,
            self.thread_id@,
            self.file@,
            self.line,
            self.metadata@,
            self.tags@,
        )
    }
}

impl Clone for LogEntry {
    fn clone(&self) -> (r: Self)
        ensures
            r@ == self@,
    {
        LogEntry {
            id: self.id.clone(),
            timestamp: self.timestamp,
            level: self.level,
            message: self.message.clone(),
            module: self.module.clone(),
            thread_id: self.thread_id.clone(),
            file: self.file.clone(),
            line: self.line,
            metadata: self.metadata.clone(),
            tags: clone_strings(&self.tags),
        }
    }
}

/// A search over the entries: each field that is set narrows it.
#[derive(Debug, Default)]
pub struct LogQuery {
    pub text: Option<String>,
    pub level: Option<LogLevel>,
    pub module: Option<String>,
    pub start_time: Option<u64>,
    pub end_time: Option<u64>,
    pub tags: Option<Vec<String>>,
    pub limit: Option<usize>,
    pub offset: Option<usize>,
}

/// What a search found.
#[derive(Debug)]
pub struct LogSearchResult {
    pub entries: Vec<LogEntry>,
    pub total_count: usize,
    pub query_time_ms: u64,
    pub has_more: bool,
}

/// A word whose occurrences in messages are counted.
#[derive(Debug)]
pub struct LogPattern {
    pub id: String,
    pub name: String,
    pub pattern: String,
    pub description: String,
    pub severity: LogLevel,
    pub is_active: bool,
    pub match_count: u64,
    pub last_matched: Option<u64>,
}

impl Clone for LogPattern {
    fn clone(&self) -> (r: Self)
        ensures
            r == *self,
    {
        LogPattern {
            id: self.id.clone(),
            name: self.name.clone(),
            pattern: self.pattern.clone(),
            description: self.description.clone(),
            severity: self.severity,
            is_active: self.is_active,
            match_count: self.match_count,
            last_matched: self.last_matched,
        }
    }
}

/// Settings of the analyzer.
#[derive(Clone, Copy, Debug)]
pub struct LogAnalyzerConfig {
    pub max_entries: usize,
    pub retention_days: u32,
    pub enable_pattern_matching: bool,
    pub enable_real_time_analysis: bool,
    pub analysis_interval_ms: u64,
    pub max_search_results: usize,
    pub enable_indexing: bool,
    pub index_update_interval_ms: u64,
}

impl Default for LogAnalyzerConfig {
    /// 100 000 entries kept for 7 days, analysis every 5 s, pattern matching, real-time
    /// analysis and indexing on, at most 1000 search results, indexes every 10 s.
    fn default() -> (r: Self)
        ensures
            r.max_entries == 100000,
            r.retention_days == 7,
            r.enable_pattern_matching,
            r.enable_real_time_analysis,
            r.analysis_interval_ms == 5000,
            r.max_search_results == 1000,
            r.enable_indexing,
            r.index_update_interval_ms == 10000,
    {
        LogAnalyzerConfig {
            max_entries: 100000,
            retention_days: 7,
            enable_pattern_matching: true,
            enable_real_time_analysis: true,
            analysis_interval_ms: 5000,
            max_search_results: 1000,
            enable_indexing: true,
            index_update_interval_ms: 10000,
        }
    }
}

// ---------------------------------------------------------------------------
// Search

/// Some query tag equals some tag of the entry.
pub open spec fn shares_tag(tags: Seq<String>, query_tags: Seq<String>) -> bool {
    exists|i: int, j: int| 0 <= i < query_tags.len() && 0 <= j < tags.len() && query_tags[i]@ == tags[j]@
}

/// Whether an entry passes every filter that the query sets.
pub open spec fn entry_matches(e: LogEntry, q: LogQuery) -> bool {
    let from: u64 = match q.start_time { Some(t) => t, None => 0 };
    let to: u64 = match q.end_time { Some(t) => t, None => u64::MAX };
    &&& from <= e.timestamp <= to
    &&& (q.level matches Some(l) ==> e.level == l)
    &&& (q.module matches Some(m) ==> e.module@ == m@)
    &&& (q.text matches Some(t) ==> contains(e.message@, t@) || contains(e.module@, t@) || contains(
        e.file@,
        t@,
    ))
    &&& (q.tags matches Some(ts) ==> shares_tag(e.tags@, ts@))
}

/// The entries that pass the query, in order.
pub open spec fn matching(s: Seq<LogEntry>, q: LogQuery) -> Seq<LogEntry>
    decreases s.len(),
{
    if s.len() == 0 {
        Seq::empty()
    } else if entry_matches(s.last(), q) {
        matching(s.drop_last(), q).push(s.last())
    } else {
        matching(s.drop_last(), q)
    }
}

/// Whether an entry keeps to what a query asks for: its time range, level and module;
/// the text, when asked, found in the message, the module or the file; one of the
/// tags, when asked, among the entry's.
pub open spec fn within_query(e: LogEntry, q: LogQuery) -> bool {
    &&& (q.start_time matches Some(t) ==> e.timestamp >= t)
    &&& (q.end_time matches Some(t) ==> e.timestamp <= t)
    &&& (q.level matches Some(l) ==> e.level == l)
    &&& (q.module matches Some(m) ==> e.module@ == m@)
    &&& (q.text matches Some(t) ==> exists|i: int|
        0 <= i && (i + t@.len() <= e.message@.len() && #[trigger] e.message@.subrange(i, i + t@.len()) == t@
            || i + t@.len() <= e.module@.len() && e.module@.subrange(i, i + t@.len()) == t@
            || i + t@.len() <= e.file@.len() && e.file@.subrange(i, i + t@.len()) == t@))
    &&& (q.tags matches Some(ts) ==> exists|a: int, b: int|
        0 <= a < ts@.len() && 0 <= b < e.tags@.len() && #[trigger] ts@[a]@ == #[trigger] e.tags@[b]@)
}

proof fn lemma_matches_within(e: LogEntry, q: LogQuery)
    requires
        entry_matches(e, q),
    ensures
        within_query(e, q),
{
    if let Some(t) = q.text {
        if contains(e.message@, t@) {
            let i = choose|i: int| occurs_at(e.message@, t@, i);
            assert(e.message@.subrange(i, i + t@.len()) == t@);
        } else if contains(e.module@, t@) {
            let i = choose|i: int| occurs_at(e.module@, t@, i);
            assert(e.message@.subrange(i, i + t@.len()) == e.message@.subrange(i, i + t@.len()));
        } else {
            let i = choose|i: int| occurs_at(e.file@, t@, i);
            assert(e.message@.subrange(i, i + t@.len()) == e.message@.subrange(i, i + t@.len()));
        }
    }
    if let Some(ts) = q.tags {
        let (a, b) = choose|a: int, b: int| 0 <= a < ts@.len() && 0 <= b < e.tags@.len() && ts@[a]@ == e.tags@[b]@;
        assert(ts@[a]@ == e.tags@[b]@);
    }
}

/// Every entry that a search finds is one of the entries searched, and keeps to the
/// query's time range (at or after its start, at or before its end), level and module;
/// so does every entry of any page of what it found.
pub proof fn law_search_respects_filters(s: Seq<LogEntry>, q: LogQuery, offset: int, limit: int)
    requires
        offset >= 0,
        limit >= 0,
    ensures
        forall|i: int| 0 <= i < matching(s, q).len() ==> within_query(#[trigger] matching(s, q)[i], q) && s.contains(
            matching(s, q)[i],
        ),
        forall|i: int| 0 <= i < search_page(matching(s, q), offset, limit).len() ==> within_query(
            #[trigger] search_page(matching(s, q), offset, limit)[i],
            q,
        ),
    decreases s.len(),
{
    if s.len() > 0 {
        law_search_respects_filters(s.drop_last(), q, offset, limit);
        let m0 = matching(s.drop_last(), q);
        let m = matching(s, q);
        assert forall|i: int| 0 <= i < m.len() implies within_query(#[trigger] m[i], q) && s.contains(m[i]) by {
            if i < m0.len() {
                assert(m[i] == m0[i]);
                let j = choose|j: int| 0 <= j < s.drop_last().len() && s.drop_last()[j] == m0[i];
                assert(s[j] == m0[i]);
            } else {
                assert(m[i] == s.last());
                assert(s[s.len() - 1] == s.last());
                lemma_matches_within(s.last(), q);
            }
        }
    }
    let m = matching(s, q);
    let pg = search_page(m, offset, limit);
    assert forall|i: int| 0 <= i < pg.len() implies within_query(#[trigger] pg[i], q) by {
        assert(pg[i] == m[offset + i]);
    }
}

/// The entries of `s` with a timestamp at or before `t`, in order.
pub open spec fn until_time(s: Seq<LogEntry>, t: u64) -> Seq<LogEntry>
    decreases s.len(),
{
    if s.len() == 0 {
        Seq::empty()
    } else if s.last().timestamp <= t {
        until_time(s.drop_last(), t).push(s.last())
    } else {
        until_time(s.drop_last(), t)
    }
}

/// The entries of `s` with a timestamp at or after `t`, in order.
pub open spec fn from_time(s: Seq<LogEntry>, t: u64) -> Seq<LogEntry>
    decreases s.len(),
{
    if s.len() == 0 {
        Seq::empty()
    } else if s.last().timestamp >= t {
        from_time(s.drop_last(), t).push(s.last())
    } else {
        from_time(s.drop_last(), t)
    }
}

/// Setting the end of the time range to `t` finds exactly what the same query without
/// an end finds, less the entries later than `t`.
pub proof fn law_end_time_drops_later(s: Seq<LogEntry>, q: LogQuery, t: u64)
    ensures
        matching(s, LogQuery { end_time: Some(t), ..q }) == until_time(matching(s, LogQuery { end_time: None, ..q }), t),
    decreases s.len(),
{
    if s.len() > 0 {
        law_end_time_drops_later(s.drop_last(), q, t);
        let qn = LogQuery { end_time: None, ..q };
        let m0 = matching(s.drop_last(), qn);
        let x = s.last();
        assert(m0.push(x).drop_last() =~= m0);
        assert(m0.push(x).last() == x);
        assert(entry_matches(x, LogQuery { end_time: Some(t), ..q }) == (entry_matches(x, qn) && x.timestamp <= t));
    }
}

/// Setting the start of the time range to `t` finds exactly what the same query
/// without a start finds, less the entries earlier than `t`.
pub proof fn law_start_time_drops_earlier(s: Seq<LogEntry>, q: LogQuery, t: u64)
    ensures
        matching(s, LogQuery { start_time: Some(t), ..q }) == from_time(matching(s, LogQuery { start_time: None, ..q }), t),
    decreases s.len(),
{
    if s.len() > 0 {
        law_start_time_drops_earlier(s.drop_last(), q, t);
        let qn = LogQuery { start_time: None, ..q };
        let m0 = matching(s.drop_last(), qn);
        let x = s.last();
        assert(m0.push(x).drop_last() =~= m0);
        assert(m0.push(x).last() == x);
        assert(entry_matches(x, LogQuery { start_time: Some(t), ..q }) == (entry_matches(x, qn) && x.timestamp >= t));
    }
}

/// A query that sets no filter finds every entry, in order.
pub proof fn law_no_filter_finds_all(s: Seq<LogEntry>, q: LogQuery)
    requires
        q.text is None,
        q.level is None,
        q.module is None,
        q.start_time is None,
        q.end_time is None,
        q.tags is None,
    ensures
        matching(s, q) == s,
    decreases s.len(),
{
    if s.len() > 0 {
        law_no_filter_finds_all(s.drop_last(), q);
        assert(s.drop_last().push(s.last()) =~= s);
    }
}

/// There are no more matches than entries.
pub proof fn lemma_matching_len(s: Seq<LogEntry>, q: LogQuery)
    ensures
        matching(s, q).len() <= s.len(),
    decreases s.len(),
{
    if s.len() > 0 {
        lemma_matching_len(s.drop_last(), q);
    }
}

/// The page of the matches `m`: after the first `offset`, at most `limit` of them.
pub open spec fn search_page(m: Seq<LogEntry>, offset: int, limit: int) -> Seq<LogEntry> {
    if offset < m.len() {
        m.subrange(offset, if offset + limit < m.len() { offset + limit } else { m.len() as int })
    } else {
        Seq::empty()
    }
}

/// The views of a sequence of entries.
pub open spec fn entry_views(s: Seq<LogEntry>) -> Seq<<LogEntry as View>::V> {
    s.map_values(|e: LogEntry| e@)
}

fn has_tag(tags: &Vec<String>, query_tags: &Vec<String>) -> (r: bool)
    ensures
        r == shares_tag(tags@, query_tags@),
{
    let mut i: usize = 0;
    while i < query_tags.len()
        invariant
            i <= query_tags@.len(),
            forall|a: int, b: int| 0 <= a < i && 0 <= b < tags@.len() ==> query_tags@[a]@ != tags@[b]@,
        decreases query_tags@.len() - i,
    {
        let mut j: usize = 0;
        while j < tags.len()
            invariant
                i < query_tags@.len(),
                j <= tags@.len(),
                forall|b: int| 0 <= b < j ==> query_tags@[i as int]@ != tags@[b]@,
            decreases tags@.len() - j,
        {
            if query_tags[i] == tags[j] {
                return true;
            }
            j = j + 1;
        }
        i = i + 1;
    }
    false
}

fn text_occurs(hay: &String, needle: &Vec<char>) -> (r: bool)
    ensures
        r == contains(hay@, needle@),
{
    let h = chars_of(hay.as_str());
    has_substring(&h, needle)
}

/// Whether an entry passes the query.
pub fn matches_query(entry: &LogEntry, query: &LogQuery) -> (r: bool)
    ensures
        r == entry_matches(*entry, *query),
{
    let from: u64 = match query.start_time { Some(t) => t, None => 0 };
    let to: u64 = match query.end_time { Some(t) => t, None => u64::MAX };
    if entry.timestamp < from || entry.timestamp > to {
        return false;
    }
    if let Some(level) = &query.level {
        if entry.level != *level {
            return false;
        }
    }
    if let Some(module) = &query.module {
        if entry.module != *module {
            return false;
        }
    }
    if let Some(text) = &query.text {
        let t = chars_of(text.as_str());
        if !text_occurs(&entry.message, &t) && !text_occurs(&entry.module, &t) && !text_occurs(
            &entry.file,
            &t,
        ) {
            return false;
        }
    }
    if let Some(tags) = &query.tags {
        if !has_tag(&entry.tags, tags) {
            return false;
        }
    }
    true
}

/// The page of matches (see `search_page`) and the number of all matches, for
/// `entries` and `query`, with `max_results` standing for an unset limit.
pub fn search_entries(entries: &Vec<LogEntry>, query: &LogQuery, max_results: usize) -> (r: (
    Vec<LogEntry>,
    usize,
))
    ensures
        ({
            let m = matching(entries@, *query);
            let offset: int = match query.offset { Some(o) => o as int, None => 0 };
            let limit: int = match query.limit { Some(l) => l as int, None => max_results as int };
            &&& entry_views(r.0@) == entry_views(search_page(m, offset, limit))
            &&& r.1 == m.len()
        }),
{
    let ghost q = *query;
    let offset: usize = match query.offset { Some(o) => o, None => 0 };
    let limit: usize = match query.limit { Some(l) => l, None => max_results };
    let mut results: Vec<LogEntry> = Vec::new();
    let mut total: usize = 0;
    let n = entries.len();
    let mut i: usize = 0;
    while i < n
        invariant
            q == *query,
            n == entries@.len(),
            i <= n,
            total <= i,
            total == matching(entries@.take(i as int), q).len(),
            entry_views(results@) == entry_views(search_page(matching(entries@.take(i as int), q), offset as int,
                limit as int)),
        decreases n - i,
    {
        let ghost before = matching(entries@.take(i as int), q);
        let is_match = matches_query(&entries[i], query);
        let ghost now = matching(entries@.take(i as int + 1), q);
        proof {
            let t = entries@.take(i as int + 1);
            assert(t.drop_last() =~= entries@.take(i as int));
            assert(t.last() == entries@[i as int]);
            assert(now == if is_match { before.push(entries@[i as int]) } else { before });
            assert(results@.len() == entry_views(results@).len());
            assert(results@.len() == search_page(before, offset as int, limit as int).len());
        }
        if is_match {
            let ghost old_results = results@;
            if total >= offset && results.len() < limit {
                let c = entries[i].clone();
                results.push(c);
                proof {
                    assert(now.subrange(offset as int, total + 1) =~= before.subrange(offset as int, total as int).push(
                        entries@[i as int],
                    ));
                    if (offset as int) < total as int {
                        assert(search_page(before, offset as int, limit as int) == before.subrange(offset as int,
                            total as int));
                    } else {
                        assert(before.subrange(offset as int, total as int) =~= Seq::<LogEntry>::empty());
                    }
                    assert(search_page(now, offset as int, limit as int) == now.subrange(offset as int, total + 1));
                    assert(entry_views(results@) =~= entry_views(old_results).push(entries@[i as int]@));
                    assert(entry_views(search_page(now, offset as int, limit as int)) =~= entry_views(search_page(
                        before,
                        offset as int,
                        limit as int,
                    )).push(entries@[i as int]@));
                }
            } else {
                proof {
                    if total >= offset {
                        assert(search_page(now, offset as int, limit as int) =~= search_page(before, offset as int,
                            limit as int));
                    } else {
                        assert(search_page(now, offset as int, limit as int) =~= Seq::<LogEntry>::empty());
                        assert(search_page(before, offset as int, limit as int) =~= Seq::<LogEntry>::empty());
                    }
                }
            }
            total = total + 1;
        }
        i = i + 1;
    }
    proof {
        assert(entries@.take(n as int) =~= entries@);
    }
    (results, total)
}

// ---------------------------------------------------------------------------
// Patterns

/// Position of the first pattern with id `id`, or `s.len()`.
pub open spec fn pattern_pos(s: Seq<LogPattern>, id: Seq<char>) -> nat
    decreases s.len(),
{
    if s.len() == 0 {
        0
    } else if s[0].id@ == id {
        0
    } else {
        1 + pattern_pos(s.drop_first(), id)
    }
}

pub proof fn lemma_pattern_pos(s: Seq<LogPattern>, id: Seq<char>)
    ensures
        pattern_pos(s, id) <= s.len(),
        pattern_pos(s, id) < s.len() ==> s[pattern_pos(s, id) as int].id@ == id,
        forall|j: int| 0 <= j < pattern_pos(s, id) ==> s[j].id@ != id,
    decreases s.len(),
{
    if s.len() > 0 && s[0].id@ != id {
        lemma_pattern_pos(s.drop_first(), id);
        assert forall|j: int| 0 <= j < pattern_pos(s, id) implies s[j].id@ != id by {
            if j > 0 {
                assert(s[j] == s.drop_first()[j - 1]);
            }
        }
    }
}

pub proof fn lemma_pattern_pos_at(s: Seq<LogPattern>, id: Seq<char>, i: int)
    requires
        0 <= i <= s.len(),
        forall|j: int| 0 <= j < i ==> s[j].id@ != id,
        i < s.len() ==> s[i].id@ == id,
    ensures
        pattern_pos(s, id) == i,
    decreases s.len(),
{
    if i > 0 {
        assert forall|j: int| 0 <= j < i - 1 implies s.drop_first()[j].id@ != id by {
            assert(s.drop_first()[j] == s[j + 1]);
        }
        lemma_pattern_pos_at(s.drop_first(), id, i - 1);
    }
}

/// No two patterns share an id.
pub open spec fn ids_distinct(s: Seq<LogPattern>) -> bool {
    forall|i: int, j: int| 0 <= i < j < s.len() ==> s[i].id@ != s[j].id@
}

/// `p` stored under its id: it replaces the pattern with that id, or is added last.
pub open spec fn upsert(s: Seq<LogPattern>, p: LogPattern) -> Seq<LogPattern> {
    let k = pattern_pos(s, p.id@);
    if k < s.len() { s.update(k as int, p) } else { s.push(p) }
}

/// The `k`-th built-in pattern: "error" (an error), "timeout" (a warning) and
/// "connection" (information), active, never matched yet.
pub open spec fn default_pattern(p: LogPattern, k: int) -> bool {
    &&& p.is_active
    &&& p.match_count == 0
    &&& p.last_matched is None
    &&& k == 0 ==> {
        &&& p.id@ == "error_pattern"@
        &&& p.name@ == "에러 패턴"@
        &&& p.pattern@ == "error"@
        &&& p.description@ == "에러 메시지 패턴"@
        &&& p.severity == LogLevel::Error
    }
    &&& k == 1 ==> {
        &&& p.id@ == "timeout_pattern"@
        &&& p.name@ == "타임아웃 패턴"@
        &&& p.pattern@ == "timeout"@
        &&& p.description@ == "타임아웃 관련 메시지"@
        &&& p.severity == LogLevel::Warn
    }
    &&& k == 2 ==> {
        &&& p.id@ == "connection_pattern"@
        &&& p.name@ == "연결 패턴"@
        &&& p.pattern@ == "connection"@
        &&& p.description@ == "연결 관련 메시지"@
        &&& p.severity == LogLevel::Info
    }
}

fn new_pattern(id: &str, name: &str, pattern: &str, description: &str, severity: LogLevel) -> (r:
    LogPattern)
    ensures
        r.id@ == id@,
        r.name@ == name@,
        r.pattern@ == pattern@,
        r.description@ == description@,
        r.severity == severity,
        r.is_active,
        r.match_count == 0,
        r.last_matched is None,
{
    LogPattern {
        id: String::from_str(id),
        name: String::from_str(name),
        pattern: String::from_str(pattern),
        description: String::from_str(description),
        severity,
        is_active: true,
        match_count: 0,
        last_matched: None,
    }
}

/// The three built-in patterns, in order.
pub fn default_patterns() -> (r: Vec<LogPattern>)
    ensures
        r@.len() == 3,
        forall|k: int| 0 <= k < 3 ==> default_pattern(#[trigger] r@[k], k),
{
    let mut v: Vec<LogPattern> = Vec::new();
    v.push(new_pattern("error_pattern", "에러 패턴", "error", "에러 메시지 패턴", LogLevel::Error));
    v.push(
        new_pattern(
            "timeout_pattern",
            "타임아웃 패턴",
            "timeout",
            "타임아웃 관련 메시지",
            LogLevel::Warn,
        ),
    );
    v.push(
        new_pattern(
            "connection_pattern",
            "연결 패턴",
            "connection",
            "연결 관련 메시지",
            LogLevel::Info,
        ),
    );
    v
}

/// How many entries have `word` in their message.
pub open spec fn hits(s: Seq<LogEntry>, word: Seq<char>) -> nat
    decreases s.len(),
{
    if s.len() == 0 {
        0
    } else if contains(s.last().message@, word) {
        hits(s.drop_last(), word) + 1
    } else {
        hits(s.drop_last(), word)
    }
}

/// The time of the last entry with `word` in its message, or `before` if none has it.
pub open spec fn last_hit(s: Seq<LogEntry>, word: Seq<char>, before: Option<u64>) -> Option<u64>
    decreases s.len(),
{
    if s.len() == 0 {
        before
    } else if contains(s.last().message@, word) {
        Some(s.last().timestamp)
    } else {
        last_hit(s.drop_last(), word, before)
    }
}

pub proof fn lemma_hits_len(s: Seq<LogEntry>, word: Seq<char>)
    ensures
        hits(s, word) <= s.len(),
    decreases s.len(),
{
    if s.len() > 0 {
        lemma_hits_len(s.drop_last(), word);
    }
}

/// A pattern after a pass over the entries: an active one counts the entries whose
/// message holds its word and remembers the time of the last of them.
pub open spec fn after_pass(p: LogPattern, s: Seq<LogEntry>) -> LogPattern {
    if p.is_active {
        LogPattern {
            match_count: (p.match_count + hits(s, p.pattern@)) as u64,
            last_matched: last_hit(s, p.pattern@, p.last_matched),
            ..p
        }
    } else {
        p
    }
}

/// A pattern's count can take another pass over `n` entries.
pub open spec fn count_fits(p: LogPattern, n: nat) -> bool {
    p.match_count + n <= u64::MAX
}

/// The entries newer than `cutoff`, in order.
pub open spec fn newer_than(s: Seq<LogEntry>, cutoff: u64) -> Seq<LogEntry>
    decreases s.len(),
{
    if s.len() == 0 {
        Seq::empty()
    } else if s.last().timestamp > cutoff {
        newer_than(s.drop_last(), cutoff).push(s.last())
    } else {
        newer_than(s.drop_last(), cutoff)
    }
}

/// The entries after one is added to a store that holds at most `max` (the oldest one
/// leaves when the store is full).
pub open spec fn store_add(s: Seq<LogEntry>, e: LogEntry, max: usize) -> Seq<LogEntry> {
    if s.len() >= max && s.len() > 0 { s.drop_first().push(e) } else { s.push(e) }
}

fn pass_pattern(entries: &Vec<LogEntry>, p: &LogPattern) -> (r: LogPattern)
    requires
        count_fits(*p, entries@.len()),
    ensures
        r == after_pass(*p, entries@),
{
    if !p.is_active {
        return p.clone();
    }
    let word = chars_of(p.pattern.as_str());
    let mut count: u64 = p.match_count;
    let mut last: Option<u64> = p.last_matched;
    let n = entries.len();
    let mut i: usize = 0;
    while i < n
        invariant
            n == entries@.len(),
            i <= n,
            word@ == p.pattern@,
            count_fits(*p, entries@.len()),
            hits(entries@.take(i as int), word@) <= i,
            count == p.match_count + hits(entries@.take(i as int), word@),
            last == last_hit(entries@.take(i as int), word@, p.last_matched),
        decreases n - i,
    {
        proof {
            let t = entries@.take(i + 1);
            assert(t.drop_last() =~= entries@.take(i as int));
            assert(t.last() == entries@[i as int]);
        }
        let msg = chars_of(entries[i].message.as_str());
        if has_substring(&msg, &word) {
            count = count + 1;
            last = Some(entries[i].timestamp);
        }
        i = i + 1;
    }
    proof {
        assert(entries@.take(n as int) =~= entries@);
    }
    LogPattern {
        id: p.id.clone(),
        name: p.name.clone(),
        pattern: p.pattern.clone(),
        description: p.description.clone(),
        severity: p.severity,
        is_active: p.is_active,
        match_count: count,
        last_matched: last,
    }
}

// ---------------------------------------------------------------------------
// Counts and indexes

/// How often each key occurs in `keys`.
pub open spec fn key_counts<K>(keys: Seq<K>) -> Map<K, u64>
    decreases keys.len(),
{
    if keys.len() == 0 {
        Map::empty()
    } else {
        let m = key_counts(keys.drop_last());
        let k = keys.last();
        m.insert(k, if m.contains_key(k) { (m[k] + 1) as u64 } else { 1 })
    }
}

pub proof fn lemma_key_counts_bound<K>(keys: Seq<K>)
    ensures
        forall|k: K| #[trigger] key_counts(keys).contains_key(k) ==> key_counts(keys)[k] <= keys.len(),
    decreases keys.len(),
{
    if keys.len() > 0 {
        lemma_key_counts_bound(keys.drop_last());
        let m = key_counts(keys.drop_last());
        assert forall|k: K| #[trigger] key_counts(keys).contains_key(k) implies key_counts(keys)[k]
            <= keys.len() by {
            if k != keys.last() {
                assert(m.contains_key(k));
            }
        }
    }
}

/// The ids of the entries, each listed under its key, in entry order.
pub open spec fn key_lists<K>(keys: Seq<K>, ids: Seq<Seq<char>>) -> Map<K, Seq<Seq<char>>>
    recommends
        keys.len() == ids.len(),
    decreases keys.len(),
{
    if keys.len() == 0 {
        Map::empty()
    } else {
        let m = key_lists(keys.drop_last(), ids.drop_last());
        let k = keys.last();
        m.insert(k, if m.contains_key(k) { m[k].push(ids.last()) } else { seq![ids.last()] })
    }
}

/// The level names of the entries.
pub open spec fn level_keys(s: Seq<LogEntry>) -> Seq<Seq<char>> {
    s.map_values(|e: LogEntry| level_name(e.level))
}

/// The modules of the entries.
pub open spec fn module_keys(s: Seq<LogEntry>) -> Seq<Seq<char>> {
    s.map_values(|e: LogEntry| e.module@)
}

/// The pattern of the hour under which an entry is counted: "YYYY-MM-DD HH:00".
pub open spec fn hour_pattern() -> Seq<char> {
    "%Y-%m-%d %H:00"@
}

/// The UTC hour of each entry's timestamp in milliseconds, written with `hour_pattern`.
pub open spec fn hour_keys(s: Seq<LogEntry>) -> Seq<Seq<char>> {
    s.map_values(|e: LogEntry| utc_text(e.timestamp, hour_pattern()))
}

/// The UTC hour of `millis`, written with `hour_pattern`.
fn hour_of(millis: u64) -> (r: String)
    requires
        millis < hour_text_limit(),
    ensures
        r@ == utc_text(millis, hour_pattern()),
{
    let pattern = "%Y-%m-%d %H:00";
    proof {
        reveal_strlit("%Y-%m-%d %H:00");
        assert(plain_time_pattern(pattern@));
    }
    utc_format(millis, pattern)
}

/// Every entry's time lies before chrono's last date, so that its hour can be written.
pub open spec fn hours_fit(s: Seq<LogEntry>) -> bool {
    forall|k: int| 0 <= k < s.len() ==> #[trigger] s[k].timestamp < hour_text_limit()
}

/// The ids of the entries.
pub open spec fn entry_ids(s: Seq<LogEntry>) -> Seq<Seq<char>> {
    s.map_values(|e: LogEntry| e.id@)
}

/// The number of entries of level Error or Fatal.
pub open spec fn error_entries(s: Seq<LogEntry>) -> nat
    decreases s.len(),
{
    if s.len() == 0 {
        0
    } else {
        error_entries(s.drop_last()) + if s.last().level == LogLevel::Error || s.last().level
            == LogLevel::Fatal {
            1nat
        } else {
            0nat
        }
    }
}

/// The number of entries of level Warn.
pub open spec fn warning_entries(s: Seq<LogEntry>) -> nat
    decreases s.len(),
{
    if s.len() == 0 {
        0
    } else {
        warning_entries(s.drop_last()) + if s.last().level == LogLevel::Warn {
            1nat
        } else {
            0nat
        }
    }
}

/// The UTF-8 length of all messages together (each as the machine's `len` gives it).
pub open spec fn message_bytes(s: Seq<LogEntry>) -> nat
    decreases s.len(),
{
    if s.len() == 0 {
        0
    } else {
        message_bytes(s.drop_last()) + ((vstd::utf8::encode_utf8(s.last().message@).len() as usize) as nat)
    }
}

/// The counts that the log statistics are made of: entries per level name, per module
/// and per UTC hour, errors (Error and Fatal), warnings, the UTF-8 length
/// of all messages and the number of distinct modules.
pub struct LogCounts {
    pub total_entries: u64,
    pub entries_by_level: vstd::hash_map::StringHashMap<u64>,
    pub entries_by_module: vstd::hash_map::StringHashMap<u64>,
    pub entries_by_hour: vstd::hash_map::StringHashMap<u64>,
    pub error_count: u64,
    pub warning_count: u64,
    pub total_message_length: u128,
    pub unique_modules: usize,
    pub last_updated: u64,
}

fn bump_string_count(m: &mut vstd::hash_map::StringHashMap<u64>, key: String, bound: u64)
    requires
        old(m)@.contains_key(key@) ==> old(m)@[key@] < bound,
    ensures
        final(m)@ == old(m)@.insert(
            key@,
            if old(m)@.contains_key(key@) { (old(m)@[key@] + 1) as u64 } else { 1 },
        ),
{
    let v: u64 = match m.get(key.as_str()) {
        Some(c) => *c + 1,
        None => 1,
    };
    m.insert(key, v);
}

/// Counts the entries: per level name, per module and per UTC hour, the errors,
/// warnings and message bytes, and the distinct modules; `now_millis` is the time of
/// the count.
pub fn tally(entries: &Vec<LogEntry>, now_millis: u64) -> (r: LogCounts)
    requires
        hours_fit(entries@),
    ensures
        r.total_entries == entries@.len(),
        r.entries_by_level@ == key_counts(level_keys(entries@)),
        r.entries_by_module@ == key_counts(module_keys(entries@)),
        r.entries_by_hour@ == key_counts(hour_keys(entries@)),
        r.error_count == error_entries(entries@),
        r.warning_count == warning_entries(entries@),
        r.total_message_length == message_bytes(entries@),
        r.unique_modules == key_counts(module_keys(entries@)).len(),
        r.last_updated == now_millis,
{
    broadcast use vstd::std_specs::hash::group_hash_axioms;
    let mut by_level = vstd::hash_map::StringHashMap::<u64>::new();
    let mut by_module = vstd::hash_map::StringHashMap::<u64>::new();
    let mut by_hour = vstd::hash_map::StringHashMap::<u64>::new();
    let mut errors: u64 = 0;
    let mut warnings: u64 = 0;
    let mut bytes: u128 = 0;
    let n = entries.len();
    let mut i: usize = 0;
    while i < n
        invariant
            n == entries@.len(),
            i <= n,
            hours_fit(entries@),
            by_level@ == key_counts(level_keys(entries@.take(i as int))),
            by_module@ == key_counts(module_keys(entries@.take(i as int))),
            by_hour@ == key_counts(hour_keys(entries@.take(i as int))),
            errors == error_entries(entries@.take(i as int)),
            warnings == warning_entries(entries@.take(i as int)),
            errors <= i,
            warnings <= i,
            bytes == message_bytes(entries@.take(i as int)),
            bytes <= i * 0x1_0000_0000_0000_0000,
        decreases n - i,
    {
        let e = &entries[i];
        let ghost t = entries@.take(i + 1);
        proof {
            assert(t.drop_last() =~= entries@.take(i as int));
            assert(t.last() == entries@[i as int]);
            assert(level_keys(t).drop_last() =~= level_keys(t.drop_last()));
            assert(module_keys(t).drop_last() =~= module_keys(t.drop_last()));
            assert(hour_keys(t).drop_last() =~= hour_keys(t.drop_last()));
            assert(level_keys(t).last() == level_name(e.level));
            assert(module_keys(t).last() == e.module@);
            lemma_key_counts_bound(level_keys(t.drop_last()));
            lemma_key_counts_bound(module_keys(t.drop_last()));
            lemma_key_counts_bound(hour_keys(t.drop_last()));
        }
        bump_string_count(&mut by_level, level_to_string(&e.level), (i + 1) as u64);
        bump_string_count(&mut by_module, e.module.clone(), (i + 1) as u64);
        proof {
            assert(hour_keys(t).last() == utc_text(e.timestamp, hour_pattern()));
            assert(entries@[i as int].timestamp < hour_text_limit());
        }
        bump_string_count(&mut by_hour, hour_of(e.timestamp), (i + 1) as u64);
        match e.level {
            LogLevel::Error | LogLevel::Fatal => {
                errors = errors + 1;
            },
            LogLevel::Warn => {
                warnings = warnings + 1;
            },
            _ => {},
        }
        let msg = e.message.as_str();
        let len = msg.len();
        assert(len == (vstd::utf8::encode_utf8(e.message@).len() as usize));
        bytes = bytes + len as u128;
        proof {
            assert(bytes <= (i + 1) * 0x1_0000_0000_0000_0000) by (nonlinear_arith)
                requires
                    bytes <= i * 0x1_0000_0000_0000_0000 + len,
                    len < 0x1_0000_0000_0000_0000,
            ;
        }
        i = i + 1;
    }
    proof {
        assert(entries@.take(n as int) =~= entries@);
    }
    let unique = by_module.len();
    LogCounts {
        total_entries: n as u64,
        entries_by_level: by_level,
        entries_by_module: by_module,
        entries_by_hour: by_hour,
        error_count: errors,
        warning_count: warnings,
        total_message_length: bytes,
        unique_modules: unique,
        last_updated: now_millis,
    }
}

/// Whether `c` has the Unicode `White_Space` property (PropList.txt): the controls
/// U+0009 to U+000D, the space, U+0085, the no-break space, U+1680, U+2000 to U+200A,
/// the line and paragraph separators, U+202F, U+205F and U+3000.
pub open spec fn white_space(c: char) -> bool {
    let u = c as u32;
    ||| 0x09 <= u <= 0x0D
    ||| u == 0x20
    ||| u == 0x85
    ||| u == 0xA0
    ||| u == 0x1680
    ||| 0x2000 <= u <= 0x200A
    ||| u == 0x2028
    ||| u == 0x2029
    ||| u == 0x202F
    ||| u == 0x205F
    ||| u == 0x3000
}

/// Whether `c` has the Unicode `White_Space` property (what `char::is_whitespace`
/// answers), by its code point.
fn is_white(c: char) -> (r: bool)
    ensures
        r == white_space(c),
{
    let u = c as u32;
    (0x09 <= u && u <= 0x0D) || u == 0x20 || u == 0x85 || u == 0xA0 || u == 0x1680 || (0x2000 <= u && u
        <= 0x200A) || u == 0x2028 || u == 0x2029 || u == 0x202F || u == 0x205F || u == 0x3000
}

/// The words found so far and the word being read, after reading `s`.
pub open spec fn scan_words(s: Seq<char>) -> (Seq<Seq<char>>, Seq<char>)
    decreases s.len(),
{
    if s.len() == 0 {
        (Seq::empty(), Seq::empty())
    } else {
        let (done, cur) = scan_words(s.drop_last());
        if white_space(s.last()) {
            if cur.len() > 0 { (done.push(cur), Seq::empty()) } else { (done, Seq::empty()) }
        } else {
            (done, cur.push(s.last()))
        }
    }
}

/// The maximal runs of characters without white space in `s`, in order.
pub open spec fn words(s: Seq<char>) -> Seq<Seq<char>> {
    let (done, cur) = scan_words(s);
    if cur.len() > 0 { done.push(cur) } else { done }
}

/// The number of bytes that UTF-8 takes for `c`.
pub open spec fn utf8_width(c: char) -> nat {
    if (c as u32) < 0x80 {
        1
    } else if (c as u32) < 0x800 {
        2
    } else if (c as u32) < 0x10000 {
        3
    } else {
        4
    }
}

/// The number of bytes that UTF-8 takes for `s`.
pub open spec fn utf8_len(s: Seq<char>) -> nat
    decreases s.len(),
{
    if s.len() == 0 { 0 } else { utf8_len(s.drop_last()) + utf8_width(s.last()) }
}

/// The words of more than two bytes, lower-cased, in order.
pub open spec fn long_lowered(ws: Seq<Seq<char>>) -> Seq<Seq<char>>
    decreases ws.len(),
{
    if ws.len() == 0 {
        Seq::empty()
    } else if utf8_len(ws.last()) > 2 {
        long_lowered(ws.drop_last()).push(lowercase(ws.last()))
    } else {
        long_lowered(ws.drop_last())
    }
}

/// The lower-cased words of more than two bytes of a message, in order.
pub open spec fn index_words(s: Seq<char>) -> Seq<Seq<char>> {
    long_lowered(words(s))
}

/// The word keys of all entries, entry after entry.
pub open spec fn text_keys(s: Seq<LogEntry>) -> Seq<Seq<char>>
    decreases s.len(),
{
    if s.len() == 0 { Seq::empty() } else { text_keys(s.drop_last()) + index_words(s.last().message@) }
}

/// Each entry's id once for each of its word keys.
pub open spec fn text_ids(s: Seq<LogEntry>) -> Seq<Seq<char>>
    decreases s.len(),
{
    if s.len() == 0 {
        Seq::empty()
    } else {
        text_ids(s.drop_last()) + Seq::new(
            index_words(s.last().message@).len(),
            |k: int| s.last().id@,
        )
    }
}

pub proof fn lemma_text_lens(s: Seq<LogEntry>)
    ensures
        text_keys(s).len() == text_ids(s).len(),
    decreases s.len(),
{
    if s.len() > 0 {
        lemma_text_lens(s.drop_last());
    }
}

fn split_words(s: &Vec<char>) -> (r: Vec<Vec<char>>)
    ensures
        r@.map_values(|w: Vec<char>| w@) == words(s@),
{
    let mut done: Vec<Vec<char>> = Vec::new();
    let mut cur: Vec<char> = Vec::new();
    let n = s.len();
    let mut i: usize = 0;
    while i < n
        invariant
            n == s@.len(),
            i <= n,
            done@.map_values(|w: Vec<char>| w@) == scan_words(s@.take(i as int)).0,
            cur@ == scan_words(s@.take(i as int)).1,
        decreases n - i,
    {
        let c = s[i];
        proof {
            let t = s@.take(i + 1);
            assert(t.drop_last() =~= s@.take(i as int));
            assert(t.last() == c);
        }
        if is_white(c) {
            if cur.len() > 0 {
                let w = cur;
                let ghost wv = w@;
                let ghost before = done@;
                done.push(w);
                proof {
                    assert(done@.map_values(|w: Vec<char>| w@) =~= before.map_values(
                        |w: Vec<char>| w@,
                    ).push(wv));
                }
            }
            cur = Vec::new();
        } else {
            cur.push(c);
        }
        i = i + 1;
    }
    proof {
        assert(s@.take(n as int) =~= s@);
    }
    if cur.len() > 0 {
        let ghost before = done@;
        let ghost wv = cur@;
        done.push(cur);
        proof {
            assert(done@.map_values(|w: Vec<char>| w@) =~= before.map_values(|w: Vec<char>| w@).push(
                wv,
            ));
        }
    }
    done
}

fn longer_than_two_bytes(w: &Vec<char>) -> (r: bool)
    ensures
        r == (utf8_len(w@) > 2),
{
    let mut total: usize = 0;
    let n = w.len();
    let mut i: usize = 0;
    while i < n
        invariant
            n == w@.len(),
            i <= n,
            total == utf8_len(w@.take(i as int)),
            total <= 2,
        decreases n - i,
    {
        proof {
            let t = w@.take(i + 1);
            assert(t.drop_last() =~= w@.take(i as int));
            assert(t.last() == w@[i as int]);
        }
        let c = w[i] as u32;
        let width: usize = if c < 0x80 {
            1
        } else if c < 0x800 {
            2
        } else if c < 0x10000 {
            3
        } else {
            4
        };
        total = total + width;
        if total > 2 {
            proof {
                lemma_utf8_len_prefix(w@, i + 1);
            }
            return true;
        }
        i = i + 1;
    }
    proof {
        assert(w@.take(n as int) =~= w@);
    }
    false
}

pub proof fn lemma_utf8_len_prefix(s: Seq<char>, j: int)
    requires
        0 <= j <= s.len(),
    ensures
        utf8_len(s.take(j)) <= utf8_len(s),
    decreases s.len(),
{
    if j < s.len() {
        lemma_utf8_len_prefix(s.drop_last(), j);
        assert(s.drop_last().take(j) =~= s.take(j));
    } else {
        assert(s.take(j) =~= s);
    }
}

/// The word keys of a message: its words of more than two bytes, lower-cased.
fn message_keys(message: &String) -> (r: Vec<String>)
    ensures
        r@.map_values(|k: String| k@) == index_words(message@),
{
    let chars = chars_of(message.as_str());
    let ws = split_words(&chars);
    let ghost all = ws@.map_values(|w: Vec<char>| w@);
    let mut out: Vec<String> = Vec::new();
    let n = ws.len();
    let mut i: usize = 0;
    while i < n
        invariant
            n == ws@.len(),
            i <= n,
            all == ws@.map_values(|w: Vec<char>| w@),
            all == words(message@),
            out@.map_values(|k: String| k@) == long_lowered(all.take(i as int)),
        decreases n - i,
    {
        let ghost before = out@;
        proof {
            let t = all.take(i + 1);
            assert(t.drop_last() =~= all.take(i as int));
            assert(t.last() == ws@[i as int]@);
        }
        if longer_than_two_bytes(&ws[i]) {
            let k = to_lower(&ws[i]);
            out.push(k);
            proof {
                assert(out@.map_values(|k: String| k@) =~= before.map_values(|k: String| k@).push(
                    lowercase(ws@[i as int]@),
                ));
            }
        }
        i = i + 1;
    }
    proof {
        assert(all.take(n as int) =~= all);
    }
    out
}

/// The views of a map's lists of ids.
pub open spec fn lists_view(m: Map<Seq<char>, Vec<String>>) -> Map<Seq<char>, Seq<Seq<char>>> {
    m.map_values(|v: Vec<String>| v@.map_values(|s: String| s@))
}

/// Indexes over the entries: the ids per level name, per module, in time order and per
/// word key.
pub struct LogIndexes {
    pub by_level: vstd::hash_map::StringHashMap<Vec<String>>,
    pub by_module: vstd::hash_map::StringHashMap<Vec<String>>,
    pub by_timestamp: Vec<String>,
    pub by_text: vstd::hash_map::StringHashMap<Vec<String>>,
    pub last_indexed: u64,
}

impl LogIndexes {
    /// Empty indexes, never built.
    fn new() -> (r: Self)
        ensures
            r.by_level@ == Map::<Seq<char>, Vec<String>>::empty(),
            r.by_module@ == Map::<Seq<char>, Vec<String>>::empty(),
            r.by_timestamp@.len() == 0,
            r.by_text@ == Map::<Seq<char>, Vec<String>>::empty(),
            r.last_indexed == 0,
    {
        LogIndexes {
            by_level: vstd::hash_map::StringHashMap::new(),
            by_module: vstd::hash_map::StringHashMap::new(),
            by_timestamp: Vec::new(),
            by_text: vstd::hash_map::StringHashMap::new(),
            last_indexed: 0,
        }
    }
}

fn push_id(m: &mut vstd::hash_map::StringHashMap<Vec<String>>, key: String, id: String)
    ensures
        lists_view(final(m)@) == lists_view(old(m)@).insert(
            key@,
            if lists_view(old(m)@).contains_key(key@) {
                lists_view(old(m)@)[key@].push(id@)
            } else {
                seq![id@]
            },
        ),
{
    let mut list: Vec<String> = match m.get(key.as_str()) {
        Some(v) => clone_strings(v),
        None => Vec::new(),
    };
    let ghost before = list@;
    list.push(id);
    proof {
        assert(list@.map_values(|s: String| s@) =~= before.map_values(|s: String| s@).push(id@));
    }
    let ghost k = key@;
    let ghost lv = list@;
    m.insert(key, list);
    proof {
        assert(lists_view(m@) =~= lists_view(old(m)@).insert(k, lv.map_values(|s: String| s@)));
        assert(lists_view(old(m)@).dom() =~= old(m)@.dom());
        if old(m)@.contains_key(k) {
            assert(before == old(m)@[k]@);
            assert(lists_view(old(m)@)[k] == old(m)@[k]@.map_values(|s: String| s@));
        } else {
            assert(before.len() == 0);
            assert(lv.map_values(|s: String| s@) =~= seq![id@]);
        }
    }
}

/// Builds the indexes over `entries`: the ids under each level name and each module,
/// all ids in entry order, and the ids under each lower-cased word of more than two
/// bytes of the message (once per occurrence); `now_millis` is the time of the build.
pub fn build_indexes(entries: &Vec<LogEntry>, now_millis: u64) -> (r: LogIndexes)
    ensures
        lists_view(r.by_level@) == key_lists(level_keys(entries@), entry_ids(entries@)),
        lists_view(r.by_module@) == key_lists(module_keys(entries@), entry_ids(entries@)),
        r.by_timestamp@.map_values(|s: String| s@) == entry_ids(entries@),
        lists_view(r.by_text@) == key_lists(text_keys(entries@), text_ids(entries@)),
        r.last_indexed == now_millis,
{
    let mut ix = LogIndexes::new();
    proof {
        assert(lists_view(ix.by_level@) =~= Map::empty());
        assert(lists_view(ix.by_module@) =~= Map::empty());
        assert(lists_view(ix.by_text@) =~= Map::empty());
    }
    let n = entries.len();
    let mut i: usize = 0;
    while i < n
        invariant
            n == entries@.len(),
            i <= n,
            lists_view(ix.by_level@) == key_lists(
                level_keys(entries@.take(i as int)),
                entry_ids(entries@.take(i as int)),
            ),
            lists_view(ix.by_module@) == key_lists(
                module_keys(entries@.take(i as int)),
                entry_ids(entries@.take(i as int)),
            ),
            ix.by_timestamp@.map_values(|s: String| s@) == entry_ids(entries@.take(i as int)),
            lists_view(ix.by_text@) == key_lists(
                text_keys(entries@.take(i as int)),
                text_ids(entries@.take(i as int)),
            ),
        decreases n - i,
    {
        let e = &entries[i];
        let ghost t = entries@.take(i + 1);
        proof {
            assert(t.drop_last() =~= entries@.take(i as int));
            assert(t.last() == entries@[i as int]);
            assert(level_keys(t).drop_last() =~= level_keys(t.drop_last()));
            assert(module_keys(t).drop_last() =~= module_keys(t.drop_last()));
            assert(entry_ids(t).drop_last() =~= entry_ids(t.drop_last()));
            assert(level_keys(t).last() == level_name(e.level));
            assert(module_keys(t).last() == e.module@);
            assert(entry_ids(t).last() == e.id@);
        }
        push_id(&mut ix.by_level, level_to_string(&e.level), e.id.clone());
        push_id(&mut ix.by_module, e.module.clone(), e.id.clone());
        let ghost before_ts = ix.by_timestamp@;
        ix.by_timestamp.push(e.id.clone());
        proof {
            assert(ix.by_timestamp@.map_values(|s: String| s@) =~= before_ts.map_values(
                |s: String| s@,
            ).push(e.id@));
            assert(entry_ids(t) =~= entry_ids(t.drop_last()).push(e.id@));
        }
        let keys = message_keys(&e.message);
        let ghost kv = keys@.map_values(|k: String| k@);
        let ghost base_k = text_keys(entries@.take(i as int));
        let ghost base_i = text_ids(entries@.take(i as int));
        proof {
            lemma_text_lens(entries@.take(i as int));
        }
        let ghost lvl = ix.by_level@;
        let ghost mdl = ix.by_module@;
        let ghost tsv = ix.by_timestamp@;
        let m = keys.len();
        let mut j: usize = 0;
        while j < m
            invariant
                ix.by_level@ == lvl,
                ix.by_module@ == mdl,
                ix.by_timestamp@ == tsv,
                m == keys@.len(),
                j <= m,
                kv == keys@.map_values(|k: String| k@),
                base_k.len() == base_i.len(),
                lists_view(ix.by_text@) == key_lists(
                    base_k + kv.take(j as int),
                    base_i + Seq::new(j as nat, |k: int| e.id@),
                ),
            decreases m - j,
        {
            proof {
                let a = base_k + kv.take(j + 1);
                let b = base_i + Seq::new((j + 1) as nat, |k: int| e.id@);
                assert(a.drop_last() =~= base_k + kv.take(j as int));
                assert(b.drop_last() =~= base_i + Seq::new(j as nat, |k: int| e.id@));
                assert(a.last() == keys@[j as int]@);
                assert(b.last() == e.id@);
            }
            push_id(&mut ix.by_text, keys[j].clone(), e.id.clone());
            j = j + 1;
        }
        proof {
            assert(kv.take(m as int) =~= kv);
            assert(text_keys(t) == base_k + kv);
            assert(text_ids(t) =~= base_i + Seq::new(m as nat, |k: int| e.id@));
        }
        i = i + 1;
    }
    proof {
        assert(entries@.take(n as int) =~= entries@);
    }
    ix.last_indexed = now_millis;
    ix
}

/// The log analyzer: its settings, the stored entries (oldest first), the counts and
/// indexes of the last analysis, and the patterns.
pub struct LogAnalyzer {
    config: LogAnalyzerConfig,
    log_entries: Vec<LogEntry>,
    counts: LogCounts,
    patterns: Vec<LogPattern>,
    indexes: LogIndexes,
    is_running: bool,
}

impl LogAnalyzer {
    /// The stored entries, oldest first.
    pub closed spec fn entries(&self) -> Seq<LogEntry> {
        self.log_entries@
    }

    /// The patterns.
    pub closed spec fn patterns(&self) -> Seq<LogPattern> {
        self.patterns@
    }

    /// The settings.
    pub closed spec fn config(&self) -> LogAnalyzerConfig {
        self.config
    }

    /// Whether the analyzer runs.
    pub closed spec fn running(&self) -> bool {
        self.is_running
    }

    /// The counts of the last analysis.
    pub closed spec fn counts(&self) -> &LogCounts {
        &self.counts
    }

    /// The indexes of the last analysis.
    pub closed spec fn indexes(&self) -> &LogIndexes {
        &self.indexes
    }

    /// No two patterns share an id.
    pub open spec fn wf(&self) -> bool {
        ids_distinct(self.patterns())
    }

    /// An analyzer with no entries and no patterns, not running.
    pub fn new(config: LogAnalyzerConfig) -> (r: Self)
        ensures
            r.wf(),
            r.config() == config,
            r.entries().len() == 0,
            r.patterns().len() == 0,
            !r.running(),
            r.counts().total_entries == 0,
            r.counts().last_updated == 0,
            r.indexes().last_indexed == 0,
    {
        LogAnalyzer {
            config,
            log_entries: Vec::new(),
            counts: tally(&Vec::new(), 0),
            patterns: Vec::new(),
            indexes: LogIndexes::new(),
            is_running: false,
        }
    }

    fn find_pattern(&self, id: &str) -> (r: usize)
        ensures
            r == pattern_pos(self.patterns(), id@),
    {
        proof {
            lemma_pattern_pos(self.patterns@, id@);
        }
        let key = String::from_str(id);
        let n = self.patterns.len();
        let mut i: usize = 0;
        while i < n
            invariant
                n == self.patterns@.len(),
                key@ == id@,
                i <= n,
                forall|j: int| 0 <= j < i ==> self.patterns@[j].id@ != id@,
            decreases n - i,
        {
            if self.patterns[i].id == key {
                proof {
                    lemma_pattern_pos_at(self.patterns@, id@, i as int);
                }
                return i;
            }
            i = i + 1;
        }
        proof {
            lemma_pattern_pos_at(self.patterns@, id@, n as int);
        }
        n
    }

    fn put_pattern(&mut self, p: LogPattern)
        requires
            old(self).wf(),
        ensures
            final(self).wf(),
            final(self).patterns() == upsert(old(self).patterns(), p),
            final(self).entries() == old(self).entries(),
            final(self).config() == old(self).config(),
            final(self).running() == old(self).running(),
    {
        let k = self.find_pattern(p.id.as_str());
        proof {
            lemma_pattern_pos(self.patterns@, p.id@);
        }
        if k < self.patterns.len() {
            self.patterns.set(k, p);
        } else {
            self.patterns.push(p);
        }
    }

    /// Starts the analyzer and stores the built-in patterns (each replaces a pattern
    /// with its id). Returns false, and changes nothing, when it already runs.
    pub fn start(&mut self) -> (r: bool)
        requires
            old(self).wf(),
        ensures
            final(self).wf(),
            r == !old(self).running(),
            final(self).running(),
            final(self).entries() == old(self).entries(),
            final(self).config() == old(self).config(),
            !r ==> final(self).patterns() == old(self).patterns(),
            r ==> exists|d: Seq<LogPattern>|
                d.len() == 3 && (forall|k: int| 0 <= k < 3 ==> default_pattern(#[trigger] d[k], k))
                    && final(self).patterns() == upsert(
                    upsert(upsert(old(self).patterns(), d[0]), d[1]),
                    d[2],
                ),
    {
        if self.is_running {
            return false;
        }
        self.is_running = true;
        let mut d = default_patterns();
        let ghost ds = d@;
        let p2 = d.pop().unwrap();
        let p1 = d.pop().unwrap();
        let p0 = d.pop().unwrap();
        proof {
            assert(p0 == ds[0] && p1 == ds[1] && p2 == ds[2]);
        }
        self.put_pattern(p0);
        self.put_pattern(p1);
        self.put_pattern(p2);
        true
    }

    /// Stops the analyzer.
    pub fn stop(&mut self)
        ensures
            !final(self).running(),
            final(self).entries() == old(self).entries(),
            final(self).patterns() == old(self).patterns(),
            final(self).config() == old(self).config(),
    {
        self.is_running = false;
    }

    /// Whether the analyzer runs.
    pub fn is_running(&self) -> (r: bool)
        ensures
            r == self.running(),
    {
        self.is_running
    }

    /// Stores an entry; when `max_entries` are stored the oldest one leaves first.
    pub fn add_log_entry(&mut self, entry: LogEntry)
        ensures
            final(self).entries() == store_add(old(self).entries(), entry, old(self).config().max_entries),
            final(self).patterns() == old(self).patterns(),
            final(self).config() == old(self).config(),
            final(self).running() == old(self).running(),
    {
        if self.log_entries.len() >= self.config.max_entries && self.log_entries.len() > 0 {
            self.log_entries.remove(0);
        }
        self.log_entries.push(entry);
        proof {
            let s = old(self).log_entries@;
            if s.len() >= self.config.max_entries && s.len() > 0 {
                assert(s.remove(0) =~= s.drop_first());
            }
        }
    }

    /// The number of stored entries.
    pub fn get_entry_count(&self) -> (r: usize)
        ensures
            r == self.entries().len(),
    {
        self.log_entries.len()
    }

    /// Searches the stored entries, oldest first. Of the entries that pass every filter
    /// the query sets (time range, level, module, text in the message, module or file,
    /// a shared tag), `offset` are skipped and at most `limit` returned (the configured
    /// maximum when the query sets none). `total_count` is the number of all matches,
    /// and `has_more` says whether matches remain after the page.
    pub fn search_logs(&self, query: LogQuery) -> (r: LogSearchResult)
        ensures
            ({
                let m = matching(self.entries(), query);
                let offset: int = match query.offset { Some(o) => o as int, None => 0 };
                let limit: int = match query.limit {
                    Some(l) => l as int,
                    None => self.config().max_search_results as int,
                };
                &&& entry_views(r.entries@) == entry_views(search_page(m, offset, limit))
                &&& r.total_count == m.len()
                &&& r.has_more == (offset + r.entries@.len() < m.len())
            }),
    {
        let start = crate::outside::instant_now();
        let (entries, total_count) = search_entries(&self.log_entries, &query, self.config.max_search_results);
        let query_time_ms = crate::outside::millis_since(&start);
        proof {
            assert(entries@.len() == entry_views(entries@).len());
            lemma_matching_len(self.entries(), query);
        }
        let offset: usize = match query.offset { Some(o) => o, None => 0 };
        let has_more = entries.len() < total_count && offset < total_count - entries.len();
        LogSearchResult { entries, total_count, query_time_ms, has_more }
    }

    /// Adds a pattern; a pattern with the same id is an error.
    pub fn add_pattern(&mut self, pattern: LogPattern) -> (r: Result<(), String>)
        requires
            old(self).wf(),
        ensures
            final(self).wf(),
            final(self).entries() == old(self).entries(),
            final(self).config() == old(self).config(),
            final(self).running() == old(self).running(),
            ({
                let exists_id = pattern_pos(old(self).patterns(), pattern.id@) < old(self).patterns().len();
                &&& (r is Ok) == !exists_id
                &&& r is Ok ==> final(self).patterns() == old(self).patterns().push(pattern)
                &&& r matches Err(e) ==> e@ == "패턴이 이미 존재합니다: "@ + pattern.id@
                    && final(self).patterns() == old(self).patterns()
            }),
    {
        let k = self.find_pattern(pattern.id.as_str());
        proof {
            lemma_pattern_pos(self.patterns@, pattern.id@);
        }
        if k < self.patterns.len() {
            let e = join3("패턴이 이미 존재합니다: ", pattern.id.as_str(), "");
            proof {
                reveal_strlit("");
                assert(e@ =~= "패턴이 이미 존재합니다: "@ + pattern.id@);
            }
            return Err(e);
        }
        self.patterns.push(pattern);
        Ok(())
    }

    /// Removes the pattern with id `pattern_id`; none is an error.
    pub fn remove_pattern(&mut self, pattern_id: &str) -> (r: Result<(), String>)
        requires
            old(self).wf(),
        ensures
            final(self).wf(),
            final(self).entries() == old(self).entries(),
            final(self).config() == old(self).config(),
            final(self).running() == old(self).running(),
            ({
                let k = pattern_pos(old(self).patterns(), pattern_id@);
                &&& (r is Ok) == (k < old(self).patterns().len())
                &&& r is Ok ==> final(self).patterns() == old(self).patterns().remove(k as int)
                &&& r matches Err(e) ==> e@ == "패턴을 찾을 수 없습니다: "@ + pattern_id@
                    && final(self).patterns() == old(self).patterns()
            }),
    {
        let k = self.find_pattern(pattern_id);
        proof {
            lemma_pattern_pos(self.patterns@, pattern_id@);
        }
        if k < self.patterns.len() {
            self.patterns.remove(k);
            proof {
                let s = old(self).patterns@;
                assert forall|i: int, j: int|
                    0 <= i < j < self.patterns@.len() implies self.patterns@[i].id@
                    != self.patterns@[j].id@ by {
                    let i0 = if i < k { i } else { i + 1 };
                    let j0 = if j < k { j } else { j + 1 };
                    assert(self.patterns@[i] == s[i0] && self.patterns@[j] == s[j0]);
                }
            }
            Ok(())
        } else {
            let e = join3("패턴을 찾을 수 없습니다: ", pattern_id, "");
            proof {
                reveal_strlit("");
                assert(e@ =~= "패턴을 찾을 수 없습니다: "@ + pattern_id@);
            }
            Err(e)
        }
    }

    /// Switches the pattern with id `pattern_id` on or off; none is an error.
    pub fn toggle_pattern(&mut self, pattern_id: &str) -> (r: Result<(), String>)
        requires
            old(self).wf(),
        ensures
            final(self).wf(),
            final(self).entries() == old(self).entries(),
            final(self).config() == old(self).config(),
            final(self).running() == old(self).running(),
            ({
                let k = pattern_pos(old(self).patterns(), pattern_id@);
                let p = old(self).patterns()[k as int];
                &&& (r is Ok) == (k < old(self).patterns().len())
                &&& r is Ok ==> final(self).patterns() == old(self).patterns().update(
                    k as int,
                    LogPattern { is_active: !p.is_active, ..p },
                )
                &&& r matches Err(e) ==> e@ == "패턴을 찾을 수 없습니다: "@ + pattern_id@
                    && final(self).patterns() == old(self).patterns()
            }),
    {
        let k = self.find_pattern(pattern_id);
        proof {
            lemma_pattern_pos(self.patterns@, pattern_id@);
        }
        if k < self.patterns.len() {
            let mut p = self.patterns[k].clone();
            p.is_active = !p.is_active;
            self.patterns.set(k, p);
            Ok(())
        } else {
            let e = join3("패턴을 찾을 수 없습니다: ", pattern_id, "");
            proof {
                reveal_strlit("");
                assert(e@ =~= "패턴을 찾을 수 없습니다: "@ + pattern_id@);
            }
            Err(e)
        }
    }

    /// Every stored entry's time lies before chrono's last date.
    pub open spec fn entry_hours_fit(&self) -> bool {
        hours_fit(self.entries())
    }

    /// Whether every stored entry's time lies before chrono's last date.
    pub fn can_count_hours(&self) -> (r: bool)
        ensures
            r == self.entry_hours_fit(),
    {
        let mut i: usize = 0;
        while i < self.log_entries.len()
            invariant
                i <= self.log_entries@.len(),
                forall|k: int| 0 <= k < i ==> #[trigger] self.log_entries@[k].timestamp < hour_text_limit(),
            decreases self.log_entries@.len() - i,
        {
            if self.log_entries[i].timestamp >= 8_210_266_876_800_000 {
                return false;
            }
            i = i + 1;
        }
        true
    }

    /// Every pattern's count can take a pass over the stored entries.
    pub open spec fn counts_fit(&self) -> bool {
        forall|k: int| 0 <= k < self.patterns().len() ==> count_fits(#[trigger] self.patterns()[k], self.entries().len())
    }

    /// Whether every pattern's count can take a pass over the stored entries.
    pub fn can_match_patterns(&self) -> (r: bool)
        ensures
            r == self.counts_fit(),
    {
        let n = self.log_entries.len() as u64;
        let mut i: usize = 0;
        while i < self.patterns.len()
            invariant
                n == self.entries().len(),
                i <= self.patterns@.len(),
                forall|k: int| 0 <= k < i ==> count_fits(#[trigger] self.patterns()[k], self.entries().len()),
            decreases self.patterns@.len() - i,
        {
            if self.patterns[i].match_count > u64::MAX - n {
                assert(!count_fits(self.patterns()[i as int], self.entries().len()));
                return false;
            }
            i = i + 1;
        }
        true
    }

    /// One pass of the patterns over the stored entries: each active pattern counts the
    /// entries whose message holds its word and remembers the time of the last of them.
    pub fn match_patterns(&mut self)
        requires
            old(self).wf(),
            old(self).counts_fit(),
        ensures
            final(self).wf(),
            final(self).patterns() == old(self).patterns().map_values(
                |p: LogPattern| after_pass(p, old(self).entries()),
            ),
            final(self).counts() == old(self).counts(),
            final(self).indexes() == old(self).indexes(),
            final(self).entries() == old(self).entries(),
            final(self).config() == old(self).config(),
            final(self).running() == old(self).running(),
    {
        let n = self.patterns.len();
        let mut i: usize = 0;
        while i < n
            invariant
                n == self.patterns@.len(),
                n == old(self).patterns@.len(),
                i <= n,
                self.log_entries@ == old(self).log_entries@,
                self.counts == old(self).counts,
                self.indexes == old(self).indexes,
                self.config == old(self).config,
                self.is_running == old(self).is_running,
                forall|k: int| 0 <= k < i ==> self.patterns@[k] == after_pass(
                    #[trigger] old(self).patterns@[k],
                    old(self).log_entries@,
                ),
                forall|k: int| i <= k < n ==> self.patterns@[k] == old(self).patterns@[k],
                forall|k: int| 0 <= k < n ==> count_fits(#[trigger] old(self).patterns@[k], old(self).log_entries@.len()),
                forall|k: int| 0 <= k < n ==> self.patterns@[k].id@ == #[trigger] old(self).patterns@[k].id@,
            decreases n - i,
        {
            let p = pass_pattern(&self.log_entries, &self.patterns[i]);
            self.patterns.set(i, p);
            i = i + 1;
        }
        proof {
            assert(self.patterns@ =~= old(self).patterns@.map_values(
                |p: LogPattern| after_pass(p, old(self).log_entries@),
            ));
        }
    }

    /// Drops the entries not newer than `retention_days` days before `now_secs` (a time
    /// in seconds, compared with the entries' timestamps as they are).
    pub fn cleanup_old_logs(&mut self, now_secs: u64)
        requires
            now_secs >= old(self).config().retention_days * 86400,
        ensures
            final(self).entries() == newer_than(
                old(self).entries(),
                (now_secs - old(self).config().retention_days * 86400) as u64,
            ),
            final(self).counts() == old(self).counts(),
            final(self).indexes() == old(self).indexes(),
            final(self).patterns() == old(self).patterns(),
            final(self).config() == old(self).config(),
            final(self).running() == old(self).running(),
    {
        let cutoff = now_secs - (self.config.retention_days as u64) * 86400;
        let mut kept: Vec<LogEntry> = Vec::new();
        let mut src: Vec<LogEntry> = Vec::new();
        std::mem::swap(&mut src, &mut self.log_entries);
        let n = src.len();
        let mut rest: Vec<LogEntry> = Vec::new();
        while src.len() > 0
            invariant
                n == old(self).log_entries@.len(),
                src@.len() + rest@.len() == n,
                src@ == old(self).log_entries@.take(src@.len() as int),
                forall|k: int| 0 <= k < rest@.len() ==> rest@[k] == old(self).log_entries@[n - 1 - k],
            decreases src@.len(),
        {
            let e = src.pop().unwrap();
            rest.push(e);
            proof {
                assert(src@ =~= old(self).log_entries@.take(src@.len() as int));
            }
        }
        let mut i: usize = 0;
        while i < n
            invariant
                n == old(self).log_entries@.len(),
                i <= n,
                rest@.len() == n - i,
                forall|k: int| 0 <= k < n - i ==> rest@[k] == old(self).log_entries@[n - 1 - k],
                kept@ == newer_than(old(self).log_entries@.take(i as int), cutoff),
            decreases n - i,
        {
            let e = rest.pop().unwrap();
            proof {
                let t = old(self).log_entries@.take(i + 1);
                assert(t.drop_last() =~= old(self).log_entries@.take(i as int));
                assert(e == old(self).log_entries@[i as int]);
            }
            if e.timestamp > cutoff {
                kept.push(e);
            }
            i = i + 1;
        }
        proof {
            assert(old(self).log_entries@.take(n as int) =~= old(self).log_entries@);
        }
        self.log_entries = kept;
    }

    /// One round of analysis at `now_millis`: the counts are taken anew, the patterns
    /// take a pass over the entries (when pattern matching is on), the indexes are built
    /// anew (when indexing is on), and the entries not newer than the retention period
    /// before `now_millis / 1000` seconds leave.
    pub fn run_analysis(&mut self, now_millis: u64)
        requires
            old(self).wf(),
            old(self).counts_fit(),
            old(self).entry_hours_fit(),
            now_millis / 1000 >= old(self).config().retention_days * 86400,
        ensures
            final(self).wf(),
            final(self).config() == old(self).config(),
            final(self).running() == old(self).running(),
            final(self).counts().total_entries == old(self).entries().len(),
            final(self).counts().entries_by_level@ == key_counts(level_keys(old(self).entries())),
            final(self).counts().entries_by_module@ == key_counts(module_keys(old(self).entries())),
            final(self).counts().entries_by_hour@ == key_counts(hour_keys(old(self).entries())),
            final(self).counts().error_count == error_entries(old(self).entries()),
            final(self).counts().warning_count == warning_entries(old(self).entries()),
            final(self).counts().total_message_length == message_bytes(old(self).entries()),
            final(self).counts().unique_modules == key_counts(module_keys(old(self).entries())).len(),
            final(self).counts().last_updated == now_millis,
            final(self).patterns() == if old(self).config().enable_pattern_matching {
                old(self).patterns().map_values(|p: LogPattern| after_pass(p, old(self).entries()))
            } else {
                old(self).patterns()
            },
            old(self).config().enable_indexing ==> {
                &&& lists_view(final(self).indexes().by_level@) == key_lists(
                    level_keys(old(self).entries()),
                    entry_ids(old(self).entries()),
                )
                &&& lists_view(final(self).indexes().by_module@) == key_lists(
                    module_keys(old(self).entries()),
                    entry_ids(old(self).entries()),
                )
                &&& final(self).indexes().by_timestamp@.map_values(|s: String| s@) == entry_ids(
                    old(self).entries(),
                )
                &&& lists_view(final(self).indexes().by_text@) == key_lists(
                    text_keys(old(self).entries()),
                    text_ids(old(self).entries()),
                )
                &&& final(self).indexes().last_indexed == now_millis
            },
            !old(self).config().enable_indexing ==> final(self).indexes() == old(self).indexes(),
            final(self).entries() == newer_than(
                old(self).entries(),
                (now_millis / 1000 - old(self).config().retention_days * 86400) as u64,
            ),
    {
        self.counts = tally(&self.log_entries, now_millis);
        if self.config.enable_pattern_matching {
            self.match_patterns();
        }
        if self.config.enable_indexing {
            self.indexes = build_indexes(&self.log_entries, now_millis);
        }
        self.cleanup_old_logs(now_millis / 1000);
    }

    /// The counts of the last analysis.
    pub fn get_counts(&self) -> (r: &LogCounts)
        ensures
            r == self.counts(),
    {
        &self.counts
    }

    /// The indexes of the last analysis.
    pub fn get_indexes(&self) -> (r: &LogIndexes)
        ensures
            r == self.indexes(),
    {
        &self.indexes
    }

    /// Copies of the patterns.
    pub fn get_patterns(&self) -> (r: Vec<LogPattern>)
        ensures
            r@ == self.patterns(),
    {
        let mut out: Vec<LogPattern> = Vec::new();
        let n = self.patterns.len();
        let mut i: usize = 0;
        while i < n
            invariant
                n == self.patterns@.len(),
                i <= n,
                out@ == self.patterns@.take(i as int),
            decreases n - i,
        {
            out.push(self.patterns[i].clone());
            proof {
                assert(self.patterns@.take(i + 1) =~= self.patterns@.take(i as int).push(
                    self.patterns@[i as int],
                ));
            }
            i = i + 1;
        }
        proof {
            assert(self.patterns@.take(n as int) =~= self.patterns@);
        }
        out
    }
}

/// Removing a pattern undoes adding it: a pattern whose id is new, added and then
/// removed by that id, leaves the patterns as they were.
pub proof fn law_remove_pattern_undoes_add(s: Seq<LogPattern>, p: LogPattern)
    requires
        ids_distinct(s),
        pattern_pos(s, p.id@) == s.len(),
    ensures
        pattern_pos(s.push(p), p.id@) == s.len(),
        s.push(p).remove(s.len() as int) == s,
{
    lemma_pattern_pos(s, p.id@);
    lemma_pattern_pos_at(s.push(p), p.id@, s.len() as int);
    assert(s.push(p).remove(s.len() as int) =~= s);
}

/// Switching a pattern twice leaves the patterns as they were.
pub proof fn law_toggle_twice_restores(s: Seq<LogPattern>, id: Seq<char>)
    requires
        pattern_pos(s, id) < s.len(),
    ensures
        ({
            let k = pattern_pos(s, id) as int;
            let s1 = s.update(k, LogPattern { is_active: !s[k].is_active, ..s[k] });
            &&& pattern_pos(s1, id) == k
            &&& s1.update(k, LogPattern { is_active: !s1[k].is_active, ..s1[k] }) == s
        }),
{
    let k = pattern_pos(s, id) as int;
    lemma_pattern_pos(s, id);
    let s1 = s.update(k, LogPattern { is_active: !s[k].is_active, ..s[k] });
    assert forall|j: int| 0 <= j < k implies s1[j].id@ != id by {
        assert(s1[j] == s[j]);
    }
    lemma_pattern_pos_at(s1, id, k);
    assert(s1.update(k, LogPattern { is_active: !s1[k].is_active, ..s1[k] }) =~= s);
}

} // verus!
