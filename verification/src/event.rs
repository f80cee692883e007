//! Event logging: the audit trail of routed messages.
//!
//! An event is written once and never mutated; a log is an append-only
//! sequence in write order. `EventLog` is the capability interface the
//! router consumes; the in-memory implementation here is verified and
//! doubles as the interchangeable test backend.

use vstd::prelude::*;
use vstd::string::*;

verus! {

/// A single logged event. The payload is structured text (JSON),
/// carried opaquely.
pub struct Event {
    /// Milliseconds since the Unix epoch.
    pub timestamp: u64,
    pub kind: String,
    pub payload: String,
}

/// Spec-level value of an event.
pub struct EventV {
    pub timestamp: u64,
    pub kind: Seq<char>,
    pub payload: Seq<char>,
}

impl View for Event {
    type V = EventV;

    open spec fn view(&self) -> EventV {
        EventV { timestamp: self.timestamp, kind: self.kind@, payload: self.payload@ }
    }
}

impl DeepView for Event {
    type V = EventV;

    open spec fn deep_view(&self) -> EventV {
        self.view()
    }
}

/// The subsequence of events with the given kind, in log order.
pub open spec fn events_with_kind(es: Seq<EventV>, kind: Seq<char>) -> Seq<EventV>
    decreases es.len(),
{
    if es.len() == 0 {
        Seq::empty()
    } else {
        let rest = events_with_kind(es.drop_last(), kind);
        if es.last().kind == kind {
            rest.push(es.last())
        } else {
            rest
        }
    }
}

/// Backend for the append-only audit log.
pub trait EventLog {
    /// All logged events, in write order. (The default is for
    /// implementations outside the verifier's view; verified
    /// implementations override it.)
    open spec fn events(&self) -> Seq<EventV> {
        Seq::empty()
    }

    /// Append an event to the log.
    fn log(&mut self, event: &Event) -> (r: Result<(), String>)
        ensures
            match r {
                Ok(()) => final(self).events() == old(self).events().push(event@),
                Err(_) => final(self).events() == old(self).events(),
            },
    ;

    /// The events of one kind, in chronological (write) order.
    fn query(&self, kind: &str) -> (r: Result<Vec<Event>, String>)
        ensures
            match r {
                Ok(es) => es.deep_view() == events_with_kind(self.events(), kind@),
                Err(_) => true,
            },
    ;
}

pub fn clone_event(e: &Event) -> (r: Event)
    ensures
        r@ == e@,
{
    Event { timestamp: e.timestamp, kind: e.kind.clone(), payload: e.payload.clone() }
}

/// In-memory event log; the verified backend, also serving as the
/// interchangeable test double the interface calls for.
pub struct MemEventLog {
    events: Vec<Event>,
}

impl MemEventLog {
    pub fn new() -> (r: MemEventLog)
        ensures
            r.events() == Seq::<EventV>::empty(),
    {
        MemEventLog { events: Vec::new() }
    }
}

impl EventLog for MemEventLog {
    closed spec fn events(&self) -> Seq<EventV> {
        self.events.deep_view()
    }

    /// Never fails.
    fn log(&mut self, event: &Event) -> (r: Result<(), String>)
        ensures
            r is Ok,
    {
        let ghost before = self.events.deep_view();
        self.events.push(clone_event(event));
        proof {
            assert(self.events.deep_view() =~= before.push(event@));
        }
        Ok(())
    }

    /// Never fails.
    fn query(&self, kind: &str) -> (r: Result<Vec<Event>, String>)
        ensures
            r is Ok,
    {
        let mut out: Vec<Event> = Vec::new();
        let mut i: usize = 0;
        while i < self.events.len()
            invariant
                i <= self.events@.len(),
                out.deep_view() == events_with_kind(self.events@.take(i as int).map_values(|e: Event| e@), kind@),
            decreases self.events@.len() - i,
        {
            let ghost prefix = self.events@.take(i as int).map_values(|e: Event| e@);
            let ghost next = self.events@.take(i + 1).map_values(|e: Event| e@);
            proof {
                assert(next.drop_last() =~= prefix);
                assert(next.last() == self.events@[i as int]@);
            }
            if crate::strutil::str_eq(self.events[i].kind.as_str(), kind) {
                let ghost before = out.deep_view();
                out.push(clone_event(&self.events[i]));
                proof {
                    assert(out.deep_view() =~= before.push(self.events@[i as int]@));
                }
            }
            i += 1;
        }
        proof {
            assert(self.events@.take(self.events@.len() as int) =~= self.events@);
            assert(self.events@.map_values(|e: Event| e@) =~= self.events.deep_view());
        }
        Ok(out)
    }
}

/// The JSON string literal (quoted and escaped) denoting a text.
pub uninterp spec fn json_str_of(s: Seq<char>) -> Seq<char>;

/// Relies on serde_json::to_string on a string slice: the returned
/// JSON string literal depends on the characters alone, and the
/// serializer cannot fail on a string value.
#[verifier::external_body]
pub fn json_quote(s: &str) -> (r: String)
    ensures
        r@ == json_str_of(s@),
{
    serde_json::to_string(s).unwrap_or_default()
}

/// One decimal digit.
pub open spec fn spec_digit(n: int) -> char {
    if n == 0 {
        '0'
    } else if n == 1 {
        '1'
    } else if n == 2 {
        '2'
    } else if n == 3 {
        '3'
    } else if n == 4 {
        '4'
    } else if n == 5 {
        '5'
    } else if n == 6 {
        '6'
    } else if n == 7 {
        '7'
    } else if n == 8 {
        '8'
    } else {
        '9'
    }
}

/// The decimal numeral of a non-negative number.
pub open spec fn spec_dec_of(n: int) -> Seq<char>
    decreases n,
{
    if n < 10 {
        seq![spec_digit(n)]
    } else {
        spec_dec_of(n / 10).push(spec_digit(n % 10))
    }
}

fn digit_str(n: u64) -> (r: &'static str)
    requires
        n < 10,
    ensures
        r@ =~= seq![spec_digit(n as int)],
{
    proof {
        reveal_strlit("0");
        reveal_strlit("1");
        reveal_strlit("2");
        reveal_strlit("3");
        reveal_strlit("4");
        reveal_strlit("5");
        reveal_strlit("6");
        reveal_strlit("7");
        reveal_strlit("8");
        reveal_strlit("9");
    }
    if n == 0 {
        "0"
    } else if n == 1 {
        "1"
    } else if n == 2 {
        "2"
    } else if n == 3 {
        "3"
    } else if n == 4 {
        "4"
    } else if n == 5 {
        "5"
    } else if n == 6 {
        "6"
    } else if n == 7 {
        "7"
    } else if n == 8 {
        "8"
    } else {
        "9"
    }
}

/// The decimal numeral of a number.
pub fn u64_to_dec(n: u64) -> (r: String)
    ensures
        r@ == spec_dec_of(n as int),
    decreases n,
{
    if n < 10 {
        digit_str(n).to_owned()
    } else {
        let mut s = u64_to_dec(n / 10);
        s.append(digit_str(n % 10));
        proof {
            assert(s@ =~= spec_dec_of((n / 10) as int).push(spec_digit((n % 10) as int)));
        }
        s
    }
}


/// The RFC 3339 text of a UTC timestamp.
pub uninterp spec fn rfc3339_of(ms: u64) -> Seq<char>;

/// Relies on chrono's `DateTime::from_timestamp_millis` and
/// `to_rfc3339`: the RFC 3339 text of the UTC instant `ms` milliseconds
/// after the Unix epoch (empty text outside chrono's range), a pure
/// function of `ms`. chrono documents that `from_timestamp_millis`
/// round-trips with `timestamp_millis`, and the rendered text parses
/// back under chrono's RFC 3339 reader to the same instant; RFC 3339
/// text holds only digits and date/time punctuation, never a line
/// break or a tab.
#[verifier::external_body]
pub fn rfc3339_utc(ms: u64) -> (r: String)
    ensures
        r@ == rfc3339_of(ms),
        r@.len() > 0 ==> parse_rfc3339_of(r@) == Some(ms),
        forall|i: int| 0 <= i < r@.len() ==> r@[i] != '\n' && r@[i] != '\r' && r@[i] != '\t',
{
    let instant = i64::try_from(ms).ok().and_then(
        chrono::DateTime::<chrono::Utc>::from_timestamp_millis,
    );
    match instant {
        Some(dt) => dt.to_rfc3339(),
        None => String::new(),
    }
}

/// The timestamp a text parses to under RFC 3339 rules, if any.
pub uninterp spec fn parse_rfc3339_of(s: Seq<char>) -> Option<u64>;

/// Relies on chrono's `FromStr` instance of `DateTime<Utc>`, which
/// accepts a relaxed form of RFC 3339: whether and how a text parses
/// depends on its characters alone. Timestamps outside `u64`
/// milliseconds are reported as unparsable.
#[verifier::external_body]
pub fn parse_rfc3339(s: &str) -> (r: Option<u64>)
    ensures
        r == parse_rfc3339_of(s@),
{
    match s.parse::<chrono::DateTime<chrono::Utc>>() {
        Ok(dt) => u64::try_from(dt.timestamp_millis()).ok(),
        Err(_) => None,
    }
}

/// One line of the event log file: timestamp, kind and payload,
/// tab-separated, newline-terminated.
pub open spec fn spec_event_line(e: EventV) -> Seq<char> {
    rfc3339_of(e.timestamp) + "\t"@ + e.kind + "\t"@ + e.payload + "\n"@
}

/// What one log-file line contributes to a query for `kind`:
/// `None` aborts the query (a matching line whose timestamp does not
/// parse), `Some(None)` skips the line (too few fields, or another
/// kind), `Some(Some(e))` yields an event.
pub open spec fn spec_line_event(line0: Seq<char>, kind: Seq<char>) -> Option<Option<EventV>> {
    let line = if line0.len() > 0 && line0.last() == '\r' {
        line0.drop_last()
    } else {
        line0
    };
    match crate::strutil::find_char_from(line, '\t', 0) {
        None => Some(None),
        Some(i) => match crate::strutil::find_char_from(line, '\t', i + 1) {
            None => Some(None),
            Some(j) => {
                if line.subrange(i + 1, j) != kind {
                    Some(None)
                } else {
                    match parse_rfc3339_of(line.subrange(0, i)) {
                        None => None,
                        Some(ts) => Some(
                            Some(
                                EventV {
                                    timestamp: ts,
                                    kind: line.subrange(i + 1, j),
                                    payload: line.subrange(j + 1, line.len() as int),
                                },
                            ),
                        ),
                    }
                }
            },
        },
    }
}

/// The events of one kind a log file's text holds, in file order;
/// `None` when a matching line's timestamp does not parse.
pub open spec fn spec_query_lines(content: Seq<char>, kind: Seq<char>) -> Option<Seq<EventV>>
    decreases content.len(),
    via spec_query_lines_dec
{
    if content.len() == 0 {
        Some(Seq::empty())
    } else {
        match crate::strutil::find_char_from(content, '\n', 0) {
            Some(i) => {
                let head = spec_line_event(content.subrange(0, i), kind);
                let rest = spec_query_lines(content.subrange(i + 1, content.len() as int), kind);
                match (head, rest) {
                    (None, _) => None,
                    (_, None) => None,
                    (Some(None), Some(r)) => Some(r),
                    (Some(Some(e)), Some(r)) => Some(seq![e] + r),
                }
            },
            None => match spec_line_event(content, kind) {
                None => None,
                Some(None) => Some(Seq::empty()),
                Some(Some(e)) => Some(seq![e]),
            },
        }
    }
}

#[via_fn]
proof fn spec_query_lines_dec(content: Seq<char>, kind: Seq<char>) {
    crate::strutil::lemma_find_char_from_bounds(content, '\n', 0);
}

/// The text holds no line break.
pub open spec fn single_line(s: Seq<char>) -> bool {
    forall|i: int| 0 <= i < s.len() ==> s[i] != '\n' && s[i] != '\r'
}

/// The text holds no line break and no tab: fit for a field of a log
/// line.
pub open spec fn field_text(s: Seq<char>) -> bool {
    single_line(s) && forall|i: int| 0 <= i < s.len() ==> s[i] != '\t'
}

/// A log line assembled from its three fields.
spec fn line_parts(ts: Seq<char>, kind: Seq<char>, payload: Seq<char>) -> Seq<char> {
    ts + seq!['\t'] + kind + seq!['\t'] + payload
}

/// The character each index of an assembled log line falls on: in the
/// timestamp, on a separator, in the kind, or in the payload.
spec fn line_char_at(ts: Seq<char>, kind: Seq<char>, payload: Seq<char>, p: int) -> char {
    if p < ts.len() {
        ts[p]
    } else if p == ts.len() {
        '\t'
    } else if p < ts.len() + 1 + kind.len() {
        kind[p - ts.len() - 1]
    } else if p == ts.len() + 1 + kind.len() {
        '\t'
    } else {
        payload[p - ts.len() - 2 - kind.len()]
    }
}

proof fn lemma_line_index(ts: Seq<char>, kind: Seq<char>, payload: Seq<char>, p: int)
    requires
        0 <= p < ts.len() + 1 + kind.len() + 1 + payload.len(),
    ensures
        line_parts(ts, kind, payload).len() == ts.len() + 1 + kind.len() + 1 + payload.len(),
        line_parts(ts, kind, payload)[p] == line_char_at(ts, kind, payload, p),
{
}

/// Law: one line composes with the rest of the file. A line without a
/// line break, followed by a newline and the remaining content, is
/// queried by reading that line first and the rest after.
pub proof fn lemma_query_lines_step(line: Seq<char>, rest: Seq<char>, kind: Seq<char>)
    requires
        forall|j: int| 0 <= j < line.len() ==> line[j] != '\n',
    ensures
        spec_query_lines(line + seq!['\n'] + rest, kind) == match (
            spec_line_event(line, kind),
            spec_query_lines(rest, kind),
        ) {
            (None, _) => None,
            (Some(_), None) => None,
            (Some(None), Some(r)) => Some(r),
            (Some(Some(e)), Some(r)) => Some(seq![e] + r),
        },
{
    let content = line + seq!['\n'] + rest;
    assert(content[line.len() as int] == '\n');
    assert forall|j: int| 0 <= j < line.len() implies content[j] != '\n' by {
        assert(content[j] == line[j]);
    }
    crate::strutil::lemma_find_char_at(content, '\n', 0, line.len() as int);
    assert(content.subrange(0, line.len() as int) =~= line);
    assert(content.subrange(line.len() as int + 1, content.len() as int) =~= rest);
}

enum LineOutcome {
    BadTimestamp,
    Skip,
    Hit(Event),
}

fn parse_line_event(line0: &str, kind: &str) -> (r: LineOutcome)
    ensures
        match r {
            LineOutcome::BadTimestamp => spec_line_event(line0@, kind@) is None,
            LineOutcome::Skip => spec_line_event(line0@, kind@) == Some(None::<EventV>),
            LineOutcome::Hit(e) => spec_line_event(line0@, kind@) == Some(Some(e@)),
        },
{
    let n0 = line0.unicode_len();
    let line = if n0 > 0 && line0.get_char(n0 - 1) == '\r' {
        let l = line0.substring_char(0, n0 - 1);
        proof {
            assert(l@ =~= line0@.drop_last());
        }
        l
    } else {
        line0
    };
    let n = line.unicode_len();
    let i = match crate::strutil::find_char(line, '\t', 0) {
        None => {
            return LineOutcome::Skip;
        },
        Some(i) => i,
    };
    let j = match crate::strutil::find_char(line, '\t', i + 1) {
        None => {
            return LineOutcome::Skip;
        },
        Some(j) => j,
    };
    let k = line.substring_char(i + 1, j);
    if !crate::strutil::str_eq(k, kind) {
        return LineOutcome::Skip;
    }
    let ts_text = line.substring_char(0, i);
    match parse_rfc3339(ts_text) {
        None => LineOutcome::BadTimestamp,
        Some(ts) => LineOutcome::Hit(
            Event {
                timestamp: ts,
                kind: k.to_owned(),
                payload: line.substring_char(j + 1, n).to_owned(),
            },
        ),
    }
}

/// Append-only file-based event log: lines of tab-separated timestamp,
/// kind and payload. The file itself is appended to and read by the
/// embedding program; the line format and the query filter live here.
pub struct FileEventLog {
    path: String,
}

impl FileEventLog {
    /// The path of the log file.
    pub closed spec fn path_view(&self) -> Seq<char> {
        self.path@
    }

    pub fn new(path: String) -> (r: FileEventLog)
        ensures
            r.path_view() == path@,
    {
        FileEventLog { path }
    }

    /// The path the embedding program appends to and reads from.
    pub fn path(&self) -> (r: &String)
        ensures
            r@ == self.path_view(),
    {
        &self.path
    }

    /// The line that `log(event)` appends to the file. The kind must
    /// hold no line break or tab and the payload no line break, or the
    /// one-event-one-line discipline of the file breaks down; the
    /// router's own events satisfy both (JSON escaping leaves no raw
    /// control characters in the payload). Whenever the timestamp is
    /// renderable, querying the line back under the event's kind yields
    /// exactly this event, and under any other kind, nothing.
    pub fn format_line(event: &Event) -> (r: String)
        requires
            field_text(event@.kind),
            single_line(event@.payload),
        ensures
            r@ == spec_event_line(event@),
            rfc3339_of(event@.timestamp).len() > 0 ==> {
                &&& spec_query_lines(r@, event@.kind) == Some(seq![event@])
                &&& forall|k: Seq<char>|
                    k != event@.kind ==> #[trigger] spec_query_lines(r@, k) == Some(
                        Seq::<EventV>::empty(),
                    )
            },
    {
        let mut s = rfc3339_utc(event.timestamp);
        let ghost tsv = s@;
        s.append("\t");
        s.append(event.kind.as_str());
        s.append("\t");
        s.append(event.payload.as_str());
        s.append("\n");
        proof {
            assert(s@ =~= spec_event_line(event@));
            reveal_strlit("\t");
            reveal_strlit("\n");
            if tsv.len() > 0 {
                let line = tsv + seq!['\t'] + event@.kind + seq!['\t'] + event@.payload;
                let tslen = tsv.len() as int;
                let i = tslen;
                let j = tslen + 1 + event@.kind.len() as int;
                assert(s@ =~= line + seq!['\n'] + Seq::<char>::empty());
                assert forall|p: int| 0 <= p < line.len() implies line[p] != '\n' by {
                    lemma_line_index(tsv, event@.kind, event@.payload, p);
                }
                assert(line.len() > 0 && line.last() != '\r') by {
                    lemma_line_index(tsv, event@.kind, event@.payload, line.len() - 1);
                }
                assert(line[i] == '\t');
                assert forall|p: int| 0 <= p < i implies line[p] != '\t' by {
                    lemma_line_index(tsv, event@.kind, event@.payload, p);
                }
                crate::strutil::lemma_find_char_at(line, '\t', 0, i);
                assert(line[j] == '\t');
                assert forall|p: int| i + 1 <= p < j implies line[p] != '\t' by {
                    lemma_line_index(tsv, event@.kind, event@.payload, p);
                }
                crate::strutil::lemma_find_char_at(line, '\t', i + 1, j);
                assert(line.subrange(0, i) =~= tsv);
                assert(line.subrange(i + 1, j) =~= event@.kind);
                assert(line.subrange(j + 1, line.len() as int) =~= event@.payload);
                assert(spec_line_event(line, event@.kind) == Some(Some(event@)));
                lemma_query_lines_step(line, Seq::empty(), event@.kind);
                assert(seq![event@] + Seq::<EventV>::empty() =~= seq![event@]);
                assert forall|k: Seq<char>| k != event@.kind implies #[trigger] spec_query_lines(
                    s@,
                    k,
                ) == Some(Seq::<EventV>::empty()) by {
                    assert(line.subrange(i + 1, j) != k);
                    assert(spec_line_event(line, k) == Some(None::<EventV>));
                    lemma_query_lines_step(line, Seq::empty(), k);
                }
            }
        }
        s
    }

    /// The events of one kind in a log file's text, in file order
    /// (which is chronological order for an append-only log); an error
    /// exactly when a matching line's timestamp does not parse.
    pub fn query_content(content: &str, kind: &str) -> (r: Result<Vec<Event>, String>)
        ensures
            match r {
                Ok(es) => spec_query_lines(content@, kind@) == Some(es.deep_view()),
                Err(_) => spec_query_lines(content@, kind@) is None,
            },
        decreases content@.len(),
    {
        let n = content.unicode_len();
        if n == 0 {
            let es: Vec<Event> = Vec::new();
            proof {
                assert(es.deep_view() =~= Seq::<EventV>::empty());
            }
            return Ok(es);
        }
        match crate::strutil::find_char(content, '\n', 0) {
            Some(i) => {
                let line = content.substring_char(0, i);
                let rest = content.substring_char(i + 1, n);
                let head = parse_line_event(line, kind);
                let tail = Self::query_content(rest, kind);
                match (head, tail) {
                    (LineOutcome::BadTimestamp, _) => Err(String::from_str("bad timestamp")),
                    (_, Err(e)) => Err(e),
                    (LineOutcome::Skip, Ok(es)) => Ok(es),
                    (LineOutcome::Hit(e), Ok(es)) => {
                        let ghost tail_view = es.deep_view();
                        let mut out = es;
                        out.insert(0, e);
                        proof {
                            assert(out.deep_view() =~= seq![e@] + tail_view);
                        }
                        Ok(out)
                    },
                }
            },
            None => match parse_line_event(content, kind) {
                LineOutcome::BadTimestamp => Err(String::from_str("bad timestamp")),
                LineOutcome::Skip => {
                    let es: Vec<Event> = Vec::new();
                    proof {
                        assert(es.deep_view() =~= Seq::<EventV>::empty());
                    }
                    Ok(es)
                },
                LineOutcome::Hit(e) => {
                    let mut es: Vec<Event> = Vec::new();
                    es.push(e);
                    proof {
                        assert(es.deep_view() =~= seq![e@]);
                    }
                    Ok(es)
                },
            },
        }
    }
}

} // verus!
