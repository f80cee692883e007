//! Message routing between agent domains.
//!
//! `route` is the single state-changing operation: it validates one
//! message file found in a source outbox and moves it, with its
//! artifacts, to the destination domain's inbox. Its effect on the
//! world is stated against the file table, the artifact store, the
//! event log and the task-closing hook it is handed.

use vstd::prelude::*;
use vstd::slice::slice_to_vec;
use vstd::string::*;
use vstd::utf8::{decode_utf8, valid_utf8};

use crate::artifact::ArtifactStore;
use crate::errors::RouteError;
use crate::event::{
    json_str_of, json_quote, spec_dec_of, u64_to_dec, Event, EventLog, EventV,
};
use crate::files::FileStore;
use crate::kvmap::{
    entry_map, lemma_entry_map_contains, lemma_entry_map_index, unique_keys,
};
use crate::message::{spec_parse_message, Message, MessageV};
use crate::strutil::{
    file_name_of, join_path, path_in_dir, spec_file_name, spec_path_in_dir, str_eq,
};
use crate::types::{now_millis, DomainId};

verus! {

/// One configured domain: its identifier and the path of its
/// coordination directory (`<domain root>/.orchestrator`).
pub struct DomainEntry {
    pub id: DomainId,
    pub orch_dir: String,
}

/// Key of a domain entry: its identifier.
pub open spec fn dom_key() -> spec_fn(DomainEntry) -> Seq<char> {
    |e: DomainEntry| e.id@
}

/// Value of a domain entry: its coordination directory.
pub open spec fn dom_val() -> spec_fn(DomainEntry) -> Seq<char> {
    |e: DomainEntry| e.orch_dir@
}

/// The external "mark task done" side effect, keyed by task
/// identifier. Implementations record every attempt; whether an
/// attempt succeeds is theirs to decide.
pub trait TaskCloser {
    /// The task identifiers of all attempts so far, in order. (The
    /// default is for implementations outside the verifier's view;
    /// verified implementations override it.)
    open spec fn closed_tasks(&self) -> Seq<Seq<char>> {
        Seq::empty()
    }

    /// Attempt to close a task; the attempt is recorded whether or not
    /// it succeeds.
    fn close_task(&mut self, task_id: &str) -> (r: Result<(), String>)
        ensures
            final(self).closed_tasks() == old(self).closed_tasks().push(task_id@),
    ;
}

/// In-memory task closer: records each attempt and succeeds or fails
/// as configured. The test double for the external hook.
pub struct MemTaskCloser {
    calls: Vec<String>,
    pub fail: bool,
}

impl MemTaskCloser {
    /// Whether this closer is configured to fail its attempts.
    pub closed spec fn fails(&self) -> bool {
        self.fail
    }

    pub fn new(fail: bool) -> (r: MemTaskCloser)
        ensures
            r.closed_tasks() == Seq::<Seq<char>>::empty(),
            r.fails() == fail,
    {
        MemTaskCloser { calls: Vec::new(), fail }
    }

    /// The recorded attempts.
    pub fn calls(&self) -> (r: &Vec<String>)
        ensures
            r.deep_view() == self.closed_tasks(),
    {
        &self.calls
    }
}

impl TaskCloser for MemTaskCloser {
    closed spec fn closed_tasks(&self) -> Seq<Seq<char>> {
        self.calls.deep_view()
    }

    /// Fails exactly when configured to fail; the configuration is
    /// untouched.
    fn close_task(&mut self, task_id: &str) -> (r: Result<(), String>)
        ensures
            r is Ok <==> !old(self).fails(),
            final(self).fails() == old(self).fails(),
    {
        let ghost before = self.calls.deep_view();
        self.calls.push(task_id.to_owned());
        proof {
            assert(self.calls.deep_view() =~= before.push(task_id@));
        }
        if self.fail {
            Err(String::from_str("task close hook failed"))
        } else {
            Ok(())
        }
    }
}

/// How the completion side effect went for one routed message.
pub enum CompletionStatus {
    /// The filename was no completion signal; no attempt was made.
    NotSignalled,
    /// The hook was invoked and reported success.
    Closed,
    /// The hook was invoked and failed; routing proceeded regardless,
    /// and the failure is the caller's to log as a warning.
    CloseFailed,
}

/// What a successful route did, for the caller's audit logging and
/// for mirroring the delivery to disk.
pub struct RouteReceipt {
    pub from: DomainId,
    pub to: DomainId,
    pub msg_type: String,
    pub task: String,
    pub priority: String,
    pub artifacts: Vec<String>,
    pub size_bytes: usize,
    /// The inbox path the message was delivered to.
    pub dest_path: String,
    pub completion: CompletionStatus,
}

/// The task identifier carried by a completion-signal filename:
/// `completion-<task>.md` with a non-empty task part.
pub open spec fn spec_completion_task(name: Seq<char>) -> Option<Seq<char>> {
    if name.len() >= 15 && name.subrange(0, 11) == "completion-"@ && name.subrange(
        name.len() - 3,
        name.len() as int,
    ) == ".md"@ {
        Some(name.subrange(11, name.len() - 3))
    } else {
        None
    }
}

/// Detect completion-signal filenames like `completion-task-42.md`,
/// returning the task identifier (`task-42`) on a match.
pub fn parse_completion_signal(filename: &str) -> (r: Option<String>)
    ensures
        match r {
            Some(t) => spec_completion_task(filename@) == Some(t@),
            None => spec_completion_task(filename@) is None,
        },
{
    proof {
        reveal_strlit("completion-");
        reveal_strlit(".md");
    }
    let n = filename.unicode_len();
    if n < 15 {
        return None;
    }
    let pre = filename.substring_char(0, 11);
    let suf = filename.substring_char(n - 3, n);
    if str_eq(pre, "completion-") && str_eq(suf, ".md") {
        Some(filename.substring_char(11, n - 3).to_owned())
    } else {
        None
    }
}

/// The first domain (in configuration order) whose outbox directory
/// contains the path.
pub open spec fn spec_resolve_from(ds: Seq<DomainEntry>, p: Seq<char>, i: int) -> Option<int>
    decreases ds.len() - i,
{
    if i < 0 || i >= ds.len() {
        None
    } else if spec_path_in_dir(p, ds[i].orch_dir@ + "/outbox"@) {
        Some(i)
    } else {
        spec_resolve_from(ds, p, i + 1)
    }
}

/// The identifier of the domain whose outbox contains the path.
pub open spec fn spec_resolved_id(ds: Seq<DomainEntry>, p: Seq<char>) -> Option<Seq<char>> {
    match spec_resolve_from(ds, p, 0) {
        None => None,
        Some(i) => Some(ds[i].id@),
    }
}

/// The artifact store after copying each named artifact, in list
/// order, from the sender's space to the receiver's.
pub open spec fn spec_transfer(
    store: Map<(Seq<char>, Seq<char>), Seq<u8>>,
    from: Seq<char>,
    to: Seq<char>,
    names: Seq<Seq<char>>,
) -> Map<(Seq<char>, Seq<char>), Seq<u8>>
    decreases names.len(),
{
    if names.len() == 0 {
        store
    } else {
        spec_transfer(
            store.insert((to, names[0]), store[(from, names[0])]),
            from,
            to,
            names.drop_first(),
        )
    }
}

/// Every named artifact exists in the sender's space when its turn
/// comes.
pub open spec fn spec_transfer_ok(
    store: Map<(Seq<char>, Seq<char>), Seq<u8>>,
    from: Seq<char>,
    to: Seq<char>,
    names: Seq<Seq<char>>,
) -> bool
    decreases names.len(),
{
    if names.len() == 0 {
        true
    } else {
        store.contains_key((from, names[0])) && spec_transfer_ok(
            store.insert((to, names[0]), store[(from, names[0])]),
            from,
            to,
            names.drop_first(),
        )
    }
}

proof fn lemma_transfer_push(
    store: Map<(Seq<char>, Seq<char>), Seq<u8>>,
    from: Seq<char>,
    to: Seq<char>,
    names: Seq<Seq<char>>,
    n: Seq<char>,
)
    ensures
        spec_transfer(store, from, to, names.push(n)) == spec_transfer(
            store,
            from,
            to,
            names,
        ).insert((to, n), spec_transfer(store, from, to, names)[(from, n)]),
        spec_transfer_ok(store, from, to, names.push(n)) == (spec_transfer_ok(
            store,
            from,
            to,
            names,
        ) && spec_transfer(store, from, to, names).contains_key((from, n))),
    decreases names.len(),
{
    if names.len() == 0 {
        assert(names.push(n)[0] == n);
        assert(names.push(n).drop_first() =~= Seq::<Seq<char>>::empty());
        assert(spec_transfer(store, from, to, names.push(n)) == spec_transfer(
            store.insert((to, n), store[(from, n)]),
            from,
            to,
            names.push(n).drop_first(),
        ));
        assert(spec_transfer(store, from, to, names) == store);
        assert(spec_transfer_ok(store, from, to, names.push(n)) == (store.contains_key((from, n))
            && spec_transfer_ok(
            store.insert((to, n), store[(from, n)]),
            from,
            to,
            names.push(n).drop_first(),
        )));
        assert(spec_transfer_ok(store, from, to, names));
    } else {
        assert(names.push(n)[0] == names[0]);
        assert(names.push(n).drop_first() =~= names.drop_first().push(n));
        let s1 = store.insert((to, names[0]), store[(from, names[0])]);
        lemma_transfer_push(s1, from, to, names.drop_first(), n);
        assert(spec_transfer(store, from, to, names.push(n)) == spec_transfer(
            s1,
            from,
            to,
            names.drop_first().push(n),
        ));
        assert(spec_transfer(store, from, to, names) == spec_transfer(
            s1,
            from,
            to,
            names.drop_first(),
        ));
        assert(spec_transfer_ok(store, from, to, names.push(n)) == (store.contains_key(
            (from, names[0]),
        ) && spec_transfer_ok(s1, from, to, names.drop_first().push(n))));
    }
}

/// Law: a successful route moves the file. Its contract leaves the
/// file table at `insert(dest, bytes).remove(source)`; whenever the
/// destination inbox path differs from the source path (as it does
/// whenever inbox and outbox directories differ), the file is gone
/// from the source outbox and sits byte-identical at the destination.
pub proof fn lemma_route_file_moved(fs: Map<Seq<char>, Seq<u8>>, path: Seq<char>, dest: Seq<char>)
    requires
        fs.contains_key(path),
        dest != path,
    ensures
        !fs.insert(dest, fs[path]).remove(path).contains_key(path),
        fs.insert(dest, fs[path]).remove(path).contains_key(dest),
        fs.insert(dest, fs[path]).remove(path)[dest] == fs[path],
{
}

/// The inbox path a routed file lands at.
pub open spec fn spec_inbox_path(orch_dir: Seq<char>, fname: Seq<char>) -> Seq<char> {
    orch_dir + "/"@ + "inbox"@ + "/"@ + fname
}

/// A `message_routed` audit record's payload.
pub open spec fn spec_routed_payload(m: MessageV, size: int) -> Seq<char> {
    "{\"from\":"@ + json_str_of(m.from) + ",\"to\":"@ + json_str_of(m.to) + ",\"type\":"@
        + json_str_of(m.msg_type) + ",\"task\":"@ + json_str_of(m.task) + ",\"priority\":"@
        + json_str_of(m.priority) + ",\"artifacts\":["@ + spec_quoted_list_from(m.artifacts, 0)
        + "]"@ + ",\"size_bytes\":"@ + spec_dec_of(size) + "}"@
}

/// The comma-separated JSON string literals of the names from index
/// `i` on.
pub open spec fn spec_quoted_list_from(names: Seq<Seq<char>>, i: int) -> Seq<char>
    decreases names.len() - i,
{
    if i < 0 || i >= names.len() {
        Seq::empty()
    } else if i == names.len() - 1 {
        json_str_of(names[i])
    } else {
        json_str_of(names[i]) + ","@ + spec_quoted_list_from(names, i + 1)
    }
}

fn quoted_list_from(names: &Vec<String>, i: usize) -> (r: String)
    requires
        i <= names@.len(),
    ensures
        r@ == spec_quoted_list_from(names.deep_view(), i as int),
    decreases names@.len() - i,
{
    if i >= names.len() {
        String::new()
    } else if i == names.len() - 1 {
        json_quote(names[i].as_str())
    } else {
        let mut s = json_quote(names[i].as_str());
        s.append(",");
        let rest = quoted_list_from(names, i + 1);
        s.append(rest.as_str());
        proof {
            assert(s@ =~= json_str_of(names.deep_view()[i as int]) + ","@
                + spec_quoted_list_from(names.deep_view(), i + 1));
        }
        s
    }
}

/// The JSON payload of the audit record for one routed message.
fn build_routed_payload(message: &Message, size_bytes: usize) -> (r: String)
    ensures
        r@ == spec_routed_payload(message@, size_bytes as int),
{
    let mut s = String::from_str("{\"from\":");
    s.append(json_quote(message.from.as_str()).as_str());
    s.append(",\"to\":");
    s.append(json_quote(message.to.as_str()).as_str());
    s.append(",\"type\":");
    s.append(json_quote(message.msg_type.as_str()).as_str());
    s.append(",\"task\":");
    s.append(json_quote(message.task.as_str()).as_str());
    s.append(",\"priority\":");
    s.append(json_quote(message.priority.as_str()).as_str());
    s.append(",\"artifacts\":[");
    s.append(quoted_list_from(&message.artifacts, 0).as_str());
    s.append("]");
    s.append(",\"size_bytes\":");
    let size64: u64 = size_bytes as u64;
    s.append(u64_to_dec(size64).as_str());
    s.append("}");
    proof {
        assert(s@ =~= spec_routed_payload(message@, size_bytes as int));
    }
    s
}

/// Whether the event log gained exactly the `message_routed` record
/// for this message (at whatever clock reading), or — the log being
/// allowed to fail without aborting a route — stayed unchanged.
pub open spec fn logged_routing(
    before: Seq<EventV>,
    after: Seq<EventV>,
    m: MessageV,
    size: int,
) -> bool {
    after == before || exists|ts: u64|
        after == before.push(
            EventV { timestamp: ts, kind: "message_routed"@, payload: spec_routed_payload(m, size) },
        )
}

/// The hook attempts after a route got past its validations: one new
/// attempt if the filename was a completion signal, none otherwise.
pub open spec fn spec_closed_after(before: Seq<Seq<char>>, path: Seq<char>) -> Seq<Seq<char>> {
    match spec_completion_task(spec_file_name(path)) {
        Some(t) => before.push(t),
        None => before,
    }
}

/// The message a route of `path` would deliver: the file's bytes
/// decode as UTF-8 and parse as a message.
pub open spec fn spec_msg_of(fs: Map<Seq<char>, Seq<u8>>, path: Seq<char>) -> Option<MessageV> {
    if fs.contains_key(path) && valid_utf8(fs[path]) {
        spec_parse_message(decode_utf8(fs[path]))
    } else {
        None
    }
}

/// The message a route of `path` would deliver after all validations:
/// it parses, its declared sender is the domain whose outbox the file
/// lies in, and its target is configured.
pub open spec fn spec_route_ok(
    ds: Seq<DomainEntry>,
    fs: Map<Seq<char>, Seq<u8>>,
    path: Seq<char>,
) -> Option<MessageV> {
    match spec_msg_of(fs, path) {
        None => None,
        Some(m) => match spec_resolved_id(ds, path) {
            None => None,
            Some(src) => if m.from == src && entry_map(ds, dom_key(), dom_val()).contains_key(m.to) {
                Some(m)
            } else {
                None
            },
        },
    }
}

/// Relies on std's String::from_utf8: it succeeds exactly on valid
/// UTF-8 input, and the returned text is the decoding of those bytes
/// (vstd's `decode_utf8` formalizes that decoding).
#[verifier::external_body]
fn bytes_to_string(v: &Vec<u8>) -> (r: Option<String>)
    ensures
        match r {
            Some(s) => valid_utf8(v@) && s@ == decode_utf8(v@),
            None => !valid_utf8(v@),
        },
{
    match String::from_utf8(v.clone()) {
        Ok(s) => Some(s),
        Err(_) => None,
    }
}

/// Routes messages between domain inboxes.
pub struct Router<A: ArtifactStore, E: EventLog> {
    domains: Vec<DomainEntry>,
    artifact_store: A,
    event_log: E,
}

impl<A: ArtifactStore, E: EventLog> Router<A, E> {
    /// The configured domains, in configuration order.
    pub closed spec fn domains_view(&self) -> Seq<DomainEntry> {
        self.domains@
    }

    /// The configured map of domain identifier to coordination
    /// directory.
    pub open spec fn domain_map(&self) -> Map<Seq<char>, Seq<char>> {
        entry_map(self.domains_view(), dom_key(), dom_val())
    }

    /// The artifact store's contents.
    pub closed spec fn arts(&self) -> Map<(Seq<char>, Seq<char>), Seq<u8>> {
        self.artifact_store.contents()
    }

    /// The event log's contents.
    pub closed spec fn events(&self) -> Seq<EventV> {
        self.event_log.events()
    }

    /// Well-formedness: one entry per domain identifier.
    pub closed spec fn wf(&self) -> bool {
        unique_keys(self.domains@, dom_key())
    }

    pub fn new(domains: Vec<DomainEntry>, artifact_store: A, event_log: E) -> (r: Router<A, E>)
        requires
            unique_keys(domains@, dom_key()),
        ensures
            r.wf(),
            r.domains_view() == domains@,
            r.arts() == artifact_store.contents(),
            r.events() == event_log.events(),
    {
        Router { domains, artifact_store, event_log }
    }

    /// The artifact store the router works against.
    pub fn artifact_store(&self) -> (r: &A)
        ensures
            r.contents() == self.arts(),
    {
        &self.artifact_store
    }

    /// The event log the router writes to.
    pub fn event_log(&self) -> (r: &E)
        ensures
            r.events() == self.events(),
    {
        &self.event_log
    }

    /// Reverse-lookup which domain's outbox a file lies in: the
    /// authoritative sender of a message is where the file was found,
    /// not what its header claims.
    fn resolve_source_domain(&self, path: &str) -> (r: Option<DomainId>)
        ensures
            match r {
                Some(id) => spec_resolved_id(self.domains_view(), path@) == Some(id@),
                None => spec_resolved_id(self.domains_view(), path@) is None,
            },
    {
        let mut i: usize = 0;
        while i < self.domains.len()
            invariant
                i <= self.domains@.len(),
                spec_resolve_from(self.domains@, path@, 0) == spec_resolve_from(
                    self.domains@,
                    path@,
                    i as int,
                ),
            decreases self.domains@.len() - i,
        {
            let mut outbox = self.domains[i].orch_dir.clone();
            outbox.append("/outbox");
            if path_in_dir(path, outbox.as_str()) {
                return Some(self.domains[i].id.clone_id());
            }
            i += 1;
        }
        None
    }

    /// The coordination directory of a configured domain.
    fn lookup_domain(&self, id: &str) -> (r: Option<String>)
        requires
            self.wf(),
        ensures
            match r {
                Some(d) => self.domain_map().contains_key(id@) && d@ == self.domain_map()[id@],
                None => !self.domain_map().contains_key(id@),
            },
    {
        proof {
            lemma_entry_map_contains(self.domains@, dom_key(), dom_val(), id@);
        }
        let mut i: usize = 0;
        while i < self.domains.len()
            invariant
                self.wf(),
                i <= self.domains@.len(),
                forall|j: int| 0 <= j < i ==> dom_key()(#[trigger] self.domains@[j]) != id@,
            decreases self.domains@.len() - i,
        {
            if str_eq(self.domains[i].id.as_str(), id) {
                proof {
                    lemma_entry_map_index(self.domains@, dom_key(), dom_val(), i as int);
                }
                return Some(self.domains[i].orch_dir.clone());
            }
            i += 1;
        }
        None
    }

    /// Copy each artifact the message lists, in list order, from the
    /// sender's store to the receiver's. The first artifact that
    /// cannot be retrieved or stored fails the route; the ones before
    /// it stay transferred.
    fn route_artifacts(&mut self, message: &Message) -> (r: Result<(), RouteError>)
        ensures
            final(self).domains_view() == old(self).domains_view(),
            final(self).events() == old(self).events(),
            match r {
                Ok(()) => {
                    &&& final(self).arts() == spec_transfer(
                        old(self).arts(),
                        message@.from,
                        message@.to,
                        message@.artifacts,
                    )
                    &&& spec_transfer_ok(
                        old(self).arts(),
                        message@.from,
                        message@.to,
                        message@.artifacts,
                    )
                },
                Err(e) => {
                    &&& e matches RouteError::ArtifactTransferFailed { name }
                    &&& exists|k: int|
                        {
                            &&& 0 <= k < message@.artifacts.len()
                            &&& name@ == message@.artifacts[k]
                            &&& final(self).arts() == spec_transfer(
                                old(self).arts(),
                                message@.from,
                                message@.to,
                                #[trigger] message@.artifacts.take(k),
                            )
                            &&& spec_transfer_ok(
                                old(self).arts(),
                                message@.from,
                                message@.to,
                                message@.artifacts.take(k),
                            )
                        }
                },
            },
    {
        let ghost a0 = self.arts();
        let ghost names = message@.artifacts;
        let ghost f = message@.from;
        let ghost t = message@.to;
        let mut i: usize = 0;
        proof {
            assert(names.take(0) =~= Seq::<Seq<char>>::empty());
        }
        while i < message.artifacts.len()
            invariant
                i <= names.len(),
                names == message@.artifacts,
                f == message@.from,
                t == message@.to,
                names.len() == message.artifacts@.len(),
                self.arts() == spec_transfer(a0, f, t, names.take(i as int)),
                spec_transfer_ok(a0, f, t, names.take(i as int)),
                self.domains_view() == old(self).domains_view(),
                self.events() == old(self).events(),
                a0 == old(self).arts(),
            decreases names.len() - i,
        {
            let name = &message.artifacts[i];
            proof {
                assert(names[i as int] == message.artifacts@[i as int]@);
                lemma_transfer_push(a0, f, t, names.take(i as int), names[i as int]);
                assert(names.take(i + 1) =~= names.take(i as int).push(names[i as int]));
            }
            let content = match self.artifact_store.retrieve(message.from.as_str(), name.as_str()) {
                Ok(c) => c,
                Err(_) => {
                    proof {
                        assert(names.take(i as int) == message@.artifacts.take(i as int));
                    }
                    return Err(RouteError::ArtifactTransferFailed { name: name.clone() });
                },
            };
            match self.artifact_store.store(message.to.as_str(), name.as_str(), content.as_slice())
            {
                Ok(()) => {},
                Err(_) => {
                    return Err(RouteError::ArtifactTransferFailed { name: name.clone() });
                },
            }
            i += 1;
        }
        proof {
            assert(names.take(names.len() as int) =~= names);
        }
        Ok(())
    }

    /// Write the `message_routed` audit record; a failing log is
    /// tolerated (the route is already complete).
    fn log_routing_event(&mut self, message: &Message, size_bytes: usize)
        ensures
            final(self).domains_view() == old(self).domains_view(),
            final(self).arts() == old(self).arts(),
            logged_routing(old(self).events(), final(self).events(), message@, size_bytes as int),
    {
        let payload = build_routed_payload(message, size_bytes);
        let ev = Event {
            timestamp: now_millis(),
            kind: String::from_str("message_routed"),
            payload,
        };
        let ghost evv = ev@;
        match self.event_log.log(&ev) {
            Ok(()) => {
                proof {
                    assert(final(self).events() == old(self).events().push(
                        EventV {
                            timestamp: evv.timestamp,
                            kind: "message_routed"@,
                            payload: spec_routed_payload(message@, size_bytes as int),
                        },
                    ));
                }
            },
            Err(_) => {},
        }
    }

    /// Parse a message file and route it to the target domain's inbox.
    ///
    /// In order: read the file's bytes (recording the size for audit),
    /// parse header and body, resolve the actual source domain from
    /// the path, check the declared sender against it, check that the
    /// target is configured, fire the completion side effect if the
    /// filename signals one (its failure does not abort the route),
    /// copy each listed artifact from sender to receiver (a failure
    /// here does abort the route), copy the file into the target inbox
    /// and then remove it from the source outbox, and write the audit
    /// record.
    pub fn route<C: TaskCloser>(
        &mut self,
        files: &mut FileStore,
        closer: &mut C,
        message_path: &str,
    ) -> (r: Result<RouteReceipt, RouteError>)
        requires
            old(self).wf(),
            old(files).wf(),
        ensures
            final(self).wf(),
            final(files).wf(),
            final(self).domains_view() == old(self).domains_view(),
            match r {
                Ok(receipt) => {
                    &&& spec_route_ok(old(self).domains_view(), old(files).files(), message_path@)
                        matches Some(m)
                    &&& receipt.from@ == m.from
                    &&& receipt.to@ == m.to
                    &&& receipt.msg_type@ == m.msg_type
                    &&& receipt.task@ == m.task
                    &&& receipt.priority@ == m.priority
                    &&& receipt.artifacts.deep_view() == m.artifacts
                    &&& receipt.size_bytes == old(files).files()[message_path@].len()
                    &&& receipt.dest_path@ == spec_inbox_path(
                        old(self).domain_map()[m.to],
                        spec_file_name(message_path@),
                    )
                    &&& (receipt.completion is NotSignalled <==> spec_completion_task(
                        spec_file_name(message_path@),
                    ) is None)
                    &&& final(files).files() == old(files).files().insert(
                        spec_inbox_path(
                            old(self).domain_map()[m.to],
                            spec_file_name(message_path@),
                        ),
                        old(files).files()[message_path@],
                    ).remove(message_path@)
                    &&& final(self).arts() == spec_transfer(
                        old(self).arts(),
                        m.from,
                        m.to,
                        m.artifacts,
                    )
                    &&& spec_transfer_ok(old(self).arts(), m.from, m.to, m.artifacts)
                    &&& logged_routing(
                        old(self).events(),
                        final(self).events(),
                        m,
                        old(files).files()[message_path@].len() as int,
                    )
                    &&& final(closer).closed_tasks() == spec_closed_after(
                        old(closer).closed_tasks(),
                        message_path@,
                    )
                },
                Err(RouteError::IoError) => {
                    &&& !old(files).files().contains_key(message_path@) || !valid_utf8(
                        old(files).files()[message_path@],
                    )
                    &&& final(files).files() == old(files).files()
                    &&& final(self).arts() == old(self).arts()
                    &&& final(self).events() == old(self).events()
                    &&& final(closer).closed_tasks() == old(closer).closed_tasks()
                },
                Err(RouteError::MalformedMessage) => {
                    &&& old(files).files().contains_key(message_path@)
                    &&& valid_utf8(old(files).files()[message_path@])
                    &&& spec_msg_of(old(files).files(), message_path@) is None
                    &&& final(files).files() == old(files).files()
                    &&& final(self).arts() == old(self).arts()
                    &&& final(self).events() == old(self).events()
                    &&& final(closer).closed_tasks() == old(closer).closed_tasks()
                },
                Err(RouteError::UnknownSource) => {
                    &&& spec_msg_of(old(files).files(), message_path@) is Some
                    &&& spec_resolved_id(old(self).domains_view(), message_path@) is None
                    &&& final(files).files() == old(files).files()
                    &&& final(self).arts() == old(self).arts()
                    &&& final(self).events() == old(self).events()
                    &&& final(closer).closed_tasks() == old(closer).closed_tasks()
                },
                Err(RouteError::SpoofedSender { declared, actual }) => {
                    &&& spec_msg_of(old(files).files(), message_path@) matches Some(m)
                    &&& spec_resolved_id(old(self).domains_view(), message_path@) matches Some(src)
                    &&& m.from != src
                    &&& declared@ == m.from
                    &&& actual@ == src
                    &&& final(files).files() == old(files).files()
                    &&& final(self).arts() == old(self).arts()
                    &&& final(self).events() == old(self).events()
                    &&& final(closer).closed_tasks() == old(closer).closed_tasks()
                },
                Err(RouteError::UnknownTarget { target }) => {
                    &&& spec_msg_of(old(files).files(), message_path@) matches Some(m)
                    &&& spec_resolved_id(old(self).domains_view(), message_path@) == Some(m.from)
                    &&& !old(self).domain_map().contains_key(m.to)
                    &&& target@ == m.to
                    &&& final(files).files() == old(files).files()
                    &&& final(self).arts() == old(self).arts()
                    &&& final(self).events() == old(self).events()
                    &&& final(closer).closed_tasks() == old(closer).closed_tasks()
                },
                Err(RouteError::ArtifactTransferFailed { name }) => {
                    &&& spec_route_ok(old(self).domains_view(), old(files).files(), message_path@)
                        matches Some(m)
                    &&& final(closer).closed_tasks() == spec_closed_after(
                        old(closer).closed_tasks(),
                        message_path@,
                    )
                    &&& exists|k: int|
                        {
                            &&& 0 <= k < m.artifacts.len()
                            &&& name@ == m.artifacts[k]
                            &&& final(self).arts() == spec_transfer(
                                old(self).arts(),
                                m.from,
                                m.to,
                                #[trigger] m.artifacts.take(k),
                            )
                            &&& spec_transfer_ok(old(self).arts(), m.from, m.to, m.artifacts.take(k))
                        }
                    &&& final(files).files() == old(files).files()
                    &&& final(self).events() == old(self).events()
                },
            },
    {
        let content: Vec<u8> = match files.read(message_path) {
            Some(d) => slice_to_vec(d.as_slice()),
            None => {
                return Err(RouteError::IoError);
            },
        };
        let size_bytes = content.len();

        let text = match bytes_to_string(&content) {
            Some(s) => s,
            None => {
                return Err(RouteError::IoError);
            },
        };

        let message = match Message::parse(text.as_str()) {
            Ok(m) => m,
            Err(e) => {
                return Err(e);
            },
        };

        let source_domain = match self.resolve_source_domain(message_path) {
            Some(id) => id,
            None => {
                return Err(RouteError::UnknownSource);
            },
        };

        if !message.from.eq_id(&source_domain) {
            return Err(
                RouteError::SpoofedSender { declared: message.from, actual: source_domain },
            );
        }

        let target_dir = match self.lookup_domain(message.to.as_str()) {
            Some(d) => d,
            None => {
                return Err(RouteError::UnknownTarget { target: message.to });
            },
        };

        let fname = file_name_of(message_path);
        let completion = match parse_completion_signal(fname) {
            Some(task_id) => match closer.close_task(task_id.as_str()) {
                Ok(()) => CompletionStatus::Closed,
                Err(_) => CompletionStatus::CloseFailed,
            },
            None => CompletionStatus::NotSignalled,
        };

        if message.artifacts.len() > 0 {
            match self.route_artifacts(&message) {
                Ok(()) => {},
                Err(e) => {
                    return Err(e);
                },
            }
        } else {
            proof {
                assert(spec_transfer(self.arts(), message@.from, message@.to, message@.artifacts)
                    == self.arts());
            }
        }

        let inbox = join_path(target_dir.as_str(), "inbox");
        let dest = join_path(inbox.as_str(), fname);
        proof {
            assert(dest@ =~= spec_inbox_path(
                old(self).domain_map()[message@.to],
                spec_file_name(message_path@),
            ));
        }
        files.write(dest.as_str(), content);
        files.remove(message_path);

        self.log_routing_event(&message, size_bytes);

        Ok(
            RouteReceipt {
                from: message.from,
                to: message.to,
                msg_type: message.msg_type,
                task: message.task,
                priority: message.priority,
                artifacts: message.artifacts,
                size_bytes,
                dest_path: dest,
                completion,
            },
        )
    }
}

} // verus!
