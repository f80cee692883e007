use comm_node::artifact::{ArtifactStore, FsArtifactStore, MemArtifactStore, DomainRoot};
use comm_node::event::{
    clone_event, json_quote, u64_to_dec, Event, EventLog, FileEventLog, MemEventLog,
};
use comm_node::lock::LockManager;
use comm_node::orchestrator::{artifact_roots, domain_entries, outbox_dirs};
use comm_node::config::{DomainConfig, ProjectConfig};
use comm_node::types::{AgentStatus, DomainId, MessageId};

fn ev(ts: u64, kind: &str, payload: &str) -> Event {
    Event { timestamp: ts, kind: kind.to_string(), payload: payload.to_string() }
}

#[test]
fn mem_event_log_appends_and_filters() {
    let mut log = MemEventLog::new();
    log.log(&ev(1, "message_routed", "{}")).unwrap();
    log.log(&ev(2, "lock_acquired", "{}")).unwrap();
    log.log(&ev(3, "message_routed", "{\"n\":1}")).unwrap();

    let routed = log.query("message_routed").unwrap();
    assert_eq!(routed.len(), 2);
    assert_eq!(routed[0].timestamp, 1);
    assert_eq!(routed[1].timestamp, 3);
    assert_eq!(routed[1].payload, "{\"n\":1}");
    assert!(log.query("nothing").unwrap().is_empty());
}

#[test]
fn decimal_rendering() {
    assert_eq!(u64_to_dec(0), "0");
    assert_eq!(u64_to_dec(7), "7");
    assert_eq!(u64_to_dec(42), "42");
    assert_eq!(u64_to_dec(1234567890), "1234567890");
}

#[test]
fn json_quoting_escapes() {
    assert_eq!(json_quote("writer"), "\"writer\"");
    assert_eq!(json_quote("a\"b"), "\"a\\\"b\"");
    assert_eq!(json_quote(""), "\"\"");
}

#[test]
fn file_log_line_format_and_query() {
    let line = FileEventLog::format_line(&ev(0, "message_routed", "{\"a\":1}"));
    assert_eq!(line, "1970-01-01T00:00:00+00:00\tmessage_routed\t{\"a\":1}\n");

    let content = format!(
        "{}{}{}",
        FileEventLog::format_line(&ev(0, "message_routed", "{\"a\":1}")),
        FileEventLog::format_line(&ev(1000, "other", "{}")),
        FileEventLog::format_line(&ev(2000, "message_routed", "{\"b\":2}")),
    );
    let events = FileEventLog::query_content(&content, "message_routed").unwrap();
    assert_eq!(events.len(), 2);
    assert_eq!(events[0].timestamp, 0);
    assert_eq!(events[1].timestamp, 2000);
    assert_eq!(events[1].payload, "{\"b\":2}");

    // A short or alien line is skipped, not an error.
    let with_noise = format!("noise without tabs\n{}", content);
    assert_eq!(FileEventLog::query_content(&with_noise, "message_routed").unwrap().len(), 2);

    // A matching line whose timestamp does not parse fails the query.
    let bad = "not-a-date\tmessage_routed\t{}\n";
    assert!(FileEventLog::query_content(bad, "message_routed").is_err());

    let log = FileEventLog::new("state/event.log".to_string());
    assert_eq!(log.path().as_str(), "state/event.log");
}

#[test]
fn mem_artifact_store_overwrites_and_lists() {
    let mut store = MemArtifactStore::new();
    store.store("d", "a.txt", b"one").unwrap();
    store.store("d", "a.txt", b"two").unwrap();
    store.store("d", "b.txt", b"x").unwrap();
    store.store("other", "c.txt", b"y").unwrap();

    assert_eq!(store.retrieve("d", "a.txt").unwrap(), b"two".to_vec());
    assert!(store.retrieve("d", "missing").is_err());

    let mut names = store.list("d").unwrap();
    names.sort();
    assert_eq!(names, vec!["a.txt".to_string(), "b.txt".to_string()]);
}

#[test]
fn fs_artifact_store_resolves_directories() {
    let store = FsArtifactStore::new(vec![
        DomainRoot { id: "backend".to_string(), root: "/work/backend".to_string() },
    ]);
    assert_eq!(
        store.artifacts_dir("backend").unwrap(),
        "/work/backend/.orchestrator/artifacts"
    );
    assert!(store.artifacts_dir("unknown").is_err());
}

#[test]
fn orchestrator_wiring_paths() {
    let cfg = ProjectConfig {
        domains: vec![(
            DomainId::new("backend"),
            DomainConfig {
                path: "/work/backend".to_string(),
                scope: vec![],
                description: String::new(),
            },
        )],
    };
    let entries = domain_entries(&cfg);
    assert_eq!(entries.len(), 1);
    assert_eq!(entries[0].orch_dir, "/work/backend/.orchestrator");

    let outboxes = outbox_dirs(&entries);
    assert_eq!(outboxes, vec!["/work/backend/.orchestrator/outbox".to_string()]);

    let roots = artifact_roots(&cfg);
    assert_eq!(roots[0].id, "backend");
    assert_eq!(roots[0].root, "/work/backend");
}

#[test]
fn shared_types_basics() {
    let id = DomainId::new("backend");
    assert_eq!(id.as_str(), "backend");
    assert!(id.eq_id(&DomainId::new("backend")));
    assert!(!id.eq_id(&DomainId::new("frontend")));

    let mid = MessageId::new();
    assert_eq!(mid.0.len(), 36);

    let status = AgentStatus::new_idle(&id);
    assert_eq!(status.domain, "backend");
    assert!(status.current_task.is_none());
    assert!(status.artifacts_produced.is_empty());

    let cloned = clone_event(&ev(5, "k", "p"));
    assert_eq!(cloned.timestamp, 5);

    let m = LockManager::default();
    assert_eq!(m.list().len(), 0);
}
