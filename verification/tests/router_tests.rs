use comm_node::artifact::{ArtifactStore, MemArtifactStore};
use comm_node::errors::RouteError;
use comm_node::event::{EventLog, MemEventLog};
use comm_node::files::FileStore;
use comm_node::router::{CompletionStatus, DomainEntry, MemTaskCloser, Router};
use comm_node::types::DomainId;

fn two_domains() -> Vec<DomainEntry> {
    vec![
        DomainEntry { id: DomainId::new("writer"), orch_dir: "writer/.orchestrator".to_string() },
        DomainEntry {
            id: DomainId::new("critic"),
            orch_dir: "critic/.orchestrator".to_string(),
        },
    ]
}

const OUTBOX_MSG: &str = "writer/.orchestrator/outbox/msg-1.md";
const INBOX_MSG: &str = "critic/.orchestrator/inbox/msg-1.md";

#[test]
fn route_moves_file_byte_identically() {
    let text = "---\nfrom: writer\nto: critic\ntype: note\n---\nhello there";
    let mut files = FileStore::new();
    files.write(OUTBOX_MSG, text.as_bytes().to_vec());
    let mut closer = MemTaskCloser::new(false);
    let mut router = Router::new(two_domains(), MemArtifactStore::new(), MemEventLog::new());

    let receipt = router.route(&mut files, &mut closer, OUTBOX_MSG).unwrap();
    assert_eq!(receipt.from.as_str(), "writer");
    assert_eq!(receipt.to.as_str(), "critic");
    assert_eq!(receipt.size_bytes, text.len());

    // The file no longer exists at the source outbox path, and a
    // byte-identical file exists at the destination inbox path.
    assert!(files.read(OUTBOX_MSG).is_none());
    assert_eq!(files.read(INBOX_MSG).unwrap().as_slice(), text.as_bytes());
}

#[test]
fn route_rejects_spoofed_sender_without_side_effects() {
    // Header claims critic, but the file sits in writer's outbox.
    let text = "---\nfrom: critic\nto: writer\ntype: note\nartifacts: [a.md]\n---\nhi";
    let mut files = FileStore::new();
    files.write(OUTBOX_MSG, text.as_bytes().to_vec());
    let mut store = MemArtifactStore::new();
    store.store("critic", "a.md", b"data").unwrap();
    let mut closer = MemTaskCloser::new(false);
    let mut router = Router::new(two_domains(), store, MemEventLog::new());

    let r = router.route(&mut files, &mut closer, OUTBOX_MSG);
    match r {
        Err(RouteError::SpoofedSender { declared, actual }) => {
            assert_eq!(declared.as_str(), "critic");
            assert_eq!(actual.as_str(), "writer");
        }
        _ => panic!("expected a spoofed-sender rejection"),
    }

    // No inbox delivery, no artifact transfer, file still in the outbox.
    assert!(files.read(OUTBOX_MSG).is_some());
    assert!(files.read("writer/.orchestrator/inbox/msg-1.md").is_none());
    assert!(router.artifact_store().retrieve("writer", "a.md").is_err());
    assert!(router.event_log().query("message_routed").unwrap().is_empty());
}

#[test]
fn route_fails_whole_route_on_missing_artifact() {
    let text = "---\nfrom: writer\nto: critic\ntype: note\nartifacts: [spec.json]\n---\nx";
    let mut files = FileStore::new();
    files.write(OUTBOX_MSG, text.as_bytes().to_vec());
    let mut closer = MemTaskCloser::new(false);
    let mut router = Router::new(two_domains(), MemArtifactStore::new(), MemEventLog::new());

    let r = router.route(&mut files, &mut closer, OUTBOX_MSG);
    match r {
        Err(RouteError::ArtifactTransferFailed { name }) => assert_eq!(name, "spec.json"),
        _ => panic!("expected an artifact-transfer failure"),
    }

    // Not delivered, not deleted.
    assert_eq!(files.read(OUTBOX_MSG).unwrap().as_slice(), text.as_bytes());
    assert!(files.read(INBOX_MSG).is_none());
    assert!(router.event_log().query("message_routed").unwrap().is_empty());
}

#[test]
fn completion_failure_does_not_abort_delivery() {
    let path = "writer/.orchestrator/outbox/completion-task-42.md";
    let text = "---\nfrom: writer\nto: critic\ntype: done\n---\nfinished";
    let mut files = FileStore::new();
    files.write(path, text.as_bytes().to_vec());
    let mut closer = MemTaskCloser::new(true);
    let mut router = Router::new(two_domains(), MemArtifactStore::new(), MemEventLog::new());

    let receipt = router.route(&mut files, &mut closer, path).unwrap();
    assert!(matches!(receipt.completion, CompletionStatus::CloseFailed));
    assert_eq!(closer.calls().len(), 1);
    assert_eq!(closer.calls()[0], "task-42");

    // Still delivered despite the failed side effect.
    assert!(files.read(path).is_none());
    assert_eq!(
        files
            .read("critic/.orchestrator/inbox/completion-task-42.md")
            .unwrap()
            .as_slice(),
        text.as_bytes()
    );
}

#[test]
fn route_rejects_unknown_target_and_source() {
    let text = "---\nfrom: writer\nto: nobody\ntype: note\n---\nx";
    let mut files = FileStore::new();
    files.write(OUTBOX_MSG, text.as_bytes().to_vec());
    let mut closer = MemTaskCloser::new(false);
    let mut router = Router::new(two_domains(), MemArtifactStore::new(), MemEventLog::new());
    match router.route(&mut files, &mut closer, OUTBOX_MSG) {
        Err(RouteError::UnknownTarget { target }) => assert_eq!(target.as_str(), "nobody"),
        _ => panic!("expected an unknown-target rejection"),
    }

    let stray = "elsewhere/file.md";
    files.write(stray, text.as_bytes().to_vec());
    assert!(matches!(
        router.route(&mut files, &mut closer, stray),
        Err(RouteError::UnknownSource)
    ));

    assert!(matches!(
        router.route(&mut files, &mut closer, "writer/.orchestrator/outbox/absent.md"),
        Err(RouteError::IoError)
    ));
}

#[test]
fn end_to_end_critique_request() {
    let text = "---\nfrom: writer\nto: critic\ntype: critique-request\nartifacts: [draft.md]\n---\nplease comment";
    let draft = b"# Draft\ncontent".to_vec();

    let mut files = FileStore::new();
    files.write(OUTBOX_MSG, text.as_bytes().to_vec());
    let mut store = MemArtifactStore::new();
    store.store("writer", "draft.md", &draft).unwrap();
    let mut closer = MemTaskCloser::new(false);
    let mut router = Router::new(two_domains(), store, MemEventLog::new());

    let receipt = router.route(&mut files, &mut closer, OUTBOX_MSG).unwrap();
    assert!(matches!(receipt.completion, CompletionStatus::NotSignalled));

    // The critic's inbox contains the file.
    assert_eq!(files.read(INBOX_MSG).unwrap().as_slice(), text.as_bytes());

    // The critic's artifact store contains draft.md with the same
    // bytes as the writer's copy.
    assert_eq!(router.artifact_store().retrieve("critic", "draft.md").unwrap(), draft);
    assert_eq!(router.artifact_store().retrieve("writer", "draft.md").unwrap(), draft);

    // The event log contains exactly one message_routed entry with the
    // expected fields.
    let events = router.event_log().query("message_routed").unwrap();
    assert_eq!(events.len(), 1);
    let expected = format!(
        "{{\"from\":\"writer\",\"to\":\"critic\",\"type\":\"critique-request\",\"task\":\"\",\"priority\":\"\",\"artifacts\":[\"draft.md\"],\"size_bytes\":{}}}",
        text.len()
    );
    assert_eq!(events[0].payload, expected);
    assert_eq!(events[0].kind, "message_routed");
}
