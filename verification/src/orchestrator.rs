//! Wiring of the dispatch loop: the pure computations behind building
//! a router and a watcher from a project configuration.
//!
//! The loop itself — awaiting the watcher's queue, routing each path
//! in arrival order, logging per-message errors, and exiting on the
//! interrupt signal — performs I/O on every arm and lives in the
//! embedding program; every decision it takes per message is inside
//! `Router::route`.

use vstd::prelude::*;
use vstd::string::*;

use crate::artifact::DomainRoot;
use crate::config::ProjectConfig;
use crate::kvmap::unique_keys;
use crate::router::{dom_key, DomainEntry};

verus! {

/// Each configured domain with its coordination directory
/// (`<domain root>/.orchestrator`), in configuration order.
pub fn domain_entries(config: &ProjectConfig) -> (r: Vec<DomainEntry>)
    ensures
        r@.len() == config.domains@.len(),
        forall|i: int|
            0 <= i < r@.len() ==> {
                &&& (#[trigger] r@[i]).id@ == config.domains@[i].0@
                &&& r@[i].orch_dir@ == config.domains@[i].1.path@ + "/"@ + ".orchestrator"@
            },
        (forall|i: int, j: int|
            0 <= i < j < config.domains@.len() ==> (#[trigger] config.domains@[i]).0@ != (
            #[trigger] config.domains@[j]).0@) ==> unique_keys(r@, dom_key()),
{
    let mut out: Vec<DomainEntry> = Vec::new();
    let mut i: usize = 0;
    while i < config.domains.len()
        invariant
            i <= config.domains@.len(),
            out@.len() == i,
            forall|k: int|
                0 <= k < i ==> {
                    &&& (#[trigger] out@[k]).id@ == config.domains@[k].0@
                    &&& out@[k].orch_dir@ == config.domains@[k].1.path@ + "/"@ + ".orchestrator"@
                },
        decreases config.domains@.len() - i,
    {
        let entry = &config.domains[i];
        out.push(
            DomainEntry {
                id: entry.0.clone_id(),
                orch_dir: crate::strutil::join_path(entry.1.path.as_str(), ".orchestrator"),
            },
        );
        i += 1;
    }
    out
}

/// Each configured domain's root path, for the filesystem-backed
/// artifact store.
pub fn artifact_roots(config: &ProjectConfig) -> (r: Vec<DomainRoot>)
    ensures
        r@.len() == config.domains@.len(),
        forall|i: int|
            0 <= i < r@.len() ==> {
                &&& (#[trigger] r@[i]).id@ == config.domains@[i].0@
                &&& r@[i].root@ == config.domains@[i].1.path@
            },
{
    let mut out: Vec<DomainRoot> = Vec::new();
    let mut i: usize = 0;
    while i < config.domains.len()
        invariant
            i <= config.domains@.len(),
            out@.len() == i,
            forall|k: int|
                0 <= k < i ==> {
                    &&& (#[trigger] out@[k]).id@ == config.domains@[k].0@
                    &&& out@[k].root@ == config.domains@[k].1.path@
                },
        decreases config.domains@.len() - i,
    {
        let entry = &config.domains[i];
        out.push(DomainRoot { id: entry.0 .0.clone(), root: entry.1.path.clone() });
        i += 1;
    }
    out
}

/// The outbox directory of each domain, in the same order: what the
/// filesystem watcher is pointed at.
pub fn outbox_dirs(entries: &Vec<DomainEntry>) -> (r: Vec<String>)
    ensures
        r@.len() == entries@.len(),
        forall|i: int|
            0 <= i < r@.len() ==> (#[trigger] r.deep_view()[i]) == entries@[i].orch_dir@
                + "/outbox"@,
{
    let mut out: Vec<String> = Vec::new();
    let mut i: usize = 0;
    while i < entries.len()
        invariant
            i <= entries@.len(),
            out@.len() == i,
            forall|k: int|
                0 <= k < i ==> (#[trigger] out.deep_view()[k]) == entries@[k].orch_dir@
                    + "/outbox"@,
        decreases entries@.len() - i,
    {
        let ghost before = out.deep_view();
        let mut d = entries[i].orch_dir.clone();
        d.append("/outbox");
        out.push(d);
        proof {
            assert(out.deep_view() =~= before.push(entries@[i as int].orch_dir@ + "/outbox"@));
        }
        i += 1;
    }
    out
}

} // verus!
