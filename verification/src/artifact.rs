//! Artifact storage: the cross-domain work products that flow between
//! agents alongside messages.
//!
//! `ArtifactStore` is the capability interface the router consumes; an
//! in-memory implementation lives here and is verified, while a
//! filesystem-backed implementation belongs to the embedding program
//! (its directory layout is computed here by `FsArtifactStore`).

use vstd::prelude::*;
use vstd::slice::slice_to_vec;
use vstd::string::*;

use crate::kvmap::{
    entry_map, lemma_entry_map_contains, lemma_entry_map_index, lemma_entry_map_push,
    lemma_entry_map_remove, unique_keys,
};
use crate::strutil::str_eq;

verus! {

/// Storage backend for artifacts. An artifact's identity is the pair
/// (domain, name); storing overwrites whatever existed under that name
/// in that domain.
pub trait ArtifactStore {
    /// All stored artifacts: (domain, name) to bytes. (The default is
    /// for implementations outside the verifier's view; verified
    /// implementations override it.)
    open spec fn contents(&self) -> Map<(Seq<char>, Seq<char>), Seq<u8>> {
        Map::empty()
    }

    /// Store an artifact, making it available to the target domain.
    fn store(&mut self, domain: &str, name: &str, content: &[u8]) -> (r: Result<(), String>)
        ensures
            match r {
                Ok(()) => final(self).contents() == old(self).contents().insert(
                    (domain@, name@),
                    content@,
                ),
                Err(_) => final(self).contents() == old(self).contents(),
            },
    ;

    /// Retrieve an artifact by domain and name.
    fn retrieve(&self, domain: &str, name: &str) -> (r: Result<Vec<u8>, String>)
        ensures
            match r {
                Ok(d) => self.contents().contains_key((domain@, name@)) && d@ == self.contents()[(
                    domain@,
                    name@,
                )],
                Err(_) => true,
            },
    ;

    /// List all artifact names available in a domain.
    fn list(&self, domain: &str) -> (r: Result<Vec<String>, String>)
        ensures
            match r {
                Ok(names) => {
                    &&& forall|i: int|
                        0 <= i < names.deep_view().len() ==> self.contents().contains_key(
                            (domain@, #[trigger] names.deep_view()[i]),
                        )
                    &&& forall|n: Seq<char>|
                        #[trigger] self.contents().contains_key((domain@, n))
                            ==> names.deep_view().contains(n)
                },
                Err(_) => true,
            },
    ;
}

/// One stored artifact.
pub struct ArtifactEntry {
    pub domain: String,
    pub name: String,
    pub data: Vec<u8>,
}

/// Key of an artifact entry: the (domain, name) pair.
pub open spec fn art_key() -> spec_fn(ArtifactEntry) -> (Seq<char>, Seq<char>) {
    |e: ArtifactEntry| (e.domain@, e.name@)
}

/// Value of an artifact entry: its bytes.
pub open spec fn art_val() -> spec_fn(ArtifactEntry) -> Seq<u8> {
    |e: ArtifactEntry| e.data@
}

/// In-memory artifact store; the verified backend, also serving as the
/// interchangeable test double the interface calls for.
pub struct MemArtifactStore {
    entries: Vec<ArtifactEntry>,
}

impl MemArtifactStore {
    /// No (domain, name) pair occurs twice in the backing list.
    #[verifier::type_invariant]
    spec fn wf(&self) -> bool {
        unique_keys(self.entries@, art_key())
    }

    pub fn new() -> (r: MemArtifactStore)
        ensures
            r.contents() == Map::<(Seq<char>, Seq<char>), Seq<u8>>::empty(),
    {
        MemArtifactStore { entries: Vec::new() }
    }

    fn find(&self, domain: &str, name: &str) -> (r: Option<usize>)
        ensures
            match r {
                Some(i) => i < self.entries@.len() && self.entries@[i as int].domain@ == domain@
                    && self.entries@[i as int].name@ == name@,
                None => forall|i: int|
                    0 <= i < self.entries@.len() ==> art_key()(#[trigger] self.entries@[i]) != (
                    domain@,
                    name@,
                ),
            },
    {
        let mut i: usize = 0;
        while i < self.entries.len()
            invariant
                i <= self.entries@.len(),
                forall|j: int|
                    0 <= j < i ==> art_key()(#[trigger] self.entries@[j]) != (domain@, name@),
            decreases self.entries@.len() - i,
        {
            if str_eq(self.entries[i].domain.as_str(), domain) && str_eq(
                self.entries[i].name.as_str(),
                name,
            ) {
                return Some(i);
            }
            i += 1;
        }
        None
    }
}

impl ArtifactStore for MemArtifactStore {
    closed spec fn contents(&self) -> Map<(Seq<char>, Seq<char>), Seq<u8>> {
        entry_map(self.entries@, art_key(), art_val())
    }

    /// Never fails.
    fn store(&mut self, domain: &str, name: &str, content: &[u8]) -> (r: Result<(), String>)
        ensures
            r is Ok,
    {
        proof {
            use_type_invariant(&*self);
        }
        let ghost t0 = self.contents();
        let idx = self.find(domain, name);
        let mut entries: Vec<ArtifactEntry> = Vec::new();
        core::mem::swap(&mut entries, &mut self.entries);
        match idx {
            Some(i) => {
                proof {
                    lemma_entry_map_remove(entries@, art_key(), art_val(), i as int);
                }
                entries.remove(i);
            },
            None => {
                proof {
                    lemma_entry_map_contains(entries@, art_key(), art_val(), (domain@, name@));
                    assert(entry_map(entries@, art_key(), art_val()).remove((domain@, name@))
                        =~= entry_map(entries@, art_key(), art_val()));
                }
            },
        }
        proof {
            assert(entry_map(entries@, art_key(), art_val()) == t0.remove((domain@, name@)));
            lemma_entry_map_contains(entries@, art_key(), art_val(), (domain@, name@));
        }
        let e = ArtifactEntry {
            domain: domain.to_owned(),
            name: name.to_owned(),
            data: slice_to_vec(content),
        };
        proof {
            lemma_entry_map_push(entries@, art_key(), art_val(), e);
        }
        entries.push(e);
        core::mem::swap(&mut entries, &mut self.entries);
        proof {
            assert(self.contents() =~= t0.insert((domain@, name@), content@));
        }
        Ok(())
    }

    /// Fails exactly when no artifact is stored under (domain, name).
    fn retrieve(&self, domain: &str, name: &str) -> (r: Result<Vec<u8>, String>)
        ensures
            r is Ok <==> self.contents().contains_key((domain@, name@)),
    {
        proof {
            use_type_invariant(&*self);
            lemma_entry_map_contains(self.entries@, art_key(), art_val(), (domain@, name@));
        }
        match self.find(domain, name) {
            Some(i) => {
                proof {
                    lemma_entry_map_index(self.entries@, art_key(), art_val(), i as int);
                }
                Ok(slice_to_vec(self.entries[i].data.as_slice()))
            },
            None => Err(String::from_str("artifact not found")),
        }
    }

    /// Never fails.
    fn list(&self, domain: &str) -> (r: Result<Vec<String>, String>)
        ensures
            r is Ok,
            r matches Ok(names) ==> forall|k1: int, k2: int|
                0 <= k1 < k2 < names.deep_view().len() ==> names.deep_view()[k1]
                    != names.deep_view()[k2],
    {
        proof {
            use_type_invariant(&*self);
        }
        let mut names: Vec<String> = Vec::new();
        let mut i: usize = 0;
        while i < self.entries.len()
            invariant
                unique_keys(self.entries@, art_key()),
                i <= self.entries@.len(),
                forall|k: int|
                    0 <= k < names.deep_view().len() ==> self.contents().contains_key(
                        (domain@, #[trigger] names.deep_view()[k]),
                    ),
                forall|j: int|
                    0 <= j < i && (#[trigger] self.entries@[j]).domain@ == domain@
                        ==> names.deep_view().contains(self.entries@[j].name@),
                forall|k: int| #![trigger names.deep_view()[k]]
                    0 <= k < names.deep_view().len() ==> exists|j: int|
                        #![trigger self.entries@[j]]
                        0 <= j < i && names.deep_view()[k] == self.entries@[j].name@
                            && self.entries@[j].domain@ == domain@,
                forall|k1: int, k2: int|
                    0 <= k1 < k2 < names.deep_view().len() ==> names.deep_view()[k1]
                        != names.deep_view()[k2],
            decreases self.entries@.len() - i,
        {
            if str_eq(self.entries[i].domain.as_str(), domain) {
                let ghost before = names.deep_view();
                names.push(self.entries[i].name.clone());
                proof {
                    assert(names.deep_view() =~= before.push(self.entries@[i as int].name@));
                    lemma_entry_map_index(self.entries@, art_key(), art_val(), i as int);
                    assert forall|j: int|
                        0 <= j < i + 1 && (#[trigger] self.entries@[j]).domain@
                            == domain@ implies names.deep_view().contains(
                        self.entries@[j].name@,
                    ) by {
                        if j < i {
                            assert(before.contains(self.entries@[j].name@));
                            let k = choose|k: int|
                                0 <= k < before.len() && before[k] == self.entries@[j].name@;
                            assert(names.deep_view()[k] == self.entries@[j].name@);
                        } else {
                            assert(names.deep_view()[before.len() as int]
                                == self.entries@[j].name@);
                        }
                    }
                    assert forall|k: int| #![trigger names.deep_view()[k]]
                        0 <= k < names.deep_view().len() implies exists|j: int|
                        #![trigger self.entries@[j]]
                        0 <= j < i + 1 && names.deep_view()[k] == self.entries@[j].name@
                            && self.entries@[j].domain@ == domain@ by {
                        if k < before.len() {
                            let j = choose|j: int|
                                0 <= j < i && before[k] == (#[trigger] self.entries@[j]).name@
                                    && self.entries@[j].domain@ == domain@;
                            assert(names.deep_view()[k] == self.entries@[j].name@);
                        } else {
                            assert(names.deep_view()[k] == self.entries@[i as int].name@);
                        }
                    }
                    assert forall|k1: int, k2: int|
                        0 <= k1 < k2 < names.deep_view().len() implies names.deep_view()[k1]
                        != names.deep_view()[k2] by {
                        if k2 == names.deep_view().len() - 1 {
                            let j = choose|j: int|
                                0 <= j < i && before[k1] == (#[trigger] self.entries@[j]).name@
                                    && self.entries@[j].domain@ == domain@;
                            assert(art_key()(self.entries@[j]) != art_key()(
                                self.entries@[i as int],
                            ));
                        }
                    }
                }
            }
            i += 1;
        }
        proof {
            assert forall|n: Seq<char>|
                #[trigger] self.contents().contains_key(
                    (domain@, n),
                ) implies names.deep_view().contains(n) by {
                lemma_entry_map_contains(self.entries@, art_key(), art_val(), (domain@, n));
                let j = choose|j: int|
                    0 <= j < self.entries@.len() && art_key()(self.entries@[j]) == (domain@, n);
                assert(self.entries@[j].domain@ == domain@);
                assert(names.deep_view().contains(self.entries@[j].name@));
            }
        }
        Ok(names)
    }
}

/// One configured domain root for the filesystem-backed store.
pub struct DomainRoot {
    pub id: String,
    pub root: String,
}

/// Key of a domain root entry: the domain identifier.
pub open spec fn root_key() -> spec_fn(DomainRoot) -> Seq<char> {
    |e: DomainRoot| e.id@
}

/// Value of a domain root entry: the root path.
pub open spec fn root_val() -> spec_fn(DomainRoot) -> Seq<char> {
    |e: DomainRoot| e.root@
}

/// Directory layout of the filesystem-backed artifact store: artifacts
/// live under `<domain root>/.orchestrator/artifacts/<name>`. The reads
/// and writes themselves are filesystem work and belong to the
/// embedding program; this type resolves where they go.
pub struct FsArtifactStore {
    roots: Vec<DomainRoot>,
}

impl FsArtifactStore {
    /// The configured map of domain name to domain root path.
    pub closed spec fn roots_map(&self) -> Map<Seq<char>, Seq<char>> {
        entry_map(self.roots@, root_key(), root_val())
    }

    /// Well-formedness: one root per domain name.
    pub closed spec fn wf(&self) -> bool {
        unique_keys(self.roots@, root_key())
    }

    pub fn new(roots: Vec<DomainRoot>) -> (r: FsArtifactStore)
        requires
            unique_keys(roots@, root_key()),
        ensures
            r.wf(),
            r.roots_map() == entry_map(roots@, root_key(), root_val()),
    {
        FsArtifactStore { roots }
    }

    /// The artifacts directory of a domain, or an error exactly when
    /// the domain is unknown.
    pub fn artifacts_dir(&self, domain: &str) -> (r: Result<String, String>)
        requires
            self.wf(),
        ensures
            match r {
                Ok(d) => self.roots_map().contains_key(domain@) && d@ == self.roots_map()[domain@]
                    + "/.orchestrator/artifacts"@,
                Err(_) => !self.roots_map().contains_key(domain@),
            },
    {
        proof {
            lemma_entry_map_contains(self.roots@, root_key(), root_val(), domain@);
        }
        let mut i: usize = 0;
        while i < self.roots.len()
            invariant
                self.wf(),
                i <= self.roots@.len(),
                forall|j: int| 0 <= j < i ==> root_key()(#[trigger] self.roots@[j]) != domain@,
            decreases self.roots@.len() - i,
        {
            if str_eq(self.roots[i].id.as_str(), domain) {
                proof {
                    lemma_entry_map_index(self.roots@, root_key(), root_val(), i as int);
                }
                let mut d = self.roots[i].root.clone();
                d.append("/.orchestrator/artifacts");
                return Ok(d);
            }
            i += 1;
        }
        Err(String::from_str("unknown domain"))
    }
}

} // verus!
