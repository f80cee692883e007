//! Project configuration: the domain set and each domain's filesystem
//! scope. Loading the TOML file is the embedding program's work; the
//! validation rules live here.

use vstd::prelude::*;

use crate::types::DomainId;

verus! {

/// Configuration for a single domain.
pub struct DomainConfig {
    /// Root path of the domain's working directory.
    pub path: String,
    /// Glob patterns defining the domain's file scope for boundary
    /// enforcement.
    pub scope: Vec<String>,
    /// Human-readable description of this domain's responsibility.
    pub description: String,
}

/// Top-level project configuration: the domains managed by one
/// coordinator instance, in configuration order.
pub struct ProjectConfig {
    pub domains: Vec<(DomainId, DomainConfig)>,
}

/// A fatal configuration error.
#[derive(Debug)]
pub enum ConfigError {
    /// The configuration defines no domains.
    NoDomains,
    /// A domain identifier is the empty string.
    EmptyDomainId,
    /// Two domains carry the same identifier.
    DuplicateDomainId,
}

/// Two domains declare the same scope pattern; not fatal, but worth a
/// warning in the embedding program's log.
pub struct ConfigWarning {
    pub domain_a: DomainId,
    pub domain_b: DomainId,
    pub scope: String,
}

/// Domain `a`'s scope pattern number `p` is also declared by the later
/// domain `b`.
pub open spec fn spec_overlap_at(ds: Seq<(DomainId, DomainConfig)>, a: int, b: int, p: int) -> bool {
    &&& 0 <= a < b < ds.len()
    &&& 0 <= p < ds[a].1.scope.deep_view().len()
    &&& ds[b].1.scope.deep_view().contains(ds[a].1.scope.deep_view()[p])
}

/// The warning names two distinct configured domains that both carry
/// the scope pattern.
pub open spec fn spec_warning_genuine(
    ds: Seq<(DomainId, DomainConfig)>,
    w: ConfigWarning,
) -> bool {
    exists|a: int, b: int, p: int|
        {
            &&& #[trigger] spec_overlap_at(ds, a, b, p)
            &&& ds[a].0@ == w.domain_a@
            &&& ds[b].0@ == w.domain_b@
            &&& ds[a].1.scope.deep_view()[p] == w.scope@
        }
}

/// Some warning in the list reports the overlap of domain `a`'s scope
/// pattern number `p` with domain `b`.
pub open spec fn spec_overlap_warned(
    ds: Seq<(DomainId, DomainConfig)>,
    ws: Seq<ConfigWarning>,
    a: int,
    b: int,
    p: int,
) -> bool {
    exists|k: int|
        {
            &&& 0 <= k < ws.len()
            &&& (#[trigger] ws[k]).domain_a@ == ds[a].0@
            &&& ws[k].domain_b@ == ds[b].0@
            &&& ws[k].scope@ == ds[a].1.scope.deep_view()[p]
        }
}

/// Membership of a string in a list, by characters.
fn contains_str(v: &Vec<String>, s: &str) -> (r: bool)
    ensures
        r == v.deep_view().contains(s@),
{
    let mut i: usize = 0;
    while i < v.len()
        invariant
            i <= v@.len(),
            forall|j: int| 0 <= j < i ==> v.deep_view()[j] != s@,
        decreases v@.len() - i,
    {
        if crate::strutil::str_eq(v[i].as_str(), s) {
            proof {
                assert(v.deep_view()[i as int] == s@);
            }
            return true;
        }
        i += 1;
    }
    proof {
        if v.deep_view().contains(s@) {
            let j = choose|j: int| 0 <= j < v.deep_view().len() && v.deep_view()[j] == s@;
            assert(v.deep_view()[j] != s@);
        }
    }
    false
}

impl ProjectConfig {
    /// Validate the configuration.
    ///
    /// Fatal: an empty domain set, an empty or duplicated domain
    /// identifier. Otherwise returns a warning for every scope pattern
    /// two domains share; checking that each domain's path exists on
    /// disk is filesystem work and stays with the embedding program.
    pub fn validate(&self) -> (r: Result<Vec<ConfigWarning>, ConfigError>)
        ensures
            match r {
                Err(ConfigError::NoDomains) => self.domains@.len() == 0,
                Err(ConfigError::EmptyDomainId) => exists|i: int|
                    0 <= i < self.domains@.len() && (#[trigger] self.domains@[i]).0@.len() == 0,
                Err(ConfigError::DuplicateDomainId) => exists|i: int, j: int|
                    0 <= i < j < self.domains@.len() && (#[trigger] self.domains@[i]).0@ == (
                    #[trigger] self.domains@[j]).0@,
                Ok(ws) => {
                    &&& self.domains@.len() > 0
                    &&& forall|i: int|
                        0 <= i < self.domains@.len() ==> (#[trigger] self.domains@[i]).0@.len() > 0
                    &&& forall|i: int, j: int|
                        0 <= i < j < self.domains@.len() ==> (#[trigger] self.domains@[i]).0@ != (
                        #[trigger] self.domains@[j]).0@
                    &&& forall|k: int|
                        0 <= k < ws@.len() ==> spec_warning_genuine(
                            self.domains@,
                            #[trigger] ws@[k],
                        )
                    &&& forall|a: int, b: int, p: int|
                        #[trigger] spec_overlap_at(self.domains@, a, b, p) ==> spec_overlap_warned(
                            self.domains@,
                            ws@,
                            a,
                            b,
                            p,
                        )
                },
            },
    {
        let ghost ds = self.domains@;
        let n = self.domains.len();
        if n == 0 {
            return Err(ConfigError::NoDomains);
        }
        let mut i: usize = 0;
        while i < n
            invariant
                n == ds.len(),
                ds == self.domains@,
                i <= n,
                forall|k: int| 0 <= k < i ==> (#[trigger] ds[k]).0@.len() > 0,
            decreases n - i,
        {
            if self.domains[i].0.as_str().unicode_len() == 0 {
                return Err(ConfigError::EmptyDomainId);
            }
            i += 1;
        }
        let mut i: usize = 0;
        while i < n
            invariant
                n == ds.len(),
                ds == self.domains@,
                i <= n,
                forall|a: int, b: int|
                    0 <= a < b < n && a < i ==> (#[trigger] ds[a]).0@ != (#[trigger] ds[b]).0@,
            decreases n - i,
        {
            let mut j: usize = i + 1;
            while j < n
                invariant
                    n == ds.len(),
                    ds == self.domains@,
                    i < n,
                    i + 1 <= j <= n,
                    forall|b: int| i < b < j ==> (#[trigger] ds[b]).0@ != ds[i as int].0@,
                decreases n - j,
            {
                if self.domains[i].0.eq_id(&self.domains[j].0) {
                    return Err(ConfigError::DuplicateDomainId);
                }
                j += 1;
            }
            i += 1;
        }
        let mut ws: Vec<ConfigWarning> = Vec::new();
        let mut i: usize = 0;
        while i < n
            invariant
                n == ds.len(),
                ds == self.domains@,
                i <= n,
                forall|k: int|
                    0 <= k < ws@.len() ==> spec_warning_genuine(ds, #[trigger] ws@[k]),
                forall|a: int, b: int, p: int|
                    #[trigger] spec_overlap_at(ds, a, b, p) && a < i ==> spec_overlap_warned(
                        ds,
                        ws@,
                        a,
                        b,
                        p,
                    ),
            decreases n - i,
        {
            let mut j: usize = i + 1;
            while j < n
                invariant
                    n == ds.len(),
                    ds == self.domains@,
                    i < n,
                    i + 1 <= j <= n,
                    forall|k: int|
                        0 <= k < ws@.len() ==> spec_warning_genuine(ds, #[trigger] ws@[k]),
                    forall|a: int, b: int, p: int|
                        #[trigger] spec_overlap_at(ds, a, b, p) && a < i ==> spec_overlap_warned(
                            ds,
                            ws@,
                            a,
                            b,
                            p,
                        ),
                    forall|b: int, p: int|
                        #[trigger] spec_overlap_at(ds, i as int, b, p) && b < j
                            ==> spec_overlap_warned(ds, ws@, i as int, b, p),
                decreases n - j,
            {
                let mut p: usize = 0;
                let scope_len = self.domains[i].1.scope.len();
                while p < scope_len
                    invariant
                        n == ds.len(),
                        ds == self.domains@,
                        i < j < n,
                        scope_len == ds[i as int].1.scope.deep_view().len(),
                        p <= scope_len,
                        forall|k: int|
                            0 <= k < ws@.len() ==> spec_warning_genuine(ds, #[trigger] ws@[k]),
                        forall|a: int, b: int, q: int|
                            #[trigger] spec_overlap_at(ds, a, b, q) && a < i
                                ==> spec_overlap_warned(ds, ws@, a, b, q),
                        forall|b: int, q: int|
                            #[trigger] spec_overlap_at(ds, i as int, b, q) && b < j
                                ==> spec_overlap_warned(ds, ws@, i as int, b, q),
                        forall|q: int|
                            #[trigger] spec_overlap_at(ds, i as int, j as int, q) && q < p
                                ==> spec_overlap_warned(ds, ws@, i as int, j as int, q),
                    decreases scope_len - p,
                {
                    let s = &self.domains[i].1.scope[p];
                    proof {
                        assert(ds[i as int].1.scope.deep_view()[p as int] == s@);
                    }
                    if contains_str(&self.domains[j].1.scope, s.as_str()) {
                        let ghost before = ws@;
                        ws.push(
                            ConfigWarning {
                                domain_a: self.domains[i].0.clone_id(),
                                domain_b: self.domains[j].0.clone_id(),
                                scope: s.clone(),
                            },
                        );
                        proof {
                            assert(forall|k: int| 0 <= k < before.len() ==> ws@[k] == before[k]);
                            assert(spec_overlap_at(ds, i as int, j as int, p as int));
                            assert(ws@.last().domain_a@ == ds[i as int].0@);
                            assert(ws@.last().domain_b@ == ds[j as int].0@);
                            assert(ws@.last().scope@ == ds[i as int].1.scope.deep_view()[p as int]);
                            assert(spec_warning_genuine(ds, ws@.last()));
                            assert forall|a: int, b: int, q: int|
                                #[trigger] spec_overlap_at(ds, a, b, q) && a < i implies
                                spec_overlap_warned(ds, ws@, a, b, q) by {
                                assert(spec_overlap_warned(ds, before, a, b, q));
                                let k = choose|k: int|
                                    0 <= k < before.len() && (#[trigger] before[k]).domain_a@ == ds[a].0@
                                        && before[k].domain_b@ == ds[b].0@ && before[k].scope@
                                        == ds[a].1.scope.deep_view()[q];
                                assert(ws@[k] == before[k]);
                            }
                            assert forall|b: int, q: int|
                                #[trigger] spec_overlap_at(ds, i as int, b, q) && b < j implies
                                spec_overlap_warned(ds, ws@, i as int, b, q) by {
                                assert(spec_overlap_warned(ds, before, i as int, b, q));
                                let k = choose|k: int|
                                    0 <= k < before.len() && (#[trigger] before[k]).domain_a@ == ds[i as int].0@
                                        && before[k].domain_b@ == ds[b].0@ && before[k].scope@
                                        == ds[i as int].1.scope.deep_view()[q];
                                assert(ws@[k] == before[k]);
                            }
                            assert forall|q: int|
                                #[trigger] spec_overlap_at(ds, i as int, j as int, q) && q < p + 1
                                    implies spec_overlap_warned(ds, ws@, i as int, j as int, q) by {
                                if q < p {
                                    assert(spec_overlap_warned(ds, before, i as int, j as int, q));
                                    let k = choose|k: int|
                                        0 <= k < before.len() && (#[trigger] before[k]).domain_a@
                                            == ds[i as int].0@ && before[k].domain_b@ == ds[j as int].0@
                                            && before[k].scope@ == ds[i as int].1.scope.deep_view()[q];
                                    assert(ws@[k] == before[k]);
                                } else {
                                    assert(ws@[ws@.len() - 1].domain_a@ == ds[i as int].0@);
                                }
                            }
                        }
                    }
                    p += 1;
                }
                j += 1;
            }
            i += 1;
        }
        proof {
            assert forall|a: int, b: int, p: int|
                #[trigger] spec_overlap_at(ds, a, b, p) implies spec_overlap_warned(
                ds,
                ws@,
                a,
                b,
                p,
            ) by {
                assert(a < n);
            }
        }
        Ok(ws)
    }
}

} // verus!
