use comm_node::config::{ConfigError, DomainConfig, ProjectConfig};
use comm_node::types::DomainId;

fn dc(path: &str, scope: &[&str]) -> DomainConfig {
    DomainConfig {
        path: path.to_string(),
        scope: scope.iter().map(|s| s.to_string()).collect(),
        description: String::new(),
    }
}

#[test]
fn validate_rejects_empty_domain_set() {
    let cfg = ProjectConfig { domains: vec![] };
    assert!(matches!(cfg.validate(), Err(ConfigError::NoDomains)));
}

#[test]
fn validate_rejects_empty_domain_id() {
    let cfg = ProjectConfig {
        domains: vec![(DomainId::new(""), dc("p", &[]))],
    };
    assert!(matches!(cfg.validate(), Err(ConfigError::EmptyDomainId)));
}

#[test]
fn validate_rejects_duplicate_domain_id() {
    let cfg = ProjectConfig {
        domains: vec![
            (DomainId::new("a"), dc("p1", &[])),
            (DomainId::new("a"), dc("p2", &[])),
        ],
    };
    assert!(matches!(cfg.validate(), Err(ConfigError::DuplicateDomainId)));
}

#[test]
fn validate_reports_overlapping_scopes() {
    let cfg = ProjectConfig {
        domains: vec![
            (DomainId::new("backend"), dc("b", &["src/**", "api/**"])),
            (DomainId::new("frontend"), dc("f", &["ui/**", "api/**"])),
        ],
    };
    let warnings = cfg.validate().unwrap();
    assert_eq!(warnings.len(), 1);
    assert_eq!(warnings[0].domain_a.as_str(), "backend");
    assert_eq!(warnings[0].domain_b.as_str(), "frontend");
    assert_eq!(warnings[0].scope, "api/**");
}

#[test]
fn validate_accepts_disjoint_scopes() {
    let cfg = ProjectConfig {
        domains: vec![
            (DomainId::new("backend"), dc("b", &["src/**"])),
            (DomainId::new("frontend"), dc("f", &["ui/**"])),
        ],
    };
    assert!(cfg.validate().unwrap().is_empty());
}
