//! Authorization.

use velcrux::auth::{
    Authenticator, Authorizer, FileAuthorizer, Grant, GrantToml, MtlsAuthenticator, Op, PermSet,
};
use velcrux::error::VelcruxError;
use velcrux::transport::identity::Identity;

fn identity(name: &str) -> Identity {
    Identity::new(name, "issuer", "cert")
}

#[test]
fn deny_by_default() {
    let authz = FileAuthorizer::new();
    let id = identity("anyone");
    assert!(matches!(
        authz.check(&id, Op::Upload, "data/file"),
        Err(VelcruxError::Protocol(_))
    ));
    assert!(matches!(
        authz.check(&id, Op::Download, "data/file"),
        Err(VelcruxError::Protocol(_))
    ));
    assert!(matches!(
        authz.check(&id, Op::List, "data/"),
        Err(VelcruxError::Protocol(_))
    ));
    assert_eq!(authz.granted_permissions(&id).0, 0);
}

#[test]
fn granted_permission_allows() {
    let authz = FileAuthorizer::from_grants(vec![Grant {
        identity: "alice".to_string(),
        path_prefix: "data".to_string(),
        permissions: PermSet::upload(),
    }]);
    let id = identity("alice");
    let vpath = authz.check(&id, Op::Upload, "data/file.bin").unwrap();
    assert_eq!(vpath.as_str(), "data/file.bin");
}

#[test]
fn missing_permission_denies() {
    let authz = FileAuthorizer::from_grants(vec![Grant {
        identity: "alice".to_string(),
        path_prefix: "data".to_string(),
        permissions: PermSet::upload(),
    }]);
    let id = identity("alice");
    assert!(matches!(
        authz.check(&id, Op::Download, "data/file.bin"),
        Err(VelcruxError::Protocol(_))
    ));
    assert!(matches!(
        authz.check(&id, Op::List, "data/file.bin"),
        Err(VelcruxError::Protocol(_))
    ));
}

#[test]
fn admin_does_not_imply_transfer_perms() {
    let authz = FileAuthorizer::from_grants(vec![Grant {
        identity: "admin".to_string(),
        path_prefix: "data".to_string(),
        permissions: PermSet::admin(),
    }]);
    let id = identity("admin");
    assert!(matches!(
        authz.check(&id, Op::Upload, "data/file.bin"),
        Err(VelcruxError::Protocol(_))
    ));
    assert!(matches!(
        authz.check(&id, Op::Download, "data/file.bin"),
        Err(VelcruxError::Protocol(_))
    ));
    assert!(matches!(
        authz.check(&id, Op::List, "data/file.bin"),
        Err(VelcruxError::Protocol(_))
    ));
    assert!(matches!(
        authz.check(&id, Op::Sync, "data/file.bin"),
        Err(VelcruxError::Protocol(_))
    ));
    assert!(matches!(
        authz.check(&id, Op::Resume, "data/file.bin"),
        Err(VelcruxError::Protocol(_))
    ));
    assert!(matches!(
        authz.check(&id, Op::Delete, "data/file.bin"),
        Err(VelcruxError::Protocol(_))
    ));
    // Admin can do admin op.
    let vpath = authz.check(&id, Op::Admin, "data/file.bin").unwrap();
    assert_eq!(vpath.as_str(), "data/file.bin");
}

#[test]
fn longest_prefix_wins() {
    let authz = FileAuthorizer::from_grants(vec![
        Grant {
            identity: "alice".to_string(),
            path_prefix: "data".to_string(),
            permissions: PermSet::upload(),
        },
        Grant {
            identity: "alice".to_string(),
            path_prefix: "data/sensitive".to_string(),
            permissions: PermSet::upload() | PermSet::download(),
        },
    ]);
    let id = identity("alice");
    // data/sensitive/x matches both grants; the longer one wins.
    let vpath = authz
        .check(&id, Op::Download, "data/sensitive/x")
        .unwrap();
    assert_eq!(vpath.as_str(), "data/sensitive/x");
    // data/x only matches the broader grant (upload only).
    let vpath = authz.check(&id, Op::Upload, "data/x").unwrap();
    assert_eq!(vpath.as_str(), "data/x");
    assert!(matches!(
        authz.check(&id, Op::Download, "data/x"),
        Err(VelcruxError::Protocol(_))
    ));
}

#[test]
fn whole_root_grant() {
    let authz = FileAuthorizer::from_grants(vec![Grant {
        identity: "ops".to_string(),
        path_prefix: "/".to_string(),
        permissions: PermSet::upload() | PermSet::download() | PermSet::list(),
    }]);
    let id = identity("ops");
    let vpath = authz.check(&id, Op::Upload, "anything/here").unwrap();
    assert_eq!(vpath.as_str(), "anything/here");
    let vpath = authz.check(&id, Op::List, "foo/bar").unwrap();
    assert_eq!(vpath.as_str(), "foo/bar");
}

#[test]
fn cross_identity_isolation() {
    let authz = FileAuthorizer::from_grants(vec![Grant {
        identity: "alice".to_string(),
        path_prefix: "data".to_string(),
        permissions: PermSet::upload(),
    }]);
    let alice = identity("alice");
    let bob = identity("bob");
    assert!(authz.check(&alice, Op::Upload, "data/file").is_ok());
    assert!(matches!(
        authz.check(&bob, Op::Upload, "data/file"),
        Err(VelcruxError::Protocol(_))
    ));
}

#[test]
fn component_boundary_matching() {
    let authz = FileAuthorizer::from_grants(vec![Grant {
        identity: "alice".to_string(),
        path_prefix: "data/customerA".to_string(),
        permissions: PermSet::upload(),
    }]);
    let id = identity("alice");
    // Exact match works.
    assert!(authz
        .check(&id, Op::Upload, "data/customerA")
        .is_ok());
    assert!(authz
        .check(&id, Op::Upload, "data/customerA/file")
        .is_ok());
    // data/customerA does NOT match data/customerAB/... (component boundary).
    assert!(matches!(
        authz.check(&id, Op::Upload, "data/customerAB/file"),
        Err(VelcruxError::Protocol(_))
    ));
}

#[test]
fn path_validation_rejects_traversal() {
    let authz = FileAuthorizer::from_grants(vec![Grant {
        identity: "alice".to_string(),
        path_prefix: "data".to_string(),
        permissions: PermSet::upload(),
    }]);
    let id = identity("alice");
    // Even though the grant covers "data", traversal is rejected before grant lookup.
    assert!(matches!(
        authz.check(&id, Op::Upload, "../etc/passwd"),
        Err(VelcruxError::Protocol(_))
    ));
    assert!(matches!(
        authz.check(&id, Op::Upload, "data/../../etc/passwd"),
        Err(VelcruxError::Protocol(_))
    ));
}

#[test]
fn path_validation_rejects_absolute() {
    let authz = FileAuthorizer::from_grants(vec![Grant {
        identity: "alice".to_string(),
        path_prefix: "data".to_string(),
        permissions: PermSet::upload(),
    }]);
    let id = identity("alice");
    assert!(matches!(
        authz.check(&id, Op::Upload, "/etc/passwd"),
        Err(VelcruxError::Protocol(_))
    ));
}

#[test]
fn granted_permissions_union() {
    let authz = FileAuthorizer::from_grants(vec![
        Grant {
            identity: "alice".to_string(),
            path_prefix: "data".to_string(),
            permissions: PermSet::upload(),
        },
        Grant {
            identity: "alice".to_string(),
            path_prefix: "logs".to_string(),
            permissions: PermSet::download() | PermSet::list(),
        },
    ]);
    let id = identity("alice");
    let perms = authz.granted_permissions(&id);
    assert!(perms.has(PermSet::upload()));
    assert!(perms.has(PermSet::download()));
    assert!(perms.has(PermSet::list()));
    assert!(!perms.has(PermSet::delete()));
    assert!(!perms.has(PermSet::admin()));
}

#[test]
fn granted_permissions_empty_unknown() {
    let authz = FileAuthorizer::from_grants(vec![Grant {
        identity: "alice".to_string(),
        path_prefix: "data".to_string(),
        permissions: PermSet::upload(),
    }]);
    let id = identity("bob");
    assert_eq!(authz.granted_permissions(&id).0, 0);
}

/// The grants of a configuration in TOML.
fn grants_of(raw: &str) -> Vec<GrantToml> {
    let table: toml::Table = raw.parse().unwrap();
    table["grant"]
        .as_array()
        .unwrap()
        .iter()
        .map(|g| GrantToml {
            identity: g["identity"].as_str().unwrap().to_string(),
            path: g["path"].as_str().unwrap().to_string(),
            permissions: g["permissions"]
                .as_array()
                .unwrap()
                .iter()
                .map(|p| p.as_str().unwrap().to_string())
                .collect(),
        })
        .collect()
}

#[test]
fn toml_unknown_permission_fails() {
    let toml_str = r#"
[[grant]]
identity = "alice"
path = "data"
permissions = ["upload", "bogus"]
"#;
    let result = FileAuthorizer::from_config(grants_of(toml_str));
    assert!(matches!(result, Err(VelcruxError::Config(_))));
}

#[test]
fn toml_invalid_grant_path_fails() {
    let toml_str = r#"
[[grant]]
identity = "alice"
path = "../escape"
permissions = ["upload"]
"#;
    let result = FileAuthorizer::from_config(grants_of(toml_str));
    assert!(matches!(result, Err(VelcruxError::Config(_))));
}

#[test]
fn toml_grants_are_read() {
    let toml_str = r#"
[[grant]]
identity = "alice"
path = "/data/"
permissions = ["upload", "list"]

[[grant]]
identity = "ops"
path = "/"
permissions = ["admin"]
"#;
    let authz = FileAuthorizer::from_config(grants_of(toml_str)).unwrap();
    assert!(authz.check(&identity("alice"), Op::Upload, "data/x").is_ok());
    assert!(authz.check(&identity("alice"), Op::Download, "data/x").is_err());
    assert!(authz.check(&identity("ops"), Op::Admin, "anything").is_ok());
    assert_eq!(
        authz.granted_permissions(&identity("alice")).0,
        (PermSet::upload() | PermSet::list()).0
    );
}

#[test]
fn of_two_equally_specific_grants_the_first_decides() {
    let grant = |permissions: PermSet| Grant {
        identity: "alice".to_string(),
        path_prefix: "data".to_string(),
        permissions,
    };
    let authz = FileAuthorizer::from_grants(vec![grant(PermSet::upload()), grant(PermSet::list())]);
    assert!(authz.check(&identity("alice"), Op::Upload, "data/x").is_ok());
    assert!(authz.check(&identity("alice"), Op::List, "data/x").is_err());
}

#[test]
fn mtls_authenticator_passes_through() {
    let auth = MtlsAuthenticator::new();
    let id = identity("test-user");
    let verified = auth.authenticate(&id).unwrap();
    assert_eq!(verified.name, "test-user");
}
