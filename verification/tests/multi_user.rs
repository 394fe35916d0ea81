//! Several players in one world.

use foglet_game::roles::FogletRole;
use foglet_game::test_support::multi_user::{MultiUserHarness, MultiUserHarnessError};

#[test]
fn builder_creates_one_shared_world_db_and_per_user_save_roots() {
    let harness = MultiUserHarness::builder()
        .add_user("alice", FogletRole::User)
        .add_user("bob", FogletRole::Mod)
        .build("/tmp/harness")
        .expect("harness builds");

    assert!(harness.world_db_path().ends_with("world/world.sqlite"));
    assert_eq!(
        harness.world_db_path_for("alice"),
        harness.world_db_path_for("bob"),
        "all users share one world DB path"
    );
    assert_ne!(
        harness.save_root_for("alice"),
        harness.save_root_for("bob"),
        "each user gets an isolated save root"
    );
    assert_eq!(harness.save_root_for("alice"), Some("/tmp/harness/saves/alice"));
    assert_eq!(harness.world_db_path(), "/tmp/harness/world/world.sqlite");
    assert_eq!(harness.save_root_for("carol"), None);
    assert_eq!(harness.world_db_path_for("carol"), None);
    assert!(harness.foglet_for("carol").is_none());
}

#[test]
fn builder_rejects_duplicate_handles() {
    let error = MultiUserHarness::builder()
        .add_user("alice", FogletRole::User)
        .add_user("alice", FogletRole::Mod)
        .build("/tmp/harness")
        .expect_err("duplicate handles should fail");

    match error {
        MultiUserHarnessError::DuplicateHandle { handle } => {
            assert_eq!(handle, "alice");
        }
        other => panic!("expected duplicate handle error, got {other:?}"),
    }
}

#[test]
fn a_harness_needs_a_user() {
    let error = MultiUserHarness::builder().build("/tmp/harness").unwrap_err();
    assert_eq!(error, MultiUserHarnessError::NoUsers);
    assert_eq!(error.message(), "multi-user harness requires at least one user");
}

#[test]
fn contexts_name_their_user() {
    let harness = MultiUserHarness::builder()
        .add_user("bob", FogletRole::Mod)
        .build("/tmp/harness")
        .expect("harness builds");
    let bob = harness.foglet_for("bob").expect("bob");
    assert_eq!(bob.door_id, "multi-user-harness");
    assert_eq!(bob.user_id.as_deref(), Some("harness:bob"));
    assert_eq!(bob.username.as_deref(), Some("bob"));
    assert_eq!(bob.role.as_deref(), Some("mod"));
    assert_eq!(bob.session_id.as_deref(), Some("session:bob"));
    assert_eq!((bob.terminal_width, bob.terminal_height), (80, 24));
    assert_eq!(bob.security_level(), 90);
    assert_eq!(harness.config().game.slug, "multi-user-harness");
    assert!(harness.config().world.enabled);
}

#[test]
fn a_plan_holds_the_users_before_the_first_duplicate() {
    let plan = MultiUserHarness::builder()
        .add_user("alice", FogletRole::User)
        .add_user("bob", FogletRole::User)
        .add_user("alice", FogletRole::Mod)
        .add_user("carol", FogletRole::User)
        .plan("/tmp/harness")
        .expect("a plan");
    let handles: Vec<&str> = plan.harness.users().iter().map(|u| u.handle.as_str()).collect();
    assert_eq!(handles, vec!["alice", "bob"]);
    assert_eq!(plan.refused.as_deref(), Some("alice"));
    assert_eq!(
        plan.finish().unwrap_err(),
        MultiUserHarnessError::DuplicateHandle { handle: "alice".to_string() }
    );
}

#[test]
fn harness_errors_say_what_failed() {
    let cases = [
        (
            MultiUserHarnessError::DuplicateHandle { handle: "a".into() },
            "duplicate harness user handle `a`",
        ),
        (
            MultiUserHarnessError::TempDir { source: "full".into() },
            "failed to create multi-user harness temp directory: full",
        ),
        (
            MultiUserHarnessError::SaveRoot {
                handle: "a".into(),
                path: "/x".into(),
                source: "denied".into(),
            },
            "failed to create save root for `a` at /x: denied",
        ),
        (
            MultiUserHarnessError::WorldDb { source: "locked".into() },
            "failed to open harness world DB: locked",
        ),
    ];
    for (error, text) in cases {
        assert_eq!(error.message(), text);
    }
}
