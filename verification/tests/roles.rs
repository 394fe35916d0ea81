//! Roles and security levels.

use foglet_game::foglet::{ContextSource, FogletContext};
use foglet_game::roles::{FogletRole, USER_SECURITY_LEVEL};

fn ctx_with_role(role: Option<&str>) -> FogletContext {
    FogletContext {
        door_id: "test-door".to_string(),
        user_id: None,
        username: None,
        role: role.map(str::to_string),
        session_id: None,
        terminal_width: 80,
        terminal_height: 24,
        source: ContextSource::ContextFile,
    }
}

#[test]
fn parse_canonical_tokens() {
    assert_eq!(FogletRole::parse("sysop"), FogletRole::Sysop);
    assert_eq!(FogletRole::parse("mod"), FogletRole::Mod);
    assert_eq!(FogletRole::parse("user"), FogletRole::User);
}

#[test]
fn parse_is_case_insensitive() {
    assert_eq!(FogletRole::parse("SYSOP"), FogletRole::Sysop);
    assert_eq!(FogletRole::parse("Sysop"), FogletRole::Sysop);
    assert_eq!(FogletRole::parse("sYsOp"), FogletRole::Sysop);
    assert_eq!(FogletRole::parse("MOD"), FogletRole::Mod);
    assert_eq!(FogletRole::parse("Mod"), FogletRole::Mod);
    assert_eq!(FogletRole::parse("USER"), FogletRole::User);
    assert_eq!(FogletRole::parse("User"), FogletRole::User);
}

#[test]
fn parse_trims_whitespace() {
    assert_eq!(FogletRole::parse("  sysop  "), FogletRole::Sysop);
    assert_eq!(FogletRole::parse("\nmod\t"), FogletRole::Mod);
}

#[test]
fn parse_unknown_role_preserves_original_string() {
    assert_eq!(
        FogletRole::parse("beta-tester"),
        FogletRole::Other("beta-tester".to_owned())
    );
    assert_eq!(
        FogletRole::parse("  Auditor  "),
        FogletRole::Other("Auditor".to_owned()),
        "case is preserved on unknown roles even though matching is case-insensitive"
    );
}

#[test]
fn parse_empty_or_whitespace_falls_back_to_user() {
    assert_eq!(FogletRole::parse(""), FogletRole::User);
    assert_eq!(FogletRole::parse("   "), FogletRole::User);
    assert_eq!(FogletRole::parse("\t\n"), FogletRole::User);
}

#[test]
fn security_level_mapping_matches_spec() {
    assert_eq!(FogletRole::Sysop.security_level(), 100);
    assert_eq!(FogletRole::Mod.security_level(), 90);
    assert_eq!(FogletRole::User.security_level(), 50);
}

#[test]
fn unknown_role_maps_to_user_security_level() {
    assert_eq!(
        FogletRole::Other("auditor".to_owned()).security_level(),
        USER_SECURITY_LEVEL
    );
}

#[test]
fn as_token_returns_canonical_spelling() {
    assert_eq!(FogletRole::Sysop.as_token(), "sysop");
    assert_eq!(FogletRole::Mod.as_token(), "mod");
    assert_eq!(FogletRole::User.as_token(), "user");
    assert_eq!(
        FogletRole::Other("beta-tester".to_owned()).as_token(),
        "beta-tester"
    );
}

#[test]
fn context_with_no_role_returns_user() {
    assert_eq!(ctx_with_role(None).foglet_role(), FogletRole::User);
    assert_eq!(ctx_with_role(None).security_level(), USER_SECURITY_LEVEL);
}

#[test]
fn context_security_level_uses_role_mapping() {
    assert_eq!(ctx_with_role(Some("sysop")).security_level(), 100);
    assert_eq!(ctx_with_role(Some("MOD")).security_level(), 90);
    assert_eq!(ctx_with_role(Some("user")).security_level(), 50);
    assert_eq!(
        ctx_with_role(Some("auditor")).security_level(),
        USER_SECURITY_LEVEL,
        "unknown role on context still maps to user-level"
    );
    assert_eq!(
        ctx_with_role(Some("")).security_level(),
        USER_SECURITY_LEVEL,
        "empty role on context maps to user-level"
    );
}
