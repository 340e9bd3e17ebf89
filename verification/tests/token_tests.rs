use hyperforge::storage::token_storage::{OrgTokenStates, TokenState, TokenStatus, TokensFile};
use hyperforge::types::Forge;

#[test]
fn test_token_state_methods() {
    let valid = TokenState::valid(0);
    assert!(valid.is_valid());
    assert!(!valid.is_expired());
    assert!(!valid.is_missing());
    assert!(valid.error().is_none());

    let expired = TokenState::expired("test error".to_string(), 0);
    assert!(!expired.is_valid());
    assert!(expired.is_expired());
    assert!(!expired.is_missing());
    assert_eq!(expired.error(), Some("test error"));

    let missing = TokenState::missing(0);
    assert!(!missing.is_valid());
    assert!(!missing.is_expired());
    assert!(missing.is_missing());
    assert!(missing.error().is_none());
}

#[test]
fn marking_expired_reads_back_with_error() {
    let mut tokens = TokensFile::new();
    tokens.set_state("my-org", Forge::GitHub, TokenState::expired("401 Unauthorized".to_string(), 100));
    match tokens.status_of("my-org", Forge::GitHub) {
        TokenStatus::Expired { error } => assert_eq!(error, "401 Unauthorized"),
        other => panic!("unexpected {other:?}"),
    }
    assert_eq!(tokens.state_of("my-org", Forge::GitHub).unwrap().last_checked, 100);
}

#[test]
fn marking_valid_replaces_expired() {
    let mut tokens = TokensFile::new();
    tokens.set_state("my-org", Forge::GitHub, TokenState::expired("some error".to_string(), 1));
    tokens.set_state("my-org", Forge::GitHub, TokenState::valid(2));
    assert!(matches!(tokens.status_of("my-org", Forge::GitHub), TokenStatus::Valid));
    assert_eq!(tokens.org_tokens("my-org").entries.len(), 1);
}

#[test]
fn unknown_token_reads_missing() {
    let tokens = TokensFile::new();
    assert!(matches!(tokens.status_of("nobody", Forge::Codeberg), TokenStatus::Missing));
    assert!(tokens.state_of("nobody", Forge::Codeberg).is_none());
    assert!(tokens.org_tokens("nobody").is_empty());
}

#[test]
fn clearing_last_token_drops_org_entry() {
    let mut tokens = TokensFile::new();
    tokens.set_state("my-org", Forge::GitHub, TokenState::valid(1));
    tokens.set_state("my-org", Forge::Codeberg, TokenState::valid(1));
    tokens.clear_token("my-org", Forge::GitHub);
    assert!(tokens.contains_org("my-org"));
    assert!(matches!(tokens.status_of("my-org", Forge::GitHub), TokenStatus::Missing));
    assert!(matches!(tokens.status_of("my-org", Forge::Codeberg), TokenStatus::Valid));
    tokens.clear_token("my-org", Forge::Codeberg);
    assert!(!tokens.contains_org("my-org"));
}

#[test]
fn clearing_an_org_keeps_the_others() {
    let mut tokens = TokensFile::new();
    tokens.set_state("org1", Forge::GitHub, TokenState::valid(1));
    tokens.set_state("org2", Forge::GitLab, TokenState::missing(1));
    tokens.clear_org("org1");
    assert!(!tokens.contains_org("org1"));
    assert!(tokens.contains_org("org2"));
    assert!(tokens.org_tokens("org1").is_empty());
    let org2 = tokens.org_tokens("org2");
    assert!(org2.get(Forge::GitLab).unwrap().is_missing());
}

#[test]
fn org_states_insert_get_remove() {
    let mut states = OrgTokenStates::new();
    assert!(states.is_empty());
    states.insert(Forge::Codeberg, TokenState::valid(3));
    states.insert(Forge::Codeberg, TokenState::expired("x".to_string(), 4));
    assert_eq!(states.entries.len(), 1);
    assert!(states.get(Forge::Codeberg).unwrap().is_expired());
    states.remove(Forge::Codeberg);
    assert!(states.get(Forge::Codeberg).is_none());
    assert!(states.is_empty());
}
