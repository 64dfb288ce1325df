use k8s_node_server::oidc::{contexts_to_refresh, find_user, token_refresh_request, token_reply, KubeContext, KubeUser, OidcError};
use k8s_node_server::string_map::StringMap;

fn config(pairs: &[(&str, &str)]) -> StringMap {
    let mut m = StringMap::new();
    for (k, v) in pairs {
        m.insert(k.to_string(), v.to_string());
    }
    m
}

fn params(p: &[(String, String)]) -> Vec<(&str, &str)> {
    p.iter().map(|(k, v)| (k.as_str(), v.as_str())).collect()
}

#[test]
fn request_without_secret() {
    let c = config(&[("idp-issuer-url", "https://kc/realms/r"), ("client-id", "dash"), ("refresh-token", "rt")]);
    let req = token_refresh_request(&c).ok().expect("request");
    assert_eq!(req.url, "https://kc/realms/r/protocol/openid-connect/token");
    assert_eq!(
        params(&req.params),
        vec![("grant_type", "refresh_token"), ("client_id", "dash"), ("refresh_token", "rt")]
    );
}

#[test]
fn request_with_secret() {
    let c = config(&[
        ("idp-issuer-url", "https://kc"),
        ("client-id", "dash"),
        ("refresh-token", "rt"),
        ("client-secret", "SECRET-REDACTED"),
    ]);
    let req = token_refresh_request(&c).ok().expect("request");
    assert_eq!(req.params.len(), 4);
    assert_eq!(params(&req.params)[3], ("client_secret", "SECRET-REDACTED"));
}

#[test]
fn missing_settings_are_reported_in_order() {
    let e = token_refresh_request(&config(&[])).err().unwrap();
    assert!(matches!(e, OidcError::MissingIssuerUrl));
    assert_eq!(e.message(), "idp-issuer-url not found");
    let e = token_refresh_request(&config(&[("idp-issuer-url", "u"), ("refresh-token", "t")])).err().unwrap();
    assert!(matches!(e, OidcError::MissingClientId));
    assert_eq!(e.message(), "client-id not found");
    let e = token_refresh_request(&config(&[("idp-issuer-url", "u"), ("client-id", "c")])).err().unwrap();
    assert!(matches!(e, OidcError::MissingRefreshToken));
    assert_eq!(e.message(), "refresh-token not found");
}

#[test]
fn rejection_message() {
    assert_eq!(OidcError::Rejected("invalid_grant".to_string()).message(), "Failed to refresh token: invalid_grant");
}

fn ctx(name: &str, user: Option<&str>) -> KubeContext {
    KubeContext { name: name.to_string(), user: user.map(|s| s.to_string()) }
}

fn user(name: &str, provider: bool) -> KubeUser {
    KubeUser { name: name.to_string(), has_auth_provider: provider }
}

#[test]
fn contexts_with_oidc_users_are_refreshed() {
    let contexts = vec![ctx("a", Some("alice")), ctx("b", Some("bob")), ctx("c", None), ctx("d", Some("nobody")), ctx("e", Some("alice"))];
    let users = vec![user("bob", false), user("alice", true), user("alice", false)];
    assert_eq!(contexts_to_refresh(&contexts, &users), vec![(0, 1), (4, 1)]);
}

#[test]
fn first_user_with_the_name_is_used() {
    let users = vec![user("x", false), user("y", true), user("y", false)];
    assert_eq!(find_user(&users, &"y".to_string()), Some(1));
    assert_eq!(find_user(&users, &"z".to_string()), None);
    let contexts = vec![ctx("k", Some("x"))];
    let users = vec![user("x", false), user("x", true)];
    assert_eq!(contexts_to_refresh(&contexts, &users), vec![]);
}

#[test]
fn token_reply_decodes_on_success_and_rejects_otherwise() {
    let body = "{\"id_token\":\"abc\"}".to_string();
    assert!(matches!(token_reply(true, body.clone()), Ok(b) if b == body));
    match token_reply(false, "denied".to_string()) {
        Err(e) => {
            assert!(matches!(&e, OidcError::Rejected(b) if b == "denied"));
            assert_eq!(e.message(), "Failed to refresh token: denied");
        }
        Ok(_) => panic!("expected a refusal"),
    }
}
