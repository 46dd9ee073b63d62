use llm_gateway::auth::{parse_key_list, ApiKeyRole, AuthMiddleware};

fn auth() -> AuthMiddleware {
    AuthMiddleware::new(vec!["k1".to_string(), "both".to_string()], vec!["a1".to_string(), "both".to_string()])
}

#[test]
fn missing_token_is_refused() {
    assert!(auth().authenticate(None).is_none());
}

#[test]
fn user_and_admin_keys() {
    let a = auth();
    let u = a.authenticate(Some("Bearer k1")).unwrap();
    assert_eq!(u.key, "k1");
    assert_eq!(u.role, ApiKeyRole::User);
    let ad = a.authenticate(Some("Bearer a1")).unwrap();
    assert_eq!(ad.role, ApiKeyRole::Admin);
    let b = a.authenticate(Some("Bearer both")).unwrap();
    assert_eq!(b.role, ApiKeyRole::Admin);
}

#[test]
fn scheme_is_exact() {
    let a = auth();
    assert!(a.authenticate(Some("bearer k1")).is_none());
    assert!(a.authenticate(Some("Bearer  k1")).is_none());
    assert!(a.authenticate(Some("Bearer k1 ")).is_none());
    assert!(a.authenticate(Some("k1")).is_none());
    assert!(a.authenticate(Some("Bearer ")).is_none());
    assert!(a.authenticate(Some("Bearer zz")).is_none());
}

#[test]
fn key_lists_are_trimmed_and_filtered() {
    assert_eq!(parse_key_list(" a , b,,c ,\t"), vec!["a", "b", "c"]);
    assert_eq!(parse_key_list(""), Vec::<String>::new());
    assert_eq!(parse_key_list("secret-key"), vec!["secret-key"]);
    assert_eq!(parse_key_list("\u{a0}x\u{3000}"), vec!["x"]);
}

#[test]
fn transform_copies_keys() {
    let s = auth().new_transform(7u32);
    assert_eq!(s.service, 7);
    assert_eq!(s.auth.api_keys, vec!["k1", "both"]);
    assert!(s.auth.authenticate(Some("Bearer a1")).is_some());
}
