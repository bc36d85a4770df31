use operoid::auth::{check_auth, AuthError, AuthProvider, Identity, TokenProvider};

#[test]
fn token_provider_four_cases() {
    let p = TokenProvider::new("s3cret");
    assert_eq!(p.check(None), Err(AuthError));
    assert_eq!(p.check(Some("Basic abc")), Err(AuthError));
    assert_eq!(p.check(Some("Bearer wrong")), Err(AuthError));
    assert!(p.check(Some("Bearer s3cret")).is_ok());
}

struct AlwaysOk;
impl AuthProvider for AlwaysOk {
    fn check(&self, _h: Option<&str>) -> Result<Identity, AuthError> {
        Ok(Identity { name: "stub".into() })
    }
}

#[test]
fn provider_is_swappable() {
    let providers: Vec<Box<dyn AuthProvider>> =
        vec![Box::new(TokenProvider::new("x")), Box::new(AlwaysOk)];
    let results: Vec<Result<Identity, AuthError>> = providers
        .iter()
        .map(|p| p.check(Some("Bearer anything")))
        .collect();
    assert_eq!(results[0], Err(AuthError));
    assert_eq!(results[1].as_ref().unwrap().name, "stub");
}

#[test]
fn auth_checks_bearer() {
    assert!(!check_auth(None, "s"));
    assert!(check_auth(Some("Bearer s"), "s"));
    assert!(!check_auth(Some("Bearer s"), "other"));
    assert!(!check_auth(Some("Bearer x"), "s"));
}

#[test]
fn bearer_token_is_trimmed_and_named_operator() {
    let p = TokenProvider::new("tok");
    let id = p.check(Some("Bearer   tok  ")).unwrap();
    assert_eq!(id.name, "operator");
    assert_eq!(p.check(Some("Bearer ")), Err(AuthError));
    assert_eq!(TokenProvider::new("").check(Some("Bearer ")), Err(AuthError));
    assert!(!check_auth(Some("Bearer "), ""));
}
