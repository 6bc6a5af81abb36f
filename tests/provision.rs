use color_bot::catalog::{ColorCatalog, ColorEntry};
use color_bot::provision::{roles_to_create, GuildProvisioning, ProvisionGuard};
use color_bot::{token_is_placeholder, Data};

fn catalog() -> ColorCatalog {
    let e = |n: &str, r: u8| ColorEntry { name: n.to_string(), red: r, green: 0, blue: 0 };
    ColorCatalog::new(vec![e("Red", 200), e("Green", 1), e("Blue", 2)]).unwrap()
}

fn names(v: &[&str]) -> Vec<String> {
    v.iter().map(|s| s.to_string()).collect()
}

#[test]
fn creates_only_missing_roles_in_order() {
    let r = roles_to_create(&catalog(), &names(&["Green", "Moderator"]));
    let got: Vec<&str> = r.iter().map(|e| e.name.as_str()).collect();
    assert_eq!(got, vec!["Red", "Blue"]);
    assert_eq!(r[0].red, 200);
}

#[test]
fn second_run_creates_nothing() {
    let c = catalog();
    let mut existing = names(&["everyone"]);
    let first = roles_to_create(&c, &existing);
    assert_eq!(first.len(), 3);
    existing.extend(first.iter().map(|e| e.name.clone()));
    assert!(roles_to_create(&c, &existing).is_empty());
}

#[test]
fn failure_abandons_the_guild() {
    let mut p = GuildProvisioning::start(&catalog(), &names(&[]));
    assert_eq!(p.next_role(), Some(0));
    p.record(true);
    assert_eq!(p.next_role(), Some(1));
    p.record(false);
    assert!(p.abandoned);
    assert_eq!(p.next_role(), None);
    assert_eq!(p.created, 1);
}

#[test]
fn complete_run_ends() {
    let mut p = GuildProvisioning::start(&catalog(), &names(&["Red"]));
    let mut made = vec![];
    while let Some(i) = p.next_role() {
        made.push(p.plan[i].name.clone());
        p.record(true);
    }
    assert_eq!(made, names(&["Green", "Blue"]));
}

#[test]
fn guard_claims_once() {
    let mut g = ProvisionGuard::new();
    assert!(g.claim());
    assert!(!g.claim());
    assert!(!g.claim());
}

#[test]
fn placeholder_token_is_detected() {
    let _d = Data {};
    assert!(token_is_placeholder(&"YOUR_BOT_TOKEN".to_string()));
    assert!(!token_is_placeholder(&"SECRET-REDACTED".to_string()));
    assert!(!token_is_placeholder(&"".to_string()));
}
