use ddb::test_fixture::interpolate_raw;

fn pairs(items: &[(&str, &str)]) -> Vec<(String, String)> {
    items.iter().map(|(k, v)| (k.to_string(), v.to_string())).collect()
}

#[test]
fn test_fixture_interpolation_string_fields() {
    let map = pairs(&[
        ("{{fixtures.test_user.name}}", "testuser"),
        ("{{fixtures.oscar.name}}", "Oscar Kockum"),
    ]);
    let yaml = r#"
id: TEST-2
name: "test string interpolation"
steps:
  - assert: element_exists
    target: {content_fuzzy: "{{fixtures.test_user.name}}"}
"#;
    let interpolated = interpolate_raw(yaml, &map);
    assert!(interpolated.contains("testuser"), "name should be interpolated");
}

#[test]
fn test_interpolate_raw_no_fixtures() {
    let map: Vec<(String, String)> = Vec::new();
    let input = "user_id: 31255\nname: literal";
    let result = interpolate_raw(input, &map);
    assert_eq!(result, input, "no-op when no fixtures match");
}

#[test]
fn test_fixture_interpolation_missing_key_passthrough() {
    let map = pairs(&[("{{fixtures.test_user.name}}", "testuser")]);
    let input = "name: {{fixtures.nonexistent.field}}";
    let result = interpolate_raw(input, &map);
    assert_eq!(result, input, "missing key should pass through unchanged");
}

#[test]
fn integer_values_drop_their_quotes() {
    let map = pairs(&[("{{fixtures.u.id}}", "158926"), ("{{fixtures.u.name}}", "Oscar")]);
    let out = interpolate_raw(
        "a: \"{{fixtures.u.id}}\"\nb: \"{{fixtures.u.name}}\"\nc: {{fixtures.u.id}}",
        &map,
    );
    assert_eq!(out, "a: 158926\nb: \"Oscar\"\nc: 158926");
}

#[test]
fn later_entries_see_earlier_replacements() {
    let map = pairs(&[("{{a}}", "{{b}}"), ("{{b}}", "x")]);
    assert_eq!(interpolate_raw("{{a}} {{b}}", &map), "x x");
    let rev = pairs(&[("{{b}}", "x"), ("{{a}}", "{{b}}")]);
    assert_eq!(interpolate_raw("{{a}} {{b}}", &rev), "{{b}} x");
}

use ddb::test_fixture::{flatten_fixtures, FixtureResolver, FixtureValue};

fn obj(entries: Vec<(&str, FixtureValue)>) -> FixtureValue {
    FixtureValue::Object(entries.into_iter().map(|(k, v)| (k.to_string(), v)).collect())
}

fn text(s: &str) -> FixtureValue {
    FixtureValue::Str(s.to_string())
}

fn num(s: &str) -> FixtureValue {
    FixtureValue::Number(s.to_string())
}

fn lookup<'a>(m: &'a [(String, String)], k: &str) -> Option<&'a String> {
    m.iter().find(|(a, _)| a == k).map(|(_, v)| v)
}

#[test]
fn test_flatten_fixtures() {
    // test_user: {id: 158926, name: "testuser"}, oscar: {id: 14, name: "Oscar Kockum"}
    let val = obj(vec![
        ("oscar", obj(vec![("id", num("14")), ("name", text("Oscar Kockum"))])),
        ("test_user", obj(vec![("id", num("158926")), ("name", text("testuser"))])),
    ]);
    let mut map: Vec<(String, String)> = Vec::new();
    flatten_fixtures("fixtures", &val, &mut map);

    assert_eq!(lookup(&map, "{{fixtures.test_user.id}}"), Some(&"158926".to_string()));
    assert_eq!(lookup(&map, "{{fixtures.test_user.name}}"), Some(&"testuser".to_string()));
    assert_eq!(lookup(&map, "{{fixtures.oscar.id}}"), Some(&"14".to_string()));
}

#[test]
fn flatten_keeps_booleans_and_replaces_repeated_paths() {
    let val = obj(vec![
        ("a", obj(vec![("b", FixtureValue::Bool(true))])),
        ("a.b", text("later")),
        ("n", FixtureValue::Other),
    ]);
    let mut map: Vec<(String, String)> = vec![("{{x.a.b}}".to_string(), "old".to_string())];
    flatten_fixtures("x", &val, &mut map);
    assert_eq!(map, vec![("{{x.a.b}}".to_string(), "later".to_string())]);
    let mut m2: Vec<(String, String)> = Vec::new();
    flatten_fixtures("x", &obj(vec![("a", obj(vec![("b", FixtureValue::Bool(false))]))]), &mut m2);
    assert_eq!(m2, vec![("{{x.a.b}}".to_string(), "false".to_string())]);
}

#[test]
fn test_resolver_file_fixtures() {
    let map = pairs(&[("{{fixtures.user.name}}", "Oscar")]);
    let resolver = FixtureResolver::new(map);
    assert_eq!(resolver.resolve("hello {{fixtures.user.name}}"), "hello Oscar");
}

#[test]
fn test_resolver_api_overrides_file() {
    let map = pairs(&[("{{api_result.token}}", "file_token")]);
    let mut resolver = FixtureResolver::new(map);
    resolver.add_api_response("api_result", obj(vec![("token", text("api_token"))]));
    let result = resolver.resolve("auth: {{api_result.token}}");
    assert_eq!(result, "auth: api_token");
}

#[test]
fn test_resolver_missing_key_passthrough() {
    let resolver = FixtureResolver::new(Vec::new());
    assert_eq!(resolver.resolve("{{unknown.key}}"), "{{unknown.key}}");
}

#[test]
fn test_fixture_precedence_api_over_file() {
    let file_fixtures = pairs(&[("{{fixtures.key}}", "file_value")]);
    let mut ctx = FixtureResolver::new(file_fixtures);
    ctx.add_api_response("api_result", obj(vec![("key", text("api_value"))]));

    let file_result = ctx.resolve("{{fixtures.key}}");
    assert_eq!(file_result, "file_value");

    let api_result = ctx.resolve("{{api_result.key}}");
    assert_eq!(api_result, "api_value");
}

#[test]
fn resolver_timestamp_and_lookups() {
    let mut r = FixtureResolver::new(pairs(&[("{{f.n}}", "7")]));
    assert_eq!(r.resolve_at("t={{timestamp}} n=\"{{f.n}}\"", 1700000000123), "t=1700000000123 n=7");
    r.add_api_response("login", obj(vec![("user", obj(vec![("id", num("42")), ("ok", FixtureValue::Bool(true))]))]));
    assert_eq!(r.resolve_at("{{login.user.id}} {{login.user.ok}}", 0), "42 {{login.user.ok}}");
    r.add_api_response("login", text("replaced"));
    assert!(matches!(r.get_var("login"), Some(FixtureValue::Str(s)) if s == "replaced"));
    assert!(r.get_var("other").is_none());
    assert_eq!(r.file_fixtures().len(), 1);
    let stamped = r.resolve("{{timestamp}}");
    assert!(!stamped.is_empty() && stamped.chars().all(|c| c.is_ascii_digit()));
}
