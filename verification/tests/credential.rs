use credprobe::credential::{parse_wordlist, ConfigError, Credential};

fn lines(items: &[&str]) -> Vec<String> {
    items.iter().map(|s| s.to_string()).collect()
}

fn pair(line: &str) -> Option<(String, String)> {
    Credential::parse(line).map(|c| (c.username, c.password))
}

#[test]
fn a_line_is_split_at_its_colon() {
    assert_eq!(pair("root:toor"), Some(("root".to_string(), "toor".to_string())));
}

#[test]
fn a_line_without_colon_is_no_credential() {
    assert!(Credential::parse("nouserpass").is_none());
    assert!(Credential::parse("").is_none());
    assert!(Credential::parse("user pass").is_none());
}

#[test]
fn empty_fields_are_allowed() {
    assert_eq!(pair(":"), Some((String::new(), String::new())));
    assert_eq!(pair("admin:"), Some(("admin".to_string(), String::new())));
    assert_eq!(pair(":secret"), Some((String::new(), "secret".to_string())));
}

#[test]
fn the_password_ends_at_a_second_colon() {
    assert_eq!(pair("a:b:c"), Some(("a".to_string(), "b".to_string())));
    assert_eq!(pair("a::c"), Some(("a".to_string(), String::new())));
    assert_eq!(pair("u:p:"), Some(("u".to_string(), "p".to_string())));
}

#[test]
fn characters_outside_ascii_are_kept() {
    assert_eq!(pair("jürgen:pässwörd"), Some(("jürgen".to_string(), "pässwörd".to_string())));
    assert_eq!(pair("用户:密码:x"), Some(("用户".to_string(), "密码".to_string())));
}

#[test]
fn spaces_belong_to_the_fields() {
    assert_eq!(pair(" u : p "), Some((" u ".to_string(), " p ".to_string())));
}

#[test]
fn a_word_list_is_read_line_by_line() {
    let parsed = parse_wordlist(&lines(&["u1:p1", "u2:p2", "u3:p3"])).unwrap();
    let pairs: Vec<(String, String)> =
        parsed.into_iter().map(|c| (c.username, c.password)).collect();
    assert_eq!(
        pairs,
        vec![
            ("u1".to_string(), "p1".to_string()),
            ("u2".to_string(), "p2".to_string()),
            ("u3".to_string(), "p3".to_string()),
        ]
    );
}

#[test]
fn an_empty_word_list_holds_no_credential() {
    let parsed = parse_wordlist(&Vec::new()).unwrap();
    assert!(parsed.is_empty());
}

#[test]
fn a_malformed_line_rejects_the_word_list() {
    let parsed = parse_wordlist(&lines(&["nouserpass"]));
    assert_eq!(parsed.err(), Some(ConfigError::MalformedCredential { line: 0 }));
}

#[test]
fn the_first_malformed_line_is_reported() {
    let parsed = parse_wordlist(&lines(&["a:b", "c:d", "oops", "e:f", "again"]));
    assert_eq!(parsed.err(), Some(ConfigError::MalformedCredential { line: 2 }));
}

#[test]
fn an_empty_line_is_malformed() {
    let parsed = parse_wordlist(&lines(&["a:b", ""]));
    assert_eq!(parsed.err(), Some(ConfigError::MalformedCredential { line: 1 }));
}

#[test]
fn a_cloned_credential_is_the_same_credential() {
    let credential = Credential { username: "u".to_string(), password: "p".to_string() };
    let copy = credential.clone();
    assert_eq!(copy.username, "u");
    assert_eq!(copy.password, "p");
}
