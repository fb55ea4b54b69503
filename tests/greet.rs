use helloworld::greeter::{get_random_key, greet, greet_with_draw, greeting_for_code};
use helloworld::table::{greeting_entries, lookup, table_codes};

fn is_table_text(text: &str) -> bool {
    greeting_entries().iter().any(|&(_, t)| t == text)
}

#[test]
fn test_greet_known_languages() {
    assert_eq!(greet(Some("en".to_string())), "Hello, world!");
    assert_eq!(greet(Some("fr".to_string())), "Bonjour, le monde!");
    assert_eq!(greet(Some("he".to_string())), "שלום, עולם!");
}

#[test]
fn test_greet_unknown_language() {
    assert_eq!(greet(Some("zz".to_string())), "Unknown language code.");
}

#[test]
fn test_greet_empty_or_none_defaults_to_valid_key() {
    let result = greet(None);
    assert!(
        is_table_text(&result),
        "Greeting should be one of the valid greetings"
    );

    let result = greet(Some("".to_string()));
    assert!(
        is_table_text(&result),
        "Greeting should be one of the valid greetings"
    );
}

#[test]
fn test_random_key_returns_valid_key() {
    let key = get_random_key();
    assert!(
        lookup(key).is_some(),
        "Random key should be from the GREETING keys"
    );
}

#[test]
fn every_code_of_the_table_greets_with_its_text() {
    for (code, text) in greeting_entries() {
        assert_eq!(greet(Some(code.to_string())), text);
        assert_eq!(greeting_for_code(code), text);
    }
}

#[test]
fn table_has_the_six_languages() {
    let entries = greeting_entries();
    assert_eq!(entries.len(), 6);
    assert_eq!(lookup("en"), Some("Hello, world!"));
    assert_eq!(lookup("el"), Some("Γειά σου, κόσμε!"));
    assert_eq!(lookup("gd"), Some("Halò, a shaoghail!"));
    assert_eq!(lookup("mk"), Some("Здраво, свету!"));
    assert_eq!(lookup("he"), Some("שלום, עולם!"));
    assert_eq!(lookup("fr"), Some("Bonjour, le monde!"));
}

#[test]
fn lookup_misses_unknown_and_near_codes() {
    assert_eq!(lookup("zz"), None);
    assert_eq!(lookup(""), None);
    assert_eq!(lookup("EN"), None);
    assert_eq!(lookup("e"), None);
    assert_eq!(lookup("enn"), None);
    assert_eq!(lookup("Hello, world!"), None);
}

#[test]
fn unknown_codes_give_the_fallback() {
    assert_eq!(greeting_for_code("zz"), "Unknown language code.");
    assert_eq!(greet(Some("EN".to_string())), "Unknown language code.");
    assert_eq!(greet(Some(" ".to_string())), "Unknown language code.");
}

#[test]
fn empty_code_behaves_as_no_code() {
    for _ in 0..100 {
        assert!(is_table_text(&greet(Some(String::new()))));
        assert!(is_table_text(&greet(None)));
    }
}

#[test]
fn random_key_stays_in_the_table_over_many_draws() {
    let codes: Vec<&str> = greeting_entries().iter().map(|&(c, _)| c).collect();
    for _ in 0..1000 {
        let key = get_random_key();
        assert!(codes.contains(&key));
    }
}

#[test]
fn greeting_a_known_code_is_stable() {
    let first = greet(Some("mk".to_string()));
    for _ in 0..50 {
        assert_eq!(greet(Some("mk".to_string())), first);
    }
    assert_eq!(first, "Здраво, свету!");
}

#[test]
fn table_codes_are_the_six_codes() {
    assert_eq!(table_codes(), vec!["en", "el", "gd", "mk", "he", "fr"]);
}

#[test]
fn random_key_reaches_more_than_one_code() {
    let first = get_random_key();
    let mut other = false;
    for _ in 0..1000 {
        if get_random_key() != first {
            other = true;
        }
    }
    assert!(other);
}

#[test]
fn empty_code_and_no_code_agree_for_each_draw() {
    for code in table_codes() {
        let with_empty = greet_with_draw(Some(String::new()), code);
        let without = greet_with_draw(None, code);
        assert_eq!(with_empty, without);
        assert_eq!(Some(with_empty.as_str()), lookup(code));
    }
    assert_eq!(greet_with_draw(None, "gd"), "Halò, a shaoghail!");
    assert_eq!(greet_with_draw(Some("fr".to_string()), "gd"), "Bonjour, le monde!");
    assert_eq!(greet_with_draw(Some("zz".to_string()), "gd"), "Unknown language code.");
}
