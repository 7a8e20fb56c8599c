use riff::detect::{contains_name, detect_language, known_languages};
use riff::dev_env::DetectedLanguage;
use riff::flake::{declaration, inputs_text, library_path, library_path_declaration, variables_text};
use riff::language_set::LanguageSet;
use riff::name_set::NameSet;
use riff::registry::DependencyRegistry;
use riff::rule::OverrideRule;
use riff::text::{compare_text, Rank};
use riff::text_map::TextMap;

fn names(items: &[&str]) -> Vec<String> {
    items.iter().map(|s| s.to_string()).collect()
}

#[test]
fn texts_compare_by_code_point() {
    assert_eq!(compare_text("", ""), Rank::Same);
    assert_eq!(compare_text("", "a"), Rank::Before);
    assert_eq!(compare_text("a", ""), Rank::After);
    assert_eq!(compare_text("abc", "abc"), Rank::Same);
    assert_eq!(compare_text("abc", "abd"), Rank::Before);
    assert_eq!(compare_text("ab", "abc"), Rank::Before);
    assert_eq!(compare_text("b", "abc"), Rank::After);
    assert_eq!(compare_text("Z", "a"), Rank::Before);
    assert_eq!(compare_text("\u{e9}", "z"), Rank::After);
    assert_eq!(compare_text("\u{1f980}", "\u{ffff}"), Rank::After);
}

#[test]
fn text_order_agrees_with_the_order_of_strings() {
    let samples = ["", "a", "A", "ab", "b", "libGL", "nix", "\u{e9}", "\u{1f980}", "z\u{7f}"];
    for a in samples {
        for b in samples {
            let expected = match a.cmp(b) {
                std::cmp::Ordering::Less => Rank::Before,
                std::cmp::Ordering::Equal => Rank::Same,
                std::cmp::Ordering::Greater => Rank::After,
            };
            assert_eq!(compare_text(a, b), expected, "{a:?} against {b:?}");
        }
    }
}

#[test]
fn name_set_sorts_and_forgets_repetition() {
    let mut set = NameSet::new();
    assert!(set.is_empty());
    assert!(set.insert("nix".to_string()));
    assert!(set.insert("cargo".to_string()));
    assert!(!set.insert("nix".to_string()));
    assert!(set.insert("libGL".to_string()));
    assert!(!set.is_empty());
    assert_eq!(set.len(), 3);
    assert!(set.contains("cargo"));
    assert!(!set.contains("carg"));
    assert_eq!(set.name_at(0), "cargo");
    assert_eq!(set.name_at(2), "nix");
    assert_eq!(set.to_vec(), names(&["cargo", "libGL", "nix"]));
}

#[test]
fn name_set_from_vec_and_extend() {
    let mut set = NameSet::from_vec(names(&["b", "a", "b", "c"]));
    assert_eq!(set.to_vec(), names(&["a", "b", "c"]));
    set.extend(&NameSet::from_vec(names(&["d", "a", "0"])));
    assert_eq!(set.to_vec(), names(&["0", "a", "b", "c", "d"]));
    set.extend(&NameSet::new());
    assert_eq!(set.len(), 5);
}

#[test]
fn text_map_keeps_the_last_value_of_a_key() {
    let mut map: TextMap<String> = TextMap::new();
    assert!(map.is_empty());
    map.insert("b".to_string(), "1".to_string());
    map.insert("a".to_string(), "2".to_string());
    map.insert("b".to_string(), "3".to_string());
    assert_eq!(map.len(), 2);
    assert_eq!(map.get("b"), Some(&"3".to_string()));
    assert_eq!(map.get("a"), Some(&"2".to_string()));
    assert_eq!(map.get("c"), None);
    assert!(map.contains_key("a"));
    assert!(!map.contains_key(""));
    assert_eq!(map.key_at(0), "a");
    assert_eq!(map.value_at(0), "2");
    assert_eq!(map.key_at(1), "b");
    assert_eq!(map.value_at(1), "3");
}

#[test]
fn text_map_from_vec_and_extend() {
    let mut map = TextMap::from_vec(vec![
        ("k".to_string(), "old".to_string()),
        ("j".to_string(), "x".to_string()),
        ("k".to_string(), "new".to_string()),
    ]);
    assert_eq!(map.len(), 2);
    assert_eq!(map.get("k"), Some(&"new".to_string()));
    let other = TextMap::from_vec(vec![
        ("j".to_string(), "y".to_string()),
        ("l".to_string(), "z".to_string()),
    ]);
    map.extend(&other);
    assert_eq!(map.len(), 3);
    assert_eq!(map.get("j"), Some(&"y".to_string()));
    assert_eq!(map.get("k"), Some(&"new".to_string()));
    assert_eq!(map.get("l"), Some(&"z".to_string()));
    let copy = map.clone();
    assert_eq!(copy.len(), 3);
    assert_eq!(copy.get("l"), Some(&"z".to_string()));
}

#[test]
fn language_set_holds_each_language_once() {
    let mut set = LanguageSet::new();
    assert!(!set.contains(DetectedLanguage::Rust));
    assert!(set.insert(DetectedLanguage::Rust));
    assert!(!set.insert(DetectedLanguage::Rust));
    assert_eq!(set.len(), 1);
    assert_eq!(set.clone().to_vec(), vec![DetectedLanguage::Rust]);
}

#[test]
fn registry_answers_defaults_and_lookups() {
    let mut registry = DependencyRegistry::new(true);
    assert!(registry.offline());
    assert!(registry.defaults(DetectedLanguage::Rust).build_inputs.is_empty());
    assert!(registry.lookup(DetectedLanguage::Rust, "openssl-sys").is_none());
    registry.set_defaults(
        DetectedLanguage::Rust,
        OverrideRule::new(names(&["cargo"]), Vec::new(), Vec::new()),
    );
    registry.insert(
        DetectedLanguage::Rust,
        "openssl-sys".to_string(),
        OverrideRule::new(names(&["openssl"]), Vec::new(), Vec::new()),
    );
    registry.insert(
        DetectedLanguage::Rust,
        "openssl-sys".to_string(),
        OverrideRule::new(names(&["openssl", "pkg-config"]), Vec::new(), Vec::new()),
    );
    assert_eq!(registry.defaults(DetectedLanguage::Rust).build_inputs.to_vec(), names(&["cargo"]));
    let found = registry.lookup(DetectedLanguage::Rust, "openssl-sys").expect("the rule is there");
    assert_eq!(found.build_inputs.to_vec(), names(&["openssl", "pkg-config"]));
    assert!(registry.lookup(DetectedLanguage::Rust, "openssl").is_none());
    assert!(registry.offline());
}

#[test]
fn empty_rule_implies_nothing() {
    let rule = OverrideRule::empty();
    assert!(rule.build_inputs.is_empty());
    assert!(rule.runtime_inputs.is_empty());
    assert!(rule.environment_variables.is_empty());
}

#[test]
fn detection_looks_for_the_marker() {
    assert_eq!(known_languages(), vec![DetectedLanguage::Rust]);
    assert_eq!(DetectedLanguage::Rust.marker_file(), "Cargo.toml");
    assert_eq!(detect_language(&names(&["Cargo.toml"])), Some(DetectedLanguage::Rust));
    assert_eq!(detect_language(&names(&["src", "Cargo.toml", "x"])), Some(DetectedLanguage::Rust));
    assert_eq!(detect_language(&names(&["Cargo.lock", "cargo.toml", "Cargo.toml.bak"])), None);
    assert_eq!(detect_language(&Vec::new()), None);
    assert!(contains_name(&names(&["a", "b"]), "b"));
    assert!(!contains_name(&names(&["a", "b"]), "c"));
}

#[test]
fn pieces_of_the_flake() {
    assert_eq!(declaration("HI", "BYE"), "\"HI\" = \"BYE\";");
    assert_eq!(library_path("libGL"), "${lib.getLib libGL}/lib");
    assert_eq!(library_path_declaration(&NameSet::new()), "");
    assert_eq!(
        library_path_declaration(&NameSet::from_vec(names(&["nix", "libGL"]))),
        "\"LD_LIBRARY_PATH\" = \"${lib.getLib libGL}/lib:${lib.getLib nix}/lib\";"
    );
    assert_eq!(
        inputs_text(&NameSet::from_vec(names(&["hello", "cargo"])), &NameSet::from_vec(names(&["cargo", "alsa"]))),
        "alsa cargo hello"
    );
    assert_eq!(inputs_text(&NameSet::new(), &NameSet::new()), "");
    assert_eq!(inputs_text(&NameSet::from_vec(names(&["one"])), &NameSet::new()), "one");
    let variables = TextMap::from_vec(vec![
        ("B".to_string(), "2".to_string()),
        ("A".to_string(), "1".to_string()),
    ]);
    assert_eq!(variables_text(&variables), "\"A\" = \"1\";\n\"B\" = \"2\";");
    assert_eq!(variables_text(&TextMap::new()), "");
}

#[test]
fn copies_hold_the_same() {
    let set = NameSet::from_vec(names(&["b", "a"]));
    assert_eq!(set.clone().to_vec(), names(&["a", "b"]));
    let rule = OverrideRule::new(
        names(&["cargo"]),
        names(&["libGL"]),
        vec![("K".to_string(), "v".to_string())],
    );
    let copy = rule.clone();
    assert_eq!(copy.build_inputs.to_vec(), names(&["cargo"]));
    assert_eq!(copy.runtime_inputs.to_vec(), names(&["libGL"]));
    assert_eq!(copy.environment_variables.get("K"), Some(&"v".to_string()));
    let mut registry = DependencyRegistry::new(false);
    registry.insert(DetectedLanguage::Rust, "x".to_string(), rule);
    let twin = registry.clone();
    assert!(!twin.offline());
    let found = twin.lookup(DetectedLanguage::Rust, "x").expect("the rule is there");
    assert_eq!(found.build_inputs.to_vec(), names(&["cargo"]));
}
