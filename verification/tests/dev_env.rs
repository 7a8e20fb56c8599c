use riff::dev_env::{resolve, DetectedLanguage, DevEnvironment};
use riff::error::ResolveError;
use riff::fetch::MetadataRequest;
use riff::language_set::LanguageSet;
use riff::name_set::NameSet;
use riff::registry::DependencyRegistry;
use riff::rule::{OverrideRule, PackageRecord};
use riff::text_map::TextMap;

fn strings(items: &[&str]) -> Vec<String> {
    items.iter().map(|s| s.to_string()).collect()
}

fn pairs(items: &[(&str, &str)]) -> Vec<(String, String)> {
    items.iter().map(|(k, v)| (k.to_string(), v.to_string())).collect()
}

fn rule(build: &[&str], runtime: &[&str], variables: &[(&str, &str)]) -> OverrideRule {
    OverrideRule::new(strings(build), strings(runtime), pairs(variables))
}

#[test]
fn dev_env_to_flake() {
    let registry = DependencyRegistry::new(true);
    let mut detected_languages = LanguageSet::new();
    detected_languages.insert(DetectedLanguage::Rust);
    let dev_env = DevEnvironment {
        build_inputs: NameSet::from_vec(strings(&["cargo", "hello"])),
        environment_variables: TextMap::from_vec(pairs(&[("HELLO", "WORLD"), ("GOODBYE", "WORLD")])),
        runtime_inputs: NameSet::from_vec(strings(&["nix", "libGL"])),
        detected_languages,
        registry: &registry,
    };

    let flake = dev_env.to_flake();
    println!("{}", &flake);
    assert!(
        flake.contains("buildInputs = [") && flake.contains("cargo") && flake.contains("hello")
    );
    assert!(flake.contains(r#""GOODBYE" = "WORLD""#));
    assert!(flake.contains(r#""HELLO" = "WORLD""#));
    assert!(
        flake.contains(r#""LD_LIBRARY_PATH" = "#)
            && flake.contains("${lib.getLib nix}/lib")
            && flake.contains("${lib.getLib libGL}/lib")
    );
}

#[test]
fn dev_env_detect_supported_project() {
    let registry = DependencyRegistry::new(true);
    let mut dev_env = DevEnvironment::new(&registry);
    let detect = dev_env.detect("/tmp/riff-test", &strings(&["lib.rs", "Cargo.toml"]));
    assert!(detect.is_ok(), "{detect:?}");
    let packages = vec![PackageRecord {
        name: "riff-test".to_string(),
        inline_override: Some(rule(&["hello"], &["libGL"], &[("HI", "BYE")])),
    }];
    dev_env.add_deps_from_cargo(&packages);

    assert!(dev_env.build_inputs.contains("hello"));
    assert_eq!(
        dev_env.environment_variables.get("HI"),
        Some(&String::from("BYE"))
    );
    assert!(dev_env.runtime_inputs.contains("libGL"));
}

#[test]
fn dev_env_detect_unsupported_project() {
    let registry = DependencyRegistry::new(true);
    let mut dev_env = DevEnvironment::new(&registry);
    let detect = dev_env.detect("/tmp/empty", &Vec::new());
    assert!(detect.is_err());
}

#[test]
fn new_environment_is_empty() {
    let registry = DependencyRegistry::new(false);
    let dev_env = DevEnvironment::new(&registry);
    assert_eq!(dev_env.build_inputs.len(), 0);
    assert_eq!(dev_env.runtime_inputs.len(), 0);
    assert_eq!(dev_env.environment_variables.len(), 0);
    assert_eq!(dev_env.detected_languages.len(), 0);
    assert!(!dev_env.registry.offline());
}

#[test]
fn detect_records_the_language_and_requests_metadata() {
    let registry = DependencyRegistry::new(true);
    let mut dev_env = DevEnvironment::new(&registry);
    let request = dev_env.detect("/work/project", &strings(&["README.md", "Cargo.toml"]));
    assert_eq!(
        request,
        Ok(MetadataRequest { language: DetectedLanguage::Rust, offline: true })
    );
    assert!(dev_env.detected_languages.contains(DetectedLanguage::Rust));
    assert_eq!(dev_env.detected_languages.to_vec(), vec![DetectedLanguage::Rust]);
}

#[test]
fn detect_failure_names_the_project_and_records_nothing() {
    let registry = DependencyRegistry::new(true);
    let mut dev_env = DevEnvironment::new(&registry);
    let request = dev_env.detect("/work/project", &strings(&["package.json", "cargo.toml"]));
    assert_eq!(
        request,
        Err(ResolveError::UnsupportedProject { path: "/work/project".to_string() })
    );
    assert_eq!(dev_env.detected_languages.len(), 0);
}

#[test]
fn packages_bring_registry_rules_and_their_own() {
    let mut registry = DependencyRegistry::new(false);
    registry.set_defaults(DetectedLanguage::Rust, rule(&["cargo", "rustfmt"], &[], &[]));
    registry.insert(
        DetectedLanguage::Rust,
        "openssl-sys".to_string(),
        rule(&["openssl"], &[], &[("OPENSSL_NO_VENDOR", "1")]),
    );
    let mut dev_env = DevEnvironment::new(&registry);
    let packages = vec![
        PackageRecord { name: "serde".to_string(), inline_override: None },
        PackageRecord {
            name: "openssl-sys".to_string(),
            inline_override: Some(rule(&["pkg-config"], &["openssl"], &[("OPENSSL_NO_VENDOR", "0")])),
        },
    ];
    dev_env.add_deps_from_cargo(&packages);
    assert_eq!(
        dev_env.build_inputs.to_vec(),
        strings(&["cargo", "openssl", "pkg-config", "rustfmt"])
    );
    assert_eq!(dev_env.runtime_inputs.to_vec(), strings(&["openssl"]));
    // The rule that the package declares is applied after the registry's.
    assert_eq!(
        dev_env.environment_variables.get("OPENSSL_NO_VENDOR"),
        Some(&"0".to_string())
    );
    assert_eq!(dev_env.environment_variables.len(), 1);
}

#[test]
fn end_to_end_scenario() {
    let mut registry = DependencyRegistry::new(false);
    registry.set_defaults(DetectedLanguage::Rust, rule(&["toolchain"], &[], &[]));
    let packages = vec![
        PackageRecord { name: "hello".to_string(), inline_override: None },
        PackageRecord {
            name: "world".to_string(),
            inline_override: Some(rule(&["extra-lib"], &["libfoo"], &[("FOO", "bar")])),
        },
    ];
    let dev_env = resolve(&registry, "/work/project", &strings(&["Cargo.toml"]), Ok(packages))
        .expect("a Rust project resolves");
    assert_eq!(dev_env.build_inputs.to_vec(), strings(&["extra-lib", "toolchain"]));
    assert_eq!(dev_env.runtime_inputs.to_vec(), strings(&["libfoo"]));
    assert_eq!(dev_env.environment_variables.len(), 1);
    assert_eq!(dev_env.environment_variables.get("FOO"), Some(&"bar".to_string()));
    assert_eq!(dev_env.detected_languages.to_vec(), vec![DetectedLanguage::Rust]);

    let flake = dev_env.to_flake();
    assert!(flake.contains("buildInputs = [ extra-lib libfoo toolchain ];"));
    assert_eq!(flake.matches("\"FOO\" = \"bar\";").count(), 1);
    assert!(flake.contains("\"LD_LIBRARY_PATH\" = \"${lib.getLib libfoo}/lib\";"));
}

#[test]
fn resolve_fails_fast() {
    let registry = DependencyRegistry::new(false);
    let failure = ResolveError::ToolFailed { code: Some(101), stderr: b"error: no manifest".to_vec() };
    let unsupported = resolve(&registry, "/p", &strings(&["Makefile"]), Err(failure.clone()));
    assert_eq!(
        unsupported.err(),
        Some(ResolveError::UnsupportedProject { path: "/p".to_string() })
    );
    let failed = resolve(&registry, "/p", &strings(&["Cargo.toml"]), Err(failure.clone()));
    assert_eq!(failed.err(), Some(failure));
    let ok = resolve(&registry, "/p", &strings(&["Cargo.toml"]), Ok(Vec::new()));
    assert!(ok.is_ok());
}

#[test]
fn flake_is_exact() {
    let registry = DependencyRegistry::new(true);
    let mut dev_env = DevEnvironment::new(&registry);
    rule(
        &["cargo", "hello"],
        &["nix", "libGL"],
        &[("HELLO", "WORLD"), ("GOODBYE", "WORLD")],
    )
    .apply(&mut dev_env);
    let expected = r#"{
  inputs = {
    nixpkgs.url = "github:NixOS/nixpkgs/nixpkgs-unstable";
  };

  outputs = { self, nixpkgs }:
    let
      systems = [ "x86_64-linux" "aarch64-linux" "x86_64-darwin" "aarch64-darwin" ];
      forAllSystems = f: nixpkgs.lib.genAttrs systems (system: f {
        pkgs = import nixpkgs { inherit system; };
      });
    in
    {
      devShells = forAllSystems ({ pkgs }: with pkgs; {
        default = stdenv.mkDerivation ({
          name = "riff-shell";
          buildInputs = [ cargo hello libGL nix ];
          "LD_LIBRARY_PATH" = "${lib.getLib libGL}/lib:${lib.getLib nix}/lib";
        } // {
          "GOODBYE" = "WORLD";
"HELLO" = "WORLD";
        });
      });
    };
}
"#;
    assert_eq!(dev_env.to_flake(), expected);
}

#[test]
fn flake_without_runtime_inputs_has_no_library_path() {
    let registry = DependencyRegistry::new(true);
    let mut dev_env = DevEnvironment::new(&registry);
    rule(&["cargo"], &[], &[("A", "1")]).apply(&mut dev_env);
    let flake = dev_env.to_flake();
    assert!(!flake.contains("LD_LIBRARY_PATH"));
    assert!(flake.contains("buildInputs = [ cargo ];\n          \n        } // {"));
}

#[test]
fn flake_of_an_empty_environment() {
    let registry = DependencyRegistry::new(true);
    let dev_env = DevEnvironment::new(&registry);
    let flake = dev_env.to_flake();
    assert!(flake.contains("buildInputs = [  ];"));
    assert!(!flake.contains("LD_LIBRARY_PATH"));
    assert!(flake.contains("} // {\n          \n        });"));
}

#[test]
fn flake_does_not_depend_on_the_order_of_construction() {
    let registry = DependencyRegistry::new(true);
    let a = rule(&["zlib", "cargo"], &["libGL"], &[("A", "1")]);
    let b = rule(&["openssl"], &["alsa", "libGL"], &[("B", "2")]);
    let c = rule(&["cargo"], &["nix"], &[("C", "3")]);
    let mut one = DevEnvironment::new(&registry);
    a.apply(&mut one);
    b.apply(&mut one);
    c.apply(&mut one);
    let mut other = DevEnvironment::new(&registry);
    c.apply(&mut other);
    a.apply(&mut other);
    b.apply(&mut other);
    assert_eq!(one.to_flake(), other.to_flake());
    assert_eq!(one.to_flake(), one.to_flake());
    assert_eq!(one.summary(), other.summary());
}

#[test]
fn library_path_lists_each_runtime_input_once() {
    let registry = DependencyRegistry::new(true);
    let mut dev_env = DevEnvironment::new(&registry);
    rule(&[], &["nix", "libGL"], &[]).apply(&mut dev_env);
    rule(&[], &["libGL", "alsa"], &[]).apply(&mut dev_env);
    let flake = dev_env.to_flake();
    assert_eq!(flake.matches("${lib.getLib libGL}/lib").count(), 1);
    assert_eq!(flake.matches("${lib.getLib nix}/lib").count(), 1);
    assert_eq!(flake.matches("${lib.getLib alsa}/lib").count(), 1);
    assert!(flake.contains(
        "\"LD_LIBRARY_PATH\" = \"${lib.getLib alsa}/lib:${lib.getLib libGL}/lib:${lib.getLib nix}/lib\";"
    ));
}

#[test]
fn inputs_are_the_union_in_any_order() {
    let registry = DependencyRegistry::new(true);
    let a = rule(&["b", "a"], &["x"], &[]);
    let b = rule(&["c", "a"], &["y", "x"], &[]);
    let mut one = DevEnvironment::new(&registry);
    a.apply(&mut one);
    b.apply(&mut one);
    let mut other = DevEnvironment::new(&registry);
    b.apply(&mut other);
    a.apply(&mut other);
    assert_eq!(one.build_inputs.to_vec(), strings(&["a", "b", "c"]));
    assert_eq!(other.build_inputs.to_vec(), strings(&["a", "b", "c"]));
    assert_eq!(one.runtime_inputs.to_vec(), strings(&["x", "y"]));
    assert_eq!(other.runtime_inputs.to_vec(), strings(&["x", "y"]));
}

#[test]
fn later_rule_wins_a_variable() {
    let registry = DependencyRegistry::new(true);
    let a = rule(&[], &[], &[("V", "from-a"), ("ONLY_A", "a")]);
    let b = rule(&[], &[], &[("V", "from-b")]);
    let mut dev_env = DevEnvironment::new(&registry);
    a.apply(&mut dev_env);
    b.apply(&mut dev_env);
    assert_eq!(dev_env.environment_variables.get("V"), Some(&"from-b".to_string()));
    assert_eq!(dev_env.environment_variables.get("ONLY_A"), Some(&"a".to_string()));
    let mut reversed = DevEnvironment::new(&registry);
    b.apply(&mut reversed);
    a.apply(&mut reversed);
    assert_eq!(reversed.environment_variables.get("V"), Some(&"from-a".to_string()));
}

#[test]
fn summary_is_coloured_and_sorted() {
    let registry = DependencyRegistry::new(true);
    let mut dev_env = DevEnvironment::new(&registry);
    rule(&["cargo"], &["libGL"], &[("B", "2"), ("A", "1")]).apply(&mut dev_env);
    assert_eq!(
        dev_env.summary(),
        "\x1b[32m\u{2713}\x1b[39m \x1b[31m\x1b[1m\u{1f980} rust\x1b[0m\x1b[39m: \x1b[36mcargo\x1b[39m, \x1b[36mlibGL\x1b[39m (\x1b[32mA\x1b[39m, \x1b[32mB\x1b[39m)"
    );
    let mut bare = DevEnvironment::new(&registry);
    rule(&["cargo"], &[], &[]).apply(&mut bare);
    assert_eq!(
        bare.summary(),
        "\x1b[32m\u{2713}\x1b[39m \x1b[31m\x1b[1m\u{1f980} rust\x1b[0m\x1b[39m: \x1b[36mcargo\x1b[39m"
    );
}

#[test]
fn copy_of_an_environment_is_in_the_same_state() {
    let registry = DependencyRegistry::new(true);
    let mut dev_env = DevEnvironment::new(&registry);
    rule(&["cargo"], &["libGL"], &[("A", "1")]).apply(&mut dev_env);
    dev_env.detected_languages.insert(DetectedLanguage::Rust);
    let copy = dev_env.clone();
    assert_eq!(copy.to_flake(), dev_env.to_flake());
    assert_eq!(copy.detected_languages.to_vec(), vec![DetectedLanguage::Rust]);
    assert!(copy.registry.offline());
}
