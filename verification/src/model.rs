//! The mathematical model of synthesis: what rules, packages, the registry
//! and the environment are, and what applying rules means.

use crate::dev_env::DetectedLanguage;
use vstd::prelude::*;

verus! {

/// What an override rule implies.
#[verifier::ext_equal]
pub struct RuleModel {
    pub build_inputs: Set<Seq<char>>,
    pub runtime_inputs: Set<Seq<char>>,
    pub environment_variables: Map<Seq<char>, Seq<char>>,
}

/// A discovered package: its name and the rule it declares of itself.
pub struct PackageModel {
    pub name: Seq<char>,
    pub inline_override: Option<RuleModel>,
}

/// What the registry answers.
#[verifier::ext_equal]
pub struct RegistryModel {
    pub offline: bool,
    pub rust_default: RuleModel,
    pub rust_dependencies: Map<Seq<char>, RuleModel>,
}

/// The state of one synthesis.
#[verifier::ext_equal]
pub struct EnvModel {
    pub build_inputs: Set<Seq<char>>,
    pub runtime_inputs: Set<Seq<char>>,
    pub environment_variables: Map<Seq<char>, Seq<char>>,
    pub detected_languages: Set<DetectedLanguage>,
}

/// The rule that implies nothing.
pub open spec fn empty_rule() -> RuleModel {
    RuleModel {
        build_inputs: Set::empty(),
        runtime_inputs: Set::empty(),
        environment_variables: Map::empty(),
    }
}

/// The state before anything was detected or applied.
pub open spec fn empty_env() -> EnvModel {
    EnvModel {
        build_inputs: Set::empty(),
        runtime_inputs: Set::empty(),
        environment_variables: Map::empty(),
        detected_languages: Set::empty(),
    }
}

/// A state with one more detected language.
pub open spec fn with_language(env: EnvModel, language: DetectedLanguage) -> EnvModel {
    EnvModel {
        build_inputs: env.build_inputs,
        runtime_inputs: env.runtime_inputs,
        environment_variables: env.environment_variables,
        detected_languages: env.detected_languages.insert(language),
    }
}

impl RegistryModel {
    /// The rule that every project of a language gets.
    pub open spec fn defaults(self, language: DetectedLanguage) -> RuleModel {
        match language {
            DetectedLanguage::Rust => self.rust_default,
        }
    }

    /// The rule that the registry holds for a package of a language.
    pub open spec fn lookup(self, language: DetectedLanguage, name: Seq<char>) -> Option<
        RuleModel,
    > {
        match language {
            DetectedLanguage::Rust => if self.rust_dependencies.contains_key(name) {
                Some(self.rust_dependencies[name])
            } else {
                None
            },
        }
    }
}

/// The state after one rule: both input sets united with the rule's, each
/// of the rule's variables written over what the name had.
pub open spec fn apply_rule(env: EnvModel, rule: RuleModel) -> EnvModel {
    EnvModel {
        build_inputs: env.build_inputs.union(rule.build_inputs),
        runtime_inputs: env.runtime_inputs.union(rule.runtime_inputs),
        environment_variables: env.environment_variables.union_prefer_right(
            rule.environment_variables,
        ),
        detected_languages: env.detected_languages,
    }
}

/// The state after a sequence of rules, applied first to last.
pub open spec fn apply_all(env: EnvModel, rules: Seq<RuleModel>) -> EnvModel
    decreases rules.len(),
{
    if rules.len() == 0 {
        env
    } else {
        apply_rule(apply_all(env, rules.drop_last()), rules.last())
    }
}

/// A sequence of at most one rule.
pub open spec fn optional_rule(rule: Option<RuleModel>) -> Seq<RuleModel> {
    match rule {
        Some(r) => seq![r],
        None => Seq::empty(),
    }
}

/// The rules that one package brings: the registry's rule for its name,
/// then the rule it declares of itself, each if there is one.
pub open spec fn package_rules(
    registry: RegistryModel,
    language: DetectedLanguage,
    package: PackageModel,
) -> Seq<RuleModel> {
    optional_rule(registry.lookup(language, package.name)) + optional_rule(
        package.inline_override,
    )
}

/// The rules that a list of packages brings, package by package.
pub open spec fn packages_rules(
    registry: RegistryModel,
    language: DetectedLanguage,
    packages: Seq<PackageModel>,
) -> Seq<RuleModel>
    decreases packages.len(),
{
    if packages.len() == 0 {
        Seq::empty()
    } else {
        packages_rules(registry, language, packages.drop_last()) + package_rules(
            registry,
            language,
            packages.last(),
        )
    }
}

/// The rules of one resolution: the language's defaults, then what the
/// packages bring.
pub open spec fn resolution_rules(
    registry: RegistryModel,
    language: DetectedLanguage,
    packages: Seq<PackageModel>,
) -> Seq<RuleModel> {
    seq![registry.defaults(language)] + packages_rules(registry, language, packages)
}

/// Applying at most one rule: the state stays as it is, or the one rule
/// is applied.
pub proof fn lemma_apply_optional(env: EnvModel, rule: Option<RuleModel>)
    ensures
        apply_all(env, optional_rule(rule)) == match rule {
            Some(r) => apply_rule(env, r),
            None => env,
        },
{
    reveal_with_fuel(apply_all, 2);
    if let Some(r) = rule {
        assert(seq![r].drop_last() =~= Seq::<RuleModel>::empty());
    }
}

/// Applying one sequence of rules and then another is applying the two in
/// a row.
pub proof fn lemma_apply_all_concat(env: EnvModel, first: Seq<RuleModel>, second: Seq<RuleModel>)
    ensures
        apply_all(env, first + second) == apply_all(apply_all(env, first), second),
    decreases second.len(),
{
    if second.len() == 0 {
        assert(first + second =~= first);
    } else {
        assert((first + second).drop_last() =~= first + second.drop_last());
        assert((first + second).last() == second.last());
        lemma_apply_all_concat(env, first, second.drop_last());
    }
}

} // verus!
