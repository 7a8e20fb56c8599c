//! The developer environment and its synthesis.

use crate::detect::{detect_language, detected};
use crate::error::{ErrorModel, ResolveError};
use crate::fetch::MetadataRequest;
use crate::flake::{
    flake_text, inputs_text, library_path_declaration, variables_text, FLAKE_AFTER_INPUTS,
    FLAKE_AFTER_LIBRARY_PATH, FLAKE_HEAD, FLAKE_TAIL,
};
use crate::language_set::LanguageSet;
use crate::model::{
    apply_all, apply_rule, lemma_apply_all_concat, lemma_apply_optional, packages_rules,
    resolution_rules, with_language, EnvModel,
};
use crate::name_set::NameSet;
use crate::registry::DependencyRegistry;
use crate::rule::{package_models, OverrideRule, PackageRecord};
use crate::summary::{summary, summary_text};
use crate::text::texts;
use crate::text_map::TextMap;
use vstd::prelude::*;

verus! {

/// A project ecosystem that detection can recognise.
#[derive(Debug, Clone, Copy, PartialEq, Eq, Hash, Structural)]
pub enum DetectedLanguage {
    Rust,
}

/// The state of one synthesis: what has been gathered so far for the
/// environment, and the registry that is consulted.
#[derive(Debug)]
pub struct DevEnvironment<'a> {
    pub registry: &'a DependencyRegistry,
    pub build_inputs: NameSet,
    pub environment_variables: TextMap<String>,
    pub runtime_inputs: NameSet,
    pub detected_languages: LanguageSet,
}

impl<'a> Clone for DevEnvironment<'a> {
    /// An environment in the same state, on the same registry.
    fn clone(&self) -> (dev_env: Self)
        ensures
            dev_env@ == self@,
            dev_env.registry == self.registry,
    {
        DevEnvironment {
            registry: self.registry,
            build_inputs: self.build_inputs.clone(),
            environment_variables: self.environment_variables.clone(),
            runtime_inputs: self.runtime_inputs.clone(),
            detected_languages: self.detected_languages.clone(),
        }
    }
}

impl<'a> View for DevEnvironment<'a> {
    type V = EnvModel;

    open spec fn view(&self) -> EnvModel {
        EnvModel {
            build_inputs: self.build_inputs@,
            runtime_inputs: self.runtime_inputs@,
            environment_variables: self.environment_variables@,
            detected_languages: self.detected_languages@,
        }
    }
}

impl OverrideRule {
    /// Applies the rule to an environment.
    pub fn apply(&self, dev_env: &mut DevEnvironment)
        ensures
            final(dev_env)@ == apply_rule(old(dev_env)@, self@),
            final(dev_env).registry == old(dev_env).registry,
    {
        dev_env.build_inputs.extend(&self.build_inputs);
        dev_env.environment_variables.extend(&self.environment_variables);
        dev_env.runtime_inputs.extend(&self.runtime_inputs);
    }
}

impl<'a> DevEnvironment<'a> {
    /// An environment with nothing gathered yet.
    pub fn new(registry: &'a DependencyRegistry) -> (dev_env: Self)
        ensures
            dev_env@ == crate::model::empty_env(),
            dev_env.registry == registry,
    {
        Self {
            registry,
            build_inputs: NameSet::new(),
            environment_variables: TextMap::new(),
            runtime_inputs: NameSet::new(),
            detected_languages: LanguageSet::new(),
        }
    }

    /// Tells the project's language from the names of the files at its
    /// root and records it. What comes back is the request for the
    /// project's packages, to be answered by the language's build tool;
    /// where the root holds the marker of no known language, the failure
    /// names the project, and nothing is recorded.
    pub fn detect(&mut self, project_dir: &str, root_files: &Vec<String>) -> (r: Result<
        MetadataRequest,
        ResolveError,
    >)
        ensures
            final(self).registry == old(self).registry,
            match detected(texts(root_files@)) {
                Some(language) => r == Ok::<MetadataRequest, ResolveError>(
                    MetadataRequest { language, offline: old(self).registry@.offline },
                ) && final(self)@ == with_language(old(self)@, language),
                None => r is Err && r->Err_0@ == (ErrorModel::UnsupportedProject {
                    path: project_dir@,
                }) && final(self)@ == old(self)@,
            },
    {
        match detect_language(root_files) {
            Some(language) => {
                self.detected_languages.insert(language);
                Ok(MetadataRequest { language, offline: self.registry.offline() })
            },
            None => Err(ResolveError::UnsupportedProject { path: project_dir.to_string() }),
        }
    }

    /// The line that tells the user what was found for a Rust project.
    pub fn summary(&self) -> (text: String)
        ensures
            text@ == summary_text(self@),
    {
        summary(&self.build_inputs, &self.runtime_inputs, &self.environment_variables)
    }

    /// The flake that provides this environment. It depends on nothing
    /// but what the environment holds: the inputs and the variables come
    /// out in the listing order.
    pub fn to_flake(&self) -> (flake: String)
        ensures
            flake@ == flake_text(self@),
    {
        let build_inputs = inputs_text(&self.build_inputs, &self.runtime_inputs);
        let ld_library_path = library_path_declaration(&self.runtime_inputs);
        let environment_variables = variables_text(&self.environment_variables);
        let mut flake = FLAKE_HEAD.to_string();
        flake.append(build_inputs.as_str());
        flake.append(FLAKE_AFTER_INPUTS);
        flake.append(ld_library_path.as_str());
        flake.append(FLAKE_AFTER_LIBRARY_PATH);
        flake.append(environment_variables.as_str());
        flake.append(FLAKE_TAIL);
        flake
    }

    /// Folds what the build tool reported into the environment: first the
    /// defaults of Rust, then for each package in order the registry's rule
    /// for its name and the rule it declares of itself, each if there is
    /// one.
    pub fn add_deps_from_cargo(&mut self, packages: &Vec<PackageRecord>)
        ensures
            final(self)@ == apply_all(
                old(self)@,
                resolution_rules(
                    old(self).registry@,
                    DetectedLanguage::Rust,
                    package_models(packages@),
                ),
            ),
            final(self).registry == old(self).registry,
    {
        let language = DetectedLanguage::Rust;
        let registry = self.registry;
        let ghost models = package_models(packages@);
        let ghost start = apply_rule(old(self)@, registry@.defaults(language));
        registry.defaults(language).apply(self);
        let n = packages.len();
        let mut i: usize = 0;
        proof {
            assert(packages_rules(registry@, language, models.take(0)) =~= Seq::empty());
        }
        while i < n
            invariant
                i <= n,
                n == packages.len(),
                models == package_models(packages@),
                self.registry == registry,
                self@ == apply_all(start, packages_rules(registry@, language, models.take(i as int))),
            decreases n - i,
        {
            let package = &packages[i];
            let ghost before = self@;
            let ghost done = packages_rules(registry@, language, models.take(i as int));
            let ghost from_registry = crate::model::optional_rule(
                registry@.lookup(language, package@.name),
            );
            let ghost from_package = crate::model::optional_rule(package@.inline_override);
            match registry.lookup(language, package.name.as_str()) {
                Some(rule) => {
                    rule.apply(self);
                },
                None => {},
            }
            proof {
                lemma_apply_optional(before, registry@.lookup(language, package@.name));
            }
            let ghost middle = self@;
            match &package.inline_override {
                Some(rule) => {
                    rule.apply(self);
                },
                None => {},
            }
            proof {
                lemma_apply_optional(middle, package@.inline_override);
                assert(models.take(i + 1).drop_last() =~= models.take(i as int));
                assert(models.take(i + 1).last() == package@);
                lemma_apply_all_concat(before, from_registry, from_package);
                lemma_apply_all_concat(start, done, from_registry + from_package);
            }
            i = i + 1;
        }
        proof {
            assert(models.take(n as int) =~= models);
            let first = seq![registry@.defaults(language)];
            lemma_apply_optional(old(self)@, Some(registry@.defaults(language)));
            lemma_apply_all_concat(
                old(self)@,
                first,
                packages_rules(registry@, language, models),
            );
        }
    }
}

/// Resolves a project in one go, from the names of the files at its root
/// and from what fetching its packages gave. Without a known language the
/// failure names the project, whatever fetching gave; a failure of
/// fetching comes back as it is; else the environment holds the language
/// and what the defaults and the packages imply.
pub fn resolve<'a>(
    registry: &'a DependencyRegistry,
    project_dir: &str,
    root_files: &Vec<String>,
    fetched: Result<Vec<PackageRecord>, ResolveError>,
) -> (r: Result<DevEnvironment<'a>, ResolveError>)
    ensures
        match detected(texts(root_files@)) {
            None => r is Err && r->Err_0@ == (ErrorModel::UnsupportedProject {
                path: project_dir@,
            }),
            Some(language) => match fetched {
                Err(error) => r is Err && r->Err_0 == error,
                Ok(packages) => r is Ok && r->Ok_0.registry == registry && r->Ok_0@ == apply_all(
                    with_language(crate::model::empty_env(), language),
                    resolution_rules(registry@, language, package_models(packages@)),
                ),
            },
        },
{
    let mut dev_env = DevEnvironment::new(registry);
    match dev_env.detect(project_dir, root_files) {
        Err(error) => Err(error),
        Ok(request) => match fetched {
            Err(error) => Err(error),
            Ok(packages) => {
                match request.language {
                    DetectedLanguage::Rust => {
                        dev_env.add_deps_from_cargo(&packages);
                    },
                }
                Ok(dev_env)
            },
        },
    }
}

} // verus!
