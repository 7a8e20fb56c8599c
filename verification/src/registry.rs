//! The registry of override rules, as synthesis reads it.

use crate::dev_env::DetectedLanguage;
use crate::model::RegistryModel;
use crate::rule::OverrideRule;
use crate::text_map::TextMap;
use vstd::prelude::*;

verus! {

/// Override rules by language: the defaults of each language, and the
/// rules of the packages it knows. Synthesis only reads it.
#[derive(Debug)]
pub struct DependencyRegistry {
    offline: bool,
    rust_default: OverrideRule,
    rust_dependencies: TextMap<OverrideRule>,
}

impl Clone for DependencyRegistry {
    /// A registry that answers the same.
    fn clone(&self) -> (registry: Self)
        ensures
            registry@ == self@,
    {
        DependencyRegistry {
            offline: self.offline,
            rust_default: self.rust_default.clone(),
            rust_dependencies: self.rust_dependencies.clone(),
        }
    }
}

impl View for DependencyRegistry {
    type V = RegistryModel;

    closed spec fn view(&self) -> RegistryModel {
        RegistryModel {
            offline: self.offline,
            rust_default: self.rust_default@,
            rust_dependencies: self.rust_dependencies@,
        }
    }
}

impl DependencyRegistry {
    /// A registry without any rule: every language's defaults are empty
    /// and no package is known.
    pub fn new(offline: bool) -> (registry: Self)
        ensures
            registry@.offline == offline,
            registry@.rust_default == crate::model::empty_rule(),
            registry@.rust_dependencies == Map::<Seq<char>, crate::model::RuleModel>::empty(),
    {
        DependencyRegistry {
            offline,
            rust_default: OverrideRule::empty(),
            rust_dependencies: TextMap::new(),
        }
    }

    /// Whether the network is to be left alone.
    pub fn offline(&self) -> (offline: bool)
        ensures
            offline == self@.offline,
    {
        self.offline
    }

    /// The rule that every project of a language gets.
    pub fn defaults(&self, language: DetectedLanguage) -> (rule: &OverrideRule)
        ensures
            rule@ == self@.defaults(language),
    {
        match language {
            DetectedLanguage::Rust => &self.rust_default,
        }
    }

    /// The rule held for a package of a language, if there is one.
    pub fn lookup(&self, language: DetectedLanguage, name: &str) -> (rule: Option<&OverrideRule>)
        ensures
            match rule {
                Some(r) => self@.lookup(language, name@) == Some(r@),
                None => self@.lookup(language, name@) is None,
            },
    {
        match language {
            DetectedLanguage::Rust => self.rust_dependencies.get(name),
        }
    }

    /// Replaces the defaults of a language.
    pub fn set_defaults(&mut self, language: DetectedLanguage, rule: OverrideRule)
        ensures
            final(self)@.defaults(language) == rule@,
            final(self)@.offline == old(self)@.offline,
            final(self)@.rust_dependencies == old(self)@.rust_dependencies,
    {
        match language {
            DetectedLanguage::Rust => {
                self.rust_default = rule;
            },
        }
    }

    /// Puts a rule under a package's name, in place of the rule that the
    /// name had.
    pub fn insert(&mut self, language: DetectedLanguage, name: String, rule: OverrideRule)
        ensures
            final(self)@.lookup(language, name@) == Some(rule@),
            final(self)@.rust_dependencies == old(self)@.rust_dependencies.insert(name@, rule@),
            final(self)@.offline == old(self)@.offline,
            final(self)@.rust_default == old(self)@.rust_default,
    {
        match language {
            DetectedLanguage::Rust => {
                self.rust_dependencies.insert(name, rule);
            },
        }
    }
}

} // verus!
