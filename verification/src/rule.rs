//! Override rules and the packages that may declare them.

use crate::model::{PackageModel, RuleModel};
use crate::name_set::NameSet;
use crate::text::texts;
use crate::text_map::{pair_texts, upserts, TextMap, ViewClone};
use vstd::prelude::*;

verus! {

/// What a package, or a whole language, implies for the environment:
/// inputs needed to build, inputs whose libraries must be found at run
/// time, and environment variables.
#[derive(Debug)]
pub struct OverrideRule {
    pub build_inputs: NameSet,
    pub environment_variables: TextMap<String>,
    pub runtime_inputs: NameSet,
}

impl Clone for OverrideRule {
    /// A rule that implies the same.
    fn clone(&self) -> (rule: Self)
        ensures
            rule@ == self@,
    {
        OverrideRule {
            build_inputs: self.build_inputs.clone(),
            environment_variables: self.environment_variables.clone(),
            runtime_inputs: self.runtime_inputs.clone(),
        }
    }
}

impl ViewClone for OverrideRule {
    fn view_clone(&self) -> (copy: Self) {
        self.clone()
    }
}

impl View for OverrideRule {
    type V = RuleModel;

    open spec fn view(&self) -> RuleModel {
        RuleModel {
            build_inputs: self.build_inputs@,
            runtime_inputs: self.runtime_inputs@,
            environment_variables: self.environment_variables@,
        }
    }
}

impl OverrideRule {
    /// The rule that implies nothing.
    pub fn empty() -> (rule: Self)
        ensures
            rule@ == crate::model::empty_rule(),
    {
        OverrideRule {
            build_inputs: NameSet::new(),
            environment_variables: TextMap::new(),
            runtime_inputs: NameSet::new(),
        }
    }

    /// A rule from lists: the names of each list as a set, the variables
    /// inserted in order.
    pub fn new(
        build_inputs: Vec<String>,
        runtime_inputs: Vec<String>,
        environment_variables: Vec<(String, String)>,
    ) -> (rule: Self)
        ensures
            rule@.build_inputs == texts(build_inputs@).to_set(),
            rule@.runtime_inputs == texts(runtime_inputs@).to_set(),
            rule@.environment_variables == upserts(
                Map::empty(),
                pair_texts(environment_variables@),
            ),
    {
        OverrideRule {
            build_inputs: NameSet::from_vec(build_inputs),
            environment_variables: TextMap::from_vec(environment_variables),
            runtime_inputs: NameSet::from_vec(runtime_inputs),
        }
    }
}

/// A dependency that the build tool reported.
#[derive(Debug)]
pub struct PackageRecord {
    pub name: String,
    pub inline_override: Option<OverrideRule>,
}

impl Clone for PackageRecord {
    /// A record of the same package.
    fn clone(&self) -> (package: Self)
        ensures
            package@ == self@,
    {
        PackageRecord {
            name: self.name.clone(),
            inline_override: match &self.inline_override {
                Some(rule) => Some(rule.clone()),
                None => None,
            },
        }
    }
}

impl View for PackageRecord {
    type V = PackageModel;

    open spec fn view(&self) -> PackageModel {
        PackageModel {
            name: self.name@,
            inline_override: match self.inline_override {
                Some(rule) => Some(rule@),
                None => None,
            },
        }
    }
}

/// The models of a sequence of package records, in the same order.
pub open spec fn package_models(packages: Seq<PackageRecord>) -> Seq<PackageModel> {
    Seq::new(packages.len(), |i: int| packages[i]@)
}

} // verus!
