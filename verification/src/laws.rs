//! What holds of synthesis whatever the rules are.

use crate::flake::{
    declaration_text, flake_text, input_listing, library_path_declaration_text,
    library_path_text, library_paths, variable_declarations, DECLARATION_SEPARATOR,
    FLAKE_AFTER_INPUTS, FLAKE_AFTER_LIBRARY_PATH, FLAKE_HEAD, FLAKE_TAIL, INPUT_SEPARATOR,
    PATH_SEPARATOR,
};
use crate::model::{apply_all, apply_rule, empty_env, EnvModel, RuleModel};
use crate::text::{join_text, lemma_listing_exists, lists, sorted_seq};
use vstd::prelude::*;

verus! {

/// The build inputs that any rule of a sequence names.
pub open spec fn all_build_inputs(rules: Seq<RuleModel>) -> Set<Seq<char>> {
    Set::new(
        |name: Seq<char>|
            exists|i: int| 0 <= i < rules.len() && (#[trigger] rules[i]).build_inputs.contains(name),
    )
}

/// The runtime inputs that any rule of a sequence names.
pub open spec fn all_runtime_inputs(rules: Seq<RuleModel>) -> Set<Seq<char>> {
    Set::new(
        |name: Seq<char>|
            exists|i: int|
                0 <= i < rules.len() && (#[trigger] rules[i]).runtime_inputs.contains(name),
    )
}

/// Whether a rule declares a variable.
pub open spec fn declares(rule: RuleModel, name: Seq<char>) -> bool {
    rule.environment_variables.contains_key(name)
}

/// Whether any two rules of a sequence that declare one variable give it
/// one value.
pub open spec fn rules_agree(rules: Seq<RuleModel>) -> bool {
    forall|i: int, j: int, name: Seq<char>|
        0 <= i < rules.len() && 0 <= j < rules.len() && #[trigger] declares(rules[i], name)
            && #[trigger] declares(rules[j], name) ==> rules[i].environment_variables[name]
            == rules[j].environment_variables[name]
}

/// After any sequence of rules each input set is what it was, united with
/// the respective sets of all the rules; the detected languages are
/// untouched.
pub proof fn law_inputs_are_the_union(env: EnvModel, rules: Seq<RuleModel>)
    ensures
        apply_all(env, rules).build_inputs == env.build_inputs.union(all_build_inputs(rules)),
        apply_all(env, rules).runtime_inputs == env.runtime_inputs.union(
            all_runtime_inputs(rules),
        ),
        apply_all(env, rules).detected_languages == env.detected_languages,
    decreases rules.len(),
{
    if rules.len() == 0 {
        assert(apply_all(env, rules).build_inputs =~= env.build_inputs.union(
            all_build_inputs(rules),
        ));
        assert(apply_all(env, rules).runtime_inputs =~= env.runtime_inputs.union(
            all_runtime_inputs(rules),
        ));
    } else {
        let head = rules.drop_last();
        let last = rules.last();
        law_inputs_are_the_union(env, head);
        assert forall|name: Seq<char>|
            all_build_inputs(rules).contains(name) <==> (all_build_inputs(head).contains(name)
                || last.build_inputs.contains(name)) by {
            if all_build_inputs(rules).contains(name) {
                let i = choose|i: int|
                    0 <= i < rules.len() && (#[trigger] rules[i]).build_inputs.contains(name);
                if i < rules.len() - 1 {
                    assert(head[i].build_inputs.contains(name));
                }
            }
            if all_build_inputs(head).contains(name) {
                let i = choose|i: int|
                    0 <= i < head.len() && (#[trigger] head[i]).build_inputs.contains(name);
                assert(rules[i].build_inputs.contains(name));
            }
            if last.build_inputs.contains(name) {
                assert(rules[rules.len() - 1].build_inputs.contains(name));
            }
        }
        assert forall|name: Seq<char>|
            all_runtime_inputs(rules).contains(name) <==> (all_runtime_inputs(head).contains(
                name,
            ) || last.runtime_inputs.contains(name)) by {
            if all_runtime_inputs(rules).contains(name) {
                let i = choose|i: int|
                    0 <= i < rules.len() && (#[trigger] rules[i]).runtime_inputs.contains(name);
                if i < rules.len() - 1 {
                    assert(head[i].runtime_inputs.contains(name));
                }
            }
            if all_runtime_inputs(head).contains(name) {
                let i = choose|i: int|
                    0 <= i < head.len() && (#[trigger] head[i]).runtime_inputs.contains(name);
                assert(rules[i].runtime_inputs.contains(name));
            }
            if last.runtime_inputs.contains(name) {
                assert(rules[rules.len() - 1].runtime_inputs.contains(name));
            }
        }
        assert(apply_all(env, rules).build_inputs =~= env.build_inputs.union(
            all_build_inputs(rules),
        ));
        assert(apply_all(env, rules).runtime_inputs =~= env.runtime_inputs.union(
            all_runtime_inputs(rules),
        ));
    }
}

/// Starting from nothing, each input set ends as the union of the
/// respective sets of all the rules that were applied.
pub proof fn law_final_inputs_are_the_union(rules: Seq<RuleModel>)
    ensures
        apply_all(empty_env(), rules).build_inputs == all_build_inputs(rules),
        apply_all(empty_env(), rules).runtime_inputs == all_runtime_inputs(rules),
{
    law_inputs_are_the_union(empty_env(), rules);
    assert(empty_env().build_inputs.union(all_build_inputs(rules)) =~= all_build_inputs(rules));
    assert(empty_env().runtime_inputs.union(all_runtime_inputs(rules)) =~= all_runtime_inputs(
        rules,
    ));
}

/// The input sets only grow: what was in them before any sequence of
/// rules is in them after it.
pub proof fn law_inputs_only_grow(env: EnvModel, rules: Seq<RuleModel>)
    ensures
        env.build_inputs.subset_of(apply_all(env, rules).build_inputs),
        env.runtime_inputs.subset_of(apply_all(env, rules).runtime_inputs),
{
    law_inputs_are_the_union(env, rules);
}

/// The same rules in another order give the same input sets.
pub proof fn law_inputs_ignore_order(env: EnvModel, first: Seq<RuleModel>, second: Seq<RuleModel>)
    requires
        first.to_multiset() == second.to_multiset(),
    ensures
        apply_all(env, first).build_inputs == apply_all(env, second).build_inputs,
        apply_all(env, first).runtime_inputs == apply_all(env, second).runtime_inputs,
{
    law_inputs_are_the_union(env, first);
    law_inputs_are_the_union(env, second);
    lemma_same_members(first, second);
    lemma_same_members(second, first);
    assert(all_build_inputs(first) =~= all_build_inputs(second)) by {
        assert forall|name: Seq<char>|
            all_build_inputs(first).contains(name) <==> all_build_inputs(second).contains(
                name,
            ) by {
            if all_build_inputs(first).contains(name) {
                let i = choose|i: int|
                    0 <= i < first.len() && (#[trigger] first[i]).build_inputs.contains(name);
                assert(second.contains(first[i]));
                let j = choose|j: int| 0 <= j < second.len() && second[j] == first[i];
                assert(second[j].build_inputs.contains(name));
            }
            if all_build_inputs(second).contains(name) {
                let i = choose|i: int|
                    0 <= i < second.len() && (#[trigger] second[i]).build_inputs.contains(name);
                assert(first.contains(second[i]));
                let j = choose|j: int| 0 <= j < first.len() && first[j] == second[i];
                assert(first[j].build_inputs.contains(name));
            }
        }
    }
    assert(all_runtime_inputs(first) =~= all_runtime_inputs(second)) by {
        assert forall|name: Seq<char>|
            all_runtime_inputs(first).contains(name) <==> all_runtime_inputs(second).contains(
                name,
            ) by {
            if all_runtime_inputs(first).contains(name) {
                let i = choose|i: int|
                    0 <= i < first.len() && (#[trigger] first[i]).runtime_inputs.contains(name);
                assert(second.contains(first[i]));
                let j = choose|j: int| 0 <= j < second.len() && second[j] == first[i];
                assert(second[j].runtime_inputs.contains(name));
            }
            if all_runtime_inputs(second).contains(name) {
                let i = choose|i: int|
                    0 <= i < second.len() && (#[trigger] second[i]).runtime_inputs.contains(
                        name,
                    );
                assert(first.contains(second[i]));
                let j = choose|j: int| 0 <= j < first.len() && first[j] == second[i];
                assert(first[j].runtime_inputs.contains(name));
            }
        }
    }
}

/// Every rule of one sequence occurs in another that holds the same rules
/// as often.
proof fn lemma_same_members(first: Seq<RuleModel>, second: Seq<RuleModel>)
    requires
        first.to_multiset() == second.to_multiset(),
    ensures
        forall|i: int| 0 <= i < first.len() ==> second.contains(#[trigger] first[i]),
{
    first.to_multiset_ensures();
    second.to_multiset_ensures();
    assert forall|i: int| 0 <= i < first.len() implies second.contains(#[trigger] first[i]) by {
        assert(first.contains(first[i]));
        assert(first.to_multiset().count(first[i]) > 0);
    }
}

/// Of two rules that declare one variable, the one applied later gives
/// the variable its value.
pub proof fn law_later_rule_wins(
    env: EnvModel,
    earlier: RuleModel,
    later: RuleModel,
    name: Seq<char>,
)
    requires
        declares(earlier, name),
        declares(later, name),
    ensures
        apply_rule(apply_rule(env, earlier), later).environment_variables.contains_key(name),
        apply_rule(apply_rule(env, earlier), later).environment_variables[name]
            == later.environment_variables[name],
{
}

/// After any sequence of rules a variable has the value that the last
/// rule declaring it gives, whatever rules came before that one.
pub proof fn law_last_declaration_wins(
    env: EnvModel,
    rules: Seq<RuleModel>,
    last: int,
    name: Seq<char>,
)
    requires
        0 <= last < rules.len(),
        declares(rules[last], name),
        forall|k: int| last < k < rules.len() ==> !declares(#[trigger] rules[k], name),
    ensures
        apply_all(env, rules).environment_variables.contains_key(name),
        apply_all(env, rules).environment_variables[name]
            == rules[last].environment_variables[name],
    decreases rules.len(),
{
    if last < rules.len() - 1 {
        assert(!declares(rules[rules.len() - 1], name));
        law_last_declaration_wins(env, rules.drop_last(), last, name);
    }
}

/// A variable that no rule of a sequence declares is after it what it was
/// before.
pub proof fn law_undeclared_variable_stays(env: EnvModel, rules: Seq<RuleModel>, name: Seq<char>)
    requires
        forall|k: int| 0 <= k < rules.len() ==> !declares(#[trigger] rules[k], name),
    ensures
        apply_all(env, rules).environment_variables.contains_key(name)
            == env.environment_variables.contains_key(name),
        env.environment_variables.contains_key(name) ==> apply_all(
            env,
            rules,
        ).environment_variables[name] == env.environment_variables[name],
    decreases rules.len(),
{
    if rules.len() > 0 {
        assert(!declares(rules[rules.len() - 1], name));
        law_undeclared_variable_stays(env, rules.drop_last(), name);
    }
}

/// Where the rules agree on every variable that two of them declare, the
/// same rules in another order give the same variables.
pub proof fn law_variables_ignore_order(
    env: EnvModel,
    first: Seq<RuleModel>,
    second: Seq<RuleModel>,
)
    requires
        first.to_multiset() == second.to_multiset(),
        rules_agree(first),
    ensures
        apply_all(env, first).environment_variables == apply_all(
            env,
            second,
        ).environment_variables,
{
    let a = apply_all(env, first).environment_variables;
    let b = apply_all(env, second).environment_variables;
    assert forall|name: Seq<char>| a.dom().contains(name) implies b.dom().contains(name) by {
        lemma_variable_ignores_order(env, first, second, name);
    }
    assert forall|name: Seq<char>| b.dom().contains(name) implies a.dom().contains(name) by {
        lemma_variable_ignores_order(env, first, second, name);
    }
    assert forall|name: Seq<char>| a.dom().contains(name) implies a[name] == b[name] by {
        lemma_variable_ignores_order(env, first, second, name);
    }
    assert(a =~= b);
}

/// One variable after the same agreeing rules in two orders.
proof fn lemma_variable_ignores_order(
    env: EnvModel,
    first: Seq<RuleModel>,
    second: Seq<RuleModel>,
    name: Seq<char>,
)
    requires
        first.to_multiset() == second.to_multiset(),
        rules_agree(first),
    ensures
        apply_all(env, first).environment_variables.contains_key(name) == apply_all(
            env,
            second,
        ).environment_variables.contains_key(name),
        apply_all(env, first).environment_variables.contains_key(name) ==> apply_all(
            env,
            first,
        ).environment_variables[name] == apply_all(env, second).environment_variables[name],
{
    lemma_same_members(first, second);
    lemma_same_members(second, first);
    if exists|i: int| 0 <= i < first.len() && declares(#[trigger] first[i], name) {
        let i = lemma_last_declaring(first, name);
        assert(second.contains(first[i]));
        let mate = choose|j: int| 0 <= j < second.len() && second[j] == first[i];
        assert(declares(second[mate], name));
        let j = lemma_last_declaring(second, name);
        assert(first.contains(second[j]));
        let twin = choose|twin: int| 0 <= twin < first.len() && first[twin] == second[j];
        assert(declares(first[twin], name));
        law_last_declaration_wins(env, first, i, name);
        law_last_declaration_wins(env, second, j, name);
    } else {
        assert forall|k: int| 0 <= k < second.len() implies !declares(
            #[trigger] second[k],
            name,
        ) by {
            assert(first.contains(second[k]));
            let i = choose|i: int| 0 <= i < first.len() && first[i] == second[k];
            if declares(second[k], name) {
                assert(declares(first[i], name));
            }
        }
        law_undeclared_variable_stays(env, first, name);
        law_undeclared_variable_stays(env, second, name);
    }
}

/// The last rule of a sequence that declares a variable which some rule
/// of it declares.
proof fn lemma_last_declaring(rules: Seq<RuleModel>, name: Seq<char>) -> (last: int)
    requires
        exists|i: int| 0 <= i < rules.len() && declares(#[trigger] rules[i], name),
    ensures
        0 <= last < rules.len(),
        declares(rules[last], name),
        forall|k: int| last < k < rules.len() ==> !declares(#[trigger] rules[k], name),
    decreases rules.len(),
{
    let i = choose|i: int| 0 <= i < rules.len() && declares(#[trigger] rules[i], name);
    if declares(rules[rules.len() - 1], name) {
        rules.len() - 1
    } else {
        let head = rules.drop_last();
        assert(declares(head[i], name));
        let last = lemma_last_declaring(head, name);
        assert forall|k: int| last < k < rules.len() implies !declares(
            #[trigger] rules[k],
            name,
        ) by {
            if k < rules.len() - 1 {
                assert(!declares(head[k], name));
            }
        }
        last
    }
}

/// The flake depends on the inputs taken together, the runtime inputs and
/// the variables, and on nothing else: two states that agree in these
/// have the same flake.
pub proof fn law_flake_depends_on_state(a: EnvModel, b: EnvModel)
    requires
        a.build_inputs.union(a.runtime_inputs) == b.build_inputs.union(b.runtime_inputs),
        a.runtime_inputs == b.runtime_inputs,
        a.environment_variables == b.environment_variables,
    ensures
        flake_text(a) == flake_text(b),
{
}

/// The same rules in another order give the same flake, where the order
/// leaves the variables as they are.
pub proof fn law_flake_ignores_order(env: EnvModel, first: Seq<RuleModel>, second: Seq<RuleModel>)
    requires
        first.to_multiset() == second.to_multiset(),
        apply_all(env, first).environment_variables == apply_all(
            env,
            second,
        ).environment_variables,
    ensures
        flake_text(apply_all(env, first)) == flake_text(apply_all(env, second)),
{
    law_inputs_ignore_order(env, first, second);
}

/// The same rules in another order give the same flake, where the rules
/// agree on every variable that two of them declare.
pub proof fn law_flake_ignores_order_of_agreeing_rules(
    env: EnvModel,
    first: Seq<RuleModel>,
    second: Seq<RuleModel>,
)
    requires
        first.to_multiset() == second.to_multiset(),
        rules_agree(first),
    ensures
        flake_text(apply_all(env, first)) == flake_text(apply_all(env, second)),
{
    law_variables_ignore_order(env, first, second);
    law_flake_ignores_order(env, first, second);
}

/// Without runtime inputs the flake has nothing in the place of the
/// library search path.
pub proof fn law_no_library_path_without_runtime_inputs(env: EnvModel)
    requires
        env.runtime_inputs == Set::<Seq<char>>::empty(),
    ensures
        library_path_declaration_text(env.runtime_inputs) == Seq::<char>::empty(),
        flake_text(env) == FLAKE_HEAD@ + join_text(input_listing(env), INPUT_SEPARATOR@)
            + FLAKE_AFTER_INPUTS@ + FLAKE_AFTER_LIBRARY_PATH@ + join_text(
            variable_declarations(env.environment_variables),
            DECLARATION_SEPARATOR@,
        ) + FLAKE_TAIL@,
{
    let inputs = FLAKE_HEAD@ + join_text(input_listing(env), INPUT_SEPARATOR@)
        + FLAKE_AFTER_INPUTS@;
    assert(inputs + Seq::<char>::empty() =~= inputs);
}

/// With runtime inputs the library search path is declared, and its
/// entries are those of the runtime inputs, one for each input and none
/// twice.
pub proof fn law_library_path_lists_each_runtime_input_once(runtime_inputs: Set<Seq<char>>)
    requires
        runtime_inputs.finite(),
        runtime_inputs != Set::<Seq<char>>::empty(),
    ensures
        library_path_declaration_text(runtime_inputs) == declaration_text(
            "LD_LIBRARY_PATH"@,
            join_text(library_paths(runtime_inputs), PATH_SEPARATOR@),
        ),
        library_paths(runtime_inputs).len() == runtime_inputs.len(),
        forall|i: int|
            0 <= i < library_paths(runtime_inputs).len() ==> #[trigger] library_paths(
                runtime_inputs,
            )[i] == library_path_text(sorted_seq(runtime_inputs)[i]),
        lists(sorted_seq(runtime_inputs), runtime_inputs),
        sorted_seq(runtime_inputs).no_duplicates(),
        forall|name: Seq<char>|
            runtime_inputs.contains(name) <==> sorted_seq(runtime_inputs).contains(name),
{
    lemma_listing_exists(runtime_inputs);
    assert(!(runtime_inputs =~= Set::<Seq<char>>::empty()));
    assert forall|name: Seq<char>|
        runtime_inputs.contains(name) <==> sorted_seq(runtime_inputs).contains(name) by {
        assert(sorted_seq(runtime_inputs).to_set().contains(name) <==> sorted_seq(
            runtime_inputs,
        ).contains(name));
    }
}

} // verus!
