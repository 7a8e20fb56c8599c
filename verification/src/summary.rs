//! The line that tells the user what was found, in colour.

use crate::flake::input_listing;
use crate::model::EnvModel;
use crate::name_set::NameSet;
use crate::text::{join, join_text, sorted_seq, texts};
use crate::text_map::TextMap;
use owo_colors::OwoColorize;
use vstd::prelude::*;

verus! {

/// A text in cyan.
pub open spec fn cyan_text(text: Seq<char>) -> Seq<char> {
    "\x1b[36m"@ + text + "\x1b[39m"@
}

/// A text in green.
pub open spec fn green_text(text: Seq<char>) -> Seq<char> {
    "\x1b[32m"@ + text + "\x1b[39m"@
}

/// A text in red.
pub open spec fn red_text(text: Seq<char>) -> Seq<char> {
    "\x1b[31m"@ + text + "\x1b[39m"@
}

/// A text in bold.
pub open spec fn bold_text(text: Seq<char>) -> Seq<char> {
    "\x1b[1m"@ + text + "\x1b[0m"@
}

/// The inputs of the summary: build and runtime inputs together, in the
/// listing order, each in cyan.
pub open spec fn summary_inputs(env: EnvModel) -> Seq<Seq<char>> {
    Seq::new(input_listing(env).len(), |i: int| cyan_text(input_listing(env)[i]))
}

/// The variables of the summary: their names in the listing order, each
/// in green.
pub open spec fn summary_variables(variables: Map<Seq<char>, Seq<char>>) -> Seq<Seq<char>> {
    Seq::new(
        sorted_seq(variables.dom()).len(),
        |i: int| green_text(sorted_seq(variables.dom())[i]),
    )
}

/// The part of the summary on the variables: nothing where there is
/// none, else their names in brackets.
pub open spec fn summary_variables_text(variables: Map<Seq<char>, Seq<char>>) -> Seq<char> {
    if variables =~= Map::empty() {
        Seq::empty()
    } else {
        " ("@ + join_text(summary_variables(variables), ", "@) + ")"@
    }
}

/// The summary of what was found for a Rust project.
pub open spec fn summary_text(env: EnvModel) -> Seq<char> {
    green_text("\u{2713}"@) + " "@ + red_text(bold_text("\u{1f980} rust"@)) + ": "@ + join_text(
        summary_inputs(env),
        ", "@,
    ) + summary_variables_text(env.environment_variables)
}

/// `OwoColorize::cyan`, written out: the escape sequence that sets the
/// foreground to cyan, the text, and the one that resets the foreground.
#[verifier::external_body]
fn cyan(text: &str) -> (out: String)
    ensures
        out@ == cyan_text(text@),
{
    format!("{}", text.cyan())
}

/// `OwoColorize::green`, written out: the escape sequence that sets the
/// foreground to green, the text, and the one that resets the foreground.
#[verifier::external_body]
fn green(text: &str) -> (out: String)
    ensures
        out@ == green_text(text@),
{
    format!("{}", text.green())
}

/// `OwoColorize::red`, written out: the escape sequence that sets the
/// foreground to red, the text, and the one that resets the foreground.
#[verifier::external_body]
fn red(text: &str) -> (out: String)
    ensures
        out@ == red_text(text@),
{
    format!("{}", text.red())
}

/// `OwoColorize::bold`, written out: the escape sequence that switches
/// bold on, the text, and the one that resets all attributes.
#[verifier::external_body]
fn bold(text: &str) -> (out: String)
    ensures
        out@ == bold_text(text@),
{
    format!("{}", text.bold())
}

/// Writes the summary of what was found for a Rust project: the inputs,
/// and the names of the variables if there are any.
pub fn summary(
    build_inputs: &NameSet,
    runtime_inputs: &NameSet,
    environment_variables: &TextMap<String>,
) -> (text: String)
    ensures
        text@ == summary_text(
            EnvModel {
                build_inputs: build_inputs@,
                runtime_inputs: runtime_inputs@,
                environment_variables: environment_variables@,
                detected_languages: Set::empty(),
            },
        ),
{
    let ghost env = EnvModel {
        build_inputs: build_inputs@,
        runtime_inputs: runtime_inputs@,
        environment_variables: environment_variables@,
        detected_languages: Set::empty(),
    };
    let mut inputs = NameSet::new();
    inputs.extend(build_inputs);
    inputs.extend(runtime_inputs);
    assert(inputs@ =~= build_inputs@.union(runtime_inputs@));
    let n = inputs.len();
    let mut coloured: Vec<String> = Vec::new();
    let mut i: usize = 0;
    while i < n
        invariant
            i <= n,
            n == inputs.listing().len(),
            inputs.listing() == input_listing(env),
            coloured.len() == i,
            forall|j: int| 0 <= j < i ==> coloured@[j]@ == summary_inputs(env)[j],
        decreases n - i,
    {
        let name = cyan(inputs.name_at(i).as_str());
        coloured.push(name);
        i = i + 1;
    }
    assert(texts(coloured@) =~= summary_inputs(env));
    let tick = green("\u{2713}");
    let label = bold("\u{1f980} rust");
    let label = red(label.as_str());
    let mut text = tick;
    text.append(" ");
    text.append(label.as_str());
    text.append(": ");
    let listed = join(&coloured, ", ");
    text.append(listed.as_str());
    let m = environment_variables.len();
    if m > 0 {
        let mut names: Vec<String> = Vec::new();
        let mut k: usize = 0;
        while k < m
            invariant
                k <= m,
                m == environment_variables.listing().len(),
                names.len() == k,
                forall|j: int|
                    0 <= j < k ==> names@[j]@ == summary_variables(environment_variables@)[j],
            decreases m - k,
        {
            let name = green(environment_variables.key_at(k).as_str());
            names.push(name);
            k = k + 1;
        }
        assert(texts(names@) =~= summary_variables(environment_variables@));
        let listed = join(&names, ", ");
        proof {
            assert(environment_variables@.dom().contains(environment_variables.listing()[0]));
        }
        text.append(" (");
        text.append(listed.as_str());
        text.append(")");
    } else {
        proof {
            assert(environment_variables@.dom().len() == 0);
            assert(environment_variables@.dom() =~= Set::<Seq<char>>::empty());
            assert(environment_variables@ =~= Map::<Seq<char>, Seq<char>>::empty());
        }
    }
    text
}

} // verus!
