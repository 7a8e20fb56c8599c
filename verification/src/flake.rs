//! The text of the flake that provides a synthesised environment.

use crate::model::EnvModel;
use crate::name_set::NameSet;
use crate::text::{join, join_text, lists, sorted_seq, texts};
use crate::text_map::TextMap;
use vstd::prelude::*;

verus! {

/// The flake up to the list of build inputs.
pub const FLAKE_HEAD: &'static str = "{
  inputs = {
    nixpkgs.url = \"github:NixOS/nixpkgs/nixpkgs-unstable\";
  };

  outputs = { self, nixpkgs }:
    let
      systems = [ \"x86_64-linux\" \"aarch64-linux\" \"x86_64-darwin\" \"aarch64-darwin\" ];
      forAllSystems = f: nixpkgs.lib.genAttrs systems (system: f {
        pkgs = import nixpkgs { inherit system; };
      });
    in
    {
      devShells = forAllSystems ({ pkgs }: with pkgs; {
        default = stdenv.mkDerivation ({
          name = \"riff-shell\";
          buildInputs = [ ";

/// What stands between the build inputs and the library search path.
pub const FLAKE_AFTER_INPUTS: &'static str = " ];
          ";

/// What stands between the library search path and the variables.
pub const FLAKE_AFTER_LIBRARY_PATH: &'static str = "
        } // {
          ";

/// The flake after the variables.
pub const FLAKE_TAIL: &'static str = "
        });
      });
    };
}
";

/// The separator of the build inputs.
pub const INPUT_SEPARATOR: &'static str = " ";

/// The separator of the variable declarations.
pub const DECLARATION_SEPARATOR: &'static str = "\n";

/// The separator of the entries of the library search path.
pub const PATH_SEPARATOR: &'static str = ":";

/// The declaration of one attribute: the name in quotes, the value in
/// quotes, as they are.
pub open spec fn declaration_text(name: Seq<char>, value: Seq<char>) -> Seq<char> {
    "\""@ + name + "\" = \""@ + value + "\";"@
}

/// Where the libraries of a runtime input are found.
pub open spec fn library_path_text(name: Seq<char>) -> Seq<char> {
    "${lib.getLib "@ + name + "}/lib"@
}

/// The declarations of the variables, one for each name, in the listing
/// order of the names.
pub open spec fn variable_declarations(variables: Map<Seq<char>, Seq<char>>) -> Seq<Seq<char>> {
    let names = sorted_seq(variables.dom());
    Seq::new(names.len(), |i: int| declaration_text(names[i], variables[names[i]]))
}

/// The entries of the library search path, one for each runtime input, in
/// the listing order of the inputs.
pub open spec fn library_paths(runtime_inputs: Set<Seq<char>>) -> Seq<Seq<char>> {
    let names = sorted_seq(runtime_inputs);
    Seq::new(names.len(), |i: int| library_path_text(names[i]))
}

/// The declaration of the library search path: nothing where there is no
/// runtime input.
pub open spec fn library_path_declaration_text(runtime_inputs: Set<Seq<char>>) -> Seq<char> {
    if runtime_inputs =~= Set::empty() {
        Seq::empty()
    } else {
        declaration_text(
            "LD_LIBRARY_PATH"@,
            join_text(library_paths(runtime_inputs), PATH_SEPARATOR@),
        )
    }
}

/// The build inputs as the flake lists them: build and runtime inputs
/// together, in the listing order.
pub open spec fn input_listing(env: EnvModel) -> Seq<Seq<char>> {
    sorted_seq(env.build_inputs.union(env.runtime_inputs))
}

/// The flake of an environment.
pub open spec fn flake_text(env: EnvModel) -> Seq<char> {
    FLAKE_HEAD@ + join_text(input_listing(env), INPUT_SEPARATOR@) + FLAKE_AFTER_INPUTS@
        + library_path_declaration_text(env.runtime_inputs) + FLAKE_AFTER_LIBRARY_PATH@
        + join_text(variable_declarations(env.environment_variables), DECLARATION_SEPARATOR@)
        + FLAKE_TAIL@
}

/// Writes the declaration of one attribute.
pub fn declaration(name: &str, value: &str) -> (text: String)
    ensures
        text@ == declaration_text(name@, value@),
{
    let mut text = "\"".to_string();
    text.append(name);
    text.append("\" = \"");
    text.append(value);
    text.append("\";");
    text
}

/// Writes where the libraries of a runtime input are found.
pub fn library_path(name: &str) -> (text: String)
    ensures
        text@ == library_path_text(name@),
{
    let mut text = "${lib.getLib ".to_string();
    text.append(name);
    text.append("}/lib");
    text
}

/// Writes the declaration of the library search path: the empty string
/// where there is no runtime input, else one entry for each of them.
pub fn library_path_declaration(runtime_inputs: &NameSet) -> (text: String)
    ensures
        text@ == library_path_declaration_text(runtime_inputs@),
{
    let n = runtime_inputs.len();
    if n == 0 {
        proof {
            assert(runtime_inputs@ =~= Set::<Seq<char>>::empty()) by {
                assert(runtime_inputs@.len() == 0);
            }
        }
        return String::new();
    }
    let mut paths: Vec<String> = Vec::new();
    let mut i: usize = 0;
    while i < n
        invariant
            i <= n,
            n == runtime_inputs.listing().len(),
            paths.len() == i,
            forall|j: int| 0 <= j < i ==> paths@[j]@ == library_paths(runtime_inputs@)[j],
        decreases n - i,
    {
        let path = library_path(runtime_inputs.name_at(i).as_str());
        paths.push(path);
        i = i + 1;
    }
    proof {
        assert(texts(paths@) =~= library_paths(runtime_inputs@));
        assert(runtime_inputs@.contains(runtime_inputs.listing()[0]));
    }
    let joined = join(&paths, PATH_SEPARATOR);
    declaration("LD_LIBRARY_PATH", joined.as_str())
}

/// Writes the declarations of the variables, separated by line breaks.
pub fn variables_text(variables: &TextMap<String>) -> (text: String)
    ensures
        text@ == join_text(variable_declarations(variables@), DECLARATION_SEPARATOR@),
{
    let n = variables.len();
    let mut declarations: Vec<String> = Vec::new();
    let mut i: usize = 0;
    while i < n
        invariant
            i <= n,
            n == variables.listing().len(),
            declarations.len() == i,
            forall|j: int|
                0 <= j < i ==> declarations@[j]@ == variable_declarations(variables@)[j],
        decreases n - i,
    {
        let text = declaration(variables.key_at(i).as_str(), variables.value_at(i).as_str());
        declarations.push(text);
        i = i + 1;
    }
    proof {
        assert(texts(declarations@) =~= variable_declarations(variables@));
    }
    join(&declarations, DECLARATION_SEPARATOR)
}

/// Writes the build inputs as the flake lists them.
pub fn inputs_text(build_inputs: &NameSet, runtime_inputs: &NameSet) -> (text: String)
    ensures
        text@ == join_text(
            sorted_seq(build_inputs@.union(runtime_inputs@)),
            INPUT_SEPARATOR@,
        ),
{
    let mut inputs = NameSet::new();
    inputs.extend(build_inputs);
    inputs.extend(runtime_inputs);
    assert(inputs@ =~= build_inputs@.union(runtime_inputs@));
    let names = inputs.to_vec();
    join(&names, INPUT_SEPARATOR)
}

} // verus!
