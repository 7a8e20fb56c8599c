//! Telling a project's language from the files at its root.

use crate::dev_env::DetectedLanguage;
use crate::text::{compare_text, texts, Rank};
use vstd::prelude::*;

verus! {

/// The file at a project's root that marks a language, which is also the
/// project's manifest.
pub open spec fn marker_text(language: DetectedLanguage) -> Seq<char> {
    match language {
        DetectedLanguage::Rust => "Cargo.toml"@,
    }
}

/// The languages that detection knows, in the order in which their
/// markers are looked for.
pub open spec fn known_languages_seq() -> Seq<DetectedLanguage> {
    seq![DetectedLanguage::Rust]
}

/// The first of a sequence of languages whose marker is among the files.
pub open spec fn first_marked(languages: Seq<DetectedLanguage>, files: Seq<Seq<char>>) -> Option<
    DetectedLanguage,
>
    decreases languages.len(),
{
    if languages.len() == 0 {
        None
    } else if files.contains(marker_text(languages[0])) {
        Some(languages[0])
    } else {
        first_marked(languages.drop_first(), files)
    }
}

/// The language of a project with these files at its root, if it is a
/// known one.
pub open spec fn detected(files: Seq<Seq<char>>) -> Option<DetectedLanguage> {
    first_marked(known_languages_seq(), files)
}

/// What the first marked language is: its marker is among the files, and
/// the marker of no language before it; there is none exactly where no
/// language's marker is among the files.
pub proof fn lemma_first_marked(languages: Seq<DetectedLanguage>, files: Seq<Seq<char>>)
    ensures
        match first_marked(languages, files) {
            Some(language) => exists|i: int|
                0 <= i < languages.len() && #[trigger] languages[i] == language && files.contains(
                    marker_text(language),
                ) && forall|j: int|
                    0 <= j < i ==> !files.contains(marker_text(#[trigger] languages[j])),
            None => forall|j: int|
                0 <= j < languages.len() ==> !files.contains(
                    marker_text(#[trigger] languages[j]),
                ),
        },
    decreases languages.len(),
{
    if languages.len() == 0 {
    } else if files.contains(marker_text(languages[0])) {
        assert(languages[0] == languages[0]);
    } else {
        let rest = languages.drop_first();
        lemma_first_marked(rest, files);
        match first_marked(rest, files) {
            Some(language) => {
                let i = choose|i: int|
                    0 <= i < rest.len() && #[trigger] rest[i] == language && files.contains(
                        marker_text(language),
                    ) && forall|j: int|
                        0 <= j < i ==> !files.contains(marker_text(#[trigger] rest[j]));
                assert(languages[i + 1] == language);
                assert forall|j: int| 0 <= j < i + 1 implies !files.contains(
                    marker_text(#[trigger] languages[j]),
                ) by {
                    if j > 0 {
                        assert(rest[j - 1] == languages[j]);
                    }
                }
            },
            None => {
                assert forall|j: int| 0 <= j < languages.len() implies !files.contains(
                    marker_text(#[trigger] languages[j]),
                ) by {
                    if j > 0 {
                        assert(rest[j - 1] == languages[j]);
                    }
                }
            },
        }
    }
}

/// Detection fails exactly on a root that holds the marker of no known
/// language; a root that holds the marker of Rust is a Rust project's.
pub proof fn law_detection(files: Seq<Seq<char>>)
    ensures
        detected(files) is None <==> forall|j: int|
            0 <= j < known_languages_seq().len() ==> !files.contains(
                marker_text(#[trigger] known_languages_seq()[j]),
            ),
        detected(files) matches Some(language) ==> files.contains(marker_text(language)),
        files.contains(marker_text(DetectedLanguage::Rust)) <==> detected(files) == Some(
            DetectedLanguage::Rust,
        ),
{
    lemma_first_marked(known_languages_seq(), files);
    assert(known_languages_seq()[0] == DetectedLanguage::Rust);
    reveal_with_fuel(first_marked, 2);
}

impl DetectedLanguage {
    /// The file at a project's root that marks the language.
    pub fn marker_file(&self) -> (name: &'static str)
        ensures
            name@ == marker_text(*self),
    {
        match self {
            DetectedLanguage::Rust => "Cargo.toml",
        }
    }
}

/// The languages that detection knows, in the order in which their
/// markers are looked for.
pub fn known_languages() -> (languages: Vec<DetectedLanguage>)
    ensures
        languages@ == known_languages_seq(),
{
    let mut languages: Vec<DetectedLanguage> = Vec::new();
    languages.push(DetectedLanguage::Rust);
    assert(languages@ =~= known_languages_seq());
    languages
}

/// Whether a name is among the names of a list.
pub fn contains_name(names: &Vec<String>, name: &str) -> (found: bool)
    ensures
        found == texts(names@).contains(name@),
{
    let n = names.len();
    let mut i: usize = 0;
    while i < n
        invariant
            i <= n,
            n == names.len(),
            forall|j: int| 0 <= j < i ==> texts(names@)[j] != name@,
        decreases n - i,
    {
        if compare_text(names[i].as_str(), name) == Rank::Same {
            assert(texts(names@)[i as int] == name@);
            return true;
        }
        i = i + 1;
    }
    false
}

/// Tells the language of a project from the names of the files at its
/// root: the first known language whose marker is among them.
pub fn detect_language(root_files: &Vec<String>) -> (language: Option<DetectedLanguage>)
    ensures
        language == detected(texts(root_files@)),
{
    let languages = known_languages();
    let n = languages.len();
    let mut i: usize = 0;
    assert(languages@.skip(0) =~= languages@);
    while i < n
        invariant
            i <= n,
            n == languages.len(),
            languages@ == known_languages_seq(),
            detected(texts(root_files@)) == first_marked(
                languages@.skip(i as int),
                texts(root_files@),
            ),
        decreases n - i,
    {
        let language = languages[i];
        proof {
            assert(languages@.skip(i as int)[0] == language);
            assert(languages@.skip(i as int).drop_first() =~= languages@.skip(i + 1));
        }
        if contains_name(root_files, language.marker_file()) {
            return Some(language);
        }
        i = i + 1;
    }
    None
}

} // verus!
