//! The set of languages that detection found.

use crate::dev_env::DetectedLanguage;
use vstd::prelude::*;

verus! {

/// A set of languages, in the order in which they were found.
#[derive(Debug)]
pub struct LanguageSet {
    found: Vec<DetectedLanguage>,
}

impl Clone for LanguageSet {
    /// A set with the same languages.
    fn clone(&self) -> (s: Self)
        ensures
            s@ == self@,
    {
        proof {
            use_type_invariant(self);
        }
        let found = self.found.clone();
        assert(found@ =~= self.found@);
        LanguageSet { found }
    }
}

impl View for LanguageSet {
    type V = Set<DetectedLanguage>;

    closed spec fn view(&self) -> Set<DetectedLanguage> {
        self.found@.to_set()
    }
}

impl LanguageSet {
    #[verifier::type_invariant]
    spec fn well_formed(&self) -> bool {
        self.found@.no_duplicates()
    }

    /// An empty set.
    pub fn new() -> (s: Self)
        ensures
            s@ == Set::<DetectedLanguage>::empty(),
    {
        let s = LanguageSet { found: Vec::new() };
        assert(s@ =~= Set::<DetectedLanguage>::empty());
        s
    }

    /// Whether a language is in the set.
    pub fn contains(&self, language: DetectedLanguage) -> (b: bool)
        ensures
            b == self@.contains(language),
    {
        let n = self.found.len();
        let mut i: usize = 0;
        while i < n
            invariant
                i <= n,
                n == self.found.len(),
                forall|j: int| 0 <= j < i ==> self.found@[j] != language,
            decreases n - i,
        {
            if self.found[i] == language {
                assert(self.found@.contains(language));
                return true;
            }
            i = i + 1;
        }
        false
    }

    /// Adds a language; says whether it was new.
    pub fn insert(&mut self, language: DetectedLanguage) -> (fresh: bool)
        ensures
            final(self)@ == old(self)@.insert(language),
            fresh == !old(self)@.contains(language),
    {
        proof {
            use_type_invariant(&*self);
        }
        if self.contains(language) {
            assert(self@ =~= old(self)@.insert(language));
            false
        } else {
            let mut found: Vec<DetectedLanguage> = Vec::new();
            std::mem::swap(&mut found, &mut self.found);
            let ghost before = found@;
            found.push(language);
            proof {
                assert(found@.to_set() =~= before.to_set().insert(language)) by {
                    assert forall|x: DetectedLanguage|
                        found@.to_set().contains(x) <==> before.to_set().insert(
                            language,
                        ).contains(x) by {
                        if found@.contains(x) {
                            let j = choose|j: int| 0 <= j < found@.len() && found@[j] == x;
                            if j < before.len() {
                                assert(before[j] == x);
                            }
                        }
                        if before.contains(x) {
                            let j = choose|j: int| 0 <= j < before.len() && before[j] == x;
                            assert(found@[j] == x);
                        }
                        if x == language {
                            assert(found@[before.len() as int] == x);
                        }
                    }
                }
            }
            self.found = found;
            true
        }
    }

    /// The number of languages in the set.
    pub fn len(&self) -> (n: usize)
        ensures
            n == self@.len(),
            self@.finite(),
    {
        proof {
            use_type_invariant(self);
            self.found@.unique_seq_to_set();
            vstd::seq_lib::seq_to_set_is_finite(self.found@);
        }
        self.found.len()
    }

    /// The languages of the set, each once.
    pub fn to_vec(&self) -> (languages: Vec<DetectedLanguage>)
        ensures
            languages@.to_set() == self@,
            languages@.no_duplicates(),
    {
        proof {
            use_type_invariant(self);
        }
        self.found.clone()
    }
}

} // verus!
