//! Matching a requested chromosome name against the names a file uses.
//!
//! A file writes its chromosomes either bare (`20`) or prefixed (`chr20`).
//! A request is tried as given and then in the other spelling.

use vstd::prelude::*;
use vstd::string::*;

verus! {

/// `s` starts with the letters `chr`.
pub open spec fn has_chr_prefix(s: Seq<char>) -> bool {
    s.len() >= 3 && s[0] == 'c' && s[1] == 'h' && s[2] == 'r'
}

/// The other spelling of a name: without its `chr` prefix if it has one,
/// with the prefix if it has none.
pub open spec fn alternate_spelling(s: Seq<char>) -> Seq<char> {
    if has_chr_prefix(s) {
        s.skip(3)
    } else {
        seq!['c', 'h', 'r'] + s
    }
}

/// `name` is one of `names`, letter for letter.
pub open spec fn is_known(names: Seq<String>, name: Seq<char>) -> bool {
    exists|i: int| 0 <= i < names.len() && #[trigger] names[i]@ == name
}

/// The name under which a file knows a requested chromosome: the request
/// itself if the file uses it, else its other spelling if the file uses
/// that, else nothing.
pub open spec fn resolve(names: Seq<String>, requested: Seq<char>) -> Option<Seq<char>> {
    if is_known(names, requested) {
        Some(requested)
    } else if is_known(names, alternate_spelling(requested)) {
        Some(alternate_spelling(requested))
    } else {
        None
    }
}

/// A name that the file uses is matched as it stands; a name whose other
/// spelling alone the file uses is matched in that spelling.
pub proof fn lemma_known_name_is_matched(names: Seq<String>, requested: Seq<char>)
    ensures
        is_known(names, requested) ==> resolve(names, requested) == Some(requested),
        !is_known(names, requested) && is_known(names, alternate_spelling(requested)) ==> resolve(
            names,
            requested,
        ) == Some(alternate_spelling(requested)),
        resolve(names, requested) is Some ==> is_known(names, resolve(names, requested).unwrap()),
{
}

/// Writes a name in its other spelling.
pub fn alternate_chromosome_name(chromosome: &str) -> (other: String)
    ensures
        other@ == alternate_spelling(chromosome@),
{
    let n: usize = chromosome.unicode_len();
    if n >= 3 && chromosome.get_char(0) == 'c' && chromosome.get_char(1) == 'h'
        && chromosome.get_char(2) == 'r' {
        let rest = chromosome.substring_char(3, n);
        assert(chromosome@.subrange(3, n as int) == chromosome@.skip(3));
        String::from_str(rest)
    } else {
        proof {
            reveal_strlit("chr");
            assert("chr"@ =~= seq!['c', 'h', 'r']);
        }
        String::from_str("chr").concat(chromosome)
    }
}

/// The two spellings under which a request is tried, in the order of trial.
pub fn get_chromosome_variants(chromosome: &str) -> (spellings: Vec<String>)
    ensures
        spellings@.len() == 2,
        spellings@[0]@ == chromosome@,
        spellings@[1]@ == alternate_spelling(chromosome@),
{
    let mut spellings: Vec<String> = Vec::new();
    spellings.push(String::from_str(chromosome));
    spellings.push(alternate_chromosome_name(chromosome));
    spellings
}

/// Tells whether `name` is among `names`.
pub fn contains_name(names: &Vec<String>, name: &String) -> (found: bool)
    ensures
        found == is_known(names@, name@),
{
    let mut i: usize = 0;
    while i < names.len()
        invariant
            i <= names.len(),
            forall|j: int| 0 <= j < i ==> names@[j]@ != name@,
        decreases names.len() - i,
    {
        if names[i] == *name {
            return true;
        }
        i += 1;
    }
    false
}

/// Resolves a requested chromosome against the names that a file uses.
/// Matching is case-sensitive; that nothing matches is an ordinary outcome.
pub fn resolve_chromosome(names: &Vec<String>, chromosome: &str) -> (matched: Option<String>)
    ensures
        matched is Some == resolve(names@, chromosome@) is Some,
        matched is Some ==> Some(matched.unwrap()@) == resolve(names@, chromosome@),
{
    let as_given = String::from_str(chromosome);
    if contains_name(names, &as_given) {
        return Some(as_given);
    }
    let other = alternate_chromosome_name(chromosome);
    if contains_name(names, &other) {
        return Some(other);
    }
    None
}

/// The first names of a list, five at most: what a caller is shown when a
/// chromosome was not recognised.
pub fn sample_names(names: &Vec<String>) -> (sample: Vec<String>)
    ensures
        sample@ == names@.take(if names@.len() < 5 { names@.len() as int } else { 5 }),
{
    let mut sample: Vec<String> = Vec::new();
    let mut i: usize = 0;
    while i < names.len() && i < 5
        invariant
            i <= names.len(),
            i <= 5,
            sample@ == names@.take(i as int),
        decreases names.len() - i,
    {
        sample.push(names[i].clone());
        assert(names@.take(i + 1) =~= names@.take(i as int).push(names@[i as int]));
        i += 1;
    }
    sample
}

} // verus!
