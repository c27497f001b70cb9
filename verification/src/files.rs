//! Finding the chart and the music among the files of the app's documents folder.
use vstd::prelude::*;
use crate::text::{chars_of, ends_with_ignore_case, ends_with_ignoring_case};

verus! {

/// `a` comes before `b` in character order, comparing from position `i` on.
pub open spec fn lex_less_from(a: Seq<char>, b: Seq<char>, i: int) -> bool
    decreases a.len() - i,
{
    if i < 0 {
        false
    } else if i >= a.len() {
        i < b.len()
    } else if i >= b.len() {
        false
    } else if a[i] != b[i] {
        a[i] < b[i]
    } else {
        lex_less_from(a, b, i + 1)
    }
}

/// `a` comes before `b` in character order (a proper prefix comes first).
pub open spec fn lex_less(a: Seq<char>, b: Seq<char>) -> bool {
    lex_less_from(a, b, 0)
}

proof fn lemma_lex_transitive(a: Seq<char>, b: Seq<char>, c: Seq<char>, i: int)
    requires
        0 <= i,
        lex_less_from(a, b, i),
        lex_less_from(b, c, i),
    ensures
        lex_less_from(a, c, i),
    decreases a.len() - i,
{
    if i < a.len() && i < b.len() && i < c.len() && a[i] == b[i] && b[i] == c[i] {
        lemma_lex_transitive(a, b, c, i + 1);
    }
}

/// Whether `a` comes before `b` in character order.
pub fn chars_before(a: &Vec<char>, b: &Vec<char>) -> (less: bool)
    ensures
        less == lex_less(a@, b@),
{
    let mut i: usize = 0;
    while i < a.len() && i < b.len()
        invariant
            i <= a.len(),
            i <= b.len(),
            lex_less(a@, b@) == lex_less_from(a@, b@, i as int),
        decreases a.len() - i,
    {
        if a[i] != b[i] {
            return a[i] < b[i];
        }
        i += 1;
    }
    i < b.len()
}

/// The file name ends with one of the extensions (letters compared without regard to case).
pub open spec fn has_extension(name: Seq<char>, extensions: Seq<Seq<char>>) -> bool {
    exists|e: int| 0 <= e < extensions.len() && ends_with_ignoring_case(name, #[trigger] extensions[e])
}

fn matches_extension(name: &Vec<char>, extensions: &Vec<Vec<char>>) -> (m: bool)
    ensures
        m == has_extension(name@, extensions@.map_values(|e: Vec<char>| e@)),
{
    let ghost exts = extensions@.map_values(|e: Vec<char>| e@);
    let mut e: usize = 0;
    while e < extensions.len()
        invariant
            e <= extensions.len(),
            exts == extensions@.map_values(|e: Vec<char>| e@),
            forall|x: int| 0 <= x < e ==> !ends_with_ignoring_case(name@, #[trigger] exts[x]),
        decreases extensions.len() - e,
    {
        if ends_with_ignore_case(name, &extensions[e]) {
            assert(ends_with_ignoring_case(name@, exts[e as int]));
            return true;
        }
        e += 1;
    }
    false
}

pub open spec fn names_view(names: Seq<String>) -> Seq<Seq<char>> {
    names.map_values(|s: String| s@)
}

/// Picks, among the file names, the first in character order that has one of
/// the extensions; `None` when none has.
pub fn first_matching_file(names: &Vec<String>, extensions: &Vec<String>) -> (found: Option<usize>)
    ensures
        ({
            let ns = names_view(names@);
            let es = names_view(extensions@);
            &&& found matches Some(k) ==> k < ns.len() && has_extension(ns[k as int], es) && forall|
                j: int,
            |
                0 <= j < ns.len() && has_extension(#[trigger] ns[j], es) ==> !lex_less(ns[j], ns[k as int])
            &&& found is None ==> forall|j: int|
                0 <= j < ns.len() ==> !has_extension(#[trigger] ns[j], es)
        }),
{
    let ghost ns = names_view(names@);
    let ghost es = names_view(extensions@);
    let mut exts: Vec<Vec<char>> = Vec::new();
    let mut e: usize = 0;
    while e < extensions.len()
        invariant
            e <= extensions.len(),
            es == names_view(extensions@),
            exts@.map_values(|x: Vec<char>| x@) =~= es.take(e as int),
        decreases extensions.len() - e,
    {
        let ext = chars_of(extensions[e].as_str());
        assert(ext@ == es[e as int]);
        let ghost before = exts@;
        exts.push(ext);
        assert(exts@.map_values(|x: Vec<char>| x@) =~= before.map_values(|x: Vec<char>| x@).push(
            ext@,
        ));
        e += 1;
        assert(exts@.map_values(|x: Vec<char>| x@) =~= es.take(e as int));
    }
    assert(es.take(extensions.len() as int) =~= es);
    let mut best: Option<usize> = None;
    let mut best_name: Vec<char> = Vec::new();
    let mut j: usize = 0;
    while j < names.len()
        invariant
            j <= names.len(),
            ns == names_view(names@),
            es == exts@.map_values(|x: Vec<char>| x@),
            best matches Some(k) ==> k < j && best_name@ == ns[k as int] && has_extension(
                ns[k as int],
                es,
            ) && forall|m: int|
                0 <= m < j && has_extension(#[trigger] ns[m], es) ==> !lex_less(ns[m], ns[k as int]),
            best is None ==> forall|m: int| 0 <= m < j ==> !has_extension(#[trigger] ns[m], es),
        decreases names.len() - j,
    {
        let name = chars_of(names[j].as_str());
        assert(name@ == ns[j as int]);
        if matches_extension(&name, &exts) {
            match best {
                Some(k) => {
                    if chars_before(&name, &best_name) {
                        proof {
                            assert forall|m: int|
                                0 <= m < j + 1 && has_extension(#[trigger] ns[m], es) implies !lex_less(
                                ns[m],
                                ns[j as int],
                            ) by {
                                if m < j && lex_less(ns[m], ns[j as int]) {
                                    lemma_lex_transitive(ns[m], ns[j as int], ns[k as int], 0);
                                }
                                if m == j {
                                    lemma_lex_irreflexive(ns[m], 0);
                                }
                            }
                        }
                        best = Some(j);
                        best_name = name;
                    }
                },
                None => {
                    proof {
                        lemma_lex_irreflexive(ns[j as int], 0);
                    }
                    best = Some(j);
                    best_name = name;
                },
            }
        }
        j += 1;
    }
    best
}

proof fn lemma_lex_irreflexive(a: Seq<char>, i: int)
    requires
        0 <= i,
    ensures
        !lex_less_from(a, a, i),
    decreases a.len() - i,
{
    if i < a.len() {
        lemma_lex_irreflexive(a, i + 1);
    }
}

} // verus!
