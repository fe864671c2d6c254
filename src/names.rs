//! File names as bytes: the naming convention of journal files, their order,
//! and the choice of the newest one in a directory listing.
use vstd::prelude::*;

verus! {

/// Lexical order on byte strings: `a` comes strictly before `b`.
pub open spec fn lex_less(a: Seq<u8>, b: Seq<u8>) -> bool
    decreases a.len(),
{
    if a.len() == 0 {
        b.len() > 0
    } else if b.len() == 0 {
        false
    } else if a[0] != b[0] {
        a[0] < b[0]
    } else {
        lex_less(a.skip(1), b.skip(1))
    }
}

/// `name` starts with `prefix` and ends with `suffix`, the two not
/// overlapping.
pub open spec fn matches_naming(name: Seq<u8>, prefix: Seq<u8>, suffix: Seq<u8>) -> bool {
    &&& name.len() >= prefix.len() + suffix.len()
    &&& name.take(prefix.len() as int) == prefix
    &&& name.skip(name.len() - suffix.len()) == suffix
}

/// Entry `i` of `names` follows the convention and no entry that follows it
/// comes after it.
pub open spec fn is_newest(names: Seq<Seq<u8>>, i: int, prefix: Seq<u8>, suffix: Seq<u8>) -> bool {
    &&& 0 <= i < names.len()
    &&& matches_naming(names[i], prefix, suffix)
    &&& forall|j: int|
        0 <= j < names.len() && matches_naming(names[j], prefix, suffix) ==> !lex_less(
            names[i],
            #[trigger] names[j],
        )
}

pub proof fn lemma_lex_transitive(a: Seq<u8>, b: Seq<u8>, c: Seq<u8>)
    requires
        lex_less(a, b),
        lex_less(b, c),
    ensures
        lex_less(a, c),
    decreases a.len(),
{
    if a.len() > 0 && b.len() > 0 && c.len() > 0 && a[0] == b[0] && b[0] == c[0] {
        lemma_lex_transitive(a.skip(1), b.skip(1), c.skip(1));
    }
}

pub proof fn lemma_lex_irreflexive(a: Seq<u8>)
    ensures
        !lex_less(a, a),
    decreases a.len(),
{
    if a.len() > 0 {
        lemma_lex_irreflexive(a.skip(1));
    }
}

/// Whether `a` comes strictly before `b` in lexical order.
pub fn lex_less_exec(a: &[u8], b: &[u8]) -> (r: bool)
    ensures
        r == lex_less(a@, b@),
{
    let mut i: usize = 0;
    assert(a@.skip(0) =~= a@);
    assert(b@.skip(0) =~= b@);
    while i < a.len() && i < b.len()
        invariant
            i <= a@.len(),
            i <= b@.len(),
            lex_less(a@, b@) == lex_less(a@.skip(i as int), b@.skip(i as int)),
        decreases a@.len() - i,
    {
        if a[i] != b[i] {
            return a[i] < b[i];
        }
        assert(a@.skip(i as int).skip(1) =~= a@.skip(i + 1));
        assert(b@.skip(i as int).skip(1) =~= b@.skip(i + 1));
        i = i + 1;
    }
    a.len() < b.len()
}

/// Whether `name` follows the naming convention given by `prefix` and
/// `suffix`.
pub fn matches_naming_exec(name: &[u8], prefix: &[u8], suffix: &[u8]) -> (r: bool)
    ensures
        r == matches_naming(name@, prefix@, suffix@),
{
    if name.len() < prefix.len() || name.len() - prefix.len() < suffix.len() {
        return false;
    }
    let mut i: usize = 0;
    while i < prefix.len()
        invariant
            name@.len() >= prefix@.len() + suffix@.len(),
            i <= prefix@.len(),
            forall|k: int| 0 <= k < i ==> name@[k] == prefix@[k],
        decreases prefix@.len() - i,
    {
        if name[i] != prefix[i] {
            assert(name@.take(prefix@.len() as int)[i as int] != prefix@[i as int]);
            return false;
        }
        i = i + 1;
    }
    assert(name@.take(prefix@.len() as int) =~= prefix@);
    let base = name.len() - suffix.len();
    let mut j: usize = 0;
    while j < suffix.len()
        invariant
            base + suffix@.len() == name@.len(),
            j <= suffix@.len(),
            forall|k: int| 0 <= k < j ==> name@[base + k] == suffix@[k],
        decreases suffix@.len() - j,
    {
        assert(base + j < name.len());
        if name[base + j] != suffix[j] {
            assert(name@.skip(base as int)[j as int] != suffix@[j as int]);
            return false;
        }
        j = j + 1;
    }
    assert(name@.skip(base as int) =~= suffix@);
    true
}

/// The index of the newest entry of `names` that follows the naming
/// convention, or `None` when none does.
pub fn select_newest(names: &Vec<Vec<u8>>, prefix: &[u8], suffix: &[u8]) -> (r: Option<usize>)
    ensures
        match r {
            Some(i) => is_newest(names@.map_values(|n: Vec<u8>| n@), i as int, prefix@, suffix@),
            None => forall|j: int|
                0 <= j < names@.len() ==> !matches_naming(#[trigger] names@[j]@, prefix@, suffix@),
        },
{
    let ghost ns = names@.map_values(|n: Vec<u8>| n@);
    let mut best: Option<usize> = None;
    let mut i: usize = 0;
    while i < names.len()
        invariant
            ns == names@.map_values(|n: Vec<u8>| n@),
            i <= names@.len(),
            match best {
                Some(b) => {
                    &&& b < i
                    &&& matches_naming(ns[b as int], prefix@, suffix@)
                    &&& forall|j: int|
                        0 <= j < i && matches_naming(ns[j], prefix@, suffix@) ==> !lex_less(
                            ns[b as int],
                            #[trigger] ns[j],
                        )
                },
                None => forall|j: int|
                    0 <= j < i ==> !matches_naming(#[trigger] ns[j], prefix@, suffix@),
            },
        decreases names@.len() - i,
    {
        let name = &names[i];
        if matches_naming_exec(name.as_slice(), prefix, suffix) {
            match best {
                None => {
                    proof {
                        lemma_lex_irreflexive(ns[i as int]);
                    }
                    best = Some(i);
                },
                Some(b) => {
                    if lex_less_exec(names[b].as_slice(), name.as_slice()) {
                        proof {
                            lemma_lex_irreflexive(ns[i as int]);
                            assert forall|j: int|
                                0 <= j < i + 1 && matches_naming(
                                    ns[j],
                                    prefix@,
                                    suffix@,
                                ) implies !lex_less(ns[i as int], #[trigger] ns[j]) by {
                                if j < i && lex_less(ns[i as int], ns[j]) {
                                    lemma_lex_transitive(ns[b as int], ns[i as int], ns[j]);
                                }
                            }
                        }
                        best = Some(i);
                    }
                },
            }
        }
        i = i + 1;
    }
    proof {
        if best is None {
            assert forall|j: int| 0 <= j < names@.len() implies !matches_naming(
                #[trigger] names@[j]@,
                prefix@,
                suffix@,
            ) by {
                assert(ns[j] == names@[j]@);
            }
        }
    }
    best
}

} // verus!
