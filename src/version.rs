//! Choosing the versioned subdirectory among the entries of a category
//! directory.
use vstd::prelude::*;

use crate::names::{
    has_prefix, lemma_lex_le_antisymmetric, lemma_lex_le_reflexive, lemma_lex_le_total,
    lemma_lex_le_transitive, lex_le, name_le,
};

verus! {

/// The prefix that marks a subdirectory as an SDK version.
pub const VERSION_PREFIX: &'static str = "10.";

/// A name that starts with `10.`.
pub open spec fn is_version_name(n: Seq<char>) -> bool {
    VERSION_PREFIX@.is_prefix_of(n)
}

/// Entry `i` of a listing was read and is named `n`. An entry that could not
/// be read, or whose name is not text, is `None`.
pub open spec fn entry_named(entries: Seq<Option<String>>, i: int, n: Seq<char>) -> bool {
    &&& 0 <= i < entries.len()
    &&& entries[i] is Some
    &&& entries[i]->Some_0@ == n
}

/// `n` names a readable entry of the listing and starts with `10.`.
pub open spec fn is_candidate(entries: Seq<Option<String>>, n: Seq<char>) -> bool {
    &&& is_version_name(n)
    &&& exists|i: int| #[trigger] entry_named(entries, i, n)
}

/// `n` is the greatest candidate of the listing in ordinal order.
pub open spec fn is_latest(entries: Seq<Option<String>>, n: Seq<char>) -> bool {
    &&& is_candidate(entries, n)
    &&& forall|m: Seq<char>| #[trigger] is_candidate(entries, m) ==> lex_le(m, n)
}

/// The listing holds no candidate at all.
pub open spec fn has_no_candidate(entries: Seq<Option<String>>) -> bool {
    forall|n: Seq<char>| !#[trigger] is_candidate(entries, n)
}

/// Selecting from one listing twice gives one answer: a listing has at most
/// one greatest candidate.
pub proof fn lemma_latest_unique(entries: Seq<Option<String>>, a: Seq<char>, b: Seq<char>)
    requires
        is_latest(entries, a),
        is_latest(entries, b),
    ensures
        a == b,
{
    assert(is_candidate(entries, a));
    assert(is_candidate(entries, b));
    lemma_lex_le_antisymmetric(a, b);
}

/// The candidates of the first `i + 1` entries are those of the first `i`
/// and the name of entry `i`, if that is one.
proof fn lemma_candidates_extend(entries: Seq<Option<String>>, i: int, n: Seq<char>)
    requires
        0 <= i < entries.len(),
    ensures
        is_candidate(entries.subrange(0, i + 1), n) == (is_candidate(entries.subrange(0, i), n)
            || (is_version_name(n) && entry_named(entries, i, n))),
{
    let pre = entries.subrange(0, i);
    let post = entries.subrange(0, i + 1);
    if is_candidate(post, n) {
        let k = choose|k: int| entry_named(post, k, n);
        if k < i {
            assert(entry_named(pre, k, n));
        } else {
            assert(entry_named(entries, i, n));
        }
    }
    if is_candidate(pre, n) {
        let k = choose|k: int| entry_named(pre, k, n);
        assert(entry_named(post, k, n));
    }
    if is_version_name(n) && entry_named(entries, i, n) {
        assert(entry_named(post, i, n));
    }
}

/// The name among `entries` that starts with `10.` and is greatest in
/// ordinal order; `None` where no readable entry starts with `10.`.
pub fn latest_version(entries: &Vec<Option<String>>) -> (r: Option<String>)
    ensures
        r is None <==> has_no_candidate(entries@),
        r is Some ==> is_latest(entries@, r->Some_0@),
{
    let mut best: Option<String> = None;
    let mut i: usize = 0;
    while i < entries.len()
        invariant
            i <= entries.len(),
            best is None <==> has_no_candidate(entries@.subrange(0, i as int)),
            best is Some ==> is_latest(entries@.subrange(0, i as int), best->Some_0@),
        decreases entries.len() - i,
    {
        let ghost pre = entries@.subrange(0, i as int);
        let ghost post = entries@.subrange(0, i + 1);
        let ghost old_best = best;
        proof {
            assert forall|m: Seq<char>| #[trigger] is_candidate(post, m) == (is_candidate(pre, m)
                || (is_version_name(m) && entry_named(entries@, i as int, m))) by {
                lemma_candidates_extend(entries@, i as int, m);
            }
            if old_best is Some {
                assert(is_candidate(pre, old_best->Some_0@));
                assert(is_candidate(post, old_best->Some_0@));
            }
        }
        if let Some(name) = &entries[i] {
            assert(entry_named(entries@, i as int, name@));
            if has_prefix(name.as_str(), VERSION_PREFIX) {
                assert(entry_named(post, i as int, name@));
                assert(is_candidate(post, name@));
                let take = match &best {
                    None => true,
                    Some(b) => name_le(b.as_str(), name.as_str()),
                };
                if take {
                    best = Some(name.clone());
                    proof {
                        assert forall|m: Seq<char>| #[trigger] is_candidate(post, m) implies lex_le(
                            m,
                            name@,
                        ) by {
                            if is_candidate(pre, m) {
                                lemma_lex_le_transitive(m, old_best->Some_0@, name@);
                            } else {
                                lemma_lex_le_reflexive(name@);
                            }
                        }
                    }
                } else {
                    proof {
                        lemma_lex_le_total(old_best->Some_0@, name@);
                        assert forall|m: Seq<char>| #[trigger] is_candidate(post, m) implies lex_le(
                            m,
                            old_best->Some_0@,
                        ) by {
                            if !is_candidate(pre, m) {
                                assert(m == name@);
                            }
                        }
                    }
                }
            } else {
                assert forall|m: Seq<char>| #[trigger] is_candidate(post, m) implies is_candidate(
                    pre,
                    m,
                ) by {
                    if !is_candidate(pre, m) {
                        assert(m == name@);
                    }
                }
            }
        } else {
            assert forall|m: Seq<char>| #[trigger] is_candidate(post, m) implies is_candidate(
                pre,
                m,
            ) by {}
        }
        i = i + 1;
    }
    assert(entries@.subrange(0, entries@.len() as int) =~= entries@);
    best
}

} // verus!
