//! Process names: how they are compared, put in lower case and freed of repetitions.
//!
//! Names are compared up to the case of ASCII letters. The model of a name is
//! its sequence of characters, the model of a list of names a sequence of those.

use vstd::prelude::*;

verus! {

/// `c` in lower case when it is one of the ASCII letters `A` to `Z`, and `c` itself otherwise.
pub open spec fn ascii_lowercase_char(c: char) -> char {
    if 'A' <= c && c <= 'Z' {
        ((c as u8 + 32) as u8) as char
    } else {
        c
    }
}

/// `name` with each of its ASCII capital letters in lower case.
pub open spec fn ascii_lowercase(name: Seq<char>) -> Seq<char> {
    Seq::new(name.len(), |i: int| ascii_lowercase_char(name[i]))
}

/// Two names are the same when they differ at most in the case of ASCII letters.
pub open spec fn same_name(a: Seq<char>, b: Seq<char>) -> bool {
    ascii_lowercase(a) == ascii_lowercase(b)
}

/// The texts of a list of strings.
pub open spec fn texts(list: Seq<String>) -> Seq<Seq<char>> {
    Seq::new(list.len(), |i: int| list[i]@)
}

/// Whether `name` is the same as some entry of `list`.
pub open spec fn listed(name: Seq<char>, list: Seq<Seq<char>>) -> bool {
    exists|i: int| 0 <= i < list.len() && same_name(name, #[trigger] list[i])
}

/// No two entries of `list` are the same name.
pub open spec fn distinct_names(list: Seq<Seq<char>>) -> bool {
    forall|i: int, j: int|
        0 <= i < j < list.len() ==> !same_name(#[trigger] list[i], #[trigger] list[j])
}

/// `list` without the entries that repeat, up to case, an entry before them.
pub open spec fn first_occurrences(list: Seq<Seq<char>>) -> Seq<Seq<char>>
    decreases list.len(),
{
    if list.len() == 0 {
        Seq::empty()
    } else {
        let before = first_occurrences(list.drop_last());
        if listed(list.last(), before) {
            before
        } else {
            before.push(list.last())
        }
    }
}

/// What `str::to_lowercase` makes of a text: its lower-case form by the Unicode rules.
pub uninterp spec fn unicode_lowercase(name: Seq<char>) -> Seq<char>;

/// Each entry of `list` in lower case by the Unicode rules.
pub open spec fn lowered(list: Seq<Seq<char>>) -> Seq<Seq<char>> {
    Seq::new(list.len(), |i: int| unicode_lowercase(list[i]))
}

/// What holds of `first_occurrences`: its entries are distinct names taken
/// from `list`, and a name is listed in it exactly when it is listed in `list`.
pub proof fn lemma_first_occurrences(list: Seq<Seq<char>>)
    ensures
        distinct_names(first_occurrences(list)),
        first_occurrences(list).len() <= list.len(),
        forall|name: Seq<char>|
            listed(name, first_occurrences(list)) <==> #[trigger] listed(name, list),
        forall|k: int|
            0 <= k < first_occurrences(list).len() ==> list.contains(
                #[trigger] first_occurrences(list)[k],
            ),
    decreases list.len(),
{
    if list.len() > 0 {
        let kept = first_occurrences(list);
        let front = list.drop_last();
        let before = first_occurrences(front);
        lemma_first_occurrences(front);
        assert forall|name: Seq<char>| #[trigger] listed(name, list) implies listed(
            name,
            kept,
        ) by {
            let i = choose|i: int| 0 <= i < list.len() && same_name(name, #[trigger] list[i]);
            if i < front.len() {
                assert(same_name(name, front[i]));
                assert(listed(name, front));
                let k = choose|k: int|
                    0 <= k < before.len() && same_name(name, #[trigger] before[k]);
                assert(same_name(name, kept[k]));
            } else if !listed(list.last(), before) {
                assert(same_name(name, kept[kept.len() - 1]));
            }
        }
    }
}

/// A list of distinct names is its own list of first occurrences.
pub proof fn lemma_first_occurrences_of_distinct(list: Seq<Seq<char>>)
    requires
        distinct_names(list),
    ensures
        first_occurrences(list) == list,
    decreases list.len(),
{
    if list.len() > 0 {
        let front = list.drop_last();
        assert(distinct_names(front)) by {
            assert forall|i: int, j: int| 0 <= i < j < front.len() implies !same_name(
                #[trigger] front[i],
                #[trigger] front[j],
            ) by {
                assert(!same_name(list[i], list[j]));
            }
        }
        lemma_first_occurrences_of_distinct(front);
        assert(!listed(list.last(), front));
        assert(front.push(list.last()) =~= list);
    }
}

/// Compares two strings with `str::eq_ignore_ascii_case`, which the standard
/// library documents as the comparison of both strings after their ASCII
/// letters `A` to `Z` were put in lower case, all other characters unchanged.
#[verifier::external_body]
pub(crate) fn eq_ignore_ascii_case(a: &str, b: &str) -> (same: bool)
    ensures
        same == same_name(a@, b@),
{
    a.eq_ignore_ascii_case(b)
}

/// Puts a string in lower case with `str::to_lowercase`. The result follows
/// the Unicode rules and is known here only by its name, `unicode_lowercase`:
/// nothing is claimed of it but that it depends on the text alone.
#[verifier::external_body]
pub(crate) fn to_lowercase(name: &str) -> (lower: String)
    ensures
        lower@ == unicode_lowercase(name@),
{
    name.to_lowercase()
}

/// Whether a process of the given name is one of the observed processes:
/// whether the name is the same, up to ASCII case, as some entry of the list.
pub fn is_observed_process(process_name: &str, observe_names: &[String]) -> (observed: bool)
    ensures
        observed == listed(process_name@, texts(observe_names@)),
{
    let mut i: usize = 0;
    while i < observe_names.len()
        invariant
            i <= observe_names.len(),
            forall|j: int|
                0 <= j < i ==> !same_name(process_name@, #[trigger] texts(observe_names@)[j]),
        decreases observe_names.len() - i,
    {
        if eq_ignore_ascii_case(process_name, observe_names[i].as_str()) {
            assert(same_name(process_name@, texts(observe_names@)[i as int]));
            return true;
        }
        i += 1;
    }
    false
}

/// A copy of a list of strings.
pub fn clone_names(names: &[String]) -> (copy: Vec<String>)
    ensures
        texts(copy@) == texts(names@),
{
    let mut copy: Vec<String> = Vec::new();
    let mut i: usize = 0;
    while i < names.len()
        invariant
            i <= names.len(),
            texts(copy@) == texts(names@).take(i as int),
        decreases names.len() - i,
    {
        let ghost before = texts(copy@);
        copy.push(names[i].clone());
        assert(texts(copy@) == before.push(names@[i as int]@));
        i += 1;
    }
    copy
}

/// Each name of the list in lower case, in the order of the list.
pub fn lowercase_names(names: &[String]) -> (lower: Vec<String>)
    ensures
        texts(lower@) == lowered(texts(names@)),
{
    let mut lower: Vec<String> = Vec::new();
    let mut i: usize = 0;
    while i < names.len()
        invariant
            i <= names.len(),
            texts(lower@) == lowered(texts(names@)).take(i as int),
        decreases names.len() - i,
    {
        let ghost before = texts(lower@);
        lower.push(to_lowercase(names[i].as_str()));
        assert(texts(lower@) == before.push(unicode_lowercase(names@[i as int]@)));
        i += 1;
    }
    lower
}

/// Drops every name that is the same, up to ASCII case, as a name before it.
/// What is kept stands in the order of the list, and no two of the kept names
/// are the same.
pub fn dedup_names(names: &[String]) -> (kept: Vec<String>)
    ensures
        texts(kept@) == first_occurrences(texts(names@)),
        distinct_names(texts(kept@)),
        forall|name: Seq<char>|
            listed(name, texts(kept@)) <==> #[trigger] listed(name, texts(names@)),
{
    let mut kept: Vec<String> = Vec::new();
    let mut i: usize = 0;
    while i < names.len()
        invariant
            i <= names.len(),
            texts(kept@) == first_occurrences(texts(names@).take(i as int)),
        decreases names.len() - i,
    {
        let ghost upto = texts(names@).take(i + 1);
        assert(upto.drop_last() == texts(names@).take(i as int));
        if !is_observed_process(names[i].as_str(), kept.as_slice()) {
            let ghost before = texts(kept@);
            kept.push(names[i].clone());
            assert(texts(kept@) == before.push(names@[i as int]@));
        }
        i += 1;
    }
    proof {
        assert(texts(names@).take(names.len() as int) == texts(names@));
        lemma_first_occurrences(texts(names@));
    }
    kept
}

} // verus!
