//! Lists of names that keep the order of first mention and hold no name
//! twice.

use vstd::prelude::*;
use crate::text::same_text;

verus! {

/// The names that a list of strings holds, each as its characters.
pub open spec fn names_of(list: Seq<String>) -> Seq<Seq<char>> {
    list.map_values(|s: String| s@)
}

/// `seen` after one more mention of `name`: a name that is already there is
/// not added again.
pub open spec fn with_name(seen: Seq<Seq<char>>, name: Seq<char>) -> Seq<Seq<char>> {
    if seen.contains(name) {
        seen
    } else {
        seen.push(name)
    }
}

/// `seen` after the mentions `more`, taken from first to last.
pub open spec fn with_names(seen: Seq<Seq<char>>, more: Seq<Seq<char>>) -> Seq<Seq<char>>
    decreases more.len(),
{
    if more.len() == 0 {
        seen
    } else {
        with_name(with_names(seen, more.drop_last()), more.last())
    }
}

/// The names mentioned in `mentions`, each once, in the order of their first
/// mention.
pub open spec fn distinct(mentions: Seq<Seq<char>>) -> Seq<Seq<char>> {
    with_names(Seq::empty(), mentions)
}

/// The mentions of several parts, part after part.
pub open spec fn concat_all(parts: Seq<Seq<Seq<char>>>) -> Seq<Seq<char>>
    decreases parts.len(),
{
    if parts.len() == 0 {
        Seq::empty()
    } else {
        concat_all(parts.drop_last()) + parts.last()
    }
}

/// The mentions of the first `i + 1` parts are those of the first `i` and
/// then those of part `i`.
pub proof fn lemma_concat_all_take(parts: Seq<Seq<Seq<char>>>, i: int)
    requires
        0 <= i < parts.len(),
    ensures
        concat_all(parts.take(i + 1)) == concat_all(parts.take(i)) + parts[i],
{
    assert(parts.take(i + 1).drop_last() =~= parts.take(i));
}

/// A name that one part mentions is mentioned by the whole.
pub proof fn lemma_concat_all_contains(parts: Seq<Seq<Seq<char>>>, i: int, name: Seq<char>)
    requires
        0 <= i < parts.len(),
        parts[i].contains(name),
    ensures
        concat_all(parts).contains(name),
    decreases parts.len(),
{
    let front = concat_all(parts.drop_last());
    let k = choose|k: int| 0 <= k < parts[i].len() && parts[i][k] == name;
    if i == parts.len() - 1 {
        assert((front + parts.last())[front.len() + k] == name);
    } else {
        assert(parts.drop_last()[i] == parts[i]);
        lemma_concat_all_contains(parts.drop_last(), i, name);
        let j = choose|j: int| 0 <= j < front.len() && front[j] == name;
        assert((front + parts.last())[j] == name);
    }
}

/// Taking the mentions `a` and then `b` is taking `a + b`.
pub proof fn lemma_with_names_concat(seen: Seq<Seq<char>>, a: Seq<Seq<char>>, b: Seq<Seq<char>>)
    ensures
        with_names(seen, a + b) == with_names(with_names(seen, a), b),
    decreases b.len(),
{
    if b.len() == 0 {
        assert(a + b =~= a);
    } else {
        assert((a + b).drop_last() =~= a + b.drop_last());
        assert((a + b).last() == b.last());
        lemma_with_names_concat(seen, a, b.drop_last());
    }
}

/// One more mention at the end is one more step of `with_name`.
pub proof fn lemma_with_names_push(seen: Seq<Seq<char>>, more: Seq<Seq<char>>, name: Seq<char>)
    ensures
        with_names(seen, more.push(name)) == with_name(with_names(seen, more), name),
{
    assert(more.push(name).drop_last() =~= more);
}

/// A single mention is one step of `with_name`.
pub proof fn lemma_with_names_single(seen: Seq<Seq<char>>, name: Seq<char>)
    ensures
        with_names(seen, seq![name]) == with_name(seen, name),
{
    assert(seq![name].drop_last() =~= Seq::<Seq<char>>::empty());
    assert(with_names(seen, seq![name].drop_last()) == seen);
}

/// A list without repeats stays without repeats.
pub proof fn lemma_with_names_no_duplicates(seen: Seq<Seq<char>>, more: Seq<Seq<char>>)
    requires
        seen.no_duplicates(),
    ensures
        with_names(seen, more).no_duplicates(),
    decreases more.len(),
{
    if more.len() > 0 {
        lemma_with_names_no_duplicates(seen, more.drop_last());
    }
}

/// The result holds exactly the names that were there or were mentioned.
pub proof fn lemma_with_names_contains(seen: Seq<Seq<char>>, more: Seq<Seq<char>>, name: Seq<char>)
    ensures
        with_names(seen, more).contains(name) <==> (seen.contains(name) || more.contains(name)),
    decreases more.len(),
{
    if more.len() > 0 {
        let front = more.drop_last();
        lemma_with_names_contains(seen, front, name);
        let before = with_names(seen, front);
        if more.contains(name) {
            let i = choose|i: int| 0 <= i < more.len() && more[i] == name;
            if i < front.len() {
                assert(front[i] == name);
            }
        }
        if front.contains(name) {
            let i = choose|i: int| 0 <= i < front.len() && front[i] == name;
            assert(more[i] == name);
        }
        assert(more[more.len() - 1] == more.last());
        if !before.contains(more.last()) {
            let after = before.push(more.last());
            assert(after[before.len() as int] == more.last());
            if before.contains(name) {
                let i = choose|i: int| 0 <= i < before.len() && before[i] == name;
                assert(after[i] == name);
            }
        }
    }
}

/// What was there stays first, in its order.
pub proof fn lemma_with_names_keeps_front(seen: Seq<Seq<char>>, more: Seq<Seq<char>>)
    ensures
        seen.is_prefix_of(with_names(seen, more)),
    decreases more.len(),
{
    if more.len() > 0 {
        lemma_with_names_keeps_front(seen, more.drop_last());
    }
}

/// Mentions of names that are all there already change nothing.
pub proof fn lemma_with_names_known(seen: Seq<Seq<char>>, more: Seq<Seq<char>>)
    requires
        forall|i: int| 0 <= i < more.len() ==> seen.contains(#[trigger] more[i]),
    ensures
        with_names(seen, more) == seen,
    decreases more.len(),
{
    if more.len() > 0 {
        let front = more.drop_last();
        assert forall|i: int| 0 <= i < front.len() implies seen.contains(#[trigger] front[i]) by {
            assert(front[i] == more[i]);
        }
        lemma_with_names_known(seen, front);
        assert(more.last() == more[more.len() - 1]);
    }
}

/// In `distinct` no name occurs twice, and it has as many entries as it has
/// different names.
pub proof fn lemma_distinct_no_duplicates(mentions: Seq<Seq<char>>)
    ensures
        distinct(mentions).no_duplicates(),
        distinct(mentions).to_set().len() == distinct(mentions).len(),
{
    lemma_with_names_no_duplicates(Seq::empty(), mentions);
    distinct(mentions).unique_seq_to_set();
}

/// `distinct` holds exactly the names that were mentioned.
pub proof fn lemma_distinct_contains(mentions: Seq<Seq<char>>, name: Seq<char>)
    ensures
        distinct(mentions).contains(name) <==> mentions.contains(name),
{
    lemma_with_names_contains(Seq::empty(), mentions, name);
}

/// Whether `name` is one of `names`.
pub fn contains_name(names: &[String], name: &str) -> (found: bool)
    ensures
        found == names_of(names@).contains(name@),
{
    let mut i: usize = 0;
    while i < names.len()
        invariant
            i <= names.len(),
            forall|j: int| 0 <= j < i ==> names_of(names@)[j] != name@,
        decreases names.len() - i,
    {
        if same_text(names[i].as_str(), name) {
            assert(names_of(names@)[i as int] == name@);
            return true;
        }
        i += 1;
    }
    false
}

/// Adds `name` to `names` unless it is there already.
pub fn push_unique(names: &mut Vec<String>, name: &str)
    ensures
        names_of(final(names)@) == with_name(names_of(old(names)@), name@),
{
    if !contains_name(names.as_slice(), name) {
        names.push(name.to_owned());
        assert(names_of(names@) =~= names_of(old(names)@).push(name@));
    }
}

} // verus!
