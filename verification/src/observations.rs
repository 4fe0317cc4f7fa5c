//! How observations are added to and removed from an entity's list. An
//! observation is stored once: texts are compared exactly, with no
//! normalisation of case or white space.

use vstd::prelude::*;
use crate::graph::texts;

verus! {

/// The observations of `contents` that are appended to `stored`, in order:
/// each one that is neither stored already nor appended before.
pub open spec fn newly_added(stored: Seq<Seq<char>>, contents: Seq<Seq<char>>) -> Seq<Seq<char>>
    decreases contents.len(),
{
    if contents.len() == 0 {
        Seq::empty()
    } else {
        let before = newly_added(stored, contents.drop_last());
        let item = contents.last();
        if stored.contains(item) || before.contains(item) {
            before
        } else {
            before.push(item)
        }
    }
}

/// The list of an entity after `contents` were added to it.
pub open spec fn merged(stored: Seq<Seq<char>>, contents: Seq<Seq<char>>) -> Seq<Seq<char>> {
    stored + newly_added(stored, contents)
}

/// The list of an entity after every observation listed in `removed` was
/// taken out of it; the others keep their order.
pub open spec fn without(stored: Seq<Seq<char>>, removed: Seq<Seq<char>>) -> Seq<Seq<char>> {
    stored.filter(|text: Seq<char>| !removed.contains(text))
}

/// Whether a list holds a text.
pub fn holds(list: &Vec<String>, text: &String) -> (found: bool)
    ensures
        found == texts(list@).contains(text@),
{
    let mut i: usize = 0;
    while i < list.len()
        invariant
            i <= list.len(),
            forall|k: int| 0 <= k < i ==> texts(list@)[k] != text@,
        decreases list.len() - i,
    {
        if list[i] == *text {
            assert(texts(list@)[i as int] == text@);
            return true;
        }
        i += 1;
    }
    false
}

/// Appends to `stored` each observation of `contents` that it does not hold
/// yet, and returns the ones appended. A duplicate is skipped silently.
pub fn add_new_observations(stored: &mut Vec<String>, contents: &Vec<String>) -> (added: Vec<
    String,
>)
    ensures
        texts(added@) == newly_added(texts(old(stored)@), texts(contents@)),
        texts(final(stored)@) == merged(texts(old(stored)@), texts(contents@)),
{
    let mut added: Vec<String> = Vec::new();
    let mut i: usize = 0;
    while i < contents.len()
        invariant
            i <= contents.len(),
            texts(added@) == newly_added(texts(old(stored)@), texts(contents@).take(i as int)),
            texts(stored@) == texts(old(stored)@) + texts(added@),
        decreases contents.len() - i,
    {
        let item = &contents[i];
        let ghost before = texts(added@);
        let ghost held = texts(stored@);
        let known = holds(stored, item);
        proof {
            let base = texts(old(stored)@);
            assert(texts(contents@).take(i + 1).drop_last() == texts(contents@).take(i as int));
            // The list holds what was stored and what was added since.
            if base.contains(item@) || before.contains(item@) {
                let k = if base.contains(item@) {
                    choose|k: int| 0 <= k < base.len() && base[k] == item@
                } else {
                    base.len() + choose|k: int| 0 <= k < before.len() && before[k] == item@
                };
                assert(held[k] == item@);
            }
        }
        if !known {
            stored.push(item.clone());
            added.push(item.clone());
            assert(texts(stored@) == held.push(item@));
        }
        i += 1;
    }
    assert(texts(contents@).take(contents@.len() as int) == texts(contents@));
    added
}

/// The observations of `stored` that `removed` does not list, in their
/// order.
pub fn remove_observations(stored: &Vec<String>, removed: &Vec<String>) -> (kept: Vec<String>)
    ensures
        texts(kept@) == without(texts(stored@), texts(removed@)),
{
    let mut kept: Vec<String> = Vec::new();
    let ghost keep = |text: Seq<char>| !texts(removed@).contains(text);
    let mut i: usize = 0;
    proof {
        reveal(Seq::filter);
    }
    while i < stored.len()
        invariant
            i <= stored.len(),
            keep == |text: Seq<char>| !texts(removed@).contains(text),
            texts(kept@) == texts(stored@).take(i as int).filter(keep),
        decreases stored.len() - i,
    {
        let item = &stored[i];
        proof {
            reveal(Seq::filter);
            assert(texts(stored@).take(i + 1).drop_last() == texts(stored@).take(i as int));
        }
        if !holds(removed, item) {
            kept.push(item.clone());
        }
        i += 1;
    }
    assert(texts(stored@).take(stored@.len() as int) == texts(stored@));
    kept
}

/// Adding observations that an entity holds already adds nothing and
/// leaves its list as it was.
pub proof fn lemma_adding_known_observations(stored: Seq<Seq<char>>, contents: Seq<Seq<char>>)
    requires
        forall|i: int| 0 <= i < contents.len() ==> stored.contains(contents[i]),
    ensures
        newly_added(stored, contents) == Seq::<Seq<char>>::empty(),
        merged(stored, contents) == stored,
    decreases contents.len(),
{
    if contents.len() > 0 {
        lemma_adding_known_observations(stored, contents.drop_last());
    }
}

/// What is added holds nothing twice and nothing that was stored.
pub proof fn lemma_added_are_new(stored: Seq<Seq<char>>, contents: Seq<Seq<char>>)
    ensures
        newly_added(stored, contents).no_duplicates(),
        forall|i: int|
            0 <= i < newly_added(stored, contents).len() ==> !stored.contains(
                #[trigger] newly_added(stored, contents)[i],
            ) && contents.contains(newly_added(stored, contents)[i]),
    decreases contents.len(),
{
    if contents.len() > 0 {
        let rest = contents.drop_last();
        lemma_added_are_new(stored, rest);
        let before = newly_added(stored, rest);
        assert forall|i: int| 0 <= i < before.len() implies contents.contains(before[i]) by {
            let k = choose|k: int| 0 <= k < rest.len() && rest[k] == before[i];
            assert(contents[k] == before[i]);
        }
    }
}

/// No more is added than was to be added.
pub proof fn lemma_added_are_few(stored: Seq<Seq<char>>, contents: Seq<Seq<char>>)
    ensures
        newly_added(stored, contents).len() <= contents.len(),
    decreases contents.len(),
{
    if contents.len() > 0 {
        lemma_added_are_few(stored, contents.drop_last());
    }
}

/// A list that holds nothing twice still holds nothing twice after an
/// addition, and then holds every observation that was to be added.
pub proof fn lemma_merged_has_no_duplicates(stored: Seq<Seq<char>>, contents: Seq<Seq<char>>)
    requires
        stored.no_duplicates(),
    ensures
        merged(stored, contents).no_duplicates(),
        forall|i: int| 0 <= i < contents.len() ==> merged(stored, contents).contains(contents[i]),
    decreases contents.len(),
{
    lemma_added_are_new(stored, contents);
    let all = merged(stored, contents);
    if contents.len() > 0 {
        let rest = contents.drop_last();
        lemma_merged_has_no_duplicates(stored, rest);
        let before = newly_added(stored, rest);
        let item = contents.last();
        assert forall|i: int| 0 <= i < contents.len() implies all.contains(contents[i]) by {
            if i < rest.len() {
                let k = choose|k: int|
                    0 <= k < merged(stored, rest).len() && merged(stored, rest)[k] == rest[i];
                assert(all[k] == contents[i]);
            } else if stored.contains(item) {
                let k = choose|k: int| 0 <= k < stored.len() && stored[k] == item;
                assert(all[k] == item);
            } else if before.contains(item) {
                let k = choose|k: int| 0 <= k < before.len() && before[k] == item;
                assert(all[stored.len() + k] == item);
            } else {
                assert(all[all.len() - 1] == item);
            }
        }
    }
}

/// Adding the same observations a second time adds nothing.
pub proof fn lemma_adding_twice(stored: Seq<Seq<char>>, contents: Seq<Seq<char>>)
    requires
        stored.no_duplicates(),
    ensures
        newly_added(merged(stored, contents), contents) == Seq::<Seq<char>>::empty(),
{
    lemma_merged_has_no_duplicates(stored, contents);
    lemma_adding_known_observations(merged(stored, contents), contents);
}

/// After a removal the list holds none of the removed observations, and
/// every other observation that it held.
pub proof fn lemma_removed_are_gone(stored: Seq<Seq<char>>, removed: Seq<Seq<char>>)
    ensures
        forall|text: Seq<char>| #[trigger]
            without(stored, removed).contains(text) <==> stored.contains(text) && !removed.contains(
                text,
            ),
{
    let keep = |text: Seq<char>| !removed.contains(text);
    assert forall|text: Seq<char>| #[trigger]
        without(stored, removed).contains(text) <==> stored.contains(text) && !removed.contains(
            text,
        ) by {
        let kept = stored.filter(keep);
        if kept.contains(text) {
            let k = choose|k: int| 0 <= k < kept.len() && kept[k] == text;
            stored.lemma_filter_pred(keep, k);
            stored.lemma_filter_contains_rev(keep, text);
        }
        if stored.contains(text) && !removed.contains(text) {
            let k = choose|k: int| 0 <= k < stored.len() && stored[k] == text;
            stored.lemma_filter_contains(keep, k);
        }
    }
}

/// A list that holds nothing twice still holds nothing twice after a
/// removal.
pub proof fn lemma_removal_keeps_each_once(stored: Seq<Seq<char>>, removed: Seq<Seq<char>>)
    requires
        stored.no_duplicates(),
    ensures
        without(stored, removed).no_duplicates(),
    decreases stored.len(),
{
    reveal(Seq::filter);
    if stored.len() > 0 {
        let keep = |text: Seq<char>| !removed.contains(text);
        let rest = stored.drop_last();
        let last = stored.last();
        assert forall|i: int, j: int| 0 <= i < rest.len() && 0 <= j < rest.len() && i
            != j implies rest[i] != rest[j] by {
            assert(rest[i] == stored[i] && rest[j] == stored[j]);
        }
        lemma_removal_keeps_each_once(rest, removed);
        if rest.filter(keep).contains(last) {
            rest.lemma_filter_contains_rev(keep, last);
            let k = choose|k: int| 0 <= k < rest.len() && rest[k] == last;
            assert(stored[k] == stored[stored.len() - 1]);
        }
    }
}

/// The observations of a list, each once, in the order of their first
/// occurrence: what is stored for a new entity, so that no text is stored
/// twice for one entity.
pub open spec fn each_once(observations: Seq<Seq<char>>) -> Seq<Seq<char>> {
    newly_added(Seq::empty(), observations)
}

/// A list with each observation once holds nothing twice, and holds
/// exactly the observations of the list it was made from; a list that
/// holds nothing twice stays as it is.
pub proof fn lemma_each_once(observations: Seq<Seq<char>>)
    ensures
        each_once(observations).no_duplicates(),
        each_once(observations).len() <= observations.len(),
        forall|text: Seq<char>| #[trigger]
            each_once(observations).contains(text) <==> observations.contains(text),
        observations.no_duplicates() ==> each_once(observations) == observations,
    decreases observations.len(),
{
    let none = Seq::<Seq<char>>::empty();
    lemma_added_are_new(none, observations);
    lemma_merged_has_no_duplicates(none, observations);
    assert(merged(none, observations) == each_once(observations));
    assert forall|text: Seq<char>| #[trigger]
        each_once(observations).contains(text) <==> observations.contains(text) by {
        if each_once(observations).contains(text) {
            let k = choose|k: int|
                0 <= k < each_once(observations).len() && each_once(observations)[k] == text;
            assert(observations.contains(each_once(observations)[k]));
        }
        if observations.contains(text) {
            let i = choose|i: int| 0 <= i < observations.len() && observations[i] == text;
            assert(merged(none, observations).contains(observations[i]));
        }
    }
    if observations.len() > 0 {
        let rest = observations.drop_last();
        lemma_each_once(rest);
        if observations.no_duplicates() {
            assert forall|i: int, j: int| 0 <= i < rest.len() && 0 <= j < rest.len() && i
                != j implies rest[i] != rest[j] by {
                assert(rest[i] == observations[i] && rest[j] == observations[j]);
            }
            assert(!rest.contains(observations.last())) by {
                if rest.contains(observations.last()) {
                    let k = choose|k: int| 0 <= k < rest.len() && rest[k] == observations.last();
                    assert(observations[k] == observations[observations.len() - 1]);
                }
            }
            assert(rest.push(observations.last()) == observations);
        }
    }
}

/// The observations given, each once, in the order of their first
/// occurrence.
pub fn without_repeats(observations: &Vec<String>) -> (kept: Vec<String>)
    ensures
        texts(kept@) == each_once(texts(observations@)),
        texts(kept@).no_duplicates(),
{
    let mut seen: Vec<String> = Vec::new();
    assert(texts(seen@) == Seq::<Seq<char>>::empty());
    let kept = add_new_observations(&mut seen, observations);
    proof {
        lemma_each_once(texts(observations@));
    }
    kept
}

} // verus!
