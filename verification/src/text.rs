//! Small verified helpers on strings, stated over their character sequences.

use vstd::prelude::*;
use vstd::string::*;

verus! {

/// The position of the first occurrence of `needle` in `text`, or the length
/// of `text` where it does not occur.
pub open spec fn first_position(text: Seq<char>, needle: char) -> nat
    decreases text.len(),
{
    if text.len() == 0 || text[0] == needle {
        0
    } else {
        1 + first_position(text.drop_first(), needle)
    }
}

/// `first_position` lies within the text, nothing before it is the needle,
/// and the needle stands at it unless it is the end of the text.
pub proof fn lemma_first_position(text: Seq<char>, needle: char)
    ensures
        first_position(text, needle) <= text.len(),
        forall|j: int| 0 <= j < first_position(text, needle) ==> text[j] != needle,
        first_position(text, needle) < text.len() ==> text[first_position(text, needle) as int]
            == needle,
    decreases text.len(),
{
    if text.len() == 0 || text[0] == needle {
    } else {
        let rest = text.drop_first();
        lemma_first_position(rest, needle);
        let p = first_position(rest, needle) as int;
        assert forall|j: int| 0 <= j < p + 1 implies text[j] != needle by {
            if j > 0 {
                assert(text[j] == rest[j - 1]);
            }
        }
        if p < rest.len() {
            assert(text[p + 1] == rest[p]);
        }
    }
}

/// Any position that is the end of the text or holds the needle, with no
/// needle before it, is `first_position`.
pub proof fn lemma_first_position_is(text: Seq<char>, needle: char, at: int)
    requires
        0 <= at <= text.len(),
        forall|j: int| 0 <= j < at ==> text[j] != needle,
        at < text.len() ==> text[at] == needle,
    ensures
        first_position(text, needle) == at,
{
    lemma_first_position(text, needle);
    let p = first_position(text, needle) as int;
    if p < at {
        assert(text[p] != needle);
    } else if at < p {
        assert(text[at] != needle);
    }
}

/// The part of `text` before the first `needle` (all of it where there is none).
pub open spec fn before_first(text: Seq<char>, needle: char) -> Seq<char> {
    text.subrange(0, first_position(text, needle) as int)
}

/// The part of `text` after the first `needle` (empty where there is none).
pub open spec fn after_first(text: Seq<char>, needle: char) -> Seq<char> {
    if first_position(text, needle) < text.len() {
        text.subrange(first_position(text, needle) as int + 1, text.len() as int)
    } else {
        Seq::empty()
    }
}

/// Whether two strings hold the same characters.
pub fn same_text(a: &str, b: &str) -> (same: bool)
    ensures
        same == (a@ == b@),
{
    let x: String = a.to_owned();
    let y: String = b.to_owned();
    x == y
}

/// Finds the first occurrence of `needle`, counted in characters.
pub fn find_first(text: &str, needle: char) -> (at: usize)
    ensures
        at == first_position(text@, needle),
{
    let total: usize = text.unicode_len();
    let mut i: usize = 0;
    let mut found: bool = false;
    for c in it: text.chars()
        invariant
            it.seq() == text@,
            total == text@.len(),
            !found ==> i == it.index(),
            i <= total,
            forall|j: int| 0 <= j < i ==> text@[j] != needle,
            found ==> i < total && text@[i as int] == needle,
    {
        if !found {
            if c == needle {
                found = true;
            } else {
                i = i + 1;
            }
        }
    }
    proof {
        lemma_first_position_is(text@, needle, i as int);
    }
    i
}

/// Whether `text` holds the character `needle`.
pub fn has_char(text: &str, needle: char) -> (found: bool)
    ensures
        found == text@.contains(needle),
{
    let at = find_first(text, needle);
    let total = text.unicode_len();
    proof {
        lemma_first_position(text@, needle);
        if at < total {
            assert(text@[at as int] == needle);
        }
    }
    at < total
}

/// The character sequences of a list of strings.
pub open spec fn texts(items: Seq<String>) -> Seq<Seq<char>> {
    items.map_values(|s: String| s@)
}

/// The test that an item is not `unwanted`.
pub open spec fn differs_from(unwanted: Seq<char>) -> spec_fn(Seq<char>) -> bool {
    |t: Seq<char>| t != unwanted
}

/// `items` without every occurrence of `unwanted`, the rest in order.
pub open spec fn without(items: Seq<Seq<char>>, unwanted: Seq<char>) -> Seq<Seq<char>> {
    items.filter(differs_from(unwanted))
}

/// A sequence whose items all pass a filter is left as it is.
pub proof fn lemma_filter_all<A>(items: Seq<A>, keep: spec_fn(A) -> bool)
    requires
        forall|i: int| 0 <= i < items.len() ==> keep(#[trigger] items[i]),
    ensures
        items.filter(keep) == items,
    decreases items.len(),
{
    reveal(Seq::filter);
    if items.len() > 0 {
        lemma_filter_all(items.drop_last(), keep);
        assert(items.drop_last().push(items.last()) =~= items);
    }
}

/// Taking `unwanted` out a second time changes nothing, and what is left
/// does not hold it.
pub proof fn lemma_without_twice(items: Seq<Seq<char>>, unwanted: Seq<char>)
    ensures
        without(without(items, unwanted), unwanted) == without(items, unwanted),
        !without(items, unwanted).contains(unwanted),
{
    let keep = differs_from(unwanted);
    let left = without(items, unwanted);
    assert forall|i: int| 0 <= i < left.len() implies keep(#[trigger] left[i]) by {
        items.lemma_filter_pred(keep, i);
    }
    lemma_filter_all(left, keep);
}

/// Taking the only item out leaves nothing.
pub proof fn lemma_without_only(unwanted: Seq<char>)
    ensures
        without(seq![unwanted], unwanted) == Seq::<Seq<char>>::empty(),
{
    let keep = differs_from(unwanted);
    let only = seq![unwanted];
    reveal(Seq::filter);
    assert(only.drop_last() =~= Seq::<Seq<char>>::empty());
    assert(only.drop_last().filter(keep) =~= Seq::<Seq<char>>::empty());
    assert(only.last() == unwanted);
    assert(only.filter(keep) =~= Seq::<Seq<char>>::empty());
}

/// Copies a list of strings.
pub fn copy_texts(items: &Vec<String>) -> (copy: Vec<String>)
    ensures
        texts(copy@) == texts(items@),
{
    let mut copy: Vec<String> = Vec::new();
    let mut i: usize = 0;
    while i < items.len()
        invariant
            i <= items.len(),
            copy.len() == i,
            forall|j: int| 0 <= j < i ==> copy@[j]@ == items@[j]@,
        decreases items.len() - i,
    {
        copy.push(items[i].clone());
        i = i + 1;
    }
    assert(texts(copy@) =~= texts(items@));
    copy
}

/// Whether a list of strings holds `wanted`.
pub fn contains_text(items: &Vec<String>, wanted: &str) -> (found: bool)
    ensures
        found == texts(items@).contains(wanted@),
{
    let mut i: usize = 0;
    while i < items.len()
        invariant
            i <= items.len(),
            forall|j: int| 0 <= j < i ==> texts(items@)[j] != wanted@,
        decreases items.len() - i,
    {
        if same_text(items[i].as_str(), wanted) {
            assert(texts(items@)[i as int] == wanted@);
            return true;
        }
        i = i + 1;
    }
    false
}

/// The list without every occurrence of `unwanted`, the rest in order.
pub fn without_text(items: &Vec<String>, unwanted: &str) -> (kept: Vec<String>)
    ensures
        texts(kept@) == without(texts(items@), unwanted@),
{
    let ghost keep = differs_from(unwanted@);
    let mut kept: Vec<String> = Vec::new();
    let mut i: usize = 0;
    proof {
        reveal(Seq::filter);
        assert(texts(items@).subrange(0, 0) =~= Seq::<Seq<char>>::empty());
        assert(texts(kept@) =~= Seq::<Seq<char>>::empty());
    }
    while i < items.len()
        invariant
            i <= items.len(),
            keep == differs_from(unwanted@),
            texts(kept@) == texts(items@).subrange(0, i as int).filter(keep),
        decreases items.len() - i,
    {
        let ghost before = texts(items@).subrange(0, i as int);
        let ghost kept_before = texts(kept@);
        proof {
            before.lemma_filter_push(items@[i as int]@, keep);
            assert(texts(items@).subrange(0, i as int + 1) =~= before.push(items@[i as int]@));
        }
        if !same_text(items[i].as_str(), unwanted) {
            kept.push(items[i].clone());
            assert(texts(kept@) =~= kept_before.push(items@[i as int]@));
        }
        i = i + 1;
    }
    assert(texts(items@).subrange(0, i as int) =~= texts(items@));
    kept
}

} // verus!
