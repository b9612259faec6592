//! Small helpers on strings that the other modules share.

use vstd::prelude::*;

verus! {

/// The view of an optional string.
pub open spec fn opt_text(o: Option<String>) -> Option<Seq<char>> {
    match o {
        Some(s) => Some(s@),
        None => None,
    }
}

/// The texts of a list of strings, in their order.
pub open spec fn texts(names: Seq<String>) -> Seq<Seq<char>> {
    names.map_values(|name: String| name@)
}

/// The texts that a list of strings holds.
pub open spec fn text_set(names: Seq<String>) -> Set<Seq<char>> {
    Set::new(|name: Seq<char>| exists|i: int| 0 <= i < names.len() && (#[trigger] names[i])@ == name)
}

/// One more string of a list adds its text to the texts of the list.
pub proof fn lemma_text_set_take(names: Seq<String>, i: int)
    requires
        0 <= i < names.len(),
    ensures
        text_set(names.take(i + 1)) == text_set(names.take(i)).insert(names[i]@),
{
    let shorter = names.take(i);
    let longer = names.take(i + 1);
    assert forall|name: Seq<char>|
        text_set(longer).contains(name) <==> text_set(shorter).insert(names[i]@).contains(name) by {
        if text_set(longer).contains(name) {
            let k = choose|k: int| 0 <= k < longer.len() && (#[trigger] longer[k])@ == name;
            if k < i {
                assert(shorter[k]@ == name);
            }
        }
        if text_set(shorter).contains(name) {
            let k = choose|k: int| 0 <= k < shorter.len() && (#[trigger] shorter[k])@ == name;
            assert(longer[k]@ == name);
        }
        if names[i]@ == name {
            assert(longer[i]@ == name);
        }
    }
    assert(text_set(longer) =~= text_set(shorter).insert(names[i]@));
}

/// Copies the characters of `s` into a vector.
pub(crate) fn chars_of(s: &str) -> (v: Vec<char>)
    ensures
        v@ == s@,
{
    let mut v: Vec<char> = Vec::new();
    for c in it: s.chars()
        invariant
            v@ == it.seq().take(it.index() as int),
            it.seq() == s@,
    {
        v.push(c);
    }
    v
}

/// Tells whether the characters of `chars` from `from` up to `to` spell `word`.
pub(crate) fn spells(chars: &Vec<char>, from: usize, to: usize, word: &str) -> (r: bool)
    requires
        from <= to <= chars.len(),
    ensures
        r == (chars@.subrange(from as int, to as int) == word@),
{
    let n = word.unicode_len();
    if to - from != n {
        return false;
    }
    let mut i: usize = 0;
    while i < n
        invariant
            from <= to <= chars.len(),
            to - from == n,
            n == word@.len(),
            i <= n,
            forall|j: int| 0 <= j < i ==> chars@[from + j] == word@[j],
        decreases n - i,
    {
        if chars[from + i] != word.get_char(i) {
            assert(chars@.subrange(from as int, to as int)[i as int] != word@[i as int]);
            return false;
        }
        i = i + 1;
    }
    assert(chars@.subrange(from as int, to as int) =~= word@);
    true
}

} // verus!
