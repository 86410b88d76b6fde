//! Texts put together from parts.

use vstd::prelude::*;

verus! {

/// What a list of strings holds.
pub open spec fn texts(strings: Seq<String>) -> Seq<Seq<char>> {
    strings.map_values(|s: String| s@)
}

/// What an optional string holds.
pub open spec fn opt_text(text: Option<String>) -> Option<Seq<char>> {
    match text {
        Some(t) => Some(t@),
        None => None,
    }
}

/// The first `n` of `parts`, with `separator` between every two of them.
pub open spec fn joined(parts: Seq<Seq<char>>, separator: Seq<char>, n: nat) -> Seq<char>
    decreases n,
{
    if n == 0 {
        Seq::empty()
    } else if n == 1 {
        parts[0]
    } else {
        joined(parts, separator, (n - 1) as nat) + separator + parts[n - 1]
    }
}

/// Puts the strings together, with `separator` between every two of them.
pub fn join(strings: &Vec<String>, separator: &str) -> (text: String)
    ensures
        text@ == joined(texts(strings@), separator@, strings@.len()),
{
    let mut text: String = String::new();
    let mut i: usize = 0;
    while i < strings.len()
        invariant
            i <= strings.len(),
            text@ == joined(texts(strings@), separator@, i as nat),
        decreases strings.len() - i,
    {
        if i > 0 {
            text.append(separator);
        }
        text.append(strings[i].as_str());
        i = i + 1;
    }
    text
}

/// Whether the text starts with the character.
pub fn starts_with_char(text: &str, c: char) -> (yes: bool)
    ensures
        yes == (text@.len() > 0 && text@[0] == c),
{
    if text.is_empty() {
        false
    } else {
        text.get_char(0) == c
    }
}

/// A list of strings holds the text of each, in its place, and an optional string holds its text
/// where there is one.
pub proof fn texts_are_those_of_the_strings(strings: Seq<String>, string: String)
    ensures
        opt_text(Some(string)) == Some(string@),
        opt_text(None) is None,
        texts(strings).len() == strings.len(),
        forall|i: int| 0 <= i < strings.len() ==> #[trigger] texts(strings)[i] == strings[i]@,
{
}

proof fn lemma_joined(parts: Seq<Seq<char>>, separator: Seq<char>, n: nat)
    requires
        0 < n <= parts.len(),
    ensures
        joined(parts, separator, n) + separator == parts.take(n as int).map_values(
            |part: Seq<char>| part + separator,
        ).flatten(),
    decreases n,
{
    let closed_off = |part: Seq<char>| part + separator;
    let pieces = parts.take(n as int).map_values(closed_off);
    let fewer = parts.take(n - 1).map_values(closed_off);
    assert(pieces == fewer.push(parts[n - 1] + separator));
    fewer.lemma_flatten_push(parts[n - 1] + separator);
    if n > 1 {
        lemma_joined(parts, separator, (n - 1) as nat);
    } else {
        assert(fewer.len() == 0);
    }
    assert(joined(parts, separator, n) + separator == fewer.flatten() + (parts[n - 1]
        + separator));
}

/// Joined parts are all the parts, in order and each followed by the separator, but for the
/// separator after the last. No parts join to nothing.
pub proof fn every_part_but_the_last_is_followed_by_a_separator(
    parts: Seq<Seq<char>>,
    separator: Seq<char>,
)
    ensures
        parts.len() > 0 ==> joined(parts, separator, parts.len()) + separator
            == parts.map_values(|part: Seq<char>| part + separator).flatten(),
        parts.len() == 0 ==> joined(parts, separator, parts.len()) == Seq::<char>::empty(),
{
    if parts.len() > 0 {
        assert(parts.take(parts.len() as int) == parts);
        lemma_joined(parts, separator, parts.len());
    }
}

proof fn lemma_joined_start(
    parts: Seq<Seq<char>>,
    others: Seq<Seq<char>>,
    separator: Seq<char>,
    n: nat,
)
    requires
        n <= parts.len(),
        n <= others.len(),
        forall|i: int| 0 <= i < n ==> parts[i] == others[i],
    ensures
        joined(parts, separator, n) == joined(others, separator, n),
    decreases n,
{
    if n > 1 {
        lemma_joined_start(parts, others, separator, (n - 1) as nat);
    }
}

/// Two groups of parts join to the two joined groups with the separator between them.
pub proof fn groups_are_joined_like_parts(
    first: Seq<Seq<char>>,
    second: Seq<Seq<char>>,
    separator: Seq<char>,
)
    requires
        first.len() > 0,
        second.len() > 0,
    ensures
        joined(first + second, separator, (first + second).len()) == joined(
            first,
            separator,
            first.len(),
        ) + separator + joined(second, separator, second.len()),
    decreases second.len(),
{
    let all = first + second;
    if second.len() == 1 {
        lemma_joined_start(all, first, separator, first.len());
        assert(all.last() == second[0]);
    } else {
        let shorter = second.drop_last();
        groups_are_joined_like_parts(first, shorter, separator);
        lemma_joined_start(all, first + shorter, separator, (first + shorter).len());
        lemma_joined_start(second, shorter, separator, shorter.len());
        assert(all.last() == second.last());
        assert(joined(all, separator, all.len()) == joined(first, separator, first.len())
            + separator + joined(second, separator, second.len()));
    }
}

} // verus!
