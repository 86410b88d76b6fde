//! File-safe names for roles.

use vstd::prelude::*;

verus! {

/// The characters with the Unicode property `White_Space`.
pub open spec fn white_space(c: char) -> bool {
    let n = c as u32;
    ||| 0x09 <= n <= 0x0d
    ||| n == 0x20
    ||| n == 0x85
    ||| n == 0xa0
    ||| n == 0x1680
    ||| 0x2000 <= n <= 0x200a
    ||| n == 0x2028
    ||| n == 0x2029
    ||| n == 0x202f
    ||| n == 0x205f
    ||| n == 0x3000
}

/// `text` without its leading white space.
pub open spec fn trim_front(text: Seq<char>) -> Seq<char>
    decreases text.len(),
{
    if text.len() > 0 && white_space(text.first()) {
        trim_front(text.drop_first())
    } else {
        text
    }
}

/// `text` without its trailing white space.
pub open spec fn trim_back(text: Seq<char>) -> Seq<char>
    decreases text.len(),
{
    if text.len() > 0 && white_space(text.last()) {
        trim_back(text.drop_last())
    } else {
        text
    }
}

/// `text` without white space at either end.
pub open spec fn trimmed(text: Seq<char>) -> Seq<char> {
    trim_back(trim_front(text))
}

/// `str::trim`: the slice without leading and trailing characters of the Unicode property
/// `White_Space`.
pub assume_specification[ str::trim ](text: &str) -> (rest: &str)
    ensures
        rest@ == trimmed(text@),
;

/// Whether a character outside ASCII is alphabetic or numeric by the Unicode tables of the
/// standard library.
pub uninterp spec fn unicode_alphanumeric(c: char) -> bool;

/// The ASCII letters and digits.
pub open spec fn ascii_alphanumeric(c: char) -> bool {
    'a' <= c <= 'z' || 'A' <= c <= 'Z' || '0' <= c <= '9'
}

/// The alphabetic and the numeric characters.
pub open spec fn alphanumeric(c: char) -> bool {
    if (c as u32) < 0x80 {
        ascii_alphanumeric(c)
    } else {
        unicode_alphanumeric(c)
    }
}

/// `char::is_alphanumeric`: whether the character is alphabetic or numeric. In ASCII those are
/// the letters and the digits. Outside ASCII it is a fixed property of the character, which the
/// contract names and does not spell out.
pub assume_specification[ char::is_alphanumeric ](c: char) -> (yes: bool)
    ensures
        (c as u32) < 0x80 ==> yes == ascii_alphanumeric(c),
        (c as u32) >= 0x80 ==> yes == unicode_alphanumeric(c),
;

/// `String::push`: appends the character.
pub assume_specification[ String::push ](text: &mut String, c: char)
    ensures
        final(text)@ == old(text)@.push(c),
;

/// The characters that a role's name keeps.
pub open spec fn kept(c: char) -> bool {
    alphanumeric(c) || c == '_' || c == '-' || c == ' '
}

/// The kept characters of `text`, in order.
pub open spec fn kept_part(text: Seq<char>) -> Seq<char> {
    text.filter(|c: char| kept(c))
}

/// The kept characters of a role's name, without white space at either end.
pub open spec fn cleaned(name: Seq<char>) -> Seq<char> {
    trimmed(kept_part(trimmed(name)))
}

/// The name under which a role is filed: its cleaned name, or `unknown` where nothing usable is
/// left.
pub open spec fn sanitized(name: Seq<char>) -> Seq<char> {
    let rest = cleaned(name);
    if rest.len() == 0 || rest == "."@ || rest == ".."@ {
        "unknown"@
    } else {
        rest
    }
}

/// Removes what a file name may not hold from a role's name. An empty rest, `.` and `..` become
/// `unknown`.
pub fn sanitize_role_name(name: &str) -> (safe: String)
    ensures
        safe@ == sanitized(name@),
{
    let core: &str = name.trim();
    let mut part: String = String::new();
    for c in it: core.chars()
        invariant
            it.seq() == core@,
            part@ == kept_part(core@.take(it.index() as int)),
    {
        proof {
            lemma_kept_part_step(core@, it.index() as int);
        }
        if c.is_alphanumeric() || c == '_' || c == '-' || c == ' ' {
            part.push(c);
        }
    }
    assert(core@.take(core@.len() as int) == core@);
    let rest: String = part.as_str().trim().to_string();
    if rest.as_str().is_empty() || rest == ".".to_string() || rest == "..".to_string() {
        "unknown".to_string()
    } else {
        rest
    }
}

/// One more character is kept or dropped by itself.
proof fn lemma_kept_part_step(text: Seq<char>, i: int)
    requires
        0 <= i < text.len(),
    ensures
        kept_part(text.take(i + 1)) == if kept(text[i]) {
            kept_part(text.take(i)).push(text[i])
        } else {
            kept_part(text.take(i))
        },
{
    reveal(Seq::filter);
    assert(text.take(i + 1).drop_last() == text.take(i));
}

/// A text that neither starts nor ends with white space.
pub open spec fn tight(text: Seq<char>) -> bool {
    text.len() > 0 ==> !white_space(text.first()) && !white_space(text.last())
}

proof fn lemma_trim_front(text: Seq<char>)
    ensures
        trim_front(text).len() <= text.len(),
        trim_front(text) == text.skip(text.len() - trim_front(text).len()),
        trim_front(text).len() > 0 ==> !white_space(trim_front(text).first()),
    decreases text.len(),
{
    if text.len() > 0 && white_space(text.first()) {
        lemma_trim_front(text.drop_first());
    }
}

proof fn lemma_trim_back(text: Seq<char>)
    ensures
        trim_back(text).len() <= text.len(),
        trim_back(text) == text.take(trim_back(text).len() as int),
        trim_back(text).len() > 0 ==> !white_space(trim_back(text).last()),
    decreases text.len(),
{
    if text.len() > 0 && white_space(text.last()) {
        lemma_trim_back(text.drop_last());
    }
}

proof fn lemma_trimmed(text: Seq<char>)
    ensures
        tight(trimmed(text)),
        forall|i: int|
            0 <= i < trimmed(text).len() ==> text.contains(#[trigger] trimmed(text)[i]),
{
    let front = trim_front(text);
    lemma_trim_front(text);
    lemma_trim_back(front);
    let both = trimmed(text);
    if both.len() > 0 {
        assert(both.first() == front.first());
    }
    assert forall|i: int| 0 <= i < both.len() implies text.contains(#[trigger] both[i]) by {
        assert(both[i] == front[i]);
        assert(front[i] == text[i + text.len() - front.len()]);
    }
}

proof fn lemma_kept_part(text: Seq<char>)
    ensures
        forall|i: int| 0 <= i < kept_part(text).len() ==> kept(#[trigger] kept_part(text)[i]),
        (forall|i: int| 0 <= i < text.len() ==> kept(#[trigger] text[i])) ==> kept_part(text)
            == text,
    decreases text.len(),
{
    reveal(Seq::filter);
    if text.len() > 0 {
        let shorter = text.drop_last();
        lemma_kept_part(shorter);
        if forall|i: int| 0 <= i < text.len() ==> kept(#[trigger] text[i]) {
            assert forall|i: int| 0 <= i < shorter.len() implies kept(#[trigger] shorter[i]) by {
                assert(shorter[i] == text[i]);
            }
            assert(kept(text[text.len() - 1]));
            assert(shorter.push(text.last()) == text);
        }
    }
}

proof fn lemma_cleaned(name: Seq<char>)
    ensures
        tight(cleaned(name)),
        forall|i: int| 0 <= i < cleaned(name).len() ==> kept(#[trigger] cleaned(name)[i]),
{
    let part = kept_part(trimmed(name));
    lemma_kept_part(trimmed(name));
    lemma_trimmed(part);
    assert forall|i: int| 0 <= i < cleaned(name).len() implies kept(
        #[trigger] cleaned(name)[i],
    ) by {
        let j = choose|j: int| 0 <= j < part.len() && part[j] == cleaned(name)[i];
        assert(kept(part[j]));
    }
}

/// A filed name is safe as a file name: it is not empty, has no white space at either end, and
/// holds nothing but alphanumeric characters, `_`, `-` and spaces. So it holds no path
/// separator, no dot and no control character, and is neither `.` nor `..`.
pub proof fn sanitized_names_are_file_safe(name: Seq<char>)
    ensures
        sanitized(name).len() > 0,
        tight(sanitized(name)),
        forall|i: int| 0 <= i < sanitized(name).len() ==> kept(#[trigger] sanitized(name)[i]),
        !sanitized(name).contains('/'),
        !sanitized(name).contains('\\'),
        !sanitized(name).contains(':'),
        !sanitized(name).contains('.'),
        forall|c: char| (c as u32) < 0x20 ==> !#[trigger] sanitized(name).contains(c),
        sanitized(name) != "."@,
        sanitized(name) != ".."@,
{
    lemma_cleaned(name);
    reveal_strlit("unknown");
    reveal_strlit(".");
    reveal_strlit("..");
    let safe = sanitized(name);
    assert forall|c: char| safe.contains(c) implies kept(c) by {
        let i = choose|i: int| 0 <= i < safe.len() && safe[i] == c;
        assert(kept(safe[i]));
    }
    if safe == "."@ || safe == ".."@ {
        assert(safe[0] == '.');
        assert(safe.contains('.'));
    }
}

/// A name that is safe already is filed as it is.
pub proof fn safe_names_are_filed_as_they_are(name: Seq<char>)
    requires
        name.len() > 0,
        tight(name),
        forall|i: int| 0 <= i < name.len() ==> kept(#[trigger] name[i]),
    ensures
        sanitized(name) == name,
{
    reveal_strlit(".");
    reveal_strlit("..");
    lemma_kept_part(name);
    assert(trimmed(name) == name);
    assert(kept(name[0]));
    assert(name[0] != '.');
}

/// Filing a name that was filed before changes nothing.
pub proof fn sanitizing_twice_is_sanitizing_once(name: Seq<char>)
    ensures
        sanitized(sanitized(name)) == sanitized(name),
{
    sanitized_names_are_file_safe(name);
    safe_names_are_filed_as_they_are(sanitized(name));
}

proof fn lemma_trim_front_bound(text: Seq<char>) -> (start: int)
    ensures
        0 <= start <= text.len(),
        trim_front(text) == text.skip(start),
        forall|k: int| 0 <= k < start ==> white_space(#[trigger] text[k]),
    decreases text.len(),
{
    if text.len() > 0 && white_space(text.first()) {
        let rest = text.drop_first();
        let start = lemma_trim_front_bound(rest);
        assert(rest.skip(start) == text.skip(start + 1));
        assert forall|k: int| 0 <= k < start + 1 implies white_space(#[trigger] text[k]) by {
            if k > 0 {
                assert(rest[k - 1] == text[k]);
            }
        }
        start + 1
    } else {
        assert(text.skip(0) == text);
        0
    }
}

proof fn lemma_trim_back_bound(text: Seq<char>) -> (end: int)
    ensures
        0 <= end <= text.len(),
        trim_back(text) == text.take(end),
        forall|k: int| end <= k < text.len() ==> white_space(#[trigger] text[k]),
    decreases text.len(),
{
    if text.len() > 0 && white_space(text.last()) {
        let rest = text.drop_last();
        let end = lemma_trim_back_bound(rest);
        assert(rest.take(end) == text.take(end));
        assert forall|k: int| end <= k < text.len() implies white_space(#[trigger] text[k]) by {
            if k < rest.len() {
                assert(rest[k] == text[k]);
            }
        }
        end
    } else {
        assert(text.take(text.len() as int) == text);
        text.len() as int
    }
}

proof fn lemma_trimmed_bounds(text: Seq<char>) -> (bounds: (int, int))
    ensures
        0 <= bounds.0 <= bounds.1 <= text.len(),
        trimmed(text) == text.subrange(bounds.0, bounds.1),
        forall|k: int|
            0 <= k < text.len() && !(bounds.0 <= k < bounds.1) ==> white_space(#[trigger] text[k]),
{
    let start = lemma_trim_front_bound(text);
    let front = text.skip(start);
    let end = lemma_trim_back_bound(front);
    assert(front.take(end) == text.subrange(start, start + end));
    assert forall|k: int|
        0 <= k < text.len() && !(start <= k < start + end) implies white_space(
        #[trigger] text[k],
    ) by {
        if k >= start + end {
            assert(front[k - start] == text[k]);
        }
    }
    (start, start + end)
}

/// The kept characters of white space are white space.
proof fn lemma_kept_white_space(text: Seq<char>)
    requires
        forall|k: int| 0 <= k < text.len() ==> white_space(#[trigger] text[k]),
    ensures
        forall|k: int|
            0 <= k < kept_part(text).len() ==> white_space(#[trigger] kept_part(text)[k]),
{
    assert forall|k: int| 0 <= k < kept_part(text).len() implies white_space(
        #[trigger] kept_part(text)[k],
    ) by {
        let c = kept_part(text)[k];
        assert(kept_part(text).contains(c));
        text.lemma_filter_contains_rev(|c: char| kept(c), c);
        let j = choose|j: int| 0 <= j < text.len() && text[j] == c;
        assert(white_space(text[j]));
    }
}

/// A cleaned name is a piece of what its name keeps, and only white space is left around it.
proof fn lemma_cleaned_bounds(name: Seq<char>) -> (bounds: (int, int))
    ensures
        0 <= bounds.0 <= bounds.1 <= kept_part(name).len(),
        cleaned(name) == kept_part(name).subrange(bounds.0, bounds.1),
        forall|k: int|
            0 <= k < kept_part(name).len() && !(bounds.0 <= k < bounds.1) ==> white_space(
                #[trigger] kept_part(name)[k],
            ),
{
    let (start, end) = lemma_trimmed_bounds(name);
    let before = name.take(start);
    let core = name.subrange(start, end);
    let after = name.skip(end);
    assert(name == before + core + after);
    let keep = |c: char| kept(c);
    Seq::filter_distributes_over_add(before + core, after, keep);
    Seq::filter_distributes_over_add(before, core, keep);
    let all = kept_part(name);
    let skipped = kept_part(before).len() as int;
    assert(all == kept_part(before) + kept_part(core) + kept_part(after));
    assert forall|k: int| 0 <= k < before.len() implies white_space(#[trigger] before[k]) by {
        assert(before[k] == name[k]);
    }
    lemma_kept_white_space(before);
    assert forall|k: int| 0 <= k < after.len() implies white_space(#[trigger] after[k]) by {
        assert(after[k] == name[end + k]);
    }
    lemma_kept_white_space(after);
    let part = kept_part(core);
    let (i, j) = lemma_trimmed_bounds(part);
    assert(part.subrange(i, j) == all.subrange(skipped + i, skipped + j));
    assert forall|k: int|
        0 <= k < all.len() && !(skipped + i <= k < skipped + j) implies white_space(
        #[trigger] all[k],
    ) by {
        if k < skipped {
            assert(all[k] == kept_part(before)[k]);
        } else if k < skipped + part.len() {
            assert(all[k] == part[k - skipped]);
        } else {
            assert(all[k] == kept_part(after)[k - skipped - part.len()]);
        }
    }
    (skipped + i, skipped + j)
}

/// A name that holds anything usable is filed as all its letters, digits, `_`, `-` and spaces, in
/// order, from the first to the last that is no white space. Only a name that holds nothing of
/// the kind is filed as `unknown`.
pub proof fn filed_names_are_all_that_is_usable(name: Seq<char>)
    ensures
        ({
            let usable = name.filter(
                |c: char|
                    {
                        ||| 'a' <= c <= 'z'
                        ||| 'A' <= c <= 'Z'
                        ||| '0' <= c <= '9'
                        ||| c == '_'
                        ||| c == '-'
                        ||| c == ' '
                        ||| (c as u32) >= 0x80 && unicode_alphanumeric(c)
                    },
            );
            if forall|k: int| 0 <= k < usable.len() ==> white_space(#[trigger] usable[k]) {
                sanitized(name) == "unknown"@
            } else {
                exists|start: int, end: int|
                    {
                        &&& 0 <= start < end <= usable.len()
                        &&& sanitized(name) == #[trigger] usable.subrange(start, end)
                        &&& !white_space(usable[start])
                        &&& !white_space(usable[end - 1])
                        &&& forall|k: int|
                            0 <= k < usable.len() && !(start <= k < end) ==> white_space(
                                #[trigger] usable[k],
                            )
                    }
            }
        }),
{
    let usable = name.filter(
        |c: char|
            {
                ||| 'a' <= c <= 'z'
                ||| 'A' <= c <= 'Z'
                ||| '0' <= c <= '9'
                ||| c == '_'
                ||| c == '-'
                ||| c == ' '
                ||| (c as u32) >= 0x80 && unicode_alphanumeric(c)
            },
    );
    assert((|c: char|
        {
            ||| 'a' <= c <= 'z'
            ||| 'A' <= c <= 'Z'
            ||| '0' <= c <= '9'
            ||| c == '_'
            ||| c == '-'
            ||| c == ' '
            ||| (c as u32) >= 0x80 && unicode_alphanumeric(c)
        }) =~= (|c: char| kept(c)));
    assert(usable == kept_part(name));
    let (start, end) = lemma_cleaned_bounds(name);
    lemma_cleaned(name);
    let rest = cleaned(name);
    if start < end {
        assert(rest.first() == usable[start]);
        assert(rest.last() == usable[end - 1]);
        assert(kept(rest[0]));
        reveal_strlit(".");
        reveal_strlit("..");
        assert(sanitized(name) == rest);
    } else {
        assert(rest.len() == 0);
    }
}

proof fn lemma_no_visible(text: Seq<char>)
    requires
        forall|k: int| 0 <= k < text.len() ==> white_space(#[trigger] text[k]),
    ensures
        text.filter(|c: char| !white_space(c)).len() == 0,
{
    let visible = text.filter(|c: char| !white_space(c));
    if visible.len() > 0 {
        text.lemma_filter_pred(|c: char| !white_space(c), 0);
        assert(visible.contains(visible[0]));
        text.lemma_filter_contains_rev(|c: char| !white_space(c), visible[0]);
    }
}

proof fn lemma_filter_twice(text: Seq<char>)
    ensures
        kept_part(text).filter(|c: char| !white_space(c)) == text.filter(
            |c: char| kept(c) && !white_space(c),
        ),
    decreases text.len(),
{
    reveal(Seq::filter);
    if text.len() > 0 {
        lemma_filter_twice(text.drop_last());
        let fewer = kept_part(text.drop_last());
        fewer.lemma_filter_push(text.last(), |c: char| !white_space(c));
    }
}

/// Filing a name loses no letter, digit, `_` or `-` of it: each stands in the filed name as often
/// and in the same order. Without any, a name is filed as `unknown`.
pub proof fn no_usable_character_is_lost(name: Seq<char>)
    ensures
        ({
            let usable = name.filter(
                |c: char|
                    !white_space(c) && {
                        ||| 'a' <= c <= 'z'
                        ||| 'A' <= c <= 'Z'
                        ||| '0' <= c <= '9'
                        ||| c == '_'
                        ||| c == '-'
                        ||| (c as u32) >= 0x80 && unicode_alphanumeric(c)
                    },
            );
            if usable.len() > 0 {
                sanitized(name).filter(|c: char| !white_space(c)) == usable
            } else {
                sanitized(name) == "unknown"@
            }
        }),
{
    let visible = |c: char| !white_space(c);
    assert((|c: char|
        !white_space(c) && {
            ||| 'a' <= c <= 'z'
            ||| 'A' <= c <= 'Z'
            ||| '0' <= c <= '9'
            ||| c == '_'
            ||| c == '-'
            ||| (c as u32) >= 0x80 && unicode_alphanumeric(c)
        }) =~= (|c: char| kept(c) && !white_space(c)));
    lemma_filter_twice(name);
    let all = kept_part(name);
    let (start, end) = lemma_cleaned_bounds(name);
    lemma_cleaned(name);
    let rest = cleaned(name);
    let before = all.take(start);
    let after = all.skip(end);
    assert(all == before + rest + after);
    Seq::filter_distributes_over_add(before + rest, after, visible);
    Seq::filter_distributes_over_add(before, rest, visible);
    assert forall|k: int| 0 <= k < before.len() implies white_space(#[trigger] before[k]) by {
        assert(before[k] == all[k]);
    }
    lemma_no_visible(before);
    assert forall|k: int| 0 <= k < after.len() implies white_space(#[trigger] after[k]) by {
        assert(after[k] == all[end + k]);
    }
    lemma_no_visible(after);
    assert(all.filter(visible) == rest.filter(visible));
    if rest.len() > 0 {
        assert(kept(rest[0]));
        reveal_strlit(".");
        reveal_strlit("..");
        rest.lemma_filter_contains(visible, 0);
        assert(sanitized(name) == rest);
    } else {
        rest.lemma_filter_len(visible);
    }
}

/// Two names that hold different letters, digits, `_` or `-`, or hold them in a different order,
/// are filed apart, unless one of them is filed as `unknown`.
pub proof fn names_are_filed_apart(a: Seq<char>, b: Seq<char>)
    requires
        sanitized(a) == sanitized(b),
        sanitized(a) != "unknown"@,
    ensures
        ({
            let usable = |c: char|
                !white_space(c) && {
                    ||| 'a' <= c <= 'z'
                    ||| 'A' <= c <= 'Z'
                    ||| '0' <= c <= '9'
                    ||| c == '_'
                    ||| c == '-'
                    ||| (c as u32) >= 0x80 && unicode_alphanumeric(c)
                };
            a.filter(usable) == b.filter(usable) && a.filter(usable).len() > 0
        }),
{
    no_usable_character_is_lost(a);
    no_usable_character_is_lost(b);
}

} // verus!
