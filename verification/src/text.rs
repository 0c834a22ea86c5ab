//! Character-level text primitives: whitespace, trimming, prefixes and
//! suffixes, line and word splitting, with the meaning that the standard
//! library gives them on `str`.

use vstd::prelude::*;
use vstd::string::*;

verus! {

broadcast use vstd::slice::group_slice_axioms;

/// Whether `c` is whitespace in the sense of `char::is_whitespace`: the
/// Unicode `White_Space` property.
pub open spec fn is_space(c: char) -> bool {
    let u = c as u32;
    ||| u == 0x20
    ||| 0x09 <= u <= 0x0d
    ||| u == 0x85
    ||| u == 0xa0
    ||| u == 0x1680
    ||| 0x2000 <= u <= 0x200a
    ||| u == 0x2028
    ||| u == 0x2029
    ||| u == 0x202f
    ||| u == 0x205f
    ||| u == 0x3000
}

/// `s` without its leading whitespace.
pub open spec fn trim_start(s: Seq<char>) -> Seq<char>
    decreases s.len(),
{
    if s.len() > 0 && is_space(s[0]) {
        trim_start(s.drop_first())
    } else {
        s
    }
}

/// `s` without its trailing whitespace.
pub open spec fn trim_end(s: Seq<char>) -> Seq<char>
    decreases s.len(),
{
    if s.len() > 0 && is_space(s.last()) {
        trim_end(s.drop_last())
    } else {
        s
    }
}

/// `s` without its leading and trailing whitespace.
pub open spec fn trim(s: Seq<char>) -> Seq<char> {
    trim_end(trim_start(s))
}

/// Whether `s` begins with `prefix`.
pub open spec fn starts_with(s: Seq<char>, prefix: Seq<char>) -> bool {
    prefix.len() <= s.len() && s.subrange(0, prefix.len() as int) == prefix
}

/// Whether `s` ends with `suffix`.
pub open spec fn ends_with(s: Seq<char>, suffix: Seq<char>) -> bool {
    suffix.len() <= s.len() && s.subrange(s.len() - suffix.len(), s.len() as int) == suffix
}

/// Whether `needle` occurs in `s`.
pub open spec fn contains(s: Seq<char>, needle: Seq<char>) -> bool {
    exists|i: int| 0 <= i <= s.len() - needle.len() && #[trigger] s.subrange(i, i + needle.len()) == needle
}

/// `s` without `prefix`, if it begins with it.
pub open spec fn strip_prefix(s: Seq<char>, prefix: Seq<char>) -> Option<Seq<char>> {
    if starts_with(s, prefix) {
        Some(s.subrange(prefix.len() as int, s.len() as int))
    } else {
        None
    }
}

/// `s` without `suffix`, if it ends with it.
pub open spec fn strip_suffix(s: Seq<char>, suffix: Seq<char>) -> Option<Seq<char>> {
    if ends_with(s, suffix) {
        Some(s.subrange(0, s.len() - suffix.len()))
    } else {
        None
    }
}

/// `s` without every trailing occurrence of `c`.
pub open spec fn trim_end_matches(s: Seq<char>, c: char) -> Seq<char>
    decreases s.len(),
{
    if s.len() > 0 && s.last() == c {
        trim_end_matches(s.drop_last(), c)
    } else {
        s
    }
}

/// `s` without every leading occurrence of the non-empty `prefix`.
pub open spec fn trim_start_matches(s: Seq<char>, prefix: Seq<char>) -> Seq<char>
    recommends
        prefix.len() > 0,
    decreases s.len(),
{
    if prefix.len() > 0 && starts_with(s, prefix) {
        trim_start_matches(s.subrange(prefix.len() as int, s.len() as int), prefix)
    } else {
        s
    }
}

/// The lines of `text` from position `i` on, with `current` the part of the
/// line read so far: lines end at `\n`, and a `\r` just before it is
/// dropped; the last line needs no line ending.
pub open spec fn lines_from(text: Seq<char>, i: int, current: Seq<char>) -> Seq<Seq<char>>
    decreases text.len() - i,
{
    if i < 0 || i >= text.len() {
        if current.len() == 0 {
            seq![]
        } else {
            seq![current]
        }
    } else if text[i] == '\n' {
        seq![trim_end_matches_once(current, '\r')] + lines_from(text, i + 1, seq![])
    } else {
        lines_from(text, i + 1, current.push(text[i]))
    }
}

/// `s` without one trailing occurrence of `c`.
pub open spec fn trim_end_matches_once(s: Seq<char>, c: char) -> Seq<char> {
    if s.len() > 0 && s.last() == c {
        s.drop_last()
    } else {
        s
    }
}

/// The lines of `text`, as `str::lines` splits them.
pub open spec fn lines(text: Seq<char>) -> Seq<Seq<char>> {
    lines_from(text, 0, seq![])
}

/// The words of `text` from position `i` on, with `current` the part of the
/// word read so far: words are the maximal runs of non-whitespace.
pub open spec fn words_from(text: Seq<char>, i: int, current: Seq<char>) -> Seq<Seq<char>>
    decreases text.len() - i,
{
    if i < 0 || i >= text.len() {
        if current.len() == 0 {
            seq![]
        } else {
            seq![current]
        }
    } else if is_space(text[i]) {
        if current.len() == 0 {
            words_from(text, i + 1, seq![])
        } else {
            seq![current] + words_from(text, i + 1, seq![])
        }
    } else {
        words_from(text, i + 1, current.push(text[i]))
    }
}

/// The words of `text`, as `str::split_whitespace` splits them.
pub open spec fn words(text: Seq<char>) -> Seq<Seq<char>> {
    words_from(text, 0, seq![])
}

/// The texts held by a sequence of character vectors.
pub open spec fn texts(v: Seq<Vec<char>>) -> Seq<Seq<char>> {
    v.map_values(|x: Vec<char>| x@)
}

/// Returns the characters of `text`.
pub fn chars_of(text: &str) -> (chars: Vec<char>)
    ensures
        chars@ == text@,
{
    broadcast use vstd::string::axiom_spec_iter;

    let mut chars: Vec<char> = Vec::new();
    for c in iter: text.chars()
        invariant
            iter.seq() == text@,
            chars@ == text@.take(iter.index() as int),
    {
        chars.push(c);
        assert(text@.take(iter.index() as int + 1) =~= text@.take(iter.index() as int).push(c));
    }
    assert(text@.take(text@.len() as int) =~= text@);
    chars
}

/// Returns whether `c` is whitespace.
pub fn char_is_space(c: char) -> (space: bool)
    ensures
        space == is_space(c),
{
    let u = c as u32;
    u == 0x20 || (0x09 <= u && u <= 0x0d) || u == 0x85 || u == 0xa0 || u == 0x1680 || (0x2000 <= u
        && u <= 0x200a) || u == 0x2028 || u == 0x2029 || u == 0x202f || u == 0x205f || u == 0x3000
}

/// Returns the characters of `s` from `from` up to `to`.
pub fn copy_range(s: &[char], from: usize, to: usize) -> (part: Vec<char>)
    requires
        from <= to <= s@.len(),
    ensures
        part@ == s@.subrange(from as int, to as int),
{
    let mut part: Vec<char> = Vec::new();
    let mut i = from;
    while i < to
        invariant
            from <= i <= to <= s@.len(),
            part@ == s@.subrange(from as int, i as int),
        decreases to - i,
    {
        part.push(s[i]);
        assert(s@.subrange(from as int, i + 1) =~= s@.subrange(from as int, i as int).push(s@[i as int]));
        i += 1;
    }
    part
}

/// Returns a copy of `s`.
pub fn copy_chars(s: &[char]) -> (copy: Vec<char>)
    ensures
        copy@ == s@,
{
    let copy = copy_range(s, 0, s.len());
    assert(copy@ =~= s@);
    copy
}

/// Returns whether the two texts are equal.
pub fn chars_equal(left: &[char], right: &[char]) -> (equal: bool)
    ensures
        equal == (left@ == right@),
{
    if left.len() != right.len() {
        return false;
    }
    let mut i: usize = 0;
    while i < left.len()
        invariant
            left@.len() == right@.len(),
            i <= left@.len(),
            forall|j: int| 0 <= j < i ==> left@[j] == right@[j],
        decreases left@.len() - i,
    {
        if left[i] != right[i] {
            return false;
        }
        i += 1;
    }
    assert(left@ =~= right@);
    true
}

/// Returns whether `s` holds `part` at position `at`.
pub fn matches_at(s: &[char], at: usize, part: &[char]) -> (found: bool)
    requires
        at <= s@.len(),
    ensures
        found == (at + part@.len() <= s@.len() && s@.subrange(at as int, at + part@.len()) == part@),
{
    if part.len() > s.len() - at {
        return false;
    }
    let n = s.len();
    let mut i: usize = 0;
    while i < part.len()
        invariant
            n == s@.len(),
            at + part@.len() <= s@.len(),
            i <= part@.len(),
            forall|j: int| 0 <= j < i ==> s@[at + j] == part@[j],
        decreases part@.len() - i,
    {
        if s[at + i] != part[i] {
            assert(s@.subrange(at as int, at + part@.len())[i as int] != part@[i as int]);
            return false;
        }
        i += 1;
    }
    assert(s@.subrange(at as int, at + part@.len()) =~= part@);
    true
}

/// Returns whether `s` begins with `prefix`.
pub fn chars_start_with(s: &[char], prefix: &[char]) -> (found: bool)
    ensures
        found == starts_with(s@, prefix@),
{
    matches_at(s, 0, prefix)
}

/// Returns whether `s` ends with `suffix`.
pub fn chars_end_with(s: &[char], suffix: &[char]) -> (found: bool)
    ensures
        found == ends_with(s@, suffix@),
{
    if suffix.len() > s.len() {
        return false;
    }
    matches_at(s, s.len() - suffix.len(), suffix)
}

/// Returns whether `needle` occurs in `s`.
pub fn chars_contain(s: &[char], needle: &[char]) -> (found: bool)
    ensures
        found == contains(s@, needle@),
{
    if needle.len() > s.len() {
        return false;
    }
    let last = s.len() - needle.len();
    let mut i: usize = 0;
    loop
        invariant
            last == s@.len() - needle@.len(),
            i <= last,
            forall|j: int| 0 <= j < i ==> #[trigger] s@.subrange(j, j + needle@.len()) != needle@,
        decreases last - i,
    {
        if matches_at(s, i, needle) {
            return true;
        }
        if i == last {
            return false;
        }
        i += 1;
    }
}

/// Returns `s` without its leading whitespace.
pub fn chars_trim_start(s: &[char]) -> (trimmed: Vec<char>)
    ensures
        trimmed@ == trim_start(s@),
{
    let mut i: usize = 0;
    assert(s@.subrange(0, s@.len() as int) =~= s@);
    while i < s.len() && char_is_space(s[i])
        invariant
            i <= s@.len(),
            trim_start(s@) == trim_start(s@.subrange(i as int, s@.len() as int)),
        decreases s@.len() - i,
    {
        assert(s@.subrange(i as int, s@.len() as int).drop_first() =~= s@.subrange(
            i + 1,
            s@.len() as int,
        ));
        i += 1;
    }
    copy_range(s, i, s.len())
}

/// Returns `s` without its trailing whitespace.
pub fn chars_trim_end(s: &[char]) -> (trimmed: Vec<char>)
    ensures
        trimmed@ == trim_end(s@),
{
    let mut end: usize = s.len();
    assert(s@.subrange(0, s@.len() as int) =~= s@);
    while end > 0 && char_is_space(s[end - 1])
        invariant
            end <= s@.len(),
            trim_end(s@) == trim_end(s@.subrange(0, end as int)),
        decreases end,
    {
        assert(s@.subrange(0, end as int).drop_last() =~= s@.subrange(0, end - 1));
        end -= 1;
    }
    copy_range(s, 0, end)
}

/// Returns `s` without its leading and trailing whitespace.
pub fn chars_trim(s: &[char]) -> (trimmed: Vec<char>)
    ensures
        trimmed@ == trim(s@),
{
    let start = chars_trim_start(s);
    chars_trim_end(start.as_slice())
}

/// Returns `s` without `prefix`, if it begins with it.
pub fn chars_strip_prefix(s: &[char], prefix: &[char]) -> (rest: Option<Vec<char>>)
    ensures
        match rest {
            Some(rest) => strip_prefix(s@, prefix@) == Some(rest@),
            None => strip_prefix(s@, prefix@) is None,
        },
{
    if chars_start_with(s, prefix) {
        Some(copy_range(s, prefix.len(), s.len()))
    } else {
        None
    }
}

/// Returns `s` without `suffix`, if it ends with it.
pub fn chars_strip_suffix(s: &[char], suffix: &[char]) -> (rest: Option<Vec<char>>)
    ensures
        match rest {
            Some(rest) => strip_suffix(s@, suffix@) == Some(rest@),
            None => strip_suffix(s@, suffix@) is None,
        },
{
    if chars_end_with(s, suffix) {
        Some(copy_range(s, 0, s.len() - suffix.len()))
    } else {
        None
    }
}

/// Returns `s` without every trailing occurrence of `c`.
pub fn chars_trim_end_matches(s: &[char], c: char) -> (trimmed: Vec<char>)
    ensures
        trimmed@ == trim_end_matches(s@, c),
{
    let mut end: usize = s.len();
    assert(s@.subrange(0, s@.len() as int) =~= s@);
    while end > 0 && s[end - 1] == c
        invariant
            end <= s@.len(),
            trim_end_matches(s@, c) == trim_end_matches(s@.subrange(0, end as int), c),
        decreases end,
    {
        assert(s@.subrange(0, end as int).drop_last() =~= s@.subrange(0, end - 1));
        end -= 1;
    }
    copy_range(s, 0, end)
}

/// Returns `s` without every leading occurrence of the non-empty `prefix`.
pub fn chars_trim_start_matches(s: &[char], prefix: &[char]) -> (trimmed: Vec<char>)
    requires
        prefix@.len() > 0,
    ensures
        trimmed@ == trim_start_matches(s@, prefix@),
{
    let mut i: usize = 0;
    assert(s@.subrange(0, s@.len() as int) =~= s@);
    while i <= s.len() && matches_at(s, i, prefix)
        invariant
            i <= s@.len(),
            prefix@.len() > 0,
            trim_start_matches(s@, prefix@) == trim_start_matches(
                s@.subrange(i as int, s@.len() as int),
                prefix@,
            ),
        decreases s@.len() - i,
    {
        let ghost rest = s@.subrange(i as int, s@.len() as int);
        assert(rest.subrange(0, prefix@.len() as int) =~= s@.subrange(i as int, i + prefix@.len()));
        assert(rest.subrange(prefix@.len() as int, rest.len() as int) =~= s@.subrange(
            i + prefix@.len(),
            s@.len() as int,
        ));
        i += prefix.len();
    }
    proof {
        let rest = s@.subrange(i as int, s@.len() as int);
        if starts_with(rest, prefix@) {
            assert(rest.subrange(0, prefix@.len() as int) =~= s@.subrange(
                i as int,
                i + prefix@.len(),
            ));
        }
    }
    copy_range(s, i, s.len())
}

/// Returns the lines of `text`, as `str::lines` splits them.
pub fn split_lines(text: &[char]) -> (found: Vec<Vec<char>>)
    ensures
        texts(found@) == lines(text@),
{
    let mut found: Vec<Vec<char>> = Vec::new();
    let mut current: Vec<char> = Vec::new();
    let mut i: usize = 0;
    while i < text.len()
        invariant
            i <= text@.len(),
            texts(found@) + lines_from(text@, i as int, current@) == lines(text@),
        decreases text@.len() - i,
    {
        let ghost before = current@;
        if text[i] == '\n' {
            let mut line = current;
            if line.len() > 0 && line[line.len() - 1] == '\r' {
                line.pop();
                assert(line@ =~= before.drop_last());
            }
            assert(line@ == trim_end_matches_once(before, '\r'));
            assert(lines_from(text@, i as int, before) == seq![line@] + lines_from(
                text@,
                i + 1,
                seq![],
            ));
            let ghost seen = texts(found@);
            proof {
                assert(seen.push(line@) + lines_from(text@, i + 1, seq![]) =~= seen + (seq![line@]
                    + lines_from(text@, i + 1, seq![])));
            }
            found.push(line);
            assert(texts(found@) =~= seen.push(line@));
            current = Vec::new();
        } else {
            current.push(text[i]);
            assert(lines_from(text@, i as int, before) == lines_from(text@, i + 1, current@));
        }
        i += 1;
    }
    assert(lines_from(text@, i as int, current@) == if current@.len() == 0 {
        Seq::<Seq<char>>::empty()
    } else {
        seq![current@]
    });
    if current.len() > 0 {
        let ghost seen = texts(found@);
        let ghost last = current@;
        found.push(current);
        assert(texts(found@) =~= seen + seq![last]);
    } else {
        assert(texts(found@) + Seq::<Seq<char>>::empty() =~= texts(found@));
    }
    found
}

/// Returns the words of `text`, as `str::split_whitespace` splits them.
pub fn split_words(text: &[char]) -> (found: Vec<Vec<char>>)
    ensures
        texts(found@) == words(text@),
{
    let mut found: Vec<Vec<char>> = Vec::new();
    let mut current: Vec<char> = Vec::new();
    let mut i: usize = 0;
    while i < text.len()
        invariant
            i <= text@.len(),
            texts(found@) + words_from(text@, i as int, current@) == words(text@),
        decreases text@.len() - i,
    {
        let ghost before = current@;
        if char_is_space(text[i]) {
            assert(words_from(text@, i as int, before) == if before.len() == 0 {
                words_from(text@, i + 1, seq![])
            } else {
                seq![before] + words_from(text@, i + 1, seq![])
            });
            if current.len() == 0 {
                assert(before =~= Seq::<char>::empty());
            }
            if current.len() > 0 {
                let ghost seen = texts(found@);
                proof {
                    assert(seen.push(current@) + words_from(text@, i + 1, seq![]) =~= seen + (seq![
                        current@,
                    ] + words_from(text@, i + 1, seq![])));
                }
                found.push(current);
                assert(texts(found@) =~= seen.push(before));
                current = Vec::new();
            }
        } else {
            current.push(text[i]);
            assert(words_from(text@, i as int, before) == words_from(text@, i + 1, current@));
        }
        i += 1;
    }
    assert(words_from(text@, i as int, current@) == if current@.len() == 0 {
        Seq::<Seq<char>>::empty()
    } else {
        seq![current@]
    });
    if current.len() > 0 {
        let ghost seen = texts(found@);
        let ghost last = current@;
        found.push(current);
        assert(texts(found@) =~= seen + seq![last]);
    } else {
        assert(texts(found@) + Seq::<Seq<char>>::empty() =~= texts(found@));
    }
    found
}

/// Returns `left` followed by `right`.
pub fn concat_chars(left: &[char], right: &[char]) -> (joined: Vec<char>)
    ensures
        joined@ == left@ + right@,
{
    let mut joined = copy_range(left, 0, left.len());
    let mut i: usize = 0;
    while i < right.len()
        invariant
            i <= right@.len(),
            joined@ == left@ + right@.subrange(0, i as int),
        decreases right@.len() - i,
    {
        joined.push(right[i]);
        assert(left@ + right@.subrange(0, i + 1) =~= (left@ + right@.subrange(0, i as int)).push(
            right@[i as int],
        ));
        i += 1;
    }
    assert(right@.subrange(0, right@.len() as int) =~= right@);
    joined
}

/// Returns a copy of each text of `list` from `from` up to `to`.
pub fn copy_texts(list: &[Vec<char>], from: usize, to: usize) -> (part: Vec<Vec<char>>)
    requires
        from <= to <= list@.len(),
    ensures
        texts(part@) == texts(list@).subrange(from as int, to as int),
{
    let mut part: Vec<Vec<char>> = Vec::new();
    let mut i = from;
    while i < to
        invariant
            from <= i <= to <= list@.len(),
            texts(part@) == texts(list@).subrange(from as int, i as int),
        decreases to - i,
    {
        let item = copy_range(list[i].as_slice(), 0, list[i].len());
        assert(item@ =~= list@[i as int]@);
        let ghost seen = texts(part@);
        part.push(item);
        assert(texts(part@) =~= seen.push(list@[i as int]@));
        assert(texts(list@).subrange(from as int, i + 1) =~= texts(list@).subrange(
            from as int,
            i as int,
        ).push(list@[i as int]@));
        i += 1;
    }
    part
}

/// Returns whether `list` holds the text `word`.
pub fn texts_contain(list: &[Vec<char>], word: &[char]) -> (found: bool)
    ensures
        found == texts(list@).contains(word@),
{
    let mut i: usize = 0;
    while i < list.len()
        invariant
            i <= list@.len(),
            forall|j: int| 0 <= j < i ==> list@[j]@ != word@,
        decreases list@.len() - i,
    {
        if chars_equal(list[i].as_slice(), word) {
            assert(texts(list@)[i as int] == word@);
            return true;
        }
        i += 1;
    }
    proof {
        if texts(list@).contains(word@) {
            let j = choose|j: int| 0 <= j < texts(list@).len() && texts(list@)[j] == word@;
            assert(list@[j]@ == word@);
        }
    }
    false
}

} // verus!
