//! Plain operations on sequences of characters: turning text into characters
//! and back, trimming a repeated character or blanks from the ends, cutting at
//! the first occurrence of a character, and cutting a record into its fields.

use vstd::prelude::*;
use vstd::slice::slice_subrange;

verus! {

/// `String::push` appends the one character to the end of the string and
/// leaves what was there before as it was.
pub assume_specification[ String::push ](s: &mut String, ch: char)
    ensures
        final(s)@ == old(s)@.push(ch),
;

/// The characters of `s`, in order.
pub fn chars_of(s: &str) -> (cs: Vec<char>)
    ensures
        cs@ == s@,
{
    let mut cs: Vec<char> = Vec::new();
    for c in it: s.chars()
        invariant
            cs@ == it.seq().take(it.index() as int),
            it.seq() == s@,
    {
        cs.push(c);
    }
    cs
}

/// The text made of the characters of `cs`, in order.
pub fn text_of(cs: &[char]) -> (s: String)
    ensures
        s@ == cs@,
{
    let mut s = String::new();
    let mut i: usize = 0;
    while i < cs.len()
        invariant
            i <= cs.len(),
            s@ == cs@.take(i as int),
        decreases cs.len() - i,
    {
        s.push(cs[i]);
        i += 1;
        assert(cs@.take(i as int) == cs@.take(i - 1).push(cs@[i - 1]));
    }
    s
}

/// `s` without the `c`s it begins with.
pub open spec fn without_leading(s: Seq<char>, c: char) -> Seq<char>
    decreases s.len(),
{
    if s.len() > 0 && s[0] == c {
        without_leading(s.drop_first(), c)
    } else {
        s
    }
}

/// `s` without the `c`s it ends with.
pub open spec fn without_trailing(s: Seq<char>, c: char) -> Seq<char>
    decreases s.len(),
{
    if s.len() > 0 && s.last() == c {
        without_trailing(s.drop_last(), c)
    } else {
        s
    }
}

/// `s` without the `c`s it begins with, and then without those it ends with.
pub open spec fn without_surrounding(s: Seq<char>, c: char) -> Seq<char> {
    without_trailing(without_leading(s, c), c)
}

/// Whether `c` is a space, a tab or the end of a line.
pub open spec fn is_blank(c: char) -> bool {
    c == ' ' || c == '\t' || c == '\n' || c == '\r'
}

/// `s` without the blanks it begins with.
pub open spec fn without_leading_blanks(s: Seq<char>) -> Seq<char>
    decreases s.len(),
{
    if s.len() > 0 && is_blank(s[0]) {
        without_leading_blanks(s.drop_first())
    } else {
        s
    }
}

/// `s` without the blanks it ends with.
pub open spec fn without_trailing_blanks(s: Seq<char>) -> Seq<char>
    decreases s.len(),
{
    if s.len() > 0 && is_blank(s.last()) {
        without_trailing_blanks(s.drop_last())
    } else {
        s
    }
}

/// `s` without the blanks around it.
pub open spec fn without_blanks(s: Seq<char>) -> Seq<char> {
    without_trailing_blanks(without_leading_blanks(s))
}

/// What follows the first `c` in `s`, or `None` where `s` holds no `c`.
pub open spec fn after_first(s: Seq<char>, c: char) -> Option<Seq<char>>
    decreases s.len(),
{
    if s.len() == 0 {
        None
    } else if s[0] == c {
        Some(s.drop_first())
    } else {
        after_first(s.drop_first(), c)
    }
}

/// What stands before the first `c` in `s`, or all of `s` where it holds no `c`.
pub open spec fn before_first(s: Seq<char>, c: char) -> Seq<char>
    decreases s.len(),
{
    if s.len() == 0 || s[0] == c {
        Seq::empty()
    } else {
        seq![s[0]] + before_first(s.drop_first(), c)
    }
}

/// Whether a text that begins with `prefix` is inside a quotation when
/// `prefix` has been read: whether `prefix` holds an odd number of `"`.
/// Every `"` opens or closes a quotation; a backslash before it changes
/// nothing.
pub open spec fn in_quotation(prefix: Seq<char>) -> bool
    decreases prefix.len(),
{
    if prefix.len() == 0 {
        false
    } else {
        in_quotation(prefix.drop_last()) != (prefix.last() == '"')
    }
}

/// Whether the last character of `s` is a comma that separates two fields, one
/// outside any quotation.
pub open spec fn ends_with_separator(s: Seq<char>) -> bool {
    s.len() > 0 && s.last() == ',' && !in_quotation(s.drop_last())
}

/// The fields of the record `s`: the pieces of `s` between the commas that
/// stand outside quotations. A comma inside a quotation belongs to its field.
/// There is always at least one field, and the fields joined by commas are
/// `s` again ([`lemma_fields_join`]).
pub open spec fn fields(s: Seq<char>) -> Seq<Seq<char>>
    decreases s.len(),
{
    if s.len() == 0 {
        seq![Seq::empty()]
    } else if ends_with_separator(s) {
        fields(s.drop_last()).push(Seq::empty())
    } else {
        let before = fields(s.drop_last());
        before.drop_last().push(before.last().push(s.last()))
    }
}

/// The texts `parts` in a row, with a comma between each two.
pub open spec fn joined(parts: Seq<Seq<char>>) -> Seq<char>
    decreases parts.len(),
{
    if parts.len() == 0 {
        Seq::empty()
    } else if parts.len() == 1 {
        parts[0]
    } else {
        joined(parts.drop_last()) + seq![','] + parts.last()
    }
}

/// Cutting a record into fields loses nothing: there is at least one field,
/// and the fields joined by commas are the record.
pub proof fn lemma_fields_join(s: Seq<char>)
    ensures
        fields(s).len() >= 1,
        joined(fields(s)) == s,
    decreases s.len(),
{
    if s.len() > 0 {
        let before = fields(s.drop_last());
        lemma_fields_join(s.drop_last());
        assert(s == s.drop_last().push(s.last()));
        if ends_with_separator(s) {
            assert(fields(s).drop_last() == before);
            assert(joined(fields(s)) == joined(before) + seq![','] + Seq::<char>::empty());
        } else if before.len() == 1 {
            assert(joined(fields(s)) == before[0].push(s.last()));
        } else {
            assert(fields(s).drop_last() == before.drop_last());
            let head = joined(before.drop_last()) + seq![','];
            assert(joined(fields(s)) == (head + before.last()).push(s.last()));
        }
    }
}

/// The part of `s` that is left when the `c`s it begins with are dropped.
pub fn strip_leading<'a>(s: &'a [char], c: char) -> (r: &'a [char])
    ensures
        r@ == without_leading(s@, c),
{
    let mut i: usize = 0;
    assert(s@.skip(0) == s@);
    while i < s.len() && s[i] == c
        invariant
            i <= s.len(),
            without_leading(s@, c) == without_leading(s@.skip(i as int), c),
        decreases s.len() - i,
    {
        assert(s@.skip(i as int).drop_first() == s@.skip(i + 1));
        i += 1;
    }
    assert(s@.skip(i as int) == s@.subrange(i as int, s@.len() as int));
    slice_subrange(s, i, s.len())
}

/// The part of `s` that is left when the `c`s it ends with are dropped.
pub fn strip_trailing<'a>(s: &'a [char], c: char) -> (r: &'a [char])
    ensures
        r@ == without_trailing(s@, c),
{
    let mut n: usize = s.len();
    assert(s@.take(n as int) == s@);
    while n > 0 && s[n - 1] == c
        invariant
            n <= s.len(),
            without_trailing(s@, c) == without_trailing(s@.take(n as int), c),
        decreases n,
    {
        assert(s@.take(n as int).drop_last() == s@.take(n - 1));
        n -= 1;
    }
    assert(s@.take(n as int) == s@.subrange(0, n as int));
    slice_subrange(s, 0, n)
}

/// The part of `s` that is left when the `c`s at both ends are dropped.
pub fn strip_surrounding<'a>(s: &'a [char], c: char) -> (r: &'a [char])
    ensures
        r@ == without_surrounding(s@, c),
{
    strip_trailing(strip_leading(s, c), c)
}

/// Whether `c` is a space, a tab or the end of a line.
pub fn blank(c: char) -> (r: bool)
    ensures
        r == is_blank(c),
{
    c == ' ' || c == '\t' || c == '\n' || c == '\r'
}

/// The part of `s` that is left when the blanks at both ends are dropped.
pub fn strip_blanks<'a>(s: &'a [char]) -> (r: &'a [char])
    ensures
        r@ == without_blanks(s@),
{
    let mut i: usize = 0;
    assert(s@.skip(0) == s@);
    while i < s.len() && blank(s[i])
        invariant
            i <= s.len(),
            without_leading_blanks(s@) == without_leading_blanks(s@.skip(i as int)),
        decreases s.len() - i,
    {
        assert(s@.skip(i as int).drop_first() == s@.skip(i + 1));
        i += 1;
    }
    let ghost rest = s@.skip(i as int);
    let mut n: usize = s.len();
    assert(rest.take(n - i) == rest);
    while n > i && blank(s[n - 1])
        invariant
            i <= n <= s.len(),
            rest == s@.skip(i as int),
            without_trailing_blanks(rest) == without_trailing_blanks(rest.take(n - i)),
        decreases n,
    {
        assert(rest.take(n - i).drop_last() == rest.take(n - i - 1));
        n -= 1;
    }
    assert(rest.take(n - i) == s@.subrange(i as int, n as int));
    slice_subrange(s, i, n)
}

/// Whether `s` is the text `text`, character for character.
pub fn same_text(s: &[char], text: &str) -> (r: bool)
    ensures
        r == (s@ == text@),
{
    let other = chars_of(text);
    if s.len() != other.len() {
        return false;
    }
    let mut i: usize = 0;
    while i < s.len()
        invariant
            i <= s.len() == other.len(),
            other@ == text@,
            s@.take(i as int) == other@.take(i as int),
        decreases s.len() - i,
    {
        if s[i] != other[i] {
            assert(s@[i as int] != text@[i as int]);
            return false;
        }
        assert(s@.take(i + 1) == s@.take(i as int).push(s@[i as int]));
        assert(other@.take(i + 1) == other@.take(i as int).push(other@[i as int]));
        i += 1;
    }
    assert(s@.take(i as int) == s@ && other@.take(i as int) == other@);
    true
}

/// Cuts `s` at its first `c`: what stands before it and what follows it. Where
/// `s` holds no `c`, all of `s` stands before and nothing follows.
pub fn cut_at_first<'a>(s: &'a [char], c: char) -> (r: (&'a [char], Option<&'a [char]>))
    ensures
        r.0@ == before_first(s@, c),
        match r.1 {
            Some(rest) => after_first(s@, c) == Some(rest@),
            None => after_first(s@, c) is None,
        },
{
    let mut i: usize = 0;
    assert(s@.skip(0) == s@);
    assert(s@.take(0) + before_first(s@, c) == before_first(s@, c));
    while i < s.len() && s[i] != c
        invariant
            i <= s.len(),
            after_first(s@, c) == after_first(s@.skip(i as int), c),
            before_first(s@, c) == s@.take(i as int) + before_first(s@.skip(i as int), c),
        decreases s.len() - i,
    {
        assert(s@.skip(i as int).drop_first() == s@.skip(i + 1));
        assert(s@.take(i as int) + seq![s@[i as int]] == s@.take(i + 1));
        i += 1;
    }
    assert(s@.take(i as int) == s@.subrange(0, i as int));
    assert(s@.take(i as int) + Seq::<char>::empty() == s@.take(i as int));
    let head = slice_subrange(s, 0, i);
    if i < s.len() {
        assert(s@.skip(i as int).drop_first() == s@.subrange(i + 1, s@.len() as int));
        (head, Some(slice_subrange(s, i + 1, s.len())))
    } else {
        (head, None)
    }
}

/// Cuts the record `s` into its fields, at the commas outside quotations.
pub fn split_fields<'a>(s: &'a [char]) -> (parts: Vec<&'a [char]>)
    ensures
        parts.len() == fields(s@).len(),
        forall|k: int| 0 <= k < parts.len() ==> (#[trigger] parts[k])@ == fields(s@)[k],
{
    let mut parts: Vec<&'a [char]> = Vec::new();
    let mut start: usize = 0;
    let mut quoted = false;
    let mut i: usize = 0;
    while i < s.len()
        invariant
            start <= i <= s.len(),
            quoted == in_quotation(s@.take(i as int)),
            fields(s@.take(i as int)).len() == parts.len() + 1,
            fields(s@.take(i as int)).last() == s@.subrange(start as int, i as int),
            forall|k: int|
                0 <= k < parts.len() ==> (#[trigger] parts[k])@ == fields(s@.take(i as int))[k],
        decreases s.len() - i,
    {
        let c = s[i];
        proof {
            let now = s@.take(i + 1);
            assert(now.drop_last() == s@.take(i as int));
            assert(now.last() == c);
            assert(s@.subrange(start as int, i as int).push(c) == s@.subrange(
                start as int,
                i + 1,
            ));
            assert(s@.subrange(i + 1, i + 1) == Seq::<char>::empty());
        }
        if c == ',' && !quoted {
            parts.push(slice_subrange(s, start, i));
            start = i + 1;
        }
        if c == '"' {
            quoted = !quoted;
        }
        i += 1;
    }
    assert(s@.take(i as int) == s@);
    parts.push(slice_subrange(s, start, i));
    parts
}

} // verus!
