//! Text as sequences of characters: lines and prefixes.

use vstd::prelude::*;

verus! {

/// Position of the first line feed in `s`, or `s.len()` where it has none.
pub open spec fn newline_index(s: Seq<char>) -> nat
    decreases s.len(),
{
    if s.len() == 0 {
        0
    } else if s[0] == '\n' {
        0
    } else {
        1 + newline_index(s.drop_first())
    }
}

/// `s` without one trailing carriage return.
pub open spec fn strip_cr(s: Seq<char>) -> Seq<char> {
    if s.len() > 0 && s.last() == '\r' {
        s.drop_last()
    } else {
        s
    }
}

/// The lines of `s`.
///
/// A line ends at a line feed, or at a carriage return directly followed by a
/// line feed; neither belongs to the line. The last line needs no line ending,
/// and a text that ends in one has no empty line after it. A carriage return
/// that no line feed follows is part of its line.
pub open spec fn lines(s: Seq<char>) -> Seq<Seq<char>>
    decreases s.len(),
{
    if s.len() == 0 {
        Seq::empty()
    } else {
        let nl = newline_index(s);
        if nl >= s.len() {
            seq![s]
        } else {
            seq![strip_cr(s.subrange(0, nl as int))] + lines(s.subrange(nl as int + 1, s.len() as int))
        }
    }
}

/// `s` begins with `prefix`.
pub open spec fn has_prefix(s: Seq<char>, prefix: Seq<char>) -> bool {
    prefix.len() <= s.len() && s.subrange(0, prefix.len() as int) == prefix
}

/// `newline_index` is the one position before which no line feed stands and
/// at which one stands, if any does.
pub proof fn lemma_newline_index(s: Seq<char>, k: int)
    requires
        0 <= k <= s.len(),
        forall|j: int| 0 <= j < k ==> s[j] != '\n',
        k == s.len() || s[k] == '\n',
    ensures
        newline_index(s) == k,
    decreases k,
{
    if k > 0 {
        let rest = s.drop_first();
        assert forall|j: int| 0 <= j < k - 1 implies rest[j] != '\n' by {
            assert(rest[j] == s[j + 1]);
        }
        lemma_newline_index(rest, k - 1);
    }
}

/// No line feed stands before `newline_index`, and one stands at it unless
/// it is the end of the text.
pub proof fn lemma_newline_index_is_first(s: Seq<char>)
    ensures
        newline_index(s) <= s.len(),
        forall|j: int| 0 <= j < newline_index(s) ==> s[j] != '\n',
        newline_index(s) < s.len() ==> s[newline_index(s) as int] == '\n',
    decreases s.len(),
{
    if s.len() > 0 && s[0] != '\n' {
        let rest = s.drop_first();
        lemma_newline_index_is_first(rest);
        assert forall|j: int| 0 <= j < newline_index(s) implies s[j] != '\n' by {
            if j > 0 {
                assert(s[j] == rest[j - 1]);
            }
        }
    }
}

/// The first line of a text is the text as it stands up to its first line
/// ending: it begins the text, holds no line feed, and is followed by a
/// line feed, by a carriage return and a line feed, or by nothing.
pub proof fn lemma_first_line_is_verbatim(s: Seq<char>)
    requires
        s.len() > 0,
    ensures
        lines(s).len() >= 1,
        has_prefix(s, lines(s)[0]),
        forall|j: int| 0 <= j < lines(s)[0].len() ==> lines(s)[0][j] != '\n',
        ({
            let end = lines(s)[0].len() as int;
            ||| end == s.len()
            ||| s[end] == '\n'
            ||| (end + 1 < s.len() && s[end] == '\r' && s[end + 1] == '\n')
        }),
{
    lemma_newline_index_is_first(s);
    let nl = newline_index(s) as int;
    let first = lines(s)[0];
    if nl < s.len() {
        let raw = s.subrange(0, nl);
        assert(first == strip_cr(raw));
        assert(s.subrange(0, first.len() as int) =~= first);
        assert forall|j: int| 0 <= j < first.len() implies first[j] != '\n' by {
            assert(first[j] == s[j]);
        }
    } else {
        assert(s.subrange(0, s.len() as int) =~= s);
    }
}

/// A text has no line exactly when it is empty.
pub proof fn lemma_lines_empty(s: Seq<char>)
    ensures
        lines(s).len() == 0 <==> s.len() == 0,
{
}

/// The characters of `text`, in order.
pub fn chars_of(text: &str) -> (chars: Vec<char>)
    ensures
        chars@ == text@,
{
    let mut chars: Vec<char> = Vec::new();
    for c in it: text.chars()
        invariant
            it.seq() == text@,
            chars@ == it.seq().take(it.index() as int),
    {
        chars.push(c);
    }
    chars
}

/// Whether `text` begins with `prefix`.
pub fn starts_with(text: &str, prefix: &str) -> (found: bool)
    ensures
        found == has_prefix(text@, prefix@),
{
    let chars = chars_of(text);
    let wanted = chars_of(prefix);
    if wanted.len() > chars.len() {
        return false;
    }
    let mut i: usize = 0;
    while i < wanted.len()
        invariant
            i <= wanted.len() <= chars.len(),
            chars@ == text@,
            wanted@ == prefix@,
            forall|j: int| 0 <= j < i ==> chars@[j] == wanted@[j],
        decreases wanted.len() - i,
    {
        if chars[i] != wanted[i] {
            assert(text@.subrange(0, prefix@.len() as int)[i as int] != prefix@[i as int]);
            return false;
        }
        i += 1;
    }
    assert(text@.subrange(0, prefix@.len() as int) =~= prefix@);
    true
}

/// The lines of `text`, each a slice of it.
pub fn split_lines<'a>(text: &'a str) -> (found: Vec<&'a str>)
    ensures
        found@.len() == lines(text@).len(),
        forall|i: int| 0 <= i < found@.len() ==> (#[trigger] found@[i])@ == lines(text@)[i],
{
    let chars = chars_of(text);
    let len = chars.len();
    let mut found: Vec<&'a str> = Vec::new();
    let ghost mut done: Seq<Seq<char>> = Seq::empty();
    let mut pos: usize = 0;
    assert(text@.subrange(0, len as int) =~= text@);
    while pos < len
        invariant
            pos <= len,
            len == chars@.len(),
            chars@ == text@,
            done.len() == found@.len(),
            forall|i: int| 0 <= i < found@.len() ==> (#[trigger] found@[i])@ == done[i],
            lines(text@) == done + lines(text@.subrange(pos as int, len as int)),
        decreases len - pos,
    {
        let ghost rest = text@.subrange(pos as int, len as int);
        let mut end: usize = pos;
        while end < len && chars[end] != '\n'
            invariant
                pos <= end <= len,
                len == chars@.len(),
                forall|j: int| pos <= j < end ==> chars@[j] != '\n',
            decreases len - end,
        {
            end += 1;
        }
        proof {
            assert forall|j: int| 0 <= j < end - pos implies rest[j] != '\n' by {
                assert(rest[j] == chars@[pos + j]);
            }
            lemma_newline_index(rest, end - pos);
        }
        if end == len {
            let line = text.substring_char(pos, len);
            proof {
                assert(lines(rest) == seq![rest]);
                assert(lines(text@.subrange(len as int, len as int)) =~= Seq::empty());
                assert(done + lines(rest) =~= done.push(rest) + Seq::<Seq<char>>::empty());
                done = done.push(rest);
            }
            found.push(line);
            pos = len;
        } else {
            let stop = if end > pos && chars[end - 1] == '\r' {
                end - 1
            } else {
                end
            };
            let line = text.substring_char(pos, stop);
            proof {
                let raw = rest.subrange(0, end - pos);
                assert(raw =~= text@.subrange(pos as int, end as int));
                assert(line@ =~= strip_cr(raw));
                let after = rest.subrange(end - pos + 1, rest.len() as int);
                assert(after =~= text@.subrange(end + 1, len as int));
                assert(lines(rest) == seq![strip_cr(raw)] + lines(after));
                assert(done + lines(rest) =~= done.push(line@) + lines(after));
                done = done.push(line@);
            }
            found.push(line);
            pos = end + 1;
        }
    }
    assert(lines(text@.subrange(len as int, len as int)) =~= Seq::empty());
    assert(lines(text@) =~= done);
    found
}

} // verus!
