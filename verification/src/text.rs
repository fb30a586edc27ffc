//! Operations on text, stated over sequences of characters.

use vstd::prelude::*;
use vstd::string::*;

verus! {

/// The views of the strings of `v`, in order.
pub open spec fn texts(v: Seq<String>) -> Seq<Seq<char>> {
    Seq::new(v.len(), |i: int| v[i]@)
}

/// The view of an optional string.
pub open spec fn opt_text(s: Option<String>) -> Option<Seq<char>> {
    match s {
        Some(s) => Some(s@),
        None => None,
    }
}

/// The index of the first `c` in `s`; the length of `s` where it has none.
pub open spec fn position(s: Seq<char>, c: char) -> int
    decreases s.len(),
{
    if s.len() == 0 || s[0] == c {
        0
    } else {
        1 + position(s.skip(1), c)
    }
}

/// The pieces of `s` between the occurrences of `sep`: one more than `s`
/// has of them, empty ones included.
pub open spec fn split_seq(s: Seq<char>, sep: char) -> Seq<Seq<char>>
    decreases s.len(),
{
    let i = position(s, sep);
    if i < 0 || i >= s.len() {
        seq![s]
    } else {
        seq![s.take(i)] + split_seq(s.skip(i + 1), sep)
    }
}

/// `s` with `to` in place of every `from`.
pub open spec fn replaced(s: Seq<char>, from: char, to: Seq<char>) -> Seq<char>
    decreases s.len(),
{
    if s.len() == 0 {
        Seq::empty()
    } else {
        replaced(s.drop_last(), from, to) + (if s.last() == from {
            to
        } else {
            seq![s.last()]
        })
    }
}

/// `s` without `prefix` at its start; `s` itself where it does not start
/// with `prefix`.
pub open spec fn without_prefix(s: Seq<char>, prefix: Seq<char>) -> Seq<char> {
    if prefix.is_prefix_of(s) {
        s.skip(prefix.len() as int)
    } else {
        s
    }
}

/// `position` is the one index before which `s` has no `c` and which holds
/// a `c` or ends `s`.
pub proof fn lemma_position(s: Seq<char>, c: char)
    ensures
        0 <= position(s, c) <= s.len(),
        position(s, c) < s.len() ==> s[position(s, c)] == c,
        forall|j: int| 0 <= j < position(s, c) ==> s[j] != c,
        forall|i: int|
            0 <= i <= s.len() && (i < s.len() ==> s[i] == c) && (forall|j: int|
                0 <= j < i ==> s[j] != c) ==> position(s, c) == i,
    decreases s.len(),
{
    if s.len() == 0 || s[0] == c {
    } else {
        let rest = s.skip(1);
        lemma_position(rest, c);
        assert forall|j: int| 0 <= j < position(s, c) implies s[j] != c by {
            if j > 0 {
                assert(rest[j - 1] == s[j]);
            }
        }
        assert forall|i: int|
            0 <= i <= s.len() && (i < s.len() ==> s[i] == c) && (forall|j: int|
                0 <= j < i ==> s[j] != c) implies position(s, c) == i by {
            assert(i > 0) by {
                if i == 0 {
                    assert(s[i] == c);
                }
            }
            assert(i - 1 < rest.len() ==> rest[i - 1] == c);
            assert forall|j: int| 0 <= j < i - 1 implies rest[j] != c by {
                assert(rest[j] == s[j + 1]);
            }
        }
    }
}

/// The characters of `s`, in order.
pub fn chars_of(s: &str) -> (chars: Vec<char>)
    ensures
        chars@ == s@,
{
    let mut chars: Vec<char> = Vec::new();
    for c in it: s.chars()
        invariant
            it.seq() == s@,
            chars@ == it.seq().take(it.index()),
    {
        chars.push(c);
    }
    chars
}

/// Whether `a` and `b` hold the same characters.
pub fn same_text(a: &str, b: &str) -> (equal: bool)
    ensures
        equal == (a@ == b@),
{
    let left = chars_of(a);
    let right = chars_of(b);
    if left.len() != right.len() {
        return false;
    }
    let mut i: usize = 0;
    while i < left.len()
        invariant
            i <= left.len(),
            left.len() == right.len(),
            left@ == a@,
            right@ == b@,
            forall|j: int| 0 <= j < i ==> left@[j] == right@[j],
        decreases left.len() - i,
    {
        if left[i] != right[i] {
            return false;
        }
        i += 1;
    }
    assert(a@ =~= b@);
    true
}

/// Whether `s` starts with `prefix`.
pub fn starts_with(s: &str, prefix: &str) -> (found: bool)
    ensures
        found == prefix@.is_prefix_of(s@),
{
    let text = chars_of(s);
    let head = chars_of(prefix);
    if head.len() > text.len() {
        return false;
    }
    let mut i: usize = 0;
    while i < head.len()
        invariant
            i <= head.len() <= text.len(),
            head@ == prefix@,
            text@ == s@,
            forall|j: int| 0 <= j < i ==> head@[j] == text@[j],
        decreases head.len() - i,
    {
        if head[i] != text[i] {
            proof {
                assert(s@.subrange(0, prefix@.len() as int)[i as int] != prefix@[i as int]);
            }
            return false;
        }
        i += 1;
    }
    proof {
        assert(prefix@ =~= s@.subrange(0, prefix@.len() as int));
    }
    true
}

/// The index of the first `c` in `s`, if it has one.
pub fn find_char(s: &str, c: char) -> (found: Option<usize>)
    ensures
        match found {
            Some(i) => i == position(s@, c) && i < s@.len(),
            None => position(s@, c) == s@.len(),
        },
{
    let text = chars_of(s);
    let mut i: usize = 0;
    while i < text.len()
        invariant
            i <= text.len(),
            text@ == s@,
            forall|j: int| 0 <= j < i ==> s@[j] != c,
        decreases text.len() - i,
    {
        if text[i] == c {
            proof {
                lemma_position(s@, c);
            }
            return Some(i);
        }
        i += 1;
    }
    proof {
        lemma_position(s@, c);
    }
    None
}

/// The pieces of `s` between the occurrences of `sep`.
pub fn split(s: &str, sep: char) -> (parts: Vec<String>)
    ensures
        texts(parts@) == split_seq(s@, sep),
{
    let text = chars_of(s);
    let n = text.len();
    let mut parts: Vec<String> = Vec::new();
    let mut start: usize = 0;
    let mut i: usize = 0;
    assert(texts(parts@) + split_seq(s@.skip(0), sep) == split_seq(s@, sep)) by {
        assert(s@.skip(0) == s@);
        assert(texts(parts@) == Seq::<Seq<char>>::empty());
    }
    while i < n
        invariant
            start <= i <= n,
            n == s@.len(),
            text@ == s@,
            forall|j: int| start <= j < i ==> s@[j] != sep,
            texts(parts@) + split_seq(s@.skip(start as int), sep) == split_seq(s@, sep),
        decreases n - i,
    {
        if text[i] == sep {
            let piece = s.substring_char(start, i);
            let ghost before = texts(parts@);
            parts.push(piece.to_owned());
            proof {
                let rest = s@.skip(start as int);
                lemma_position(rest, sep);
                assert(rest[i - start] == sep);
                assert(position(rest, sep) == i - start);
                assert(rest.take(i - start) == s@.subrange(start as int, i as int));
                assert(rest.skip(i - start + 1) == s@.skip(i + 1));
                assert(texts(parts@) == before + seq![piece@]);
            }
            start = i + 1;
        }
        i += 1;
    }
    let piece = s.substring_char(start, n);
    let ghost before = texts(parts@);
    parts.push(piece.to_owned());
    proof {
        let rest = s@.skip(start as int);
        lemma_position(rest, sep);
        assert(position(rest, sep) == rest.len());
        assert(rest == s@.subrange(start as int, n as int));
        assert(texts(parts@) == before + seq![piece@]);
    }
    parts
}

/// `s` with `to` in place of every `from`.
pub fn replace_char(s: &str, from: char, to: &str) -> (out: String)
    ensures
        out@ == replaced(s@, from, to@),
{
    let text = chars_of(s);
    let n = text.len();
    let mut out = String::new();
    let mut start: usize = 0;
    let mut i: usize = 0;
    assert(s@.take(0) == Seq::<char>::empty());
    assert(out@ + s@.subrange(0, 0) == replaced(s@.take(0), from, to@));
    while i < n
        invariant
            start <= i <= n,
            n == s@.len(),
            text@ == s@,
            out@ + s@.subrange(start as int, i as int) == replaced(s@.take(i as int), from, to@),
        decreases n - i,
    {
        proof {
            let upto = s@.take(i + 1);
            assert(upto.drop_last() == s@.take(i as int));
            assert(upto.last() == s@[i as int]);
        }
        if text[i] == from {
            out.append(s.substring_char(start, i));
            out.append(to);
            start = i + 1;
            proof {
                assert(s@.subrange(start as int, start as int) == Seq::<char>::empty());
                assert(out@ + s@.subrange(start as int, start as int) == out@);
            }
        } else {
            proof {
                assert(s@.subrange(start as int, i + 1) == s@.subrange(start as int, i as int)
                    + seq![s@[i as int]]);
            }
        }
        i += 1;
    }
    out.append(s.substring_char(start, n));
    proof {
        assert(s@.take(n as int) == s@);
    }
    out
}

/// `pat` without `prefix` at its start; `pat` itself where it does not start
/// with `prefix`.
pub fn cutoff_prefix(pat: &str, prefix: &str) -> (out: String)
    ensures
        out@ == without_prefix(pat@, prefix@),
{
    if starts_with(pat, prefix) {
        let skip = prefix.unicode_len();
        let len = pat.unicode_len();
        let rest = pat.substring_char(skip, len);
        assert(rest@ == pat@.skip(prefix@.len() as int));
        rest.to_owned()
    } else {
        pat.to_owned()
    }
}

} // verus!
