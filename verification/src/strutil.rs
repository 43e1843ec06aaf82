//! Verified string utilities: decimal rendering, equality, searching for a
//! character or a two-character separator, and splitting/joining on `\r\n`.

use vstd::prelude::*;

verus! {

// ---------------------------------------------------------------------------
// Decimal rendering of unsigned integers.
// ---------------------------------------------------------------------------

/// The one-character string for a decimal digit.
pub open spec fn dec_digit(d: int) -> Seq<char> {
    if d == 0 {
        "0"@
    } else if d == 1 {
        "1"@
    } else if d == 2 {
        "2"@
    } else if d == 3 {
        "3"@
    } else if d == 4 {
        "4"@
    } else if d == 5 {
        "5"@
    } else if d == 6 {
        "6"@
    } else if d == 7 {
        "7"@
    } else if d == 8 {
        "8"@
    } else {
        "9"@
    }
}

/// The usual decimal rendering of a non-negative integer, without leading
/// zeros (except for the number 0 itself).
pub open spec fn dec_str(n: int) -> Seq<char>
    decreases n,
{
    if n < 10 {
        dec_digit(n)
    } else {
        dec_str(n / 10) + dec_digit(n % 10)
    }
}

fn digit_str(d: u64) -> (r: &'static str)
    requires
        d < 10,
    ensures
        r@ == dec_digit(d as int),
{
    if d == 0 {
        "0"
    } else if d == 1 {
        "1"
    } else if d == 2 {
        "2"
    } else if d == 3 {
        "3"
    } else if d == 4 {
        "4"
    } else if d == 5 {
        "5"
    } else if d == 6 {
        "6"
    } else if d == 7 {
        "7"
    } else if d == 8 {
        "8"
    } else {
        "9"
    }
}

/// Renders an unsigned integer in decimal.
pub fn u64_to_string(n: u64) -> (r: String)
    ensures
        r@ == dec_str(n as int),
    decreases n,
{
    if n < 10 {
        digit_str(n).to_owned()
    } else {
        let mut s = u64_to_string(n / 10);
        s.append(digit_str(n % 10));
        s
    }
}

// ---------------------------------------------------------------------------
// Equality of string slices.
// ---------------------------------------------------------------------------

/// Compares two string slices for equality of their character sequences.
pub fn str_eq(a: &str, b: &str) -> (r: bool)
    ensures
        r == (a@ == b@),
{
    let sa = a.to_owned();
    let sb = b.to_owned();
    sa == sb
}

// ---------------------------------------------------------------------------
// Searching for a character, and for a two-character separator.
// ---------------------------------------------------------------------------

/// The least index at which `c` occurs in `s`, or -1 when it does not occur.
pub open spec fn find_char(s: Seq<char>, c: char) -> int
    decreases s.len(),
{
    if s.len() == 0 {
        -1
    } else if s[0] == c {
        0
    } else {
        let r = find_char(s.skip(1), c);
        if r < 0 {
            -1
        } else {
            r + 1
        }
    }
}

/// `find_char` returns the least index holding `c`, or -1 when `c` is absent.
pub proof fn lemma_find_char(s: Seq<char>, c: char)
    ensures
        find_char(s, c) == -1 || 0 <= find_char(s, c) < s.len(),
        find_char(s, c) >= 0 ==> s[find_char(s, c)] == c,
        forall|j: int|
            0 <= j < s.len() && (find_char(s, c) == -1 || j < find_char(s, c)) ==> s[j] != c,
    decreases s.len(),
{
    if s.len() == 0 {
    } else if s[0] == c {
    } else {
        lemma_find_char(s.skip(1), c);
        assert forall|j: int|
            0 <= j < s.len() && (find_char(s, c) == -1 || j < find_char(s, c)) implies s[j]
            != c by {
            if j > 0 {
                assert(s.skip(1)[j - 1] == s[j]);
            }
        }
    }
}

/// `find_char` is the index of any occurrence that nothing precedes.
pub proof fn lemma_find_char_at(s: Seq<char>, c: char, i: int)
    requires
        0 <= i < s.len(),
        s[i] == c,
        forall|j: int| 0 <= j < i ==> s[j] != c,
    ensures
        find_char(s, c) == i,
    decreases s.len(),
{
    if i == 0 {
    } else {
        assert(s.skip(1)[i - 1] == s[i]);
        assert forall|j: int| 0 <= j < i - 1 implies s.skip(1)[j] != c by {
            assert(s.skip(1)[j] == s[j + 1]);
        }
        lemma_find_char_at(s.skip(1), c, i - 1);
    }
}

/// Scans for the first occurrence of `c`.
pub fn find_char_exec(s: &str, c: char) -> (r: Option<usize>)
    ensures
        match r {
            Some(i) => find_char(s@, c) == i as int,
            None => find_char(s@, c) == -1,
        },
{
    let n = s.unicode_len();
    let mut i: usize = 0;
    while i < n
        invariant
            i <= n,
            n == s@.len(),
            forall|j: int| 0 <= j < i ==> s@[j] != c,
        decreases n - i,
    {
        if s.get_char(i) == c {
            proof {
                lemma_find_char_at(s@, c, i as int);
            }
            return Some(i);
        }
        i = i + 1;
    }
    proof {
        lemma_find_char(s@, c);
    }
    None
}

/// The least index at which the two-character separator `ab` begins in `s`,
/// or -1 when it does not occur.
pub open spec fn find_pair(s: Seq<char>, a: char, b: char) -> int
    decreases s.len(),
{
    if s.len() < 2 {
        -1
    } else if s[0] == a && s[1] == b {
        0
    } else {
        let r = find_pair(s.skip(1), a, b);
        if r < 0 {
            -1
        } else {
            r + 1
        }
    }
}

/// `find_pair` returns the least index at which the separator begins, or -1
/// when the separator is absent.
pub proof fn lemma_find_pair(s: Seq<char>, a: char, b: char)
    ensures
        find_pair(s, a, b) == -1 || 0 <= find_pair(s, a, b) && find_pair(s, a, b) + 1 < s.len(),
        find_pair(s, a, b) >= 0 ==> s[find_pair(s, a, b)] == a && s[find_pair(s, a, b) + 1] == b,
        forall|j: int|
            #![trigger s[j]]
            0 <= j && j + 1 < s.len() && (find_pair(s, a, b) == -1 || j < find_pair(s, a, b))
                ==> !(s[j] == a && s[j + 1] == b),
    decreases s.len(),
{
    if s.len() < 2 {
    } else if s[0] == a && s[1] == b {
    } else {
        lemma_find_pair(s.skip(1), a, b);
        assert forall|j: int|
            #![trigger s[j]]
            0 <= j && j + 1 < s.len() && (find_pair(s, a, b) == -1 || j < find_pair(
                s,
                a,
                b,
            )) implies !(s[j] == a && s[j + 1] == b) by {
            if j > 0 {
                assert(s.skip(1)[j - 1] == s[j]);
                assert(s.skip(1)[j] == s[j + 1]);
            }
        }
    }
}

/// `find_pair` is the index of any separator occurrence that nothing precedes.
pub proof fn lemma_find_pair_at(s: Seq<char>, a: char, b: char, i: int)
    requires
        0 <= i,
        i + 1 < s.len(),
        s[i] == a,
        s[i + 1] == b,
        forall|j: int| #![trigger s[j]] 0 <= j < i ==> !(s[j] == a && s[j + 1] == b),
    ensures
        find_pair(s, a, b) == i,
    decreases s.len(),
{
    if i == 0 {
    } else {
        assert(s.skip(1)[i - 1] == s[i]);
        assert(s.skip(1)[i] == s[i + 1]);
        assert forall|j: int| #![trigger s.skip(1)[j]] 0 <= j < i - 1 implies !(s.skip(1)[j] == a
            && s.skip(1)[j + 1] == b) by {
            assert(s.skip(1)[j] == s[j + 1]);
            assert(s.skip(1)[j + 1] == s[j + 2]);
        }
        lemma_find_pair_at(s.skip(1), a, b, i - 1);
    }
}

/// Scans for the first occurrence of the two-character separator `ab`.
pub fn find_pair_exec(s: &str, a: char, b: char) -> (r: Option<usize>)
    ensures
        match r {
            Some(i) => find_pair(s@, a, b) == i as int,
            None => find_pair(s@, a, b) == -1,
        },
{
    let n = s.unicode_len();
    if n < 2 {
        return None;
    }
    let mut i: usize = 0;
    while i + 1 < n
        invariant
            i + 1 <= n,
            n == s@.len(),
            forall|j: int| #![trigger s@[j]] 0 <= j < i ==> !(s@[j] == a && s@[j + 1] == b),
        decreases n - i,
    {
        if s.get_char(i) == a && s.get_char(i + 1) == b {
            proof {
                lemma_find_pair_at(s@, a, b, i as int);
            }
            return Some(i);
        }
        i = i + 1;
    }
    proof {
        lemma_find_pair(s@, a, b);
    }
    None
}

// ---------------------------------------------------------------------------
// Stripping trailing NUL padding.
// ---------------------------------------------------------------------------

/// `s` without its trailing NUL characters: the padding that a fixed-size
/// read buffer leaves behind its real content. Characters elsewhere are kept.
pub open spec fn strip_padding(s: Seq<char>) -> Seq<char>
    decreases s.len(),
{
    if s.len() > 0 && s.last() == '\0' {
        strip_padding(s.drop_last())
    } else {
        s
    }
}

/// Removes trailing NUL padding. On input without trailing NULs this is a
/// no-op.
pub fn strip_padding_exec(s: &str) -> (r: String)
    ensures
        r@ == strip_padding(s@),
{
    let n = s.unicode_len();
    let mut end: usize = n;
    proof {
        assert(s@.take(n as int) =~= s@);
    }
    while end > 0 && s.get_char(end - 1) == '\0'
        invariant
            end <= n,
            n == s@.len(),
            strip_padding(s@.take(end as int)) == strip_padding(s@),
        decreases end,
    {
        proof {
            assert(s@.take(end as int).last() == s@[end - 1]);
            assert(s@.take(end as int).drop_last() =~= s@.take(end - 1));
        }
        end = end - 1;
    }
    let r = s.substring_char(0, end).to_owned();
    proof {
        if end > 0 {
            assert(s@.take(end as int).last() == s@[end - 1]);
        }
        assert(r@ =~= s@.take(end as int));
    }
    r
}

// ---------------------------------------------------------------------------
// Splitting on the line separator `\r\n`, and joining with it.
// ---------------------------------------------------------------------------

/// `s` split on each leftmost, non-overlapping occurrence of `\r\n`. The
/// result always has at least one element, and joining it back with `\r\n`
/// yields `s`.
pub open spec fn split_crlf(s: Seq<char>) -> Seq<Seq<char>>
    decreases s.len(),
    via split_crlf_decreases
{
    let i = find_pair(s, '\r', '\n');
    if i < 0 {
        seq![s]
    } else {
        seq![s.take(i)] + split_crlf(s.skip(i + 2))
    }
}

#[via_fn]
proof fn split_crlf_decreases(s: Seq<char>) {
    lemma_find_pair(s, '\r', '\n');
}

/// A split never comes back empty.
pub proof fn lemma_split_crlf_len(s: Seq<char>)
    ensures
        split_crlf(s).len() >= 1,
{
    lemma_find_pair(s, '\r', '\n');
}

/// Splits a string on each occurrence of `\r\n`.
pub fn split_crlf_exec(s: &str) -> (r: Vec<String>)
    ensures
        r.deep_view() == split_crlf(s@),
    decreases s@.len(),
{
    match find_pair_exec(s, '\r', '\n') {
        None => {
            let mut v: Vec<String> = Vec::new();
            v.push(s.to_owned());
            proof {
                assert(v.deep_view() =~= split_crlf(s@));
            }
            v
        },
        Some(i) => {
            proof {
                lemma_find_pair(s@, '\r', '\n');
            }
            let n = s.unicode_len();
            let head = s.substring_char(0, i).to_owned();
            let rest = s.substring_char(i + 2, n);
            let mut v = split_crlf_exec(rest);
            v.insert(0, head);
            proof {
                assert(v.deep_view() =~= split_crlf(s@));
            }
            v
        },
    }
}

/// The elements of `parts` joined with `\r\n` between them.
pub open spec fn join_crlf(parts: Seq<Seq<char>>) -> Seq<char>
    decreases parts.len(),
{
    if parts.len() == 0 {
        Seq::empty()
    } else if parts.len() == 1 {
        parts[0]
    } else {
        join_crlf(parts.drop_last()) + "\r\n"@ + parts.last()
    }
}

/// Joins the elements of `v` from index `from` on with `\r\n` between them.
pub fn join_crlf_from(v: &Vec<String>, from: usize) -> (r: String)
    requires
        from <= v@.len(),
    ensures
        r@ == join_crlf(v.deep_view().skip(from as int)),
{
    let ghost tail = v.deep_view().skip(from as int);
    let mut out = String::new();
    let mut i: usize = from;
    while i < v.len()
        invariant
            from <= i <= v@.len(),
            tail == v.deep_view().skip(from as int),
            out@ == join_crlf(tail.take(i - from)),
        decreases v@.len() - i,
    {
        if i > from {
            out.append("\r\n");
        }
        out.append(v[i].as_str());
        proof {
            assert(tail.take(i + 1 - from).drop_last() =~= tail.take(i - from));
            assert(tail.take(i + 1 - from).last() == v.deep_view()[i as int]);
            if i == from {
                assert(out@ =~= join_crlf(tail.take(i + 1 - from)));
            }
        }
        i = i + 1;
    }
    proof {
        assert(tail.take(v@.len() - from) =~= tail);
    }
    out
}

} // verus!
