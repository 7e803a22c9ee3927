//! Character-level utilities shared by the template scanner, the runner's
//! output handling and the context-call parser.

use vstd::prelude::*;

verus! {

use vstd::string::StrSliceExecFns;

pub assume_specification[ String::push ](s: &mut String, ch: char)
    ensures
        final(s)@ == old(s)@.push(ch),
;

/// Index of the first occurrence of `c` in `s` at or after position `i`.
pub open spec fn find_char_from(s: Seq<char>, i: int, c: char) -> Option<int>
    decreases s.len() - i,
{
    if i >= s.len() {
        None
    } else if s[i] == c {
        Some(i)
    } else {
        find_char_from(s, i + 1, c)
    }
}

pub proof fn lemma_find_char_from(s: Seq<char>, i: int, c: char)
    requires
        0 <= i,
    ensures
        match find_char_from(s, i, c) {
            Some(j) => i <= j < s.len() && s[j] == c && forall|k: int| i <= k < j ==> s[k] != c,
            None => forall|k: int| i <= k < s.len() ==> s[k] != c,
        },
    decreases s.len() - i,
{
    if i < s.len() && s[i] != c {
        lemma_find_char_from(s, i + 1, c);
    }
}

/// First occurrence of `c` in `s` at or after char index `from`, as the
/// executable counterpart of `find_char_from`.
pub fn find_char_at(s: &str, from: usize, c: char) -> (r: Option<usize>)
    ensures
        r is Some <==> find_char_from(s@, from as int, c) is Some,
        r matches Some(j) ==> find_char_from(s@, from as int, c) == Some(j as int),
{
    let n = s.unicode_len();
    if from >= n {
        return None;
    }
    let mut i = from;
    while i < n
        invariant
            from <= i <= n,
            n == s@.len(),
            find_char_from(s@, from as int, c) == find_char_from(s@, i as int, c),
        decreases n - i,
    {
        if s.get_char(i) == c {
            return Some(i);
        }
        i += 1;
    }
    None
}

/// A position holding `c` with no earlier occurrence at or after `i` is the
/// one `find_char_from` returns.
pub proof fn lemma_find_char_is_first(s: Seq<char>, i: int, c: char, j: int)
    requires
        0 <= i <= j < s.len(),
        s[j] == c,
        forall|k: int| i <= k < j ==> s[k] != c,
    ensures
        find_char_from(s, i, c) == Some(j),
    decreases j - i,
{
    if i < j {
        lemma_find_char_is_first(s, i + 1, c, j);
    }
}

/// Searching from `i` in `s` finds the same occurrence as searching the
/// suffix of `s` that starts at `i`, shifted by `i`.
pub proof fn lemma_find_char_offset(s: Seq<char>, i: int, c: char)
    requires
        0 <= i <= s.len(),
    ensures
        ({
            let sub = s.subrange(i, s.len() as int);
            &&& (find_char_from(s, i, c) is Some <==> find_char_from(sub, 0, c) is Some)
            &&& (find_char_from(s, i, c) matches Some(j) ==> find_char_from(sub, 0, c) == Some(
                j - i,
            ))
        }),
{
    let sub = s.subrange(i, s.len() as int);
    lemma_find_char_from(s, i, c);
    lemma_find_char_from(sub, 0, c);
    match find_char_from(s, i, c) {
        Some(j) => {
            assert(sub[j - i] == c);
            assert(forall|k: int| 0 <= k < j - i ==> sub[k] != c);
            lemma_find_char_is_first(sub, 0, c, j - i);
        },
        None => {
            if let Some(j2) = find_char_from(sub, 0, c) {
                assert(s[i + j2] == c);
            }
        },
    }
}

/// A line's content once a trailing carriage return is removed.
pub open spec fn chop_cr(line: Seq<char>) -> Seq<char> {
    if line.len() > 0 && line.last() == '\r' {
        line.drop_last()
    } else {
        line
    }
}

/// The lines of `s`, split at `\n`, each line stripped of the carriage
/// return that ended it, as `BufRead::lines` reads them.
pub open spec fn split_lines(s: Seq<char>) -> Seq<Seq<char>>
    decreases s.len(),
    via split_lines_dec
{
    if s.len() == 0 {
        seq![]
    } else {
        match find_char_from(s, 0, '\n') {
            None => seq![s],
            Some(j) => seq![chop_cr(s.subrange(0, j))] + split_lines(
                s.subrange(j + 1, s.len() as int),
            ),
        }
    }
}

#[via_fn]
proof fn split_lines_dec(s: Seq<char>) {
    if s.len() > 0 {
        lemma_find_char_from(s, 0, '\n');
    }
}

/// The lines joined back, each line followed by a single `\n`.
pub open spec fn join_lines_nl(lines: Seq<Seq<char>>) -> Seq<char>
    decreases lines.len(),
{
    if lines.len() == 0 {
        seq![]
    } else {
        lines.first() + seq!['\n'] + join_lines_nl(lines.drop_first())
    }
}

/// The characters that `str::trim_end` removes (the Unicode `White_Space` set).
pub open spec fn is_ws(c: char) -> bool {
    c == ' ' || c == '\t' || c == '\n' || c == '\r' || c == '\u{0b}' || c == '\u{0c}'
        || c == '\u{85}' || c == '\u{a0}' || c == '\u{1680}' || (0x2000 <= c as int <= 0x200a)
        || c == '\u{2028}' || c == '\u{2029}' || c == '\u{202f}' || c == '\u{205f}'
        || c == '\u{3000}'
}

pub fn is_ws_char(c: char) -> (b: bool)
    ensures
        b == is_ws(c),
{
    c == ' ' || c == '\t' || c == '\n' || c == '\r' || c == '\u{0b}' || c == '\u{0c}'
        || c == '\u{85}' || c == '\u{a0}' || c == '\u{1680}' || ('\u{2000}' <= c && c
        <= '\u{200a}') || c == '\u{2028}' || c == '\u{2029}' || c == '\u{202f}' || c == '\u{205f}'
        || c == '\u{3000}'
}

/// `s` with every trailing whitespace character removed.
pub open spec fn trim_end_spec(s: Seq<char>) -> Seq<char>
    decreases s.len(),
{
    if s.len() == 0 {
        s
    } else if is_ws(s.last()) {
        trim_end_spec(s.drop_last())
    } else {
        s
    }
}

pub proof fn lemma_trim_end_no_trailing_ws(s: Seq<char>)
    ensures
        trim_end_spec(s).len() > 0 ==> !is_ws(trim_end_spec(s).last()),
        trim_end_spec(s).len() <= s.len(),
    decreases s.len(),
{
    if s.len() > 0 && is_ws(s.last()) {
        lemma_trim_end_no_trailing_ws(s.drop_last());
    }
}

/// Executable counterpart of `trim_end_spec`, as `str::trim_end` behaves.
pub fn trim_end_str(s: &str) -> (r: &str)
    ensures
        r@ == trim_end_spec(s@),
{
    let n = s.unicode_len();
    let mut k = n;
    proof {
        assert(s@.subrange(0, n as int) =~= s@);
    }
    while k > 0 && is_ws_char(s.get_char(k - 1))
        invariant
            k <= n,
            n == s@.len(),
            trim_end_spec(s@) == trim_end_spec(s@.subrange(0, k as int)),
        decreases k,
    {
        proof {
            let pre = s@.subrange(0, k as int);
            assert(pre.last() == s@[k - 1]);
            assert(pre.drop_last() =~= s@.subrange(0, k - 1));
        }
        k -= 1;
    }
    let r = s.substring_char(0, k);
    proof {
        let pre = s@.subrange(0, k as int);
        if k > 0 {
            assert(pre.last() == s@[k - 1]);
        }
        assert(trim_end_spec(pre) == pre);
    }
    r
}

/// `s` ends with `suffix`.
pub open spec fn ends_with(s: Seq<char>, suffix: Seq<char>) -> bool {
    suffix.len() <= s.len() && s.subrange(s.len() - suffix.len(), s.len() as int) == suffix
}

/// Character-by-character equality of two string slices.
pub fn str_eq(a: &str, b: &str) -> (r: bool)
    ensures
        r == (a@ == b@),
{
    let na = a.unicode_len();
    let nb = b.unicode_len();
    if na != nb {
        return false;
    }
    let mut i: usize = 0;
    while i < na
        invariant
            i <= na,
            na == a@.len(),
            na == b@.len(),
            forall|k: int| 0 <= k < i ==> a@[k] == b@[k],
        decreases na - i,
    {
        if a.get_char(i) != b.get_char(i) {
            return false;
        }
        i += 1;
    }
    proof {
        assert(a@ =~= b@);
    }
    true
}

} // verus!
