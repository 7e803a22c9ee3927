//! The template evaluator: scans a text for `${...}` command markers with
//! depth-balanced braces, runs each command through a [`crate::runner::ScriptRunner`]
//! and splices the trimmed output back into the text.

use vstd::prelude::*;

verus! {

use vstd::string::StrSliceExecFns;
use vstd::string::StringExecFns;
use crate::runner::ScriptRunner;
use crate::text::is_ws;
use crate::text::lemma_trim_end_no_trailing_ws;
use crate::text::trim_end_spec;
use crate::text::trim_end_str;

/// `s` carries no trailing whitespace, as every spliced command output does.
pub open spec fn no_trailing_ws(s: Seq<char>) -> bool {
    s.len() > 0 ==> !is_ws(s.last())
}

/// A marker opens at `i` when the two-character sequence `${` starts there.
pub open spec fn marker_open_at(s: Seq<char>, i: int) -> bool {
    0 <= i && i + 1 < s.len() && s[i] == '$' && s[i + 1] == '{'
}

/// Index of the first marker open sequence `${` at or after position `i`.
pub open spec fn find_open_from(s: Seq<char>, i: int) -> Option<int>
    decreases s.len() - i,
{
    if i + 1 >= s.len() {
        None
    } else if s[i] == '$' && s[i + 1] == '{' {
        Some(i)
    } else {
        find_open_from(s, i + 1)
    }
}

pub proof fn lemma_find_open_bounds(s: Seq<char>, i: int)
    requires
        0 <= i,
    ensures
        match find_open_from(s, i) {
            Some(p) => i <= p && marker_open_at(s, p) && forall|k: int|
                i <= k < p ==> !marker_open_at(s, k),
            None => forall|k: int| i <= k ==> !marker_open_at(s, k),
        },
    decreases s.len() - i,
{
    if i + 1 < s.len() && !(s[i] == '$' && s[i + 1] == '{') {
        lemma_find_open_bounds(s, i + 1);
    }
}

/// Position of the closing bracket that balances the brackets seen so far:
/// scanning from `i` with running count `count`, the count rises on `open`,
/// falls on `close`, and the scan ends at the first `close` that returns it
/// to zero.
pub open spec fn find_close_from(s: Seq<char>, i: int, count: int, open: char, close: char) -> Option<
    int,
>
    decreases s.len() - i,
{
    if i >= s.len() {
        None
    } else if s[i] == open {
        find_close_from(s, i + 1, count + 1, open, close)
    } else if s[i] == close {
        if count - 1 == 0 {
            Some(i)
        } else {
            find_close_from(s, i + 1, count - 1, open, close)
        }
    } else {
        find_close_from(s, i + 1, count, open, close)
    }
}

pub proof fn lemma_find_close_bounds(s: Seq<char>, i: int, count: int, open: char, close: char)
    requires
        0 <= i,
    ensures
        find_close_from(s, i, count, open, close) matches Some(j) ==> i <= j < s.len() && s[j]
            == close,
    decreases s.len() - i,
{
    if i < s.len() {
        if s[i] == open {
            lemma_find_close_bounds(s, i + 1, count + 1, open, close);
        } else if s[i] == close {
            if count - 1 != 0 {
                lemma_find_close_bounds(s, i + 1, count - 1, open, close);
            }
        } else {
            lemma_find_close_bounds(s, i + 1, count, open, close);
        }
    }
}

/// The closing brace that ends a marker opened at `p` sits at least two
/// characters further on, past the `${` pair itself.
pub proof fn lemma_close_after_open(s: Seq<char>, p: int)
    requires
        marker_open_at(s, p),
    ensures
        find_close_from(s, p, 0, '{', '}') matches Some(c) ==> p + 2 <= c < s.len() && s[c] == '}',
{
    assert(find_close_from(s, p, 0, '{', '}') == find_close_from(s, p + 1, 0, '{', '}'));
    assert(find_close_from(s, p + 1, 0, '{', '}') == find_close_from(s, p + 2, 1, '{', '}'));
    lemma_find_close_bounds(s, p + 2, 1, '{', '}');
}

/// The command texts of the markers of `s`, in order; `None` when some marker
/// has no matching closing brace.
pub open spec fn template_commands(s: Seq<char>) -> Option<Seq<Seq<char>>>
    decreases s.len(),
    via template_commands_dec
{
    match find_open_from(s, 0) {
        None => Some(Seq::empty()),
        Some(p) => match find_close_from(s, p, 0, '{', '}') {
            None => None,
            Some(c) => match template_commands(s.subrange(c + 1, s.len() as int)) {
                None => None,
                Some(rest) => Some(seq![s.subrange(p + 2, c)] + rest),
            },
        },
    }
}

#[via_fn]
proof fn template_commands_dec(s: Seq<char>) {
    if let Some(p) = find_open_from(s, 0) {
        lemma_find_open_bounds(s, 0);
        lemma_close_after_open(s, p);
    }
}

/// The result of replacing, left to right, each marker of `s` by the matching
/// element of `outs`. Meaningful when `s` is well formed and `outs` has one
/// element per marker.
pub open spec fn splice_template(s: Seq<char>, outs: Seq<Seq<char>>) -> Seq<char>
    decreases s.len(),
    via splice_template_dec
{
    match find_open_from(s, 0) {
        None => s,
        Some(p) => match find_close_from(s, p, 0, '{', '}') {
            None => s,
            Some(c) => if outs.len() == 0 {
                s
            } else {
                s.subrange(0, p) + outs.first() + splice_template(
                    s.subrange(c + 1, s.len() as int),
                    outs.drop_first(),
                )
            },
        },
    }
}

#[via_fn]
proof fn splice_template_dec(s: Seq<char>, outs: Seq<Seq<char>>) {
    if let Some(p) = find_open_from(s, 0) {
        lemma_find_open_bounds(s, 0);
        lemma_close_after_open(s, p);
    }
}

/// Every opened marker has a matching closing brace.
pub open spec fn well_formed(s: Seq<char>) -> bool {
    template_commands(s) is Some
}

/// `s` contains no marker open sequence at all.
pub open spec fn no_markers(s: Seq<char>) -> bool {
    find_open_from(s, 0) is None
}

/// The first marker of `s` is unterminated, so scanning fails before any
/// command runs.
pub open spec fn first_marker_unterminated(s: Seq<char>) -> bool {
    match find_open_from(s, 0) {
        Some(p) => find_close_from(s, p, 0, '{', '}') is None,
        None => false,
    }
}

/// First marker open sequence of `s`, as the executable counterpart of
/// `find_open_from`.
fn find_open(s: &str) -> (r: Option<usize>)
    ensures
        r is Some <==> find_open_from(s@, 0) is Some,
        r matches Some(p) ==> find_open_from(s@, 0) == Some(p as int),
{
    let n = s.unicode_len();
    if n < 2 {
        return None;
    }
    let mut i: usize = 0;
    while i + 1 < n
        invariant
            i + 1 <= n,
            n == s@.len(),
            find_open_from(s@, 0) == find_open_from(s@, i as int),
        decreases n - i,
    {
        if s.get_char(i) == '$' && s.get_char(i + 1) == '{' {
            return Some(i);
        }
        i += 1;
    }
    None
}

/// Depth-counted bracket matching from `from`, as the executable counterpart
/// of `find_close_from`.
fn find_close(s: &str, from: usize, opening: char, closing: char) -> (r: Option<usize>)
    requires
        from <= s@.len(),
    ensures
        r is Some <==> find_close_from(s@, from as int, 0, opening, closing) is Some,
        r matches Some(j) ==> find_close_from(s@, from as int, 0, opening, closing) == Some(
            j as int,
        ),
{
    let n = s.unicode_len();
    let mut i = from;
    let mut count: i128 = 0;
    while i < n
        invariant
            from <= i <= n,
            n == s@.len(),
            -(i as int) <= count as int <= i as int,
            find_close_from(s@, from as int, 0, opening, closing) == find_close_from(
                s@,
                i as int,
                count as int,
                opening,
                closing,
            ),
        decreases n - i,
    {
        let c = s.get_char(i);
        if c == opening {
            count += 1;
        } else if c == closing {
            count -= 1;
            if count == 0 {
                return Some(i);
            }
        }
        i += 1;
    }
    None
}

/// Index of the closing bracket matching the opening one at
/// `opening_bracket_index`, counting nested pairs, or `-1` when the brackets
/// never balance before the text ends.
pub fn find_closing_bracket(
    text: &str,
    opening_bracket_index: usize,
    opening: char,
    closing: char,
) -> (r: isize)
    requires
        opening_bracket_index <= text@.len(),
        text@.len() <= isize::MAX as int,
    ensures
        r >= 0 <==> find_close_from(
            text@,
            opening_bracket_index as int,
            0,
            opening,
            closing,
        ) is Some,
        r >= 0 ==> find_close_from(text@, opening_bracket_index as int, 0, opening, closing)
            == Some(r as int),
        r < 0 ==> r == -1,
{
    match find_close(text, opening_bracket_index, opening, closing) {
        Some(j) => {
            proof {
                lemma_find_close_bounds(text@, opening_bracket_index as int, 0, opening, closing);
            }
            j as isize
        },
        None => -1,
    }
}

/// `find_closing_bracket` specialised to curly braces, as the marker syntax
/// uses them.
pub fn find_closing_curly_bracket(text: &str, opening_bracket_index: usize) -> (r: isize)
    requires
        opening_bracket_index <= text@.len(),
        text@.len() <= isize::MAX as int,
    ensures
        r >= 0 <==> find_close_from(text@, opening_bracket_index as int, 0, '{', '}') is Some,
        r >= 0 ==> find_close_from(text@, opening_bracket_index as int, 0, '{', '}') == Some(
            r as int,
        ),
        r < 0 ==> r == -1,
{
    find_closing_bracket(text, opening_bracket_index, '{', '}')
}

/// Why an evaluation failed: a malformed template (an unterminated marker),
/// or an I/O failure while running one of its commands.
#[derive(Debug)]
pub enum TemplateEvaluationError {
    SyntaxError(String),
    IoError(std::io::Error),
}

/// Finds all commands in the template, runs them, and splices each command's
/// trimmed output over its marker.
pub trait TemplateEvaluator {
    /// Evaluates `template`: every `${...}` marker, located left to right
    /// with depth-balanced braces, is replaced by the trimmed output of its
    /// command; `args` are forwarded unchanged to every command. Command
    /// output is never re-scanned for markers. A template without markers
    /// evaluates to itself; an unterminated marker is a syntax error; no
    /// partial result is ever returned.
    fn evaluate(&self, template: &str, args: &[&str]) -> (r: Result<
        String,
        TemplateEvaluationError,
    >)
        ensures
            r matches Ok(out) ==> well_formed(template@) && exists|outs: Seq<Seq<char>>|
                outs.len() == template_commands(template@)->Some_0.len() && (forall|ix: int|
                    0 <= ix < outs.len() ==> no_trailing_ws(#[trigger] outs[ix])) && out@
                    == splice_template(template@, outs),
            no_markers(template@) ==> (r matches Ok(out) && out@ == template@),
            r matches Err(e) ==> match e {
                TemplateEvaluationError::SyntaxError(m) => !well_formed(template@) && m@
                    == "Missing closing curly bracket"@,
                TemplateEvaluationError::IoError(_) => !no_markers(template@),
            },
            first_marker_unterminated(template@) ==> r matches Err(
                TemplateEvaluationError::SyntaxError(_),
            ),
    ;
}

/// The one interpreter-backed evaluator: delegates each command to its
/// `ScriptRunner`.
pub struct DefaultTemplateEvaluator<R: ScriptRunner> {
    script_runner: R,
}

impl<R: ScriptRunner> DefaultTemplateEvaluator<R> {
    pub fn new(script_runner: R) -> Self {
        DefaultTemplateEvaluator { script_runner }
    }
}

impl<R: ScriptRunner> TemplateEvaluator for DefaultTemplateEvaluator<R> {
    fn evaluate(&self, template: &str, args: &[&str]) -> (r: Result<
        String,
        TemplateEvaluationError,
    >) {
        let mut result = String::new();
        let mut remaining: &str = template;
        let ghost mut outs: Seq<Seq<char>> = seq![];
        loop
            invariant
                well_formed(template@) <==> well_formed(remaining@),
                well_formed(remaining@) ==> template_commands(template@)->Some_0.len()
                    == outs.len() + template_commands(remaining@)->Some_0.len(),
                forall|rest_outs: Seq<Seq<char>>|
                    splice_template(template@, outs + rest_outs) == result@
                        + #[trigger] splice_template(remaining@, rest_outs),
                forall|ix: int| 0 <= ix < outs.len() ==> no_trailing_ws(#[trigger] outs[ix]),
                no_markers(template@) ==> remaining@ == template@ && result@ =~= Seq::<
                    char,
                >::empty(),
                first_marker_unterminated(template@) ==> remaining@ == template@,
            decreases remaining@.len(),
        {
            let ghost rem0 = remaining@;
            let ghost res0 = result@;
            let ghost outs0 = outs;
            match find_open(remaining) {
                None => {
                    result.append(remaining);
                    proof {
                        assert(outs + Seq::<Seq<char>>::empty() =~= outs);
                        assert(splice_template(rem0, Seq::empty()) == rem0);
                        assert(splice_template(template@, outs) == res0 + rem0);
                        assert(result@ == splice_template(template@, outs));
                        assert(template_commands(rem0) == Some(Seq::<Seq<char>>::empty()));
                    }
                    return Ok(result);
                },
                Some(p) => {
                    proof {
                        lemma_find_open_bounds(rem0, 0);
                    }
                    match find_close(remaining, p, '{', '}') {
                        None => {
                            proof {
                                assert(template_commands(rem0) is None);
                            }
                            return Err(
                                TemplateEvaluationError::SyntaxError(
                                    String::from_str("Missing closing curly bracket"),
                                ),
                            );
                        },
                        Some(c) => {
                            proof {
                                lemma_close_after_open(rem0, p as int);
                            }
                            let cmd = remaining.substring_char(p + 2, c);
                            let cmd_out = match self.script_runner.run_script_and_get_stdout(
                                cmd,
                                args,
                            ) {
                                Ok(o) => o,
                                Err(e) => {
                                    proof {
                                        if no_markers(template@) {
                                            assert(find_open_from(rem0, 0) is None);
                                        }
                                        if first_marker_unterminated(template@) {
                                            assert(find_close_from(rem0, p as int, 0, '{', '}')
                                                is Some);
                                        }
                                    }
                                    return Err(TemplateEvaluationError::IoError(e));
                                },
                            };
                            let trimmed = trim_end_str(cmd_out.as_str());
                            result.append(remaining.substring_char(0, p));
                            result.append(trimmed);
                            proof {
                                lemma_trim_end_no_trailing_ws(cmd_out@);
                                outs = outs.push(trim_end_spec(cmd_out@));
                            }
                            let n = remaining.unicode_len();
                            remaining = remaining.substring_char(c + 1, n);
                            proof {
                                let t = trim_end_spec(cmd_out@);
                                let rem1 = rem0.subrange(c + 1, rem0.len() as int);
                                assert(remaining@ == rem1);
                                if well_formed(rem0) {
                                    assert(template_commands(rem0)->Some_0 == seq![
                                        rem0.subrange(p + 2, c as int)
                                    ] + template_commands(rem1)->Some_0);
                                }
                                assert forall|rest_outs: Seq<Seq<char>>|
                                    splice_template(template@, outs + rest_outs) == result@
                                        + #[trigger] splice_template(rem1, rest_outs) by {
                                    let ext = seq![t] + rest_outs;
                                    assert(outs0 + ext =~= outs + rest_outs);
                                    assert(splice_template(template@, outs0 + ext) == res0
                                        + splice_template(rem0, ext));
                                    assert(ext.first() == t);
                                    assert(ext.drop_first() =~= rest_outs);
                                    assert(splice_template(rem0, ext) == rem0.subrange(0, p as int)
                                        + t + splice_template(rem1, rest_outs));
                                    assert(result@ =~= res0 + rem0.subrange(0, p as int) + t);
                                    assert(res0 + (rem0.subrange(0, p as int) + t
                                        + splice_template(rem1, rest_outs)) =~= result@
                                        + splice_template(rem1, rest_outs));
                                }
                                if no_markers(template@) {
                                    assert(find_open_from(rem0, 0) is None);
                                }
                                if first_marker_unterminated(template@) {
                                    assert(find_close_from(rem0, p as int, 0, '{', '}') is Some);
                                }
                            }
                        },
                    }
                },
            }
        }
    }
}

/// The literal text of a marker with command `cmd`: `${`, the command, `}`.
pub open spec fn marker_text(cmd: Seq<char>) -> Seq<char> {
    seq!['$', '{'] + cmd + seq!['}']
}

/// A position holding a marker open pair, none earlier at or after `i`, is
/// the one `find_open_from` returns.
pub proof fn lemma_find_open_is_first(s: Seq<char>, i: int, p: int)
    requires
        0 <= i <= p,
        marker_open_at(s, p),
        forall|k: int| i <= k < p ==> !marker_open_at(s, k),
    ensures
        find_open_from(s, i) == Some(p),
    decreases p - i,
{
    if i < p {
        assert(!marker_open_at(s, i));
        lemma_find_open_is_first(s, i + 1, p);
    }
}

/// With no marker open pair anywhere at or after `i`, the scan finds none.
pub proof fn lemma_find_open_none(s: Seq<char>, i: int)
    requires
        0 <= i,
        forall|k: int| i <= k ==> !marker_open_at(s, k),
    ensures
        find_open_from(s, i) is None,
{
    lemma_find_open_bounds(s, i);
    if let Some(p) = find_open_from(s, i) {
        assert(marker_open_at(s, p));
    }
}

/// Bracket matching over a span free of both brackets just walks through it.
proof fn lemma_close_scan_brace_free(s: Seq<char>, i: int, j: int)
    requires
        0 <= i <= j <= s.len(),
        forall|k: int| i <= k < j ==> s[k] != '{' && s[k] != '}',
    ensures
        find_close_from(s, i, 1, '{', '}') == find_close_from(s, j, 1, '{', '}'),
    decreases j - i,
{
    if i < j {
        lemma_close_scan_brace_free(s, i + 1, j);
    }
}

/// Bracket matching inside the second half of a concatenation is the same
/// scan shifted by the first half's length.
proof fn lemma_close_shift(a: Seq<char>, b: Seq<char>, i: int, count: int)
    requires
        0 <= i,
    ensures
        ({
            let t = a + b;
            &&& (find_close_from(t, a.len() + i, count, '{', '}') is Some <==> find_close_from(
                b,
                i,
                count,
                '{',
                '}',
            ) is Some)
            &&& (find_close_from(b, i, count, '{', '}') matches Some(j) ==> find_close_from(
                t,
                a.len() + i,
                count,
                '{',
                '}',
            ) == Some(a.len() + j))
        }),
    decreases b.len() - i,
{
    let t = a + b;
    if i < b.len() {
        assert(t[a.len() + i] == b[i]);
        if b[i] == '{' {
            lemma_close_shift(a, b, i + 1, count + 1);
        } else if b[i] == '}' {
            if count - 1 != 0 {
                lemma_close_shift(a, b, i + 1, count - 1);
            }
        } else {
            lemma_close_shift(a, b, i + 1, count);
        }
    }
}

/// A close found within a prefix is still the close found after appending.
proof fn lemma_close_in_prefix(a: Seq<char>, b: Seq<char>, i: int, count: int)
    requires
        0 <= i,
        find_close_from(a, i, count, '{', '}') is Some,
    ensures
        find_close_from(a + b, i, count, '{', '}') == find_close_from(a, i, count, '{', '}'),
    decreases a.len() - i,
{
    let t = a + b;
    assert(i < a.len());
    assert(t[i] == a[i]);
    if a[i] == '{' {
        lemma_close_in_prefix(a, b, i + 1, count + 1);
    } else if a[i] == '}' {
        if count - 1 != 0 {
            lemma_close_in_prefix(a, b, i + 1, count - 1);
        }
    } else {
        lemma_close_in_prefix(a, b, i + 1, count);
    }
}

/// A template that continues, after a marker-free prefix, with the literal
/// marker `${cmd}`: its first marker is exactly that span, its command list
/// is `cmd` followed by the rest's commands, and splicing puts the first
/// output between the prefix and the spliced rest, verbatim.
pub proof fn lemma_marker_prefix(
    pre: Seq<char>,
    cmd: Seq<char>,
    o: Seq<char>,
    rest: Seq<char>,
    outs: Seq<Seq<char>>,
)
    requires
        no_markers(pre),
        forall|k: int| 0 <= k < cmd.len() ==> cmd[k] != '{' && cmd[k] != '}',
    ensures
        ({
            let t = pre + marker_text(cmd) + rest;
            let p = pre.len() as int;
            let c = pre.len() + cmd.len() + 2;
            &&& find_open_from(t, 0) == Some(p)
            &&& find_close_from(t, p, 0, '{', '}') == Some(c as int)
            &&& template_commands(t) == (match template_commands(rest) {
                None => None::<Seq<Seq<char>>>,
                Some(cs) => Some(seq![cmd] + cs),
            })
            &&& splice_template(t, seq![o] + outs) == pre + o + splice_template(rest, outs)
        }),
{
    let t = pre + marker_text(cmd) + rest;
    let p = pre.len() as int;
    let c = p + cmd.len() + 2;
    assert(t.len() == pre.len() + cmd.len() + 3 + rest.len());
    assert(forall|k: int| 0 <= k < pre.len() ==> t[k] == pre[k]);
    assert(t[p] == '$');
    assert(t[p + 1] == '{');
    assert(forall|k: int| 0 <= k < cmd.len() ==> t[p + 2 + k] == cmd[k]);
    assert(t[c] == '}');
    lemma_find_open_bounds(pre, 0);
    assert(marker_open_at(t, p));
    assert forall|k: int| 0 <= k < p implies !marker_open_at(t, k) by {
        if k + 1 < p {
            assert(!marker_open_at(pre, k));
            assert(t[k] == pre[k] && t[k + 1] == pre[k + 1]);
        } else {
            assert(t[k + 1] == '$');
        }
    }
    lemma_find_open_is_first(t, 0, p);
    assert(find_close_from(t, p, 0, '{', '}') == find_close_from(t, p + 1, 0, '{', '}'));
    assert(find_close_from(t, p + 1, 0, '{', '}') == find_close_from(t, p + 2, 1, '{', '}'));
    assert(forall|k: int| p + 2 <= k < c ==> t[k] != '{' && t[k] != '}');
    lemma_close_scan_brace_free(t, p + 2, c);
    assert(find_close_from(t, c, 1, '{', '}') == Some(c));
    assert(t.subrange(p + 2, c) =~= cmd);
    assert(t.subrange(c + 1, t.len() as int) =~= rest);
    match template_commands(rest) {
        None => {
            assert(template_commands(t) is None);
        },
        Some(cs) => {
            assert(template_commands(t) == Some(seq![cmd] + cs));
        },
    }
    let eo = seq![o] + outs;
    assert(eo.first() == o);
    assert(eo.drop_first() =~= outs);
    assert(t.subrange(0, p) =~= pre);
    assert(splice_template(t, eo) == t.subrange(0, p) + eo.first() + splice_template(
        t.subrange(c + 1, t.len() as int),
        eo.drop_first(),
    ));
    assert(pre + o + splice_template(rest, outs) =~= t.subrange(0, p) + eo.first()
        + splice_template(rest, outs));
}

/// For a template `pre` `${cmd}` `suf` holding one well-formed marker, the
/// evaluation shape is exact: the command list is `cmd` alone, and splicing
/// an output `o` yields `pre` + `o` + `suf`, with `o` inserted verbatim —
/// in particular an `o` that itself contains marker text is not re-scanned.
pub proof fn lemma_single_marker(pre: Seq<char>, cmd: Seq<char>, o: Seq<char>, suf: Seq<char>)
    requires
        no_markers(pre),
        no_markers(suf),
        forall|k: int| 0 <= k < cmd.len() ==> cmd[k] != '{' && cmd[k] != '}',
    ensures
        ({
            let t = pre + marker_text(cmd) + suf;
            &&& template_commands(t) == Some(seq![cmd])
            &&& splice_template(t, seq![o]) == pre + o + suf
        }),
{
    let t = pre + marker_text(cmd) + suf;
    lemma_marker_prefix(pre, cmd, o, suf, Seq::empty());
    assert(template_commands(suf) == Some(Seq::<Seq<char>>::empty()));
    assert(seq![cmd] + Seq::<Seq<char>>::empty() =~= seq![cmd]);
    assert(splice_template(suf, Seq::empty()) == suf);
    assert(seq![o] + Seq::<Seq<char>>::empty() =~= seq![o]);
}

/// Two markers on one template resolve left to right, each to its own
/// output: `pre ${a} mid ${b} suf` with outputs `o1`, `o2` splices to
/// `pre o1 mid o2 suf`.
pub proof fn lemma_two_markers(
    pre: Seq<char>,
    cmd1: Seq<char>,
    o1: Seq<char>,
    mid: Seq<char>,
    cmd2: Seq<char>,
    o2: Seq<char>,
    suf: Seq<char>,
)
    requires
        no_markers(pre),
        no_markers(mid),
        no_markers(suf),
        forall|k: int| 0 <= k < cmd1.len() ==> cmd1[k] != '{' && cmd1[k] != '}',
        forall|k: int| 0 <= k < cmd2.len() ==> cmd2[k] != '{' && cmd2[k] != '}',
    ensures
        ({
            let t = pre + marker_text(cmd1) + mid + marker_text(cmd2) + suf;
            &&& template_commands(t) == Some(seq![cmd1, cmd2])
            &&& splice_template(t, seq![o1, o2]) == pre + o1 + mid + o2 + suf
        }),
{
    let t = pre + marker_text(cmd1) + mid + marker_text(cmd2) + suf;
    let t2 = mid + marker_text(cmd2) + suf;
    lemma_single_marker(mid, cmd2, o2, suf);
    assert(t =~= pre + marker_text(cmd1) + t2);
    lemma_marker_prefix(pre, cmd1, o1, t2, seq![o2]);
    assert(seq![cmd1] + seq![cmd2] =~= seq![cmd1, cmd2]);
    assert(seq![o1] + seq![o2] =~= seq![o1, o2]);
    assert(pre + o1 + (mid + o2 + suf) =~= pre + o1 + mid + o2 + suf);
}

/// Evaluating a concatenation whose first half is well formed, with no
/// marker pair spanning the boundary, resolves the first half's markers and
/// then the second half's, and splices each half independently.
#[verifier::rlimit(100)]
pub proof fn lemma_concat_eval(
    a: Seq<char>,
    b: Seq<char>,
    outs_a: Seq<Seq<char>>,
    outs_b: Seq<Seq<char>>,
)
    requires
        well_formed(a),
        outs_a.len() == template_commands(a)->Some_0.len(),
        a.len() > 0 && b.len() > 0 ==> !(a.last() == '$' && b[0] == '{'),
    ensures
        template_commands(a + b) == (match template_commands(b) {
            None => None::<Seq<Seq<char>>>,
            Some(cb) => Some(template_commands(a)->Some_0 + cb),
        }),
        template_commands(b) is Some ==> splice_template(a + b, outs_a + outs_b)
            == splice_template(a, outs_a) + splice_template(b, outs_b),
    decreases a.len(),
{
    let t = a + b;
    assert(forall|k: int| 0 <= k < a.len() ==> t[k] == a[k]);
    assert(forall|k: int| 0 <= k < b.len() ==> t[a.len() + k] == b[k]);
    match find_open_from(a, 0) {
        None => {
            assert(template_commands(a) == Some(Seq::<Seq<char>>::empty()));
            assert(outs_a =~= Seq::<Seq<char>>::empty());
            assert(splice_template(a, outs_a) == a);
            lemma_find_open_bounds(a, 0);
            assert forall|k: int| 0 <= k < a.len() implies !marker_open_at(t, k) by {
                if k + 1 < a.len() {
                    assert(!marker_open_at(a, k));
                } else {
                    if k + 1 < t.len() {
                        assert(t[k] == a.last());
                        assert(t[k + 1] == b[0]);
                    }
                }
            }
            lemma_find_open_bounds(b, 0);
            match find_open_from(b, 0) {
                None => {
                    assert forall|k: int| 0 <= k implies !marker_open_at(t, k) by {
                        if a.len() <= k && k + 1 < t.len() {
                            assert(!marker_open_at(b, k - a.len()));
                            assert(t[k] == b[k - a.len()]);
                            assert(t[k + 1] == b[k + 1 - a.len()]);
                        }
                    }
                    lemma_find_open_none(t, 0);
                    assert(template_commands(t) == Some(Seq::<Seq<char>>::empty()));
                    assert(template_commands(a)->Some_0 + Seq::<Seq<char>>::empty() =~= Seq::<
                        Seq<char>,
                    >::empty());
                    assert(outs_a + outs_b =~= outs_b);
                    assert(splice_template(t, outs_b) == t);
                    assert(splice_template(b, outs_b) == b);
                },
                Some(p) => {
                    assert(marker_open_at(b, p));
                    assert(marker_open_at(t, a.len() + p));
                    assert forall|k: int| 0 <= k < a.len() + p implies !marker_open_at(t, k) by {
                        if a.len() <= k {
                            assert(!marker_open_at(b, k - a.len()));
                            assert(t[k] == b[k - a.len()]);
                            if k + 1 < t.len() {
                                assert(t[k + 1] == b[k + 1 - a.len()]);
                            }
                        }
                    }
                    lemma_find_open_is_first(t, 0, a.len() + p);
                    lemma_close_shift(a, b, p, 0);
                    match find_close_from(b, p, 0, '{', '}') {
                        None => {
                            assert(template_commands(b) is None);
                            assert(template_commands(t) is None);
                        },
                        Some(c) => {
                            lemma_find_close_bounds(b, p, 0, '{', '}');
                            let bsuf = b.subrange(c + 1, b.len() as int);
                            assert(t.subrange(a.len() + p + 2, a.len() + c) =~= b.subrange(
                                p + 2,
                                c,
                            ));
                            assert(t.subrange(a.len() + c + 1, t.len() as int) =~= bsuf);
                            match template_commands(bsuf) {
                                None => {
                                    assert(template_commands(b) is None);
                                    assert(template_commands(t) is None);
                                },
                                Some(_) => {
                                    assert(template_commands(t) == template_commands(b));
                                    assert(template_commands(a)->Some_0 + template_commands(
                                        b,
                                    )->Some_0 =~= template_commands(b)->Some_0);
                                    if template_commands(b) is Some {
                                        assert(outs_a + outs_b =~= outs_b);
                                        if outs_b.len() == 0 {
                                            assert(splice_template(t, outs_b) == t);
                                            assert(splice_template(b, outs_b) == b);
                                        } else {
                                            assert(t.subrange(0, a.len() + p) =~= a + b.subrange(
                                                0,
                                                p,
                                            ));
                                            assert(splice_template(t, outs_b) == t.subrange(
                                                0,
                                                a.len() + p,
                                            ) + outs_b.first() + splice_template(
                                                bsuf,
                                                outs_b.drop_first(),
                                            ));
                                            assert(splice_template(b, outs_b) == b.subrange(0, p)
                                                + outs_b.first() + splice_template(
                                                bsuf,
                                                outs_b.drop_first(),
                                            ));
                                            assert(a + b.subrange(0, p) + outs_b.first()
                                                + splice_template(bsuf, outs_b.drop_first()) =~= a
                                                + (b.subrange(0, p) + outs_b.first()
                                                + splice_template(bsuf, outs_b.drop_first())));
                                        }
                                    }
                                },
                            }
                        },
                    }
                },
            }
        },
        Some(p) => {
            lemma_find_open_bounds(a, 0);
            assert(marker_open_at(a, p));
            assert(marker_open_at(t, p));
            assert forall|k: int| 0 <= k < p implies !marker_open_at(t, k) by {
                assert(!marker_open_at(a, k));
            }
            lemma_find_open_is_first(t, 0, p);
            match find_close_from(a, p, 0, '{', '}') {
                None => {
                    assert(template_commands(a) is None);
                },
                Some(c) => {
                    lemma_find_close_bounds(a, p, 0, '{', '}');
                    lemma_close_in_prefix(a, b, p, 0);
                    let asuf = a.subrange(c + 1, a.len() as int);
                    assert(t.subrange(p + 2, c) =~= a.subrange(p + 2, c));
                    assert(t.subrange(c + 1, t.len() as int) =~= asuf + b);
                    assert(template_commands(a) == (match template_commands(asuf) {
                        None => None::<Seq<Seq<char>>>,
                        Some(cs) => Some(seq![a.subrange(p + 2, c)] + cs),
                    }));
                    assert(template_commands(asuf) is Some);
                    let cs_a = template_commands(asuf)->Some_0;
                    assert(outs_a.len() == cs_a.len() + 1);
                    let outs_a1 = outs_a.drop_first();
                    assert(asuf.len() > 0 && b.len() > 0 ==> !(asuf.last() == '$' && b[0] == '{'))
                        by {
                        if asuf.len() > 0 {
                            assert(asuf.last() == a.last());
                        }
                    }
                    lemma_concat_eval(asuf, b, outs_a1, outs_b);
                    match template_commands(b) {
                        None => {
                            assert(template_commands(asuf + b) is None);
                            assert(template_commands(t) is None);
                        },
                        Some(cb) => {
                            assert(template_commands(asuf + b) == Some(cs_a + cb));
                            assert(template_commands(t) == Some(
                                seq![a.subrange(p + 2, c)] + (cs_a + cb),
                            ));
                            assert(seq![a.subrange(p + 2, c)] + (cs_a + cb) =~= (seq![
                                a.subrange(p + 2, c)
                            ] + cs_a) + cb);
                            let eo = outs_a + outs_b;
                            assert(eo.len() > 0);
                            assert(eo.first() == outs_a.first());
                            assert(eo.drop_first() =~= outs_a1 + outs_b);
                            assert(t.subrange(0, p) =~= a.subrange(0, p));
                            assert(splice_template(t, eo) == t.subrange(0, p) + eo.first()
                                + splice_template(asuf + b, outs_a1 + outs_b));
                            assert(splice_template(asuf + b, outs_a1 + outs_b) == splice_template(
                                asuf,
                                outs_a1,
                            ) + splice_template(b, outs_b));
                            assert(splice_template(a, outs_a) == a.subrange(0, p)
                                + outs_a.first() + splice_template(asuf, outs_a1));
                            assert(a.subrange(0, p) + outs_a.first() + (splice_template(
                                asuf,
                                outs_a1,
                            ) + splice_template(b, outs_b)) =~= (a.subrange(0, p) + outs_a.first()
                                + splice_template(asuf, outs_a1)) + splice_template(b, outs_b));
                        },
                    }
                },
            }
        },
    }
}

/// Evaluating a multi-line template resolves each line's markers and keeps
/// the line terminator: the commands of `l1 \n l2` are those of `l1`
/// followed by those of `l2`, and the splice is the two halves spliced
/// independently, rejoined with the same `\n`.
pub proof fn lemma_multi_line(
    l1: Seq<char>,
    l2: Seq<char>,
    outs1: Seq<Seq<char>>,
    outs2: Seq<Seq<char>>,
)
    requires
        well_formed(l1),
        well_formed(l2),
        outs1.len() == template_commands(l1)->Some_0.len(),
    ensures
        ({
            let t = l1 + seq!['\n'] + l2;
            &&& template_commands(t) == Some(
                template_commands(l1)->Some_0 + template_commands(l2)->Some_0,
            )
            &&& splice_template(t, outs1 + outs2) == splice_template(l1, outs1) + seq!['\n']
                + splice_template(l2, outs2)
        }),
{
    let t = l1 + seq!['\n'] + l2;
    let nl = seq!['\n'];
    let b = nl + l2;
    assert(b[0] == '\n');
    lemma_find_open_none(nl, 0);
    assert(template_commands(nl) == Some(Seq::<Seq<char>>::empty()));
    assert(nl.last() == '\n');
    lemma_concat_eval(nl, l2, Seq::empty(), outs2);
    assert(template_commands(b) == Some(
        Seq::<Seq<char>>::empty() + template_commands(l2)->Some_0,
    ));
    assert(Seq::<Seq<char>>::empty() + template_commands(l2)->Some_0 =~= template_commands(
        l2,
    )->Some_0);
    assert(Seq::<Seq<char>>::empty() + outs2 =~= outs2);
    assert(splice_template(b, outs2) == splice_template(nl, Seq::empty()) + splice_template(
        l2,
        outs2,
    ));
    assert(splice_template(nl, Seq::empty()) == nl);
    lemma_concat_eval(l1, b, outs1, outs2);
    assert(t =~= l1 + b);
    assert(splice_template(l1, outs1) + (nl + splice_template(l2, outs2)) =~= splice_template(
        l1,
        outs1,
    ) + nl + splice_template(l2, outs2));
}

} // verus!
