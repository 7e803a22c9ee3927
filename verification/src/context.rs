//! The call syntax for context templates: `name:arg1 arg2` names a context
//! file and the arguments handed to every command the template runs.

use vstd::prelude::*;

verus! {

use vstd::string::StrSliceExecFns;
use vstd::string::StringExecFns;
use crate::text::{find_char_from, find_char_at, lemma_find_char_from, lemma_find_char_offset};

/// The pieces of `s` between occurrences of `sep`; splitting keeps empty
/// pieces, and an empty text is one empty piece.
pub open spec fn split_char(s: Seq<char>, sep: char) -> Seq<Seq<char>>
    decreases s.len(),
    via split_char_dec
{
    match find_char_from(s, 0, sep) {
        None => seq![s],
        Some(j) => seq![s.subrange(0, j)] + split_char(s.subrange(j + 1, s.len() as int), sep),
    }
}

#[via_fn]
proof fn split_char_dec(s: Seq<char>, sep: char) {
    lemma_find_char_from(s, 0, sep);
}

/// The text before the first `:` of a call, or all of it when there is none.
pub open spec fn call_name(s: Seq<char>) -> Seq<char> {
    match find_char_from(s, 0, ':') {
        None => s,
        Some(j) => s.subrange(0, j),
    }
}

/// The arguments of a call: the text after the first `:`, split on spaces;
/// no `:` means no arguments.
pub open spec fn call_args(s: Seq<char>) -> Seq<Seq<char>> {
    match find_char_from(s, 0, ':') {
        None => Seq::empty(),
        Some(j) => split_char(s.subrange(j + 1, s.len() as int), ' '),
    }
}

fn split_on_spaces(s: &str) -> (v: Vec<String>)
    ensures
        v.deep_view() == split_char(s@, ' '),
{
    let n = s.unicode_len();
    let mut v: Vec<String> = Vec::new();
    let mut i: usize = 0;
    proof {
        assert(s@.subrange(0, n as int) =~= s@);
        assert(v.deep_view() + split_char(s@, ' ') =~= split_char(s@, ' '));
    }
    loop
        invariant
            i <= n,
            n == s@.len(),
            split_char(s@, ' ') =~= v.deep_view() + split_char(
                s@.subrange(i as int, n as int),
                ' ',
            ),
        decreases n - i,
    {
        let ghost rest0 = s@.subrange(i as int, n as int);
        let ghost dv0 = v.deep_view();
        match find_char_at(s, i, ' ') {
            Some(j) => {
                proof {
                    lemma_find_char_from(s@, i as int, ' ');
                    lemma_find_char_offset(s@, i as int, ' ');
                }
                v.push(String::from_str(s.substring_char(i, j)));
                proof {
                    assert(find_char_from(rest0, 0, ' ') == Some(j - i));
                    assert(rest0.subrange(0, j - i) =~= s@.subrange(i as int, j as int));
                    let rest1 = s@.subrange(j + 1, n as int);
                    assert(rest0.subrange(j - i + 1, rest0.len() as int) =~= rest1);
                    assert(split_char(rest0, ' ') == seq![s@.subrange(i as int, j as int)]
                        + split_char(rest1, ' '));
                    assert(v.deep_view() =~= dv0 + seq![s@.subrange(i as int, j as int)]);
                    assert(dv0 + split_char(rest0, ' ') =~= v.deep_view() + split_char(
                        rest1,
                        ' ',
                    ));
                }
                i = j + 1;
            },
            None => {
                v.push(String::from_str(s.substring_char(i, n)));
                proof {
                    lemma_find_char_offset(s@, i as int, ' ');
                    assert(find_char_from(rest0, 0, ' ') is None);
                    assert(split_char(rest0, ' ') == seq![rest0]);
                    assert(v.deep_view() =~= dv0 + seq![rest0]);
                }
                return v;
            },
        }
    }
}

/// A parsed context call: the context file's name and the arguments handed
/// to its evaluation.
#[derive(Debug)]
pub struct ContextCall {
    pub name: String,
    pub args: Vec<String>,
}

impl ContextCall {
    /// The arguments as string slices, in order and unchanged.
    pub fn args_as_str_vec(&self) -> (r: Vec<&str>)
        ensures
            r.deep_view() == self.args.deep_view(),
    {
        let mut r: Vec<&str> = Vec::new();
        let mut i: usize = 0;
        while i < self.args.len()
            invariant
                i <= self.args.len(),
                r@.len() == i,
                forall|k: int| 0 <= k < i ==> r@[k]@ == self.args@[k]@,
            decreases self.args.len() - i,
        {
            r.push(self.args[i].as_str());
            i += 1;
        }
        proof {
            assert(r.deep_view() =~= self.args.deep_view());
        }
        r
    }

    /// Parses `input` as `name:arg1 arg2 ...`: the name is everything before
    /// the first `:`; the remaining text, when any, splits on spaces into the
    /// arguments.
    pub fn parse(input: &str) -> (r: ContextCall)
        ensures
            r.name@ == call_name(input@),
            r.args.deep_view() == call_args(input@),
    {
        let n = input.unicode_len();
        match find_char_at(input, 0, ':') {
            None => {
                let r = ContextCall { name: String::from_str(input), args: Vec::new() };
                proof {
                    assert(r.args.deep_view() =~= Seq::<Seq<char>>::empty());
                }
                r
            },
            Some(j) => {
                proof {
                    lemma_find_char_from(input@, 0, ':');
                }
                let name = String::from_str(input.substring_char(0, j));
                let rest = input.substring_char(j + 1, n);
                let args = split_on_spaces(rest);
                ContextCall { name, args }
            },
        }
    }
}

} // verus!
