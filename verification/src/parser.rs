//! Event parser: extracts named parameters from milestone event lines such as
//! `[EVENT:BOOT_COMPLETE] FIRMWARE=1.2.3 MAC=AA:BB:CC:DD:EE:FF`.

use vstd::prelude::*;

use crate::text::contains_seq;
use crate::text::find_substring;
use crate::text::first_occurrence;
use crate::text::lemma_first_occurrence_from;
use crate::text::lemma_first_occurrence_is;
use crate::text::lemma_occurs_single;
use crate::text::occurs_at;

verus! {

/// The value of `<param>=` in `line`: the characters from just after the
/// first occurrence of the pattern up to the next space or end of line.
/// `None` when the pattern is absent.
pub open spec fn extract_param_spec(line: Seq<char>, param: Seq<char>) -> Option<Seq<char>> {
    let pat = param.push('=');
    match first_occurrence(line, pat) {
        None => None,
        Some(start) => {
            let rest = line.subrange(start + pat.len(), line.len() as int);
            let end = match first_occurrence(rest, seq![' ']) {
                Some(e) => e,
                None => rest.len() as int,
            };
            Some(rest.subrange(0, end))
        },
    }
}

/// Extract the value of `<param>=` from an event line: the substring from
/// just after the `=` up to the next space or end of line, verbatim.
pub fn extract_param(line: &str, param: &str) -> (r: Option<String>)
    ensures
        match r {
            Some(v) => extract_param_spec(line@, param@) == Some(v@),
            None => extract_param_spec(line@, param@) is None,
        },
{
    let mut pattern = param.to_owned();
    pattern.append("=");
    proof {
        reveal_strlit("=");
        assert(pattern@ =~= param@.push('='));
    }
    match find_substring(line, pattern.as_str()) {
        None => None,
        Some(start) => {
            let n = line.unicode_len();
            let plen = pattern.as_str().unicode_len();
            proof {
                lemma_first_occurrence_from(line@, pattern@, 0);
                assert(occurs_at(line@, pattern@, start as int));
            }
            let value_start = start + plen;
            let rest = line.substring_char(value_start, n);
            let end = match find_substring(rest, " ") {
                Some(e) => e,
                None => rest.unicode_len(),
            };
            proof {
                reveal_strlit(" ");
                assert(" "@ =~= seq![' ']);
                lemma_first_occurrence_from(rest@, " "@, 0);
                if first_occurrence(rest@, " "@) is Some {
                    let e = first_occurrence(rest@, " "@)->Some_0;
                    assert(occurs_at(rest@, " "@, e));
                }
            }
            let value = rest.substring_char(0, end);
            Some(value.to_owned())
        },
    }
}

/// `s` holds no space character.
pub open spec fn space_free(s: Seq<char>) -> bool {
    forall|t: int| 0 <= t < s.len() ==> s[t] != ' '
}

/// Round trip at a given position: if the first occurrence of `<param>=` in
/// the line is the one spelled out by this decomposition, the parser returns
/// exactly the value written there. `value` must hold no space, and what
/// follows it must be empty or start with a space.
pub proof fn lemma_extract_param_at(
    line: Seq<char>,
    param: Seq<char>,
    pre: Seq<char>,
    value: Seq<char>,
    rest: Seq<char>,
)
    requires
        line == pre + param + seq!['='] + value + rest,
        forall|j: int| 0 <= j < pre.len() ==> !occurs_at(line, param.push('='), j),
        space_free(value),
        rest.len() == 0 || rest[0] == ' ',
    ensures
        extract_param_spec(line, param) == Some(value),
{
    let pat = param.push('=');
    let p = pre.len() as int;
    assert(occurs_at(line, pat, p)) by {
        assert(line.subrange(p, p + pat.len()) =~= pat);
    }
    lemma_first_occurrence_is(line, pat, p);
    let tail = line.subrange(p + pat.len(), line.len() as int);
    assert(tail =~= value + rest);
    let vlen = value.len() as int;
    assert forall|t: int| 0 <= t < vlen implies tail[t] != ' ' by {
        assert(tail[t] == value[t]);
    }
    if rest.len() == 0 {
        assert(first_occurrence(tail, seq![' ']) is None) by {
            lemma_first_occurrence_from(tail, seq![' '], 0);
            if first_occurrence(tail, seq![' ']) is Some {
                let i = first_occurrence(tail, seq![' '])->Some_0;
                lemma_occurs_single(tail, ' ', i);
            }
        }
        assert(tail.subrange(0, tail.len() as int) =~= value);
    } else {
        assert(tail[vlen] == rest[0]);
        assert(occurs_at(tail, seq![' '], vlen)) by {
            lemma_occurs_single(tail, ' ', vlen);
        }
        assert forall|j: int| 0 <= j < vlen implies !occurs_at(tail, seq![' '], j) by {
            lemma_occurs_single(tail, ' ', j);
        }
        lemma_first_occurrence_is(tail, seq![' '], vlen);
        assert(tail.subrange(0, vlen) =~= value);
    }
}

/// Round trip for a line that begins with `<param>=<value>`: the parser
/// returns exactly `value` when it holds no space and what follows is empty
/// or starts with a space.
pub proof fn lemma_extract_param_front(param: Seq<char>, value: Seq<char>, rest: Seq<char>)
    requires
        space_free(value),
        rest.len() == 0 || rest[0] == ' ',
    ensures
        extract_param_spec(param + seq!['='] + value + rest, param) == Some(value),
{
    let line = param + seq!['='] + value + rest;
    assert(line =~= Seq::<char>::empty() + param + seq!['='] + value + rest);
    lemma_extract_param_at(line, param, Seq::empty(), value, rest);
}

/// A line with no occurrence of `<param>=` yields `None`.
pub proof fn lemma_extract_param_absent(line: Seq<char>, param: Seq<char>)
    requires
        !contains_seq(line, param.push('=')),
    ensures
        extract_param_spec(line, param) is None,
{
    lemma_first_occurrence_from(line, param.push('='), 0);
    if first_occurrence(line, param.push('=')) is Some {
        let i = first_occurrence(line, param.push('='))->Some_0;
        assert(occurs_at(line, param.push('='), i));
    }
}

} // verus!
