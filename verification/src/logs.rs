//! `logs tail`: which part of the log file is read, and which of its lines
//! are shown.
use vstd::prelude::*;

use crate::text::{char_vec, owned, parse_unsigned, parse_unsigned_spec, string_from_chars};

verus! {

broadcast use vstd::string::group_string_axioms;

/// How much of the end of the log file `logs tail` reads.
pub const TAIL_WINDOW_BYTES: u64 = 65536;

/// The offset the read starts at: the last 64 KiB of a file of `len` bytes.
pub fn tail_start(len: u64) -> (r: u64)
    ensures
        r == (if len > TAIL_WINDOW_BYTES {
            len - TAIL_WINDOW_BYTES
        } else {
            0
        }),
{
    if len > TAIL_WINDOW_BYTES {
        len - TAIL_WINDOW_BYTES
    } else {
        0
    }
}

/// The pieces of `s` between line feeds (always at least one).
pub open spec fn split_lf(s: Seq<char>) -> Seq<Seq<char>>
    decreases s.len(),
{
    if s.len() == 0 {
        seq![Seq::empty()]
    } else {
        let p = split_lf(s.drop_last());
        if s.last() == '\n' {
            p.push(Seq::empty())
        } else {
            p.update(p.len() - 1, p.last().push(s.last()))
        }
    }
}

pub open spec fn strip_cr(line: Seq<char>) -> Seq<char> {
    if line.len() > 0 && line.last() == '\r' {
        line.drop_last()
    } else {
        line
    }
}

/// `str::lines`: the text split at `\n` or `\r\n`, with no empty line
/// after a final line ending (a `\r` not followed by `\n` stays).
pub open spec fn lines_spec(s: Seq<char>) -> Seq<Seq<char>> {
    let p = split_lf(s);
    let ended = p.drop_last().map_values(|l: Seq<char>| strip_cr(l));
    if s.len() == 0 || s.last() == '\n' {
        ended
    } else {
        ended.push(p.last())
    }
}

/// The last `count` lines, in order (all of them when there are fewer).
pub open spec fn tail_spec(s: Seq<char>, count: nat) -> Seq<Seq<char>> {
    let ls = lines_spec(s);
    if ls.len() <= count {
        ls
    } else {
        ls.subrange(ls.len() - count, ls.len() as int)
    }
}

proof fn lemma_split_lf_len(s: Seq<char>)
    ensures
        split_lf(s).len() >= 1,
    decreases s.len(),
{
    if s.len() > 0 {
        lemma_split_lf_len(s.drop_last());
    }
}

fn strip_cr_vec(line: Vec<char>) -> (r: Vec<char>)
    ensures
        r@ == strip_cr(line@),
{
    let mut l = line;
    if l.len() > 0 && l[l.len() - 1] == '\r' {
        l.pop();
    }
    l
}

/// The lines of `text`, as `str::lines` gives them.
pub fn text_lines(text: &str) -> (r: Vec<Vec<char>>)
    ensures
        r@.map_values(|l: Vec<char>| l@) == lines_spec(text@),
{
    let s = char_vec(text);
    let mut done: Vec<Vec<char>> = Vec::new();
    let mut current: Vec<char> = Vec::new();
    let mut i: usize = 0;
    proof {
        assert(s@.subrange(0, 0) =~= Seq::<char>::empty());
    }
    while i < s.len()
        invariant
            i <= s@.len(),
            forall|k: int|
                0 <= k < done@.len() ==> #[trigger] done@[k]@ == strip_cr(
                    split_lf(s@.subrange(0, i as int))[k],
                ),
            split_lf(s@.subrange(0, i as int)).len() == done@.len() + 1,
            split_lf(s@.subrange(0, i as int)).last() == current@,
        decreases s@.len() - i,
    {
        let c = s[i];
        let ghost pre = s@.subrange(0, i as int);
        let ghost next = s@.subrange(0, i + 1);
        proof {
            assert(next.drop_last() =~= pre);
            lemma_split_lf_len(pre);
        }
        if c == '\n' {
            let line = current;
            current = Vec::new();
            let stripped = strip_cr_vec(line);
            done.push(stripped);
        } else {
            current.push(c);
        }
        i = i + 1;
    }
    assert(s@.subrange(0, s@.len() as int) =~= s@);
    if current.len() > 0 {
        done.push(current);
    }
    proof {
        let p = split_lf(s@);
        lemma_split_lf_len(s@);
        if s@.len() > 0 && s@.last() != '\n' {
            assert(p.last().len() > 0) by {
                let q = split_lf(s@.drop_last());
                lemma_split_lf_len(s@.drop_last());
                assert(p.last() == q.last().push(s@.last()));
            }
        }
        if s@.len() > 0 && s@.last() == '\n' {
            let q = split_lf(s@.drop_last());
            assert(p.last() == Seq::<char>::empty());
        }
        assert(done@.map_values(|l: Vec<char>| l@) =~= lines_spec(s@));
    }
    done
}

/// The last `count` lines of `text`, as `logs tail` prints them.
pub fn tail_lines(text: &str, count: usize) -> (r: Vec<String>)
    ensures
        r@.map_values(|l: String| l@) == tail_spec(text@, count as nat),
{
    let lines = text_lines(text);
    let start: usize = if lines.len() <= count {
        0
    } else {
        lines.len() - count
    };
    let mut out: Vec<String> = Vec::new();
    let mut i: usize = start;
    while i < lines.len()
        invariant
            start <= i <= lines@.len(),
            out@.len() == i - start,
            forall|k: int| 0 <= k < out@.len() ==> #[trigger] out@[k]@ == lines@[start + k]@,
        decreases lines@.len() - i,
    {
        out.push(string_from_chars(&lines[i]));
        i = i + 1;
    }
    proof {
        let ls = lines_spec(text@);
        assert(lines@.map_values(|l: Vec<char>| l@) == ls);
        assert(ls.len() == lines@.len());
        assert forall|k: int| 0 <= k < out@.len() implies #[trigger] out@[k]@ == tail_spec(
            text@,
            count as nat,
        )[k] by {
            assert(lines@.map_values(|l: Vec<char>| l@)[start + k] == lines@[start + k]@);
        }
        assert(out@.map_values(|l: String| l@) =~= tail_spec(text@, count as nat));
    }
    out
}

pub open spec fn line_count_spec(value: Option<Seq<char>>) -> Result<usize, Seq<char>> {
    match value {
        None => Ok(80),
        Some(v) => match parse_unsigned_spec(v, 10, usize::MAX as nat) {
            Some(n) => Ok(n as usize),
            None => Err("Line count must be a whole number."@),
        },
    }
}

/// The optional line-count argument of `logs tail`: 80 when missing.
pub fn line_count_arg(value: Option<&str>) -> (r: Result<usize, String>)
    ensures
        match line_count_spec(
            match value {
                Some(v) => Some(v@),
                None => None,
            },
        ) {
            Ok(n) => r == Ok::<usize, String>(n),
            Err(m) => r matches Err(e) && e@ == m,
        },
{
    match value {
        None => Ok(80),
        Some(v) => match parse_unsigned(&char_vec(v), 10, usize::MAX as u64) {
            Some(n) => Ok(n as usize),
            None => Err(owned("Line count must be a whole number.")),
        },
    }
}

} // verus!
