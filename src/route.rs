use vstd::prelude::*;

use crate::text::{words, words_in};

verus! {

/// The index of the first newline at or after `i`, or the length of `s`.
pub open spec fn line_end(s: Seq<char>, i: int) -> int
    decreases s.len() - i,
{
    if i >= s.len() {
        s.len() as int
    } else if s[i] == '\n' {
        i
    } else {
        line_end(s, i + 1)
    }
}

/// The ninth word of the first line, from `start` on, that has at least nine words.
pub open spec fn route_source_from(s: Seq<char>, start: int) -> Option<Seq<char>>
    decreases s.len() - start,
{
    if start < 0 || start > s.len() {
        None
    } else {
        let e = line_end(s, start);
        let w = words(s.subrange(start, e));
        if w.len() >= 9 {
            Some(w[8])
        } else if e >= s.len() || e < start {
            None
        } else {
            route_source_from(s, e + 1)
        }
    }
}

/// The preferred source address in an `ip route` table: the ninth word of the
/// first line that has at least nine words.
pub open spec fn route_source(s: Seq<char>) -> Option<Seq<char>> {
    route_source_from(s, 0)
}

proof fn lemma_line_end_bounds(s: Seq<char>, i: int)
    requires
        0 <= i <= s.len(),
    ensures
        i <= line_end(s, i) <= s.len(),
        line_end(s, i) < s.len() ==> s[line_end(s, i)] == '\n',
    decreases s.len() - i,
{
    if i < s.len() && s[i] != '\n' {
        lemma_line_end_bounds(s, i + 1);
    }
}

/// The source address that an `ip route` table names, as its text.
pub fn route_source_text(text: &Vec<char>) -> (r: Option<Vec<char>>)
    ensures
        r matches Some(t) ==> route_source(text@) == Some(t@),
        r is None ==> route_source(text@) is None,
{
    let n = text.len();
    let mut start: usize = 0;
    while start <= n
        invariant
            n == text@.len(),
            route_source(text@) == route_source_from(text@, start as int),
        decreases n + 1 - start,
    {
        let mut e: usize = start;
        while e < n && text[e] != '\n'
            invariant
                start <= e <= n == text@.len(),
                line_end(text@, start as int) == line_end(text@, e as int),
            decreases n - e,
        {
            e = e + 1;
        }
        let mut w = words_in(text, start, e);
        if w.len() >= 9 {
            let ghost wv = w.deep_view();
            let t = w.remove(8);
            assert(t@ =~= wv[8]);
            return Some(t);
        }
        proof {
            lemma_line_end_bounds(text@, start as int);
        }
        if e >= n {
            return None;
        }
        start = e + 1;
    }
    None
}

} // verus!
