//! Splitting a model's reply into its reasoning (`<think>…</think>`) and the
//! answer shown as Markdown.

use crate::string_util::chars_of;
use vstd::prelude::*;

verus! {

/// The two parts of a reply: the reasoning and the answer.
pub struct Text<'a> {
    pub think: &'a str,
    pub main: &'a str,
}

/// `<think>`
pub open spec fn think_open() -> Seq<char> {
    seq!['<', 't', 'h', 'i', 'n', 'k', '>']
}

/// `</think>`
pub open spec fn think_close() -> Seq<char> {
    seq!['<', '/', 't', 'h', 'i', 'n', 'k', '>']
}

/// `p` occurs in `s` starting at position `i`.
pub open spec fn occurs_at(s: Seq<char>, p: Seq<char>, i: int) -> bool {
    0 <= i && i + p.len() <= s.len() && s.subrange(i, i + p.len()) == p
}

/// `i` is where `p` first occurs in `s`.
pub open spec fn is_first_occurrence(s: Seq<char>, p: Seq<char>, i: int) -> bool {
    occurs_at(s, p, i) && forall|j: int| 0 <= j < i ==> !#[trigger] occurs_at(s, p, j)
}

/// Where `p` first occurs in `s`, as `str::find` reports it (in characters).
pub open spec fn find(s: Seq<char>, p: Seq<char>) -> Option<int> {
    if exists|i: int| occurs_at(s, p, i) {
        Some(choose|i: int| is_first_occurrence(s, p, i))
    } else {
        None
    }
}

/// `s` with every leading repetition of `p` removed, as `str::trim_start_matches` does.
pub open spec fn trim_start_all(s: Seq<char>, p: Seq<char>) -> Seq<char>
    decreases s.len(),
{
    if p.len() > 0 && occurs_at(s, p, 0) {
        trim_start_all(s.skip(p.len() as int), p)
    } else {
        s
    }
}

/// The reasoning part of a reply: between a leading `<think>` and the first
/// `</think>`; everything after the leading `<think>`s when it is never
/// closed; nothing when the reply does not start with `<think>`.
pub open spec fn think_of(s: Seq<char>) -> Seq<char> {
    if occurs_at(s, think_open(), 0) {
        match find(s, think_close()) {
            Some(end) => s.subrange(7, end),
            None => trim_start_all(s, think_open()),
        }
    } else {
        Seq::empty()
    }
}

/// The answer part of a reply: what follows the first `</think>` of a reply
/// that starts with `<think>`; nothing while the reasoning is unclosed; the
/// whole reply when it does not start with `<think>`.
pub open spec fn main_of(s: Seq<char>) -> Seq<char> {
    if occurs_at(s, think_open(), 0) {
        match find(s, think_close()) {
            Some(end) => s.skip(end + 8),
            None => Seq::empty(),
        }
    } else {
        s
    }
}

/// Whether `p` occurs in `cs` at `i`.
fn matches_at(cs: &Vec<char>, p: &Vec<char>, i: usize) -> (r: bool)
    ensures
        r == occurs_at(cs@, p@, i as int),
{
    if i > cs.len() || p.len() > cs.len() - i {
        return false;
    }
    let mut k: usize = 0;
    while k < p.len()
        invariant
            i + p@.len() <= cs@.len(),
            cs@.len() <= usize::MAX,
            k <= p@.len(),
            forall|j: int| 0 <= j < k ==> cs@[i + j] == p@[j],
        decreases p@.len() - k,
    {
        if cs[i + k] != p[k] {
            assert(cs@.subrange(i as int, i + p@.len())[k as int] != p@[k as int]);
            return false;
        }
        k = k + 1;
    }
    assert(cs@.subrange(i as int, i + p@.len()) =~= p@);
    true
}

/// The first position at which `p` occurs in `cs`.
fn find_in(cs: &Vec<char>, p: &Vec<char>) -> (r: Option<usize>)
    ensures
        r matches Some(k) ==> is_first_occurrence(cs@, p@, k as int),
        r is None ==> forall|j: int| !#[trigger] occurs_at(cs@, p@, j),
{
    let mut i: usize = 0;
    while i < cs.len()
        invariant
            i <= cs@.len(),
            forall|j: int| 0 <= j < i ==> !#[trigger] occurs_at(cs@, p@, j),
        decreases cs@.len() - i,
    {
        if matches_at(cs, p, i) {
            return Some(i);
        }
        i = i + 1;
    }
    if matches_at(cs, p, i) {
        return Some(i);
    }
    assert forall|j: int| !#[trigger] occurs_at(cs@, p@, j) by {
        if j > i {
            assert(j + p@.len() > cs@.len());
        }
    }
    None
}

proof fn lemma_find_is(s: Seq<char>, p: Seq<char>, r: Option<usize>)
    requires
        r matches Some(k) ==> is_first_occurrence(s, p, k as int),
        r is None ==> forall|j: int| !#[trigger] occurs_at(s, p, j),
    ensures
        r matches Some(k) ==> find(s, p) == Some(k as int),
        r is None ==> find(s, p) is None,
{
    if let Some(k) = r {
        assert(occurs_at(s, p, k as int));
        let c = choose|i: int| is_first_occurrence(s, p, i);
        assert(is_first_occurrence(s, p, c));
        if c < k {
            assert(!occurs_at(s, p, c));
        }
        if k < c {
            assert(!occurs_at(s, p, k as int));
        }
    }
}

/// Splits a reply into its reasoning and its answer (see [`think_of`] and
/// [`main_of`]).
pub fn parse_text(text: &str) -> (r: Text<'_>)
    ensures
        r.think@ == think_of(text@),
        r.main@ == main_of(text@),
{
    let cs = chars_of(text);
    let n = cs.len();
    let open = vec!['<', 't', 'h', 'i', 'n', 'k', '>'];
    let close = vec!['<', '/', 't', 'h', 'i', 'n', 'k', '>'];
    assert(open@ =~= think_open());
    assert(close@ =~= think_close());
    if matches_at(&cs, &open, 0) {
        let found = find_in(&cs, &close);
        proof {
            lemma_find_is(cs@, close@, found);
        }
        match found {
            Some(end) => {
                proof {
                    // `</think>` cannot start inside the leading `<think>`.
                    assert(occurs_at(cs@, close@, end as int));
                    if end < 7 {
                        assert(cs@.subrange(end as int, end + 8)[0] == '<');
                        assert(cs@.subrange(0, 7)[end as int] == think_open()[end as int]);
                        if end == 0 {
                            assert(cs@.subrange(0, 8)[1] == '/');
                            assert(cs@.subrange(0, 7)[1] == 't');
                        }
                    }
                }
                let think = text.substring_char(7, end);
                let main = text.substring_char(end + 8, n);
                assert(text@.subrange(end + 8, n as int) =~= text@.skip(end + 8));
                Text { think, main }
            },
            None => {
                let mut start: usize = 0;
                assert(cs@.skip(0) =~= cs@);
                while matches_at(&cs, &open, start)
                    invariant
                        start <= n,
                        n == cs@.len(),
                        open@ == think_open(),
                        trim_start_all(cs@, open@) == trim_start_all(cs@.skip(start as int), open@),
                    decreases n - start,
                {
                    proof {
                        let rest = cs@.skip(start as int);
                        assert(rest.subrange(0, 7) =~= cs@.subrange(start as int, start + 7));
                        assert(occurs_at(rest, open@, 0));
                        assert(rest.skip(7) =~= cs@.skip(start + 7));
                    }
                    start = start + 7;
                }
                proof {
                    let rest = cs@.skip(start as int);
                    if occurs_at(rest, open@, 0) {
                        assert(rest.subrange(0, 7) =~= cs@.subrange(start as int, start + 7));
                    }
                    assert(cs@.skip(0) =~= cs@);
                    assert(text@.subrange(start as int, n as int) =~= rest);
                }
                let think = text.substring_char(start, n);
                let main = text.substring_char(n, n);
                Text { think, main }
            },
        }
    } else {
        let think = text.substring_char(0, 0);
        assert(text@.subrange(0, n as int) =~= text@);
        let main = text.substring_char(0, n);
        Text { think, main }
    }
}

/// Where `p` occurs at all, it has a first occurrence.
proof fn lemma_first_occurrence_exists(s: Seq<char>, p: Seq<char>, i: int)
    requires
        occurs_at(s, p, i),
    ensures
        exists|j: int| is_first_occurrence(s, p, j),
    decreases i,
{
    if forall|j: int| 0 <= j < i ==> !#[trigger] occurs_at(s, p, j) {
        assert(is_first_occurrence(s, p, i));
    } else {
        let j = choose|j: int| 0 <= j < i && #[trigger] occurs_at(s, p, j);
        lemma_first_occurrence_exists(s, p, j);
    }
}

/// A reply whose reasoning is closed is exactly `<think>`, the reasoning,
/// `</think>` and the answer, in that order; a reply that does not start
/// with `<think>` is all answer and has no reasoning.
pub proof fn lemma_parse_reassembles(s: Seq<char>)
    ensures
        occurs_at(s, think_open(), 0) && find(s, think_close()) is Some ==> think_open() + think_of(s)
            + think_close() + main_of(s) == s,
        !occurs_at(s, think_open(), 0) ==> main_of(s) == s && think_of(s).len() == 0,
{
    if occurs_at(s, think_open(), 0) && find(s, think_close()) is Some {
        let i = choose|i: int| occurs_at(s, think_close(), i);
        lemma_first_occurrence_exists(s, think_close(), i);
        let end = choose|j: int| is_first_occurrence(s, think_close(), j);
        assert(is_first_occurrence(s, think_close(), end));
        // The closing tag cannot start inside the opening one.
        if end < 7 {
            assert(s.subrange(end, end + 8)[0] == '<');
            assert(s.subrange(0, 7)[end] == think_open()[end]);
            if end == 0 {
                assert(s.subrange(0, 8)[1] == '/');
                assert(s.subrange(0, 7)[1] == 't');
            }
        }
        assert(s.subrange(0, 7) == think_open());
        assert(s.subrange(end, end + 8) == think_close());
        assert(think_open() + s.subrange(7, end) + think_close() + s.skip(end + 8) =~= s);
    }
}

} // verus!
