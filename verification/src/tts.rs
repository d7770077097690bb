//! Text to speech: which of the system's voices to offer (Chinese voices
//! are preferred).

use crate::language::ascii_lower;
use crate::string_util::chars_of;
use vstd::prelude::*;

verus! {

/// The words that mark a voice name as a Chinese voice.
pub open spec fn chinese_voice_keywords() -> Seq<Seq<char>> {
    seq![
        seq!['c', 'h', 'i', 'n', 'e', 's', 'e'],
        seq!['c', 'h', 'i', 'n', 'a'],
        seq!['t', 'a', 'i', 'w', 'a', 'n'],
        seq!['z', 'h'],
        seq!['c', 'n'],
        seq!['中', '文'],
        seq!['普', '通', '话'],
        seq!['国', '语'],
        seq!['汉', '语'],
        seq!['男'],
        seq!['女'],
    ]
}

/// `s` lower-cased in ASCII, character by character.
pub open spec fn lower_seq(s: Seq<char>) -> Seq<char> {
    s.map_values(|c: char| ascii_lower(c))
}

/// `s` contains `p` somewhere.
pub open spec fn contains_seq(s: Seq<char>, p: Seq<char>) -> bool {
    exists|i: int| 0 <= i && i + p.len() <= s.len() && #[trigger] s.subrange(i, i + p.len()) == p
}

/// The name, lower-cased in ASCII, contains one of the keywords. (The name
/// is trimmed of white space first as well; no keyword holds white space, so
/// trimming cannot change whether one is contained.)
pub open spec fn is_chinese_voice_name(name: Seq<char>) -> bool {
    exists|k: int|
        0 <= k < chinese_voice_keywords().len() && #[trigger] contains_seq(
            lower_seq(name),
            chinese_voice_keywords()[k],
        )
}

/// A voice name marks a Chinese voice exactly when, lower-cased in ASCII,
/// it contains one of `chinese`, `china`, `taiwan`, `zh`, `cn`, `中文`,
/// `普通话`, `国语`, `汉语`, `男` or `女`.
pub proof fn lemma_chinese_voice_words(name: Seq<char>)
    ensures
        is_chinese_voice_name(name) <==> {
            let n = lower_seq(name);
            ||| contains_seq(n, seq!['c', 'h', 'i', 'n', 'e', 's', 'e'])
            ||| contains_seq(n, seq!['c', 'h', 'i', 'n', 'a'])
            ||| contains_seq(n, seq!['t', 'a', 'i', 'w', 'a', 'n'])
            ||| contains_seq(n, seq!['z', 'h'])
            ||| contains_seq(n, seq!['c', 'n'])
            ||| contains_seq(n, seq!['中', '文'])
            ||| contains_seq(n, seq!['普', '通', '话'])
            ||| contains_seq(n, seq!['国', '语'])
            ||| contains_seq(n, seq!['汉', '语'])
            ||| contains_seq(n, seq!['男'])
            ||| contains_seq(n, seq!['女'])
        },
{
    let n = lower_seq(name);
    let ks = chinese_voice_keywords();
    assert(ks[0] == seq!['c', 'h', 'i', 'n', 'e', 's', 'e']);
    assert(ks[1] == seq!['c', 'h', 'i', 'n', 'a']);
    assert(ks[2] == seq!['t', 'a', 'i', 'w', 'a', 'n']);
    assert(ks[3] == seq!['z', 'h']);
    assert(ks[4] == seq!['c', 'n']);
    assert(ks[5] == seq!['中', '文']);
    assert(ks[6] == seq!['普', '通', '话']);
    assert(ks[7] == seq!['国', '语']);
    assert(ks[8] == seq!['汉', '语']);
    assert(ks[9] == seq!['男']);
    assert(ks[10] == seq!['女']);
    assert(ks.len() == 11);
    if is_chinese_voice_name(name) {
        let k = choose|k: int| 0 <= k < ks.len() && #[trigger] contains_seq(n, ks[k]);
        assert(contains_seq(n, ks[k]));
    }
    assert(contains_seq(n, ks[0]) ==> is_chinese_voice_name(name));
    assert(contains_seq(n, ks[1]) ==> is_chinese_voice_name(name));
    assert(contains_seq(n, ks[2]) ==> is_chinese_voice_name(name));
    assert(contains_seq(n, ks[3]) ==> is_chinese_voice_name(name));
    assert(contains_seq(n, ks[4]) ==> is_chinese_voice_name(name));
    assert(contains_seq(n, ks[5]) ==> is_chinese_voice_name(name));
    assert(contains_seq(n, ks[6]) ==> is_chinese_voice_name(name));
    assert(contains_seq(n, ks[7]) ==> is_chinese_voice_name(name));
    assert(contains_seq(n, ks[8]) ==> is_chinese_voice_name(name));
    assert(contains_seq(n, ks[9]) ==> is_chinese_voice_name(name));
    assert(contains_seq(n, ks[10]) ==> is_chinese_voice_name(name));
}

/// The positions of the names in `names` that mark Chinese voices, in order.
pub open spec fn chinese_voice_positions(names: Seq<String>) -> Seq<usize>
    decreases names.len(),
{
    if names.len() == 0 {
        Seq::empty()
    } else if is_chinese_voice_name(names.last()@) {
        chinese_voice_positions(names.drop_last()).push((names.len() - 1) as usize)
    } else {
        chinese_voice_positions(names.drop_last())
    }
}

/// The voices kept from a list: the Chinese ones when there are any,
/// otherwise all of them, by position in the list.
pub open spec fn selected_voice_positions(names: Seq<String>) -> Seq<usize> {
    if chinese_voice_positions(names).len() > 0 {
        chinese_voice_positions(names)
    } else {
        Seq::new(names.len(), |i: int| i as usize)
    }
}

fn contains_chars(s: &Vec<char>, p: &Vec<char>) -> (r: bool)
    ensures
        r == contains_seq(s@, p@),
{
    if p.len() > s.len() {
        return false;
    }
    if p.len() == 0 {
        assert(s@.subrange(0int, 0int + p@.len()) =~= p@);
        return true;
    }
    let last = s.len() - p.len();
    let mut i: usize = 0;
    while i <= last
        invariant
            last == s@.len() - p@.len(),
            0 < p@.len() <= s@.len(),
            s@.len() <= usize::MAX,
            forall|j: int| 0 <= j < i ==> #[trigger] s@.subrange(j, j + p@.len()) != p@,
        decreases last + 1 - i,
    {
        let mut k: usize = 0;
        let mut same = true;
        while k < p.len()
            invariant
                i <= last,
                last == s@.len() - p@.len(),
                s@.len() <= usize::MAX,
                k <= p@.len(),
                same == forall|m: int| 0 <= m < k ==> s@[i + m] == p@[m],
            decreases p@.len() - k,
        {
            if s[i + k] != p[k] {
                same = false;
            }
            k = k + 1;
        }
        if same {
            assert(s@.subrange(i as int, i + p@.len()) =~= p@);
            return true;
        }
        assert(s@.subrange(i as int, i + p@.len()) != p@) by {
            let m = choose|m: int| 0 <= m < p@.len() && s@[i + m] != p@[m];
            assert(s@.subrange(i as int, i + p@.len())[m] != p@[m]);
        }
        i = i + 1;
    }
    assert forall|j: int| 0 <= j && j + p@.len() <= s@.len() implies #[trigger] s@.subrange(j, j + p@.len()) != p@ by {
        assert(j < i);
    }
    false
}

fn lowercase_chars(cs: &Vec<char>) -> (r: Vec<char>)
    ensures
        r@ == lower_seq(cs@),
{
    let mut r: Vec<char> = Vec::new();
    let mut i: usize = 0;
    while i < cs.len()
        invariant
            i <= cs@.len(),
            r@ == lower_seq(cs@.take(i as int)),
        decreases cs@.len() - i,
    {
        let c = cs[i];
        let l = if 'A' <= c && c <= 'Z' {
            let code: u32 = (c as u32) + 32;
            char_of_lowercase_letter(code)
        } else {
            c
        };
        r.push(l);
        assert(lower_seq(cs@.take(i + 1)) =~= lower_seq(cs@.take(i as int)).push(l));
        i = i + 1;
    }
    assert(cs@.take(cs@.len() as int) =~= cs@);
    r
}

/// The character of an ASCII lower-case letter's code.
fn char_of_lowercase_letter(code: u32) -> (c: char)
    requires
        97 <= code <= 122,
    ensures
        c == code as char,
{
    let b: u8 = code as u8;
    b as char
}

fn keyword_list() -> (r: Vec<Vec<char>>)
    ensures
        r@.len() == chinese_voice_keywords().len(),
        forall|k: int| 0 <= k < r@.len() ==> #[trigger] r@[k]@ == chinese_voice_keywords()[k],
{
    let r = vec![
        vec!['c', 'h', 'i', 'n', 'e', 's', 'e'],
        vec!['c', 'h', 'i', 'n', 'a'],
        vec!['t', 'a', 'i', 'w', 'a', 'n'],
        vec!['z', 'h'],
        vec!['c', 'n'],
        vec!['中', '文'],
        vec!['普', '通', '话'],
        vec!['国', '语'],
        vec!['汉', '语'],
        vec!['男'],
        vec!['女'],
    ];
    assert forall|k: int| 0 <= k < r@.len() implies #[trigger] r@[k]@ == chinese_voice_keywords()[k] by {
        assert(r@[k]@ =~= chinese_voice_keywords()[k]);
    }
    r
}

/// Whether a voice name marks a Chinese voice (see [`is_chinese_voice_name`]).
pub fn is_chinese_voice(name: &str) -> (r: bool)
    ensures
        r == is_chinese_voice_name(name@),
{
    let lower = lowercase_chars(&chars_of(name));
    let keywords = keyword_list();
    let mut k: usize = 0;
    while k < keywords.len()
        invariant
            k <= keywords@.len(),
            keywords@.len() == chinese_voice_keywords().len(),
            forall|j: int| 0 <= j < keywords@.len() ==> #[trigger] keywords@[j]@ == chinese_voice_keywords()[j],
            lower@ == lower_seq(name@),
            forall|j: int| 0 <= j < k ==> !#[trigger] contains_seq(lower@, chinese_voice_keywords()[j]),
        decreases keywords@.len() - k,
    {
        if contains_chars(&lower, &keywords[k]) {
            assert(contains_seq(lower@, chinese_voice_keywords()[k as int]));
            return true;
        }
        k = k + 1;
    }
    false
}

/// Speech synthesis with the system's voices.
pub struct TextToSpeech;

impl TextToSpeech {
    /// Which of the voices named `names` to offer: the positions of the Chinese
    /// voices when there are any, otherwise every position.
    pub fn select_voice_indices(names: &Vec<String>) -> (r: Vec<usize>)
        ensures
            r@ == selected_voice_positions(names@),
    {
        let mut chinese: Vec<usize> = Vec::new();
        let mut i: usize = 0;
        while i < names.len()
            invariant
                i <= names@.len(),
                chinese@ == chinese_voice_positions(names@.take(i as int)),
            decreases names@.len() - i,
        {
            assert(names@.take(i + 1).drop_last() =~= names@.take(i as int));
            if is_chinese_voice(names[i].as_str()) {
                chinese.push(i);
            }
            i = i + 1;
        }
        assert(names@.take(names@.len() as int) =~= names@);
        if chinese.len() > 0 {
            return chinese;
        }
        let mut all: Vec<usize> = Vec::new();
        let mut j: usize = 0;
        while j < names.len()
            invariant
                j <= names@.len(),
                all@ == Seq::new(j as nat, |k: int| k as usize),
            decreases names@.len() - j,
        {
            all.push(j);
            assert(all@ =~= Seq::new((j + 1) as nat, |k: int| k as usize));
            j = j + 1;
        }
        all
    }
}

/// The positions of the Chinese voices lie within the list, in increasing order.
proof fn lemma_chinese_positions_in_range(names: Seq<String>)
    requires
        names.len() <= usize::MAX,
    ensures
        forall|i: int| 0 <= i < chinese_voice_positions(names).len() ==> #[trigger] chinese_voice_positions(names)[i] < names.len(),
        forall|i: int, j: int| 0 <= i < j < chinese_voice_positions(names).len() ==> chinese_voice_positions(names)[i] < chinese_voice_positions(names)[j],
    decreases names.len(),
{
    if names.len() > 0 {
        let rest = names.drop_last();
        lemma_chinese_positions_in_range(rest);
        let pr = chinese_voice_positions(rest);
        if is_chinese_voice_name(names.last()@) {
            let q = pr.push((names.len() - 1) as usize);
            assert(chinese_voice_positions(names) == q);
            assert forall|i: int, j: int| 0 <= i < j < q.len() implies q[i] < q[j] by {
                if j < pr.len() {
                    assert(q[i] == pr[i] && q[j] == pr[j]);
                } else {
                    assert(q[i] == pr[i]);
                    assert(pr[i] < rest.len());
                }
            }
        }
    }
}

/// A position of the list is among the Chinese voices' positions exactly
/// when the name there marks a Chinese voice.
pub proof fn lemma_chinese_positions_exact(names: Seq<String>)
    requires
        names.len() <= usize::MAX,
    ensures
        forall|p: int|
            0 <= p < names.len() ==> (chinese_voice_positions(names).contains(p as usize)
                <==> is_chinese_voice_name(#[trigger] names[p]@)),
    decreases names.len(),
{
    if names.len() > 0 {
        let rest = names.drop_last();
        lemma_chinese_positions_exact(rest);
        lemma_chinese_positions_in_range(rest);
        let pr = chinese_voice_positions(rest);
        let n1 = (names.len() - 1) as usize;
        assert forall|p: int| 0 <= p < names.len() implies (chinese_voice_positions(names).contains(p as usize)
            <==> is_chinese_voice_name(#[trigger] names[p]@)) by {
            if p < names.len() - 1 {
                assert(names[p] == rest[p]);
                if is_chinese_voice_name(names.last()@) {
                    let q = pr.push(n1);
                    if q.contains(p as usize) {
                        let j = choose|j: int| 0 <= j < q.len() && q[j] == p as usize;
                        if j < pr.len() {
                            assert(pr[j] == p as usize);
                        }
                    }
                    if pr.contains(p as usize) {
                        let j = choose|j: int| 0 <= j < pr.len() && pr[j] == p as usize;
                        assert(q[j] == p as usize);
                    }
                }
            } else {
                if pr.contains(p as usize) {
                    let j = choose|j: int| 0 <= j < pr.len() && pr[j] == p as usize;
                    assert(pr[j] < rest.len());
                }
                if is_chinese_voice_name(names.last()@) {
                    let q = pr.push(n1);
                    assert(q[pr.len() as int] == n1);
                    if q.contains(p as usize) {
                        let j = choose|j: int| 0 <= j < q.len() && q[j] == p as usize;
                        if j < pr.len() {
                            assert(pr[j] < rest.len());
                        }
                    }
                }
            }
        }
    }
}

/// The voices offered are the Chinese ones, all of them and only them, when
/// the list has any; otherwise every voice of the list, in order.
pub proof fn lemma_selection_prefers_chinese(names: Seq<String>)
    requires
        names.len() <= usize::MAX,
    ensures
        (exists|p: int| 0 <= p < names.len() && is_chinese_voice_name(#[trigger] names[p]@)) ==> forall|p: int|
            0 <= p < names.len() ==> (selected_voice_positions(names).contains(p as usize)
                <==> is_chinese_voice_name(#[trigger] names[p]@)),
        (forall|p: int| 0 <= p < names.len() ==> !is_chinese_voice_name(#[trigger] names[p]@))
            ==> selected_voice_positions(names) == Seq::new(names.len(), |i: int| i as usize),
{
    lemma_chinese_positions_exact(names);
    lemma_chinese_positions_in_range(names);
    let cp = chinese_voice_positions(names);
    if exists|p: int| 0 <= p < names.len() && is_chinese_voice_name(#[trigger] names[p]@) {
        let p = choose|p: int| 0 <= p < names.len() && is_chinese_voice_name(#[trigger] names[p]@);
        assert(cp.contains(p as usize));
        assert(cp.len() > 0);
    }
    if cp.len() > 0 {
        let p = cp[0] as int;
        assert(cp.contains(cp[0]));
        assert(is_chinese_voice_name(names[p]@));
    }
}

/// A name holding `中文` anywhere marks a Chinese voice.
pub proof fn lemma_zhongwen_marks_chinese(pre: Seq<char>, post: Seq<char>)
    ensures
        is_chinese_voice_name(pre + seq!['中', '文'] + post),
{
    let name = pre + seq!['中', '文'] + post;
    let n = lower_seq(name);
    let i = pre.len() as int;
    assert(name[i] == '中' && name[i + 1] == '文');
    assert(n.subrange(i, i + 2) =~= seq!['中', '文']);
    assert(contains_seq(n, seq!['中', '文']));
    lemma_chinese_voice_words(name);
}

/// Whenever there is a voice, some voice is offered; every offered position
/// names a voice of the list, and no voice is offered twice.
pub proof fn lemma_selection_is_usable(names: Seq<String>)
    requires
        names.len() <= usize::MAX,
    ensures
        names.len() > 0 ==> selected_voice_positions(names).len() > 0,
        forall|i: int| 0 <= i < selected_voice_positions(names).len() ==> #[trigger] selected_voice_positions(names)[i] < names.len(),
        forall|i: int, j: int| 0 <= i < j < selected_voice_positions(names).len() ==> selected_voice_positions(names)[i] != selected_voice_positions(names)[j],
{
    lemma_chinese_positions_in_range(names);
}

} // verus!
