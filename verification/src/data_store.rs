//! Who is notified when a store changes. Readers of one key subscribe under
//! that key; readers of the key list subscribe under the empty key. A write
//! or a delete of a key wakes both groups once, and they must subscribe
//! again on their next read.

use vstd::prelude::*;

verus! {

/// Subscribers of a store by key; a subscriber is known by a number.
pub struct SubscriberRegistry {
    entries: Vec<(String, Vec<u64>)>,
}

/// Some entry of `entries` has key `key` and holds `id`.
pub open spec fn entries_hold(entries: Seq<(String, Vec<u64>)>, key: Seq<char>, id: u64) -> bool {
    exists|i: int| 0 <= i < entries.len() && #[trigger] entries[i].0@ == key && entries[i].1@.contains(id)
}

/// The key under which readers of the key list subscribe: the empty key.
pub open spec fn list_key() -> Seq<char> {
    Seq::empty()
}

/// No number occurs twice in `ids`.
spec fn ids_distinct(ids: Seq<u64>) -> bool {
    forall|a: int, b: int| 0 <= a < b < ids.len() ==> #[trigger] ids[a] != #[trigger] ids[b]
}

/// No key occurs twice among `entries`, and no subscriber twice under a key.
spec fn entries_wf(entries: Seq<(String, Vec<u64>)>) -> bool {
    &&& forall|a: int, b: int|
        #![trigger entries[a], entries[b]]
        0 <= a < b < entries.len() ==> entries[a].0@ != entries[b].0@
    &&& forall|a: int| 0 <= a < entries.len() ==> ids_distinct(#[trigger] entries[a].1@)
}

impl SubscriberRegistry {
    /// `id` is subscribed under `key`.
    pub closed spec fn subscribed(&self, key: Seq<char>, id: u64) -> bool {
        entries_hold(self.entries@, key, id)
    }

    /// The registry's invariant: each key has one entry, and a subscriber
    /// occurs at most once under a key.
    pub closed spec fn wf(&self) -> bool {
        entries_wf(self.entries@)
    }

    /// A registry without subscribers.
    pub fn new() -> (r: Self)
        ensures
            r.wf(),
            forall|k: Seq<char>, x: u64| !r.subscribed(k, x),
    {
        SubscriberRegistry { entries: Vec::new() }
    }

    /// Subscribes `id` under `key`; subscribing twice is the same as once.
    pub fn subscribe(&mut self, key: &str, id: u64)
        requires
            old(self).wf(),
        ensures
            final(self).wf(),
            forall|k: Seq<char>, x: u64|
                #[trigger] final(self).subscribed(k, x) <==> (old(self).subscribed(k, x) || (k == key@
                    && x == id)),
    {
        let k = String::from_str(key);
        let mut i: usize = 0;
        while i < self.entries.len()
            invariant
                i <= self.entries@.len(),
                self.entries@ == old(self).entries@,
                k@ == key@,
                entries_wf(self.entries@),
                forall|j: int| 0 <= j < i ==> #[trigger] self.entries@[j].0@ != key@,
            decreases self.entries@.len() - i,
        {
            if self.entries[i].0 == k {
                let ghost before = self.entries@;
                let mut e = self.entries.remove(i);
                let ghost rest = self.entries@;
                let ghost old_ids = e.1@;
                assert(e == before[i as int]);
                if !contains_id(&e.1, id) {
                    e.1.push(id);
                    proof {
                        lemma_push_contains(old_ids, id);
                        lemma_push_distinct(old_ids, id);
                    }
                }
                assert(e.1@.contains(id)) by {
                    if old_ids.contains(id) {
                        let j = choose|j: int| 0 <= j < old_ids.len() && old_ids[j] == id;
                        assert(e.1@[j] == id);
                    }
                }
                assert(forall|y: u64| #[trigger] e.1@.contains(y) <==> (old_ids.contains(y) || y == id));
                self.entries.push(e);
                assert(self.entries@ == rest.push(e));
                assert(rest == before.remove(i as int));
                proof {
                    lemma_wf_remove(before, i as int);
                    lemma_wf_push_new(rest, e);
                }
                assert forall|kk: Seq<char>, x: u64|
                    #[trigger] entries_hold(self.entries@, kk, x) <==> (entries_hold(before, kk, x) || (kk
                        == key@ && x == id)) by {
                    let n = self.entries@.len();
                    let now = self.entries@;
                    if entries_hold(before, kk, x) {
                        let j = choose|j: int| 0 <= j < before.len() && #[trigger] before[j].0@ == kk && before[j].1@.contains(x);
                        if j < i {
                            assert(now[j] == before[j]);
                            lemma_hold_witness(now, j, kk, x);
                        } else if j > i {
                            assert(now[j - 1] == before[j]);
                            lemma_hold_witness(now, j - 1, kk, x);
                        } else {
                            assert(now[n - 1] == e);
                            lemma_hold_witness(now, n - 1, kk, x);
                        }
                    }
                    if kk == key@ && x == id {
                        assert(now[n - 1] == e);
                        lemma_hold_witness(now, n - 1, kk, x);
                    }
                    if entries_hold(now, kk, x) {
                        let j = choose|j: int| 0 <= j < n && #[trigger] now[j].0@ == kk && now[j].1@.contains(x);
                        if j < i {
                            assert(before[j] == now[j]);
                            lemma_hold_witness(before, j, kk, x);
                        } else if j < n - 1 {
                            assert(before[j + 1] == now[j]);
                            lemma_hold_witness(before, j + 1, kk, x);
                        } else {
                            assert(now[j] == e);
                            if x != id {
                                lemma_hold_witness(before, i as int, kk, x);
                            }
                        }
                    }
                }
                return;
            }
            i = i + 1;
        }
        let mut ids: Vec<u64> = Vec::new();
        ids.push(id);
        assert(ids@[0] == id);
        assert(forall|y: u64| #[trigger] ids@.contains(y) ==> y == id);
        let ghost was = self.entries@;
        proof {
            assert(forall|j: int| 0 <= j < was.len() ==> #[trigger] was[j].0@ != k@);
        }
        self.entries.push((k, ids));
        proof {
            lemma_wf_push_new(was, self.entries@[was.len() as int]);
            assert(self.entries@ == was.push(self.entries@[was.len() as int]));
        }
        assert forall|kk: Seq<char>, x: u64|
            #[trigger] entries_hold(self.entries@, kk, x) <==> (entries_hold(old(self).entries@, kk, x) || (kk
                == key@ && x == id)) by {
            let n = self.entries@.len();
            let now = self.entries@;
            let was = old(self).entries@;
            if entries_hold(was, kk, x) {
                let j = choose|j: int| 0 <= j < was.len() && #[trigger] was[j].0@ == kk && was[j].1@.contains(x);
                assert(now[j] == was[j]);
                lemma_hold_witness(now, j, kk, x);
            }
            if kk == key@ && x == id {
                lemma_hold_witness(now, n - 1, kk, x);
            }
            if entries_hold(now, kk, x) {
                let j = choose|j: int| 0 <= j < n && #[trigger] now[j].0@ == kk && now[j].1@.contains(x);
                if j < n - 1 {
                    assert(was[j] == now[j]);
                    lemma_hold_witness(was, j, kk, x);
                }
            }
        }
    }

    /// The subscribers to wake after a write or delete of `key`: every one
    /// subscribed under `key` or under the list key, each once. They are
    /// unsubscribed from those two keys; the other keys keep theirs.
    pub fn take_notified(&mut self, key: &str) -> (r: Vec<u64>)
        requires
            old(self).wf(),
        ensures
            final(self).wf(),
            forall|x: u64|
                #[trigger] r@.contains(x) <==> (old(self).subscribed(list_key(), x) || old(self).subscribed(
                    key@,
                    x,
                )),
            forall|i: int, j: int| 0 <= i < j < r@.len() ==> r@[i] != r@[j],
            forall|k: Seq<char>, x: u64|
                #[trigger] final(self).subscribed(k, x) <==> (old(self).subscribed(k, x) && k != list_key()
                    && k != key@),
    {
        let k = String::from_str(key);
        let ghost orig = self.entries@;
        let mut kept: Vec<(String, Vec<u64>)> = Vec::new();
        let ghost mut taken: Seq<(String, Vec<u64>)> = Seq::empty();
        let mut r: Vec<u64> = Vec::new();
        while self.entries.len() > 0
            invariant
                k@ == key@,
                forall|kk: Seq<char>, x: u64|
                    #[trigger] entries_hold(orig, kk, x) <==> (entries_hold(self.entries@, kk, x)
                        || entries_hold(kept@, kk, x) || entries_hold(taken, kk, x)),
                forall|i: int|
                    0 <= i < kept@.len() ==> #[trigger] kept@[i].0@ != list_key() && kept@[i].0@ != key@,
                forall|i: int|
                    0 <= i < taken.len() ==> #[trigger] taken[i].0@ == list_key() || taken[i].0@ == key@,
                forall|x: u64|
                    #[trigger] r@.contains(x) <==> exists|i: int|
                        0 <= i < taken.len() && #[trigger] taken[i].1@.contains(x),
                forall|i: int, j: int| 0 <= i < j < r@.len() ==> r@[i] != r@[j],
                entries_wf(self.entries@),
                entries_wf(kept@),
                forall|a: int, j: int|
                    #![trigger kept@[a], self.entries@[j]]
                    0 <= a < kept@.len() && 0 <= j < self.entries@.len() ==> kept@[a].0@
                        != self.entries@[j].0@,
            decreases self.entries@.len(),
        {
            let ghost before = self.entries@;
            let ghost kept_before = kept@;
            let ghost taken_before = taken;
            let e = self.entries.pop().unwrap();
            assert(before == self.entries@.push(e));
            proof {
                lemma_wf_last(self.entries@, e);
            }
            if e.0.as_str().is_empty() || e.0 == k {
                merge_ids(&mut r, &e.1);
                proof {
                    taken = taken.push(e);
                }
                assert forall|x: u64|
                    #[trigger] r@.contains(x) <==> exists|i: int|
                        0 <= i < taken.len() && #[trigger] taken[i].1@.contains(x) by {
                    if r@.contains(x) {
                        if e.1@.contains(x) {
                            assert(taken[taken.len() - 1].1@.contains(x));
                        } else {
                            let i = choose|i: int| 0 <= i < taken_before.len() && #[trigger] taken_before[i].1@.contains(x);
                            assert(taken[i] == taken_before[i]);
                        }
                    }
                    if exists|i: int| 0 <= i < taken.len() && #[trigger] taken[i].1@.contains(x) {
                        let i = choose|i: int| 0 <= i < taken.len() && #[trigger] taken[i].1@.contains(x);
                        if i < taken.len() - 1 {
                            assert(taken_before[i] == taken[i]);
                        }
                    }
                }
            } else {
                proof {
                    assert forall|a: int| 0 <= a < kept_before.len() implies #[trigger] kept_before[a].0@
                        != e.0@ by {
                        assert(before[before.len() - 1] == e);
                    }
                    lemma_wf_push_new(kept_before, e);
                }
                kept.push(e);
                assert forall|a: int, j: int|
                    #![trigger kept@[a], self.entries@[j]]
                    0 <= a < kept@.len() && 0 <= j < self.entries@.len() implies kept@[a].0@
                        != self.entries@[j].0@ by {
                    assert(self.entries@[j] == before[j]);
                    if a < kept_before.len() {
                        assert(kept@[a] == kept_before[a]);
                    } else {
                        assert(before[before.len() - 1] == e);
                    }
                }
            }
            assert forall|kk: Seq<char>, x: u64|
                #[trigger] entries_hold(orig, kk, x) <==> (entries_hold(self.entries@, kk, x)
                    || entries_hold(kept@, kk, x) || entries_hold(taken, kk, x)) by {
                lemma_hold_push(self.entries@, e, kk, x);
                lemma_hold_push(kept_before, e, kk, x);
                lemma_hold_push(taken_before, e, kk, x);
            }
        }
        proof {
            assert forall|x: u64|
                #[trigger] r@.contains(x) <==> (entries_hold(orig, list_key(), x) || entries_hold(orig, key@, x)) by {
                if r@.contains(x) {
                    let i = choose|i: int| 0 <= i < taken.len() && #[trigger] taken[i].1@.contains(x);
                    assert(entries_hold(taken, taken[i].0@, x));
                }
                if entries_hold(orig, list_key(), x) {
                    assert(!entries_hold(kept@, list_key(), x));
                    let i = choose|i: int| 0 <= i < taken.len() && #[trigger] taken[i].0@ == list_key() && taken[i].1@.contains(x);
                }
                if entries_hold(orig, key@, x) {
                    assert(!entries_hold(kept@, key@, x));
                    let i = choose|i: int| 0 <= i < taken.len() && #[trigger] taken[i].0@ == key@ && taken[i].1@.contains(x);
                }
            }
            assert forall|kk: Seq<char>, x: u64|
                #[trigger] entries_hold(kept@, kk, x) <==> (entries_hold(orig, kk, x) && kk != list_key()
                    && kk != key@) by {
                if entries_hold(taken, kk, x) {
                    let i = choose|i: int| 0 <= i < taken.len() && #[trigger] taken[i].0@ == kk && taken[i].1@.contains(x);
                }
                if entries_hold(kept@, kk, x) {
                    let i = choose|i: int| 0 <= i < kept@.len() && #[trigger] kept@[i].0@ == kk && kept@[i].1@.contains(x);
                }
            }
        }
        self.entries = kept;
        r
    }
}

proof fn lemma_push_distinct(ids: Seq<u64>, x: u64)
    requires
        ids_distinct(ids),
        !ids.contains(x),
    ensures
        ids_distinct(ids.push(x)),
{
    let t = ids.push(x);
    assert forall|a: int, b: int| 0 <= a < b < t.len() implies #[trigger] t[a] != #[trigger] t[b] by {
        if b == ids.len() {
            assert(t[a] == ids[a]);
        } else {
            assert(t[a] == ids[a] && t[b] == ids[b]);
        }
    }
}

proof fn lemma_wf_remove(s: Seq<(String, Vec<u64>)>, i: int)
    requires
        entries_wf(s),
        0 <= i < s.len(),
    ensures
        entries_wf(s.remove(i)),
        forall|j: int| 0 <= j < s.remove(i).len() ==> #[trigger] s.remove(i)[j].0@ != s[i].0@,
{
    let t = s.remove(i);
    assert forall|j: int| 0 <= j < t.len() implies #[trigger] t[j].0@ != s[i].0@ by {
        if j < i {
            assert(t[j] == s[j]);
        } else {
            assert(t[j] == s[j + 1]);
        }
    }
    assert forall|a: int, b: int| #![trigger t[a], t[b]] 0 <= a < b < t.len() implies t[a].0@ != t[b].0@ by {
        let a2 = if a < i { a } else { a + 1 };
        let b2 = if b < i { b } else { b + 1 };
        assert(t[a] == s[a2] && t[b] == s[b2]);
    }
    assert forall|a: int| 0 <= a < t.len() implies ids_distinct(#[trigger] t[a].1@) by {
        let a2 = if a < i { a } else { a + 1 };
        assert(t[a] == s[a2]);
    }
}

proof fn lemma_wf_push_new(s: Seq<(String, Vec<u64>)>, e: (String, Vec<u64>))
    requires
        entries_wf(s),
        forall|j: int| 0 <= j < s.len() ==> #[trigger] s[j].0@ != e.0@,
        ids_distinct(e.1@),
    ensures
        entries_wf(s.push(e)),
{
    let t = s.push(e);
    assert forall|a: int, b: int| #![trigger t[a], t[b]] 0 <= a < b < t.len() implies t[a].0@ != t[b].0@ by {
        assert(t[a] == s[a]);
        if b < s.len() {
            assert(t[b] == s[b]);
        }
    }
    assert forall|a: int| 0 <= a < t.len() implies ids_distinct(#[trigger] t[a].1@) by {
        if a < s.len() {
            assert(t[a] == s[a]);
        }
    }
}

proof fn lemma_wf_last(s: Seq<(String, Vec<u64>)>, e: (String, Vec<u64>))
    requires
        entries_wf(s.push(e)),
    ensures
        entries_wf(s),
        forall|j: int| 0 <= j < s.len() ==> #[trigger] s[j].0@ != e.0@,
        ids_distinct(e.1@),
{
    let t = s.push(e);
    assert(t[s.len() as int] == e);
    assert forall|j: int| 0 <= j < s.len() implies #[trigger] s[j].0@ != e.0@ by {
        assert(t[j] == s[j]);
    }
    assert forall|a: int, b: int| #![trigger s[a], s[b]] 0 <= a < b < s.len() implies s[a].0@ != s[b].0@ by {
        assert(t[a] == s[a] && t[b] == s[b]);
    }
    assert forall|a: int| 0 <= a < s.len() implies ids_distinct(#[trigger] s[a].1@) by {
        assert(t[a] == s[a]);
    }
}

proof fn lemma_hold_push(s: Seq<(String, Vec<u64>)>, e: (String, Vec<u64>), k: Seq<char>, x: u64)
    ensures
        entries_hold(s.push(e), k, x) <==> (entries_hold(s, k, x) || (e.0@ == k && e.1@.contains(x))),
{
    let t = s.push(e);
    if entries_hold(s, k, x) {
        let i = choose|i: int| 0 <= i < s.len() && #[trigger] s[i].0@ == k && s[i].1@.contains(x);
        assert(t[i] == s[i]);
    }
    if e.0@ == k && e.1@.contains(x) {
        assert(t[s.len() as int] == e);
    }
    if entries_hold(t, k, x) {
        let i = choose|i: int| 0 <= i < t.len() && #[trigger] t[i].0@ == k && t[i].1@.contains(x);
        if i < s.len() {
            assert(s[i] == t[i]);
        }
    }
}

proof fn lemma_hold_witness(s: Seq<(String, Vec<u64>)>, i: int, k: Seq<char>, x: u64)
    requires
        0 <= i < s.len(),
        s[i].0@ == k,
        s[i].1@.contains(x),
    ensures
        entries_hold(s, k, x),
{
}

proof fn lemma_push_contains(s: Seq<u64>, x: u64)
    ensures
        forall|y: u64| #[trigger] s.push(x).contains(y) <==> (s.contains(y) || y == x),
{
    assert forall|y: u64| #[trigger] s.push(x).contains(y) <==> (s.contains(y) || y == x) by {
        let t = s.push(x);
        if t.contains(y) {
            let j = choose|j: int| 0 <= j < t.len() && t[j] == y;
            if j < s.len() {
                assert(s[j] == y);
            }
        }
        if s.contains(y) {
            let j = choose|j: int| 0 <= j < s.len() && s[j] == y;
            assert(t[j] == y);
        }
        if y == x {
            assert(t[s.len() as int] == y);
        }
    }
}

fn contains_id(ids: &Vec<u64>, id: u64) -> (r: bool)
    ensures
        r == ids@.contains(id),
{
    let mut i: usize = 0;
    while i < ids.len()
        invariant
            i <= ids@.len(),
            forall|j: int| 0 <= j < i ==> ids@[j] != id,
        decreases ids@.len() - i,
    {
        if ids[i] == id {
            return true;
        }
        i = i + 1;
    }
    false
}

fn merge_ids(r: &mut Vec<u64>, ids: &Vec<u64>)
    requires
        forall|i: int, j: int| 0 <= i < j < old(r)@.len() ==> old(r)@[i] != old(r)@[j],
    ensures
        forall|x: u64| #[trigger] final(r)@.contains(x) <==> (old(r)@.contains(x) || ids@.contains(x)),
        forall|i: int, j: int| 0 <= i < j < final(r)@.len() ==> final(r)@[i] != final(r)@[j],
{
    let ghost r0 = r@;
    let mut i: usize = 0;
    while i < ids.len()
        invariant
            i <= ids@.len(),
            forall|x: u64| #[trigger] r@.contains(x) <==> (r0.contains(x) || ids@.take(i as int).contains(x)),
            forall|a: int, b: int| 0 <= a < b < r@.len() ==> r@[a] != r@[b],
        decreases ids@.len() - i,
    {
        let x = ids[i];
        let ghost rb = r@;
        if !contains_id(r, x) {
            r.push(x);
            assert forall|y: u64| #[trigger] r@.contains(y) <==> (rb.contains(y) || y == x) by {
                if r@.contains(y) {
                    let j = choose|j: int| 0 <= j < r@.len() && r@[j] == y;
                    if j < rb.len() {
                        assert(rb[j] == y);
                    }
                }
                if rb.contains(y) {
                    let j = choose|j: int| 0 <= j < rb.len() && rb[j] == y;
                    assert(r@[j] == y);
                }
                if y == x {
                    assert(r@[rb.len() as int] == y);
                }
            }
        }
        proof {
            let t1 = ids@.take(i + 1);
            let t0 = ids@.take(i as int);
            assert(t1 =~= t0.push(x));
            assert forall|y: u64| #[trigger] t1.contains(y) <==> (t0.contains(y) || y == x) by {
                if t1.contains(y) {
                    let j = choose|j: int| 0 <= j < t1.len() && t1[j] == y;
                    if j < i {
                        assert(t0[j] == y);
                    }
                }
                if t0.contains(y) {
                    let j = choose|j: int| 0 <= j < t0.len() && t0[j] == y;
                    assert(t1[j] == y);
                }
                if y == x {
                    assert(t1[i as int] == y);
                }
            }
        }
        i = i + 1;
    }
    assert(ids@.take(ids@.len() as int) =~= ids@);
}

/// A subscriber reading a key is woken by the next write or delete of that
/// key, and so is a reader of the key list by a change of any key. Once
/// woken, it is no longer subscribed under the changed key or the list key.
pub proof fn lemma_change_wakes_readers(before: SubscriberRegistry, after: SubscriberRegistry, woken: Seq<u64>, key: Seq<char>, id: u64)
    requires
        forall|x: u64| #[trigger] woken.contains(x) <==> (before.subscribed(list_key(), x) || before.subscribed(key, x)),
        forall|k: Seq<char>, x: u64| #[trigger] after.subscribed(k, x) <==> (before.subscribed(k, x) && k != list_key() && k != key),
    ensures
        before.subscribed(key, id) ==> woken.contains(id),
        before.subscribed(list_key(), id) ==> woken.contains(id),
        !after.subscribed(key, id),
        !after.subscribed(list_key(), id),
{
}

} // verus!
