//! A style sheet under construction: rules kept in the order of their keys,
//! one rule per key, a later rule replacing an earlier one with the same key.
//! Keys are compared byte by byte, as `str` orders text.

use vstd::prelude::*;

verus! {

// ----- Byte-wise order -----

/// `a` comes before `b` in byte-wise lexicographic order, the two agreeing
/// on their first `k` bytes.
pub open spec fn lt_from(a: Seq<u8>, b: Seq<u8>, k: nat) -> bool
    decreases a.len() - k,
{
    if k >= a.len() {
        k < b.len()
    } else if k >= b.len() {
        false
    } else if a[k as int] != b[k as int] {
        a[k as int] < b[k as int]
    } else {
        lt_from(a, b, k + 1)
    }
}

/// `a` comes before `b` in byte-wise lexicographic order (a proper prefix
/// comes first).
pub open spec fn bytes_lt(a: Seq<u8>, b: Seq<u8>) -> bool {
    lt_from(a, b, 0)
}

proof fn lemma_lt_irreflexive(a: Seq<u8>, k: nat)
    ensures
        !lt_from(a, a, k),
    decreases a.len() - k,
{
    if k < a.len() {
        lemma_lt_irreflexive(a, k + 1);
    }
}

proof fn lemma_lt_transitive(a: Seq<u8>, b: Seq<u8>, c: Seq<u8>, k: nat)
    requires
        lt_from(a, b, k),
        lt_from(b, c, k),
    ensures
        lt_from(a, c, k),
    decreases a.len() - k,
{
    if k < a.len() && k < b.len() && k < c.len() && a[k as int] == b[k as int] && b[k as int]
        == c[k as int] {
        lemma_lt_transitive(a, b, c, k + 1);
    }
}

proof fn lemma_lt_total(a: Seq<u8>, b: Seq<u8>, k: nat)
    requires
        k <= a.len(),
        k <= b.len(),
        a.subrange(0, k as int) == b.subrange(0, k as int),
    ensures
        lt_from(a, b, k) || lt_from(b, a, k) || a == b,
    decreases a.len() - k,
{
    if k == a.len() && k == b.len() {
        assert(a =~= a.subrange(0, k as int));
        assert(b =~= b.subrange(0, k as int));
    } else if k < a.len() && k < b.len() && a[k as int] == b[k as int] {
        assert(a.subrange(0, k + 1int) =~= a.subrange(0, k as int).push(a[k as int]));
        assert(b.subrange(0, k + 1int) =~= b.subrange(0, k as int).push(b[k as int]));
        lemma_lt_total(a, b, k + 1);
    }
}

/// The byte-wise order is a strict total order.
pub proof fn lemma_bytes_order(a: Seq<u8>, b: Seq<u8>, c: Seq<u8>)
    ensures
        !bytes_lt(a, a),
        bytes_lt(a, b) && bytes_lt(b, c) ==> bytes_lt(a, c),
        bytes_lt(a, b) || bytes_lt(b, a) || a == b,
{
    lemma_lt_irreflexive(a, 0);
    if bytes_lt(a, b) && bytes_lt(b, c) {
        lemma_lt_transitive(a, b, c, 0);
    }
    assert(a.subrange(0, 0) =~= b.subrange(0, 0));
    lemma_lt_total(a, b, 0);
}

/// Whether `a` comes before `b` in byte-wise order.
pub fn bytes_less(a: &[u8], b: &[u8]) -> (r: bool)
    ensures
        r == bytes_lt(a@, b@),
{
    let mut k: usize = 0;
    loop
        invariant
            k <= a.len(),
            lt_from(a@, b@, 0) == lt_from(a@, b@, k as nat),
        decreases a.len() - k,
    {
        if k >= a.len() {
            return k < b.len();
        }
        if k >= b.len() {
            return false;
        }
        if a[k] != b[k] {
            return a[k] < b[k];
        }
        k += 1;
    }
}

/// Whether `a` and `b` hold the same bytes.
pub fn bytes_equal(a: &[u8], b: &[u8]) -> (r: bool)
    ensures
        r == (a@ == b@),
{
    if a.len() != b.len() {
        return false;
    }
    let mut k: usize = 0;
    while k < a.len()
        invariant
            a.len() == b.len(),
            k <= a.len(),
            forall|j: int| 0 <= j < k ==> a@[j] == #[trigger] b@[j],
        decreases a.len() - k,
    {
        if a[k] != b[k] {
            return false;
        }
        k += 1;
    }
    assert(a@ =~= b@);
    true
}

// ----- The rules -----

/// A rule key and its rule text.
pub type Entry = (Seq<u8>, Seq<u8>);

/// The keys of `e` strictly increase.
pub open spec fn keys_sorted(e: Seq<Entry>) -> bool {
    forall|i: int, j: int| 0 <= i < j < e.len() ==> bytes_lt(#[trigger] e[i].0, #[trigger] e[j].0)
}

/// The rule that the last of `pairs` with key `k` gives, if any does.
pub open spec fn last_value(pairs: Seq<Entry>, k: Seq<u8>) -> Option<Seq<u8>>
    decreases pairs.len(),
{
    if pairs.len() == 0 {
        None
    } else if pairs.last().0 == k {
        Some(pairs.last().1)
    } else {
        last_value(pairs.drop_last(), k)
    }
}

/// `entries` is what inserting `pairs` one after another gives: in the order
/// of the keys, each key that occurs in `pairs` once, with the rule of its
/// last occurrence.
pub open spec fn lists(entries: Seq<Entry>, pairs: Seq<Entry>) -> bool {
    &&& keys_sorted(entries)
    &&& forall|i: int|
        0 <= i < entries.len() ==> last_value(pairs, #[trigger] entries[i].0) == Some(
            entries[i].1,
        )
    &&& forall|k: Seq<u8>|
        #[trigger] last_value(pairs, k) is Some ==> exists|i: int|
            0 <= i < entries.len() && #[trigger] entries[i].0 == k
}

/// Rules ordered by key, one per key.
pub struct RuleSheet {
    entries: Vec<(Vec<u8>, Vec<u8>)>,
}

impl View for RuleSheet {
    type V = Seq<Entry>;

    closed spec fn view(&self) -> Seq<Entry> {
        self.entries@.map_values(|e: (Vec<u8>, Vec<u8>)| (e.0@, e.1@))
    }
}

impl RuleSheet {
    /// Its keys strictly increase.
    pub open spec fn wf(&self) -> bool {
        keys_sorted(self@)
    }

    /// An empty sheet.
    pub fn new() -> (s: RuleSheet)
        ensures
            s.wf(),
            s@ == Seq::<Entry>::empty(),
            lists(s@, Seq::<Entry>::empty()),
    {
        let s = RuleSheet { entries: Vec::new() };
        assert(s@ =~= Seq::<Entry>::empty());
        s
    }

    /// The number of rules.
    pub fn len(&self) -> (n: usize)
        ensures
            n == self@.len(),
    {
        self.entries.len()
    }

    /// Puts `rule` under `key`, in place of the rule that was there.
    pub fn insert(&mut self, key: Vec<u8>, rule: Vec<u8>)
        requires
            old(self).wf(),
        ensures
            final(self).wf(),
            forall|i: int|
                0 <= i < final(self)@.len() ==> #[trigger] final(self)@[i] == (key@, rule@) || (
                final(self)@[i].0 != key@ && old(self)@.contains(final(self)@[i])),
            final(self)@.contains((key@, rule@)),
            forall|j: int|
                0 <= j < old(self)@.len() && #[trigger] old(self)@[j].0 != key@
                    ==> final(self)@.contains(old(self)@[j]),
    {
        let ghost before = self@;
        let ghost k = key@;
        let ghost entry = (key@, rule@);
        let n = self.entries.len();
        let mut p: usize = 0;
        loop
            invariant
                n == self.entries.len(),
                self@ == before,
                k == key@,
                p <= n,
                forall|i: int| 0 <= i < p ==> bytes_lt(#[trigger] before[i].0, k),
            ensures
                p <= n,
                p < n ==> !bytes_lt(before[p as int].0, k),
                forall|i: int| 0 <= i < p ==> bytes_lt(#[trigger] before[i].0, k),
            decreases n - p,
        {
            if p >= n {
                break;
            }
            assert(before[p as int].0 == self.entries@[p as int].0@);
            let less = bytes_less(self.entries[p].0.as_slice(), key.as_slice());
            if !less {
                break;
            }
            p += 1;
        }
        proof {
            assert forall|i: int| 0 <= i < p implies before[i].0 != k by {
                lemma_bytes_order(before[i].0, k, k);
            }
        }
        if p < n && bytes_equal(&self.entries[p].0, &key) {
            assert(before[p as int].0 == k);
            self.entries.set(p, (key, rule));
            proof {
                assert(self@ =~= before.update(p as int, entry));
                assert forall|i: int| 0 <= i < self@.len() implies #[trigger] self@[i].0
                    == before[i].0 by {}
                assert forall|i: int| 0 <= i < before.len() && i != p implies before[i].0 != k by {
                    if i < p {
                        lemma_bytes_order(before[i].0, k, k);
                    } else {
                        lemma_bytes_order(before[p as int].0, before[i].0, k);
                    }
                }
                assert(self@[p as int] == entry);
                assert forall|j: int|
                    0 <= j < before.len() && #[trigger] before[j].0 != k implies self@.contains(
                    before[j],
                ) by {
                    assert(self@[j] == before[j]);
                }
                assert forall|i: int|
                    0 <= i < self@.len() && i != p implies before.contains(#[trigger] self@[i]) by {
                    assert(self@[i] == before[i]);
                }
            }
        } else {
            proof {
                if p < n {
                    assert(before[p as int].0 == self.entries@[p as int].0@);
                    lemma_bytes_order(before[p as int].0, k, k);
                    assert(bytes_lt(k, before[p as int].0));
                    assert forall|j: int| p < j < n implies bytes_lt(k, #[trigger] before[j].0) by {
                        lemma_bytes_order(k, before[p as int].0, before[j].0);
                    }
                }
                assert forall|j: int| p <= j < n implies before[j].0 != k by {
                    lemma_bytes_order(k, before[j].0, k);
                    if j > p {
                        assert(bytes_lt(k, before[j].0));
                    }
                }
            }
            self.entries.insert(p, (key, rule));
            proof {
                assert(self@ =~= before.insert(p as int, entry));
                assert forall|i: int, j: int|
                    0 <= i < j < self@.len() implies bytes_lt(
                    #[trigger] self@[i].0,
                    #[trigger] self@[j].0,
                ) by {
                    if j < p {
                    } else if j == p {
                    } else if i < p {
                        lemma_bytes_order(before[i].0, k, before[j - 1].0);
                    } else if i == p {
                    } else {
                    }
                }
                assert(self@[p as int] == entry);
                assert forall|j: int|
                    0 <= j < before.len() && #[trigger] before[j].0 != k implies self@.contains(
                    before[j],
                ) by {
                    if j < p {
                        assert(self@[j] == before[j]);
                    } else {
                        assert(self@[j + 1] == before[j]);
                    }
                }
                assert forall|i: int|
                    0 <= i < self@.len() && i != p implies before.contains(#[trigger] self@[i]) by {
                    if i < p {
                        assert(self@[i] == before[i]);
                    } else {
                        assert(self@[i] == before[i - 1]);
                    }
                }
            }
        }
    }

    /// The rules in the order of their keys, one per line.
    pub fn css(&self) -> (res: Vec<u8>)
        ensures
            res@ == joined_rules(self@),
    {
        let mut out: Vec<u8> = Vec::new();
        let n = self.entries.len();
        let mut i: usize = 0;
        while i < n
            invariant
                n == self.entries.len(),
                i <= n,
                out@ == joined_rules(self@.subrange(0, i as int)),
            decreases n - i,
        {
            let ghost done = self@.subrange(0, i as int);
            if i > 0 {
                out.push(10);
            }
            let rule = &self.entries[i].1;
            let mut k: usize = 0;
            let ghost head = out@;
            while k < rule.len()
                invariant
                    k <= rule.len(),
                    out@ == head + rule@.subrange(0, k as int),
                decreases rule.len() - k,
            {
                out.push(rule[k]);
                k += 1;
                assert(out@ =~= head + rule@.subrange(0, k as int));
            }
            assert(rule@.subrange(0, rule.len() as int) =~= rule@);
            assert(self@.subrange(0, i + 1).drop_last() =~= done);
            i += 1;
        }
        assert(self@.subrange(0, n as int) =~= self@);
        out
    }
}

/// The rule texts of `entries` in order, separated by line feeds.
pub open spec fn joined_rules(entries: Seq<Entry>) -> Seq<u8>
    decreases entries.len(),
{
    if entries.len() == 0 {
        Seq::empty()
    } else if entries.len() == 1 {
        entries[0].1
    } else {
        joined_rules(entries.drop_last()) + seq![10u8] + entries.last().1
    }
}

/// Inserting one more pair keeps a sheet listing the pairs inserted so far.
pub proof fn lemma_lists_push(before: Seq<Entry>, after: Seq<Entry>, pairs: Seq<Entry>, e: Entry)
    requires
        lists(before, pairs),
        keys_sorted(after),
        forall|i: int|
            0 <= i < after.len() ==> #[trigger] after[i] == e || (after[i].0 != e.0
                && before.contains(after[i])),
        after.contains(e),
        forall|j: int|
            0 <= j < before.len() && #[trigger] before[j].0 != e.0 ==> after.contains(before[j]),
    ensures
        lists(after, pairs.push(e)),
{
    let pushed = pairs.push(e);
    assert(pushed.drop_last() =~= pairs);
    assert forall|i: int| 0 <= i < after.len() implies last_value(
        pushed,
        #[trigger] after[i].0,
    ) == Some(after[i].1) by {
        if after[i] != e {
            let j = choose|j: int| 0 <= j < before.len() && before[j] == after[i];
            assert(last_value(pairs, before[j].0) == Some(before[j].1));
        }
    }
    assert forall|k: Seq<u8>| #[trigger] last_value(pushed, k) is Some implies exists|i: int|
        0 <= i < after.len() && #[trigger] after[i].0 == k by {
        if k == e.0 {
            let i = choose|i: int| 0 <= i < after.len() && after[i] == e;
            assert(after[i].0 == k);
        } else {
            assert(last_value(pairs, k) is Some);
            let j = choose|j: int| 0 <= j < before.len() && #[trigger] before[j].0 == k;
            assert(after.contains(before[j]));
            let i = choose|i: int| 0 <= i < after.len() && after[i] == before[j];
            assert(after[i].0 == k);
        }
    }
}

} // verus!
