//! Label-keyed mappings with a deterministic, label-sorted order.
//!
//! Entries are kept in strictly ascending label order (code point by code
//! point), so every scan over a mapping visits labels in the same order no
//! matter how the mapping was filled.
use vstd::prelude::*;

verus! {

/// `a` sorts strictly before `b`: code point by code point, a proper prefix first.
pub open spec fn label_lt(a: Seq<char>, b: Seq<char>) -> bool
    decreases a.len(),
{
    if a.len() == 0 {
        b.len() > 0
    } else if b.len() == 0 {
        false
    } else if a[0] != b[0] {
        (a[0] as int) < (b[0] as int)
    } else {
        label_lt(a.drop_first(), b.drop_first())
    }
}

/// No label sorts before itself.
pub proof fn lemma_label_lt_irreflexive(a: Seq<char>)
    ensures
        !label_lt(a, a),
    decreases a.len(),
{
    if a.len() > 0 {
        lemma_label_lt_irreflexive(a.drop_first());
    }
}

/// Two labels never sort before each other.
pub proof fn lemma_label_lt_asymmetric(a: Seq<char>, b: Seq<char>)
    ensures
        !(label_lt(a, b) && label_lt(b, a)),
    decreases a.len(),
{
    if a.len() > 0 && b.len() > 0 && a[0] == b[0] {
        lemma_label_lt_asymmetric(a.drop_first(), b.drop_first());
    }
}

/// The label order is transitive.
pub proof fn lemma_label_lt_transitive(a: Seq<char>, b: Seq<char>, c: Seq<char>)
    requires
        label_lt(a, b),
        label_lt(b, c),
    ensures
        label_lt(a, c),
    decreases a.len(),
{
    if a.len() > 0 && b.len() > 0 && c.len() > 0 && a[0] == b[0] && b[0] == c[0] {
        lemma_label_lt_transitive(a.drop_first(), b.drop_first(), c.drop_first());
    }
}

/// Two different labels are ordered one way or the other.
pub proof fn lemma_label_lt_total(a: Seq<char>, b: Seq<char>)
    requires
        a != b,
    ensures
        label_lt(a, b) || label_lt(b, a),
    decreases a.len(),
{
    if a.len() > 0 && b.len() > 0 && a[0] == b[0] {
        assert(a =~= seq![a[0]] + a.drop_first());
        assert(b =~= seq![b[0]] + b.drop_first());
        lemma_label_lt_total(a.drop_first(), b.drop_first());
    } else if a.len() == 0 && b.len() == 0 {
        assert(a =~= b);
    } else if a.len() > 0 && b.len() > 0 {
        assert((a[0] as int) != (b[0] as int));
    }
}

/// Where two labels stand relative to each other.
pub enum LabelOrder {
    Less,
    Equal,
    Greater,
}

/// Compares two labels in the label order.
pub fn compare_labels(a: &str, b: &str) -> (r: LabelOrder)
    ensures
        r is Less <==> label_lt(a@, b@),
        r is Equal <==> a@ == b@,
        r is Greater <==> label_lt(b@, a@),
{
    let a_len = a.unicode_len();
    let b_len = b.unicode_len();
    let mut i: usize = 0;
    assert(a@.skip(0) =~= a@);
    assert(b@.skip(0) =~= b@);
    while i < a_len && i < b_len
        invariant
            a_len == a@.len(),
            b_len == b@.len(),
            i <= a_len,
            i <= b_len,
            a@.take(i as int) == b@.take(i as int),
            label_lt(a@, b@) == label_lt(a@.skip(i as int), b@.skip(i as int)),
            label_lt(b@, a@) == label_lt(b@.skip(i as int), a@.skip(i as int)),
        decreases a_len - i,
    {
        let ca = a.get_char(i);
        let cb = b.get_char(i);
        if ca != cb {
            proof {
                lemma_label_lt_asymmetric(a@, b@);
                assert(a@.skip(i as int)[0] == ca);
                assert(b@.skip(i as int)[0] == cb);
                assert(a@[i as int] != b@[i as int]);
            }
            if (ca as u32) < (cb as u32) {
                return LabelOrder::Less;
            } else {
                return LabelOrder::Greater;
            }
        }
        proof {
            assert(a@.skip(i as int).drop_first() =~= a@.skip(i + 1));
            assert(b@.skip(i as int).drop_first() =~= b@.skip(i + 1));
            assert(a@.take(i + 1) =~= a@.take(i as int).push(ca));
            assert(b@.take(i + 1) =~= b@.take(i as int).push(cb));
        }
        i = i + 1;
    }
    proof {
        lemma_label_lt_asymmetric(a@, b@);
        if a_len == b_len {
            assert(a@ =~= a@.take(i as int));
            assert(b@ =~= b@.take(i as int));
            lemma_label_lt_irreflexive(a@);
        } else {
            assert(a@.take(i as int) =~= b@.take(i as int));
            if i == a_len {
                assert(a@ =~= a@.take(i as int));
                assert(b@.take(a_len as int) =~= a@);
                assert(b@.len() != a@.len());
            } else {
                assert(b@ =~= b@.take(i as int));
                assert(a@.len() != b@.len());
            }
        }
    }
    if a_len < b_len {
        LabelOrder::Less
    } else if a_len == b_len {
        LabelOrder::Equal
    } else {
        LabelOrder::Greater
    }
}

/// The entries' labels ascend strictly.
pub open spec fn sorted_labels<V>(s: Seq<(Seq<char>, V)>) -> bool {
    forall|i: int, j: int| 0 <= i < j < s.len() ==> label_lt(#[trigger] s[i].0, #[trigger] s[j].0)
}

/// Some entry carries `label`.
pub open spec fn has_label<V>(s: Seq<(Seq<char>, V)>, label: Seq<char>) -> bool {
    exists|i: int| 0 <= i < s.len() && #[trigger] s[i].0 == label
}

/// In a sorted entry list no two entries share a label.
pub proof fn lemma_sorted_labels_unique<V>(s: Seq<(Seq<char>, V)>, i: int, j: int)
    requires
        sorted_labels(s),
        0 <= i < s.len(),
        0 <= j < s.len(),
        s[i].0 == s[j].0,
    ensures
        i == j,
{
    lemma_label_lt_irreflexive(s[i].0);
}

/// A sorted list that holds the same entries as `s` plus `e`, where `e`'s label
/// sorts after every label of `s`, is `s` with `e` appended.
pub proof fn lemma_insert_greatest<V>(s: Seq<(Seq<char>, V)>, e: (Seq<char>, V), i: int)
    requires
        sorted_labels(s.insert(i, e)),
        0 <= i <= s.len(),
        forall|k: int| 0 <= k < s.len() ==> label_lt(#[trigger] s[k].0, e.0),
    ensures
        s.insert(i, e) == s.push(e),
{
    if i < s.len() {
        let t = s.insert(i, e);
        assert(t[i] == e);
        assert(t[i + 1] == s[i]);
        assert(label_lt(t[i].0, t[i + 1].0));
        lemma_label_lt_asymmetric(e.0, s[i].0);
    }
    assert(s.insert(i, e) =~= s.push(e));
}

/// Two label-sorted entry lists that hold the same entries are the same list:
/// the order of the entries depends on their labels alone.
pub proof fn lemma_sorted_entries_canonical<V>(a: Seq<(Seq<char>, V)>, b: Seq<(Seq<char>, V)>)
    requires
        sorted_labels(a),
        sorted_labels(b),
        forall|e: (Seq<char>, V)| a.contains(e) <==> b.contains(e),
    ensures
        a == b,
    decreases a.len(),
{
    if a.len() == 0 {
        if b.len() > 0 {
            assert(b.contains(b[0]));
        }
        assert(a =~= b);
    } else {
        if b.len() == 0 {
            assert(a.contains(a[0]));
        }
        let la = a.len() - 1;
        let lb = b.len() - 1;
        assert(a.contains(a[la]));
        assert(b.contains(b[lb]));
        let j = choose|j: int| 0 <= j < b.len() && b[j] == a[la];
        let k = choose|k: int| 0 <= k < a.len() && a[k] == b[lb];
        if a[la].0 != b[lb].0 {
            lemma_label_lt_total(a[la].0, b[lb].0);
            if label_lt(a[la].0, b[lb].0) {
                // b's last entry is in a, so its label is at most a's last label
                assert(k < la);
                lemma_label_lt_asymmetric(a[k].0, a[la].0);
            } else {
                assert(j < lb);
                lemma_label_lt_asymmetric(b[j].0, b[lb].0);
            }
        }
        lemma_sorted_labels_unique(b, j, lb);
        let a2 = a.drop_last();
        let b2 = b.drop_last();
        assert forall|e: (Seq<char>, V)| a2.contains(e) <==> b2.contains(e) by {
            if a2.contains(e) {
                let p = choose|p: int| 0 <= p < a2.len() && a2[p] == e;
                assert(a.contains(e));
                let q = choose|q: int| 0 <= q < b.len() && b[q] == e;
                if q == lb {
                    lemma_sorted_labels_unique(a, p, la);
                }
                assert(b2[q] == e);
            }
            if b2.contains(e) {
                let p = choose|p: int| 0 <= p < b2.len() && b2[p] == e;
                assert(b.contains(e));
                let q = choose|q: int| 0 <= q < a.len() && a[q] == e;
                if q == la {
                    lemma_sorted_labels_unique(b, p, lb);
                }
                assert(a2[q] == e);
            }
        }
        lemma_sorted_entries_canonical(a2, b2);
        assert(a =~= a2.push(a[la]));
        assert(b =~= b2.push(b[lb]));
    }
}

/// A mapping from labels to values, kept in ascending label order.
#[derive(Debug, PartialEq, Eq)]
pub struct LabelMap<V> {
    entries: Vec<(String, V)>,
}

impl<V> View for LabelMap<V> {
    type V = Seq<(Seq<char>, V)>;

    closed spec fn view(&self) -> Seq<(Seq<char>, V)> {
        self.entries@.map_values(|e: (String, V)| (e.0@, e.1))
    }
}

impl<V> LabelMap<V> {
    /// Labels ascend strictly, so each label occurs at most once.
    #[verifier::type_invariant]
    pub open spec fn well_formed(self) -> bool {
        sorted_labels(self@)
    }

    /// An empty mapping.
    pub fn new() -> (r: Self)
        ensures
            r@ == Seq::<(Seq<char>, V)>::empty(),
    {
        let r = LabelMap { entries: Vec::new() };
        assert(r@ =~= Seq::<(Seq<char>, V)>::empty());
        r
    }

    /// Number of entries.
    pub fn len(&self) -> (r: usize)
        ensures
            r == self@.len(),
    {
        self.entries.len()
    }

    /// Whether the mapping has no entries.
    pub fn is_empty(&self) -> (r: bool)
        ensures
            r == (self@.len() == 0),
    {
        self.entries.len() == 0
    }

    /// The entries, in ascending label order.
    pub fn entries(&self) -> (r: &Vec<(String, V)>)
        ensures
            r@.map_values(|e: (String, V)| (e.0@, e.1)) == self@,
    {
        &self.entries
    }

    /// The entries, in ascending label order, taken out of the mapping.
    pub fn into_entries(self) -> (r: Vec<(String, V)>)
        ensures
            r@.map_values(|e: (String, V)| (e.0@, e.1)) == self@,
    {
        self.entries
    }

    /// Index of the entry labelled `key`, if any.
    fn position(&self, key: &str) -> (r: Option<usize>)
        ensures
            match r {
                Some(i) => i < self@.len() && self@[i as int].0 == key@,
                None => !has_label(self@, key@),
            },
    {
        let n = self.entries.len();
        let mut i: usize = 0;
        while i < n
            invariant
                n == self@.len(),
                i <= n,
                forall|j: int| 0 <= j < i ==> #[trigger] self@[j].0 != key@,
            decreases n - i,
        {
            if let LabelOrder::Equal = compare_labels(self.entries[i].0.as_str(), key) {
                return Some(i);
            }
            i = i + 1;
        }
        None
    }

    /// The value labelled `key`, if any.
    pub fn get(&self, key: &str) -> (r: Option<&V>)
        ensures
            match r {
                Some(v) => exists|i: int|
                    0 <= i < self@.len() && #[trigger] self@[i].0 == key@ && self@[i].1 == *v,
                None => !has_label(self@, key@),
            },
    {
        match self.position(key) {
            Some(i) => Some(&self.entries[i].1),
            None => None,
        }
    }

    /// Whether some entry is labelled `key`.
    pub fn contains_key(&self, key: &str) -> (r: bool)
        ensures
            r == has_label(self@, key@),
    {
        self.position(key).is_some()
    }

    /// Sets the value labelled `key`, returning the value it replaces.
    ///
    /// A new label goes in at its place in the label order; an existing label
    /// keeps its place and gets the new value.
    pub fn insert(&mut self, key: String, value: V) -> (r: Option<V>)
        ensures
            has_label(old(self)@, key@) ==> exists|i: int|
                0 <= i < old(self)@.len() && #[trigger] old(self)@[i].0 == key@
                    && final(self)@ == old(self)@.update(i, (key@, value))
                    && r == Some(old(self)@[i].1),
            !has_label(old(self)@, key@) ==> r is None && exists|i: int|
                0 <= i <= old(self)@.len() && final(self)@ == #[trigger] old(self)@.insert(
                    i,
                    (key@, value),
                ),
    {
        proof {
            use_type_invariant(&*self);
        }
        let n = self.entries.len();
        let mut i: usize = 0;
        let mut found = false;
        let mut passed = false;
        while i < n && !found && !passed
            invariant
                n == self@.len(),
                i <= n,
                sorted_labels(self@),
                forall|j: int| 0 <= j < i ==> label_lt(#[trigger] self@[j].0, key@),
                found ==> i < n && self@[i as int].0 == key@,
                passed ==> i < n && label_lt(key@, self@[i as int].0),
                !(found && passed),
            decreases 2 * (n - i) + (if found || passed { 0int } else { 1 }),
        {
            match compare_labels(self.entries[i].0.as_str(), key.as_str()) {
                LabelOrder::Less => {
                    i = i + 1;
                },
                LabelOrder::Equal => {
                    found = true;
                },
                LabelOrder::Greater => {
                    passed = true;
                },
            }
        }
        let ghost before = self@;
        let ghost k = key@;
        let ghost v = value;
        let mut taken = LabelMap::new();
        core::mem::swap(self, &mut taken);
        let mut entries = taken.entries;
        assert(entries@.map_values(|e: (String, V)| (e.0@, e.1)) == before);
        if found {
            let mut slot = (key, value);
            entries.set_and_swap(i, &mut slot);
            proof {
                let t = entries@.map_values(|e: (String, V)| (e.0@, e.1));
                assert(t =~= before.update(i as int, (k, v)));
            }
            *self = LabelMap { entries };
            Some(slot.1)
        } else {
            proof {
                // every label from position i on sorts after the key
                assert(i < n ==> passed);
                assert forall|j: int| i <= j < n implies label_lt(key@, #[trigger] before[j].0) by {
                    if j > i {
                        lemma_label_lt_transitive(key@, before[i as int].0, before[j].0);
                    }
                }
                assert forall|j: int| 0 <= j < n implies before[j].0 != key@ by {
                    if j >= i {
                        assert(label_lt(key@, before[j].0));
                    } else {
                        assert(label_lt(before[j].0, key@));
                    }
                    lemma_label_lt_irreflexive(key@);
                }
                let t = before.insert(i as int, (key@, value));
                assert forall|a: int, b: int| 0 <= a < b < t.len() implies label_lt(
                    #[trigger] t[a].0,
                    #[trigger] t[b].0,
                ) by {
                    if a < i && b > i {
                        assert(t[b] == before[b - 1]);
                        if b - 1 >= i {
                            lemma_label_lt_transitive(before[a].0, key@, before[b - 1].0);
                        }
                    }
                    if a > i {
                        assert(t[a] == before[a - 1]);
                        assert(t[b] == before[b - 1]);
                    }
                    if a < i && b < i {
                        assert(t[a] == before[a]);
                        assert(t[b] == before[b]);
                    }
                    if a < i && b == i {
                        assert(t[a] == before[a]);
                    }
                    if a == i {
                        assert(t[b] == before[b - 1]);
                    }
                }
            }
            entries.insert(i, (key, value));
            proof {
                let t = entries@.map_values(|e: (String, V)| (e.0@, e.1));
                assert(t =~= before.insert(i as int, (key@, value)));
            }
            *self = LabelMap { entries };
            None
        }
    }
}

impl<V: Clone> Clone for LabelMap<V> {
    /// A copy with the same labels, in the same order, each with a clone of
    /// its value.
    fn clone(&self) -> (r: Self)
        ensures
            r@.len() == self@.len(),
            forall|i: int| 0 <= i < self@.len() ==> (#[trigger] r@[i]).0 == self@[i].0,
    {
        proof {
            use_type_invariant(self);
        }
        let n = self.entries.len();
        let mut entries: Vec<(String, V)> = Vec::new();
        let mut i: usize = 0;
        while i < n
            invariant
                n == self@.len(),
                i <= n,
                entries@.len() == i,
                forall|j: int| 0 <= j < i ==> (#[trigger] entries@[j]).0@ == self@[j].0,
            decreases n - i,
        {
            let entry = &self.entries[i];
            assert(self@[i as int].0 == entry.0@);
            entries.push((entry.0.clone(), entry.1.clone()));
            i = i + 1;
        }
        let r = LabelMap { entries };
        assert forall|i: int| 0 <= i < self@.len() implies (#[trigger] r@[i]).0 == self@[i].0 by {
            assert(r@[i].0 == r.entries@[i].0@);
        }
        r
    }
}

} // verus!
