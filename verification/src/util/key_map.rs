//! A map from string keys to values that keeps its entries ordered by key,
//! the order in which `BTreeMap<String, _>` walks its entries.
use vstd::prelude::*;
use crate::util::text::chars_of;

verus! {

/// `a` comes strictly before `b` in the lexicographic order of code points
/// (the order of `String`'s `Ord`, which compares the UTF-8 bytes).
pub open spec fn str_lt(a: Seq<char>, b: Seq<char>) -> bool
    decreases a.len(),
{
    if a.len() == 0 {
        b.len() > 0
    } else if b.len() == 0 {
        false
    } else if a[0] != b[0] {
        (a[0] as u32) < (b[0] as u32)
    } else {
        str_lt(a.subrange(1, a.len() as int), b.subrange(1, b.len() as int))
    }
}

/// No key comes before itself.
pub proof fn lemma_str_lt_irreflexive(a: Seq<char>)
    ensures
        !str_lt(a, a),
    decreases a.len(),
{
    if a.len() > 0 {
        lemma_str_lt_irreflexive(a.subrange(1, a.len() as int));
    }
}

/// The order is transitive.
pub proof fn lemma_str_lt_transitive(a: Seq<char>, b: Seq<char>, c: Seq<char>)
    requires
        str_lt(a, b),
        str_lt(b, c),
    ensures
        str_lt(a, c),
    decreases a.len(),
{
    if a.len() > 0 && a[0] == b[0] && b[0] == c[0] {
        lemma_str_lt_transitive(
            a.subrange(1, a.len() as int),
            b.subrange(1, b.len() as int),
            c.subrange(1, c.len() as int),
        );
    }
}

/// Any two different keys are ordered one way or the other.
pub proof fn lemma_str_lt_total(a: Seq<char>, b: Seq<char>)
    ensures
        a == b || str_lt(a, b) || str_lt(b, a),
    decreases a.len(),
{
    if a.len() > 0 && b.len() > 0 && a[0] == b[0] {
        let ra = a.subrange(1, a.len() as int);
        let rb = b.subrange(1, b.len() as int);
        lemma_str_lt_total(ra, rb);
        if ra == rb {
            assert(a =~= seq![a[0]] + ra);
            assert(b =~= seq![b[0]] + rb);
        }
    } else if a.len() == 0 && b.len() == 0 {
        assert(a =~= b);
    } else if a.len() > 0 && b.len() > 0 {
        vstd::utf8::char_u32_cast(a[0], a[0] as u32);
        vstd::utf8::char_u32_cast(b[0], b[0] as u32);
    }
}

/// The result of comparing two keys.
#[derive(Debug, PartialEq, Eq, Clone, Copy)]
pub enum KeyOrder {
    Before,
    Same,
    After,
}

/// Compares two keys given as characters.
pub fn compare_keys(a: &Vec<char>, b: &Vec<char>) -> (r: KeyOrder)
    ensures
        (r == KeyOrder::Before) == str_lt(a@, b@),
        (r == KeyOrder::Same) == (a@ == b@),
        (r == KeyOrder::After) == str_lt(b@, a@),
{
    let la = a.len();
    let lb = b.len();
    let mut i: usize = 0;
    assert(a@.subrange(0, la as int) =~= a@);
    assert(b@.subrange(0, lb as int) =~= b@);
    while i < la && i < lb && a[i] == b[i]
        invariant
            la == a@.len(),
            lb == b@.len(),
            i <= la,
            i <= lb,
            a@.subrange(0, i as int) == b@.subrange(0, i as int),
            str_lt(a@, b@) == str_lt(
                a@.subrange(i as int, la as int),
                b@.subrange(i as int, lb as int),
            ),
            str_lt(b@, a@) == str_lt(
                b@.subrange(i as int, lb as int),
                a@.subrange(i as int, la as int),
            ),
        decreases la - i,
    {
        assert(a@.subrange(i as int, la as int).subrange(1, la - i) =~= a@.subrange(
            i + 1,
            la as int,
        ));
        assert(b@.subrange(i as int, lb as int).subrange(1, lb - i) =~= b@.subrange(
            i + 1,
            lb as int,
        ));
        assert(a@.subrange(0, i + 1) =~= a@.subrange(0, i as int).push(a@[i as int]));
        assert(b@.subrange(0, i + 1) =~= b@.subrange(0, i as int).push(b@[i as int]));
        i = i + 1;
    }
    proof {
        lemma_str_lt_irreflexive(a@);
        lemma_str_lt_irreflexive(b@);
    }
    if i == la && i == lb {
        assert(a@ =~= a@.subrange(0, i as int));
        assert(b@ =~= b@.subrange(0, i as int));
        KeyOrder::Same
    } else if i == la {
        assert(a@ != b@) by {
            assert(a@.len() != b@.len());
        }
        KeyOrder::Before
    } else if i == lb {
        assert(a@ != b@) by {
            assert(a@.len() != b@.len());
        }
        KeyOrder::After
    } else {
        assert(a@ != b@) by {
            assert(a@[i as int] != b@[i as int]);
        }
        let ca = a[i] as u32;
        let cb = b[i] as u32;
        proof {
            vstd::utf8::char_u32_cast(a@[i as int], ca);
            vstd::utf8::char_u32_cast(b@[i as int], cb);
        }
        if ca < cb {
            KeyOrder::Before
        } else {
            KeyOrder::After
        }
    }
}

/// The keys of ordered entries.
pub open spec fn keys_of<V>(m: Seq<(Seq<char>, V)>) -> Seq<Seq<char>> {
    m.map_values(|e: (Seq<char>, V)| e.0)
}

/// Every key comes strictly before the keys that follow it: the keys are
/// ordered and none occurs twice.
pub open spec fn strictly_sorted(keys: Seq<Seq<char>>) -> bool {
    forall|i: int, j: int| 0 <= i < j < keys.len() ==> str_lt(keys[i], keys[j])
}

/// `k` is one of the keys of `m`.
pub open spec fn has_key<V>(m: Seq<(Seq<char>, V)>, k: Seq<char>) -> bool {
    exists|i: int| 0 <= i < m.len() && m[i].0 == k
}

/// A position of `m` that holds the key `k`, when there is one.
pub open spec fn key_index<V>(m: Seq<(Seq<char>, V)>, k: Seq<char>) -> int {
    choose|i: int| 0 <= i < m.len() && m[i].0 == k
}

/// The value stored under `k` in `m`, if any.
pub open spec fn lookup<V>(m: Seq<(Seq<char>, V)>, k: Seq<char>) -> Option<V> {
    if has_key(m, k) {
        Some(m[key_index(m, k)].1)
    } else {
        None
    }
}

/// Where `key` does not occur: every key before position `p` comes before it,
/// and every key from `p` on comes after it.
pub proof fn lemma_absent_at<V>(m: Seq<(Seq<char>, V)>, key: Seq<char>, p: int)
    requires
        0 <= p <= m.len(),
        forall|i: int| 0 <= i < p ==> str_lt(#[trigger] m[i].0, key),
        forall|i: int| p <= i < m.len() ==> str_lt(key, #[trigger] m[i].0),
    ensures
        !has_key(m, key),
{
    lemma_str_lt_irreflexive(key);
    assert forall|i: int| 0 <= i < m.len() implies m[i].0 != key by {
        if i < p {
            assert(str_lt(m[i].0, key));
        } else {
            assert(str_lt(key, m[i].0));
        }
    }
}

/// In strictly sorted entries, position `p` is the only one that holds its key,
/// so looking up that key gives the value at `p`.
pub proof fn lemma_unique_position<V>(m: Seq<(Seq<char>, V)>, p: int)
    requires
        strictly_sorted(keys_of(m)),
        0 <= p < m.len(),
    ensures
        lookup(m, m[p].0) == Some(m[p].1),
{
    let k = m[p].0;
    assert(keys_of(m)[p] == k);
    assert(has_key(m, k));
    let j = key_index(m, k);
    if j != p {
        assert(keys_of(m)[j] == k);
        lemma_str_lt_irreflexive(k);
        if j < p {
            assert(str_lt(keys_of(m)[j], keys_of(m)[p]));
        } else {
            assert(str_lt(keys_of(m)[p], keys_of(m)[j]));
        }
    }
}

/// The views of stored entries: each key by its characters.
spec fn entry_views<V>(e: Seq<(String, V)>) -> Seq<(Seq<char>, V)> {
    e.map_values(|x: (String, V)| (x.0@, x.1))
}

/// A map from string keys to values, its entries kept in increasing key order
/// (the order of `BTreeMap<String, _>`). vstd's `BTreeMap` specification only
/// has meaning for keys with an ordering model, and it gives `String` none, so
/// the order is kept and proved here.
#[derive(Debug, PartialEq, Eq)]
pub struct KeyMap<V> {
    entries: Vec<(String, V)>,
}

impl<V> View for KeyMap<V> {
    type V = Seq<(Seq<char>, V)>;

    closed spec fn view(&self) -> Seq<(Seq<char>, V)> {
        entry_views(self.entries@)
    }
}

impl<V> KeyMap<V> {
    /// Every map keeps its keys strictly ordered.
    #[verifier::type_invariant]
    closed spec fn sorted_keys(self) -> bool {
        strictly_sorted(keys_of(entry_views(self.entries@)))
    }

    /// The entries are strictly ordered by key: in order, and no key twice.
    /// Every map has this property; the functions that make or change a map
    /// state it.
    pub open spec fn wf(&self) -> bool {
        strictly_sorted(keys_of(self@))
    }

    /// An empty map.
    pub fn new() -> (r: Self)
        ensures
            r.wf(),
            r@ == Seq::<(Seq<char>, V)>::empty(),
    {
        let r = KeyMap { entries: Vec::new() };
        assert(r@ =~= Seq::<(Seq<char>, V)>::empty());
        r
    }

    /// The number of entries; the entries are in strict key order.
    pub fn len(&self) -> (r: usize)
        ensures
            r == self@.len(),
            self.wf(),
    {
        proof {
            use_type_invariant(self);
        }
        self.entries.len()
    }

    /// The key of the `i`-th entry in key order.
    pub fn key_at(&self, i: usize) -> (r: &String)
        requires
            i < self@.len(),
        ensures
            r@ == self@[i as int].0,
    {
        &self.entries[i].0
    }

    /// The value of the `i`-th entry in key order.
    pub fn value_at(&self, i: usize) -> (r: &V)
        requires
            i < self@.len(),
        ensures
            *r == self@[i as int].1,
    {
        &self.entries[i].1
    }

    /// Where `key` stands: the first position whose key does not come before
    /// it, and whether that key is `key` itself.
    fn position(&self, key: &Vec<char>) -> (r: (usize, bool))
        ensures
            self.wf(),
            r.0 <= self@.len(),
            forall|i: int| 0 <= i < r.0 ==> str_lt(#[trigger] self@[i].0, key@),
            r.1 ==> r.0 < self@.len() && self@[r.0 as int].0 == key@,
            !r.1 ==> forall|i: int| r.0 <= i < self@.len() ==> str_lt(key@, #[trigger] self@[i].0),
    {
        proof {
            use_type_invariant(self);
        }
        let n = self.entries.len();
        let mut i: usize = 0;
        while i < n
            invariant
                n == self@.len(),
                self.wf(),
                i <= n,
                forall|j: int| 0 <= j < i ==> str_lt(#[trigger] self@[j].0, key@),
            decreases n - i,
        {
            let kc = chars_of(self.entries[i].0.as_str());
            assert(kc@ == self@[i as int].0);
            match compare_keys(&kc, key) {
                KeyOrder::Before => {
                    i = i + 1;
                },
                KeyOrder::Same => {
                    return (i, true);
                },
                KeyOrder::After => {
                    assert forall|j: int| i <= j < self@.len() implies str_lt(
                        key@,
                        #[trigger] self@[j].0,
                    ) by {
                        if j > i {
                            assert(keys_of(self@)[i as int] == self@[i as int].0);
                            assert(keys_of(self@)[j] == self@[j].0);
                            lemma_str_lt_transitive(key@, self@[i as int].0, self@[j].0);
                        }
                    }
                    return (i, false);
                },
            }
        }
        (n, false)
    }

    /// Whether `key` has an entry.
    pub fn contains_key(&self, key: &str) -> (r: bool)
        ensures
            r == has_key(self@, key@),
    {
        let kc = chars_of(key);
        let (i, found) = self.position(&kc);
        if !found {
            proof {
                lemma_absent_at(self@, key@, i as int);
            }
        }
        found
    }

    /// The value stored under `key`, if any.
    pub fn get(&self, key: &str) -> (r: Option<&V>)
        ensures
            match r {
                Some(v) => lookup(self@, key@) == Some(*v),
                None => lookup(self@, key@) is None,
            },
    {
        let kc = chars_of(key);
        let (i, found) = self.position(&kc);
        if found {
            proof {
                lemma_unique_position(self@, i as int);
            }
            Some(&self.entries[i].1)
        } else {
            proof {
                lemma_absent_at(self@, key@, i as int);
            }
            None
        }
    }

    /// Stores `value` under `key`; a value already stored under `key` is
    /// replaced, and every other key keeps its value.
    pub fn insert(&mut self, key: String, value: V)
        ensures
            final(self).wf(),
            lookup(final(self)@, key@) == Some(value),
            forall|k: Seq<char>| k != key@ ==> #[trigger] lookup(final(self)@, k) == lookup(
                old(self)@,
                k,
            ),
            final(self)@.len() == old(self)@.len() + (if has_key(old(self)@, key@) {
                0int
            } else {
                1int
            }),
    {
        let ghost old_m = self@;
        let kc = chars_of(key.as_str());
        let (i, found) = self.position(&kc);
        let ghost kv = key@;
        let mut entries: Vec<(String, V)> = Vec::new();
        std::mem::swap(&mut entries, &mut self.entries);
        assert(entry_views(entries@) == old_m);
        if found {
            entries.set(i, (key, value));
            let ghost nm = entry_views(entries@);
            assert(nm =~= old_m.update(i as int, (kv, value)));
            assert(keys_of(nm) =~= keys_of(old_m));
            proof {
                lemma_unique_position(nm, i as int);
                assert forall|k: Seq<char>| k != kv implies #[trigger] lookup(nm, k) == lookup(
                    old_m,
                    k,
                ) by {
                    if has_key(old_m, k) {
                        let q = key_index(old_m, k);
                        lemma_unique_position(old_m, q);
                        assert(nm[q] == old_m[q]);
                        lemma_unique_position(nm, q);
                    } else {
                        assert forall|q: int| 0 <= q < nm.len() implies nm[q].0 != k by {
                            if q != i {
                                assert(nm[q] == old_m[q]);
                            }
                        }
                    }
                }
            }
        } else {
            entries.insert(i, (key, value));
            let ghost nm = entry_views(entries@);
            assert(nm =~= old_m.insert(i as int, (kv, value)));
            proof {
                assert forall|a: int, b: int| 0 <= a < b < nm.len() implies str_lt(
                    keys_of(nm)[a],
                    keys_of(nm)[b],
                ) by {
                    if b < i {
                        assert(keys_of(old_m)[a] == nm[a].0);
                        assert(keys_of(old_m)[b] == nm[b].0);
                    } else if b == i {
                        assert(nm[a] == old_m[a]);
                    } else if a == i {
                        assert(nm[b] == old_m[b - 1]);
                    } else if a < i {
                        assert(nm[b] == old_m[b - 1]);
                        assert(nm[a] == old_m[a]);
                        assert(str_lt(old_m[a].0, kv));
                        assert(str_lt(kv, old_m[b - 1].0));
                        lemma_str_lt_transitive(old_m[a].0, kv, old_m[b - 1].0);
                    } else {
                        assert(nm[b] == old_m[b - 1]);
                        assert(nm[a] == old_m[a - 1]);
                        assert(keys_of(old_m)[a - 1] == old_m[a - 1].0);
                        assert(keys_of(old_m)[b - 1] == old_m[b - 1].0);
                    }
                }
                lemma_unique_position(nm, i as int);
                lemma_absent_at(old_m, kv, i as int);
                assert forall|k: Seq<char>| k != kv implies #[trigger] lookup(nm, k) == lookup(
                    old_m,
                    k,
                ) by {
                    if has_key(old_m, k) {
                        let q = key_index(old_m, k);
                        lemma_unique_position(old_m, q);
                        if q < i {
                            assert(nm[q] == old_m[q]);
                            lemma_unique_position(nm, q);
                        } else {
                            assert(nm[q + 1] == old_m[q]);
                            lemma_unique_position(nm, q + 1);
                        }
                    } else {
                        assert forall|q: int| 0 <= q < nm.len() implies nm[q].0 != k by {
                            if q < i {
                                assert(nm[q] == old_m[q]);
                            } else if q > i {
                                assert(nm[q] == old_m[q - 1]);
                            }
                        }
                    }
                }
            }
        }
        self.entries = entries;
    }
}

} // verus!
