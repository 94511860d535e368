//! The generic attribute-map form that stored items take.
//!
//! An item is an ordered list of named attribute values. Values cover what
//! this table's records need: strings, integers, booleans, lists of strings,
//! and one level of nested document whose fields are scalars. Lookup is by
//! name, first match first; writers keep names unique.

use vstd::prelude::*;

verus! {

/// A scalar attribute value, as found inside a nested document.
pub enum AttrScalar {
    S(String),
    N(i64),
    B(bool),
}

/// Ghost form of [`AttrScalar`].
pub enum ScalarView {
    S(Seq<char>),
    N(i64),
    B(bool),
}

impl View for AttrScalar {
    type V = ScalarView;

    open spec fn view(&self) -> ScalarView {
        match self {
            AttrScalar::S(s) => ScalarView::S(s@),
            AttrScalar::N(n) => ScalarView::N(*n),
            AttrScalar::B(b) => ScalarView::B(*b),
        }
    }
}

impl Clone for AttrScalar {
    fn clone(&self) -> (r: Self)
        ensures
            r@ == self@,
    {
        match self {
            AttrScalar::S(s) => AttrScalar::S(s.clone()),
            AttrScalar::N(n) => AttrScalar::N(*n),
            AttrScalar::B(b) => AttrScalar::B(*b),
        }
    }
}

/// A top-level attribute value.
pub enum AttrValue {
    /// A string.
    S(String),
    /// An integer number.
    N(i64),
    /// A boolean.
    B(bool),
    /// A list of strings.
    L(Vec<String>),
    /// A nested document of scalar fields.
    M(Vec<(String, AttrScalar)>),
}

/// Ghost form of [`AttrValue`].
pub enum ValueView {
    S(Seq<char>),
    N(i64),
    B(bool),
    L(Seq<Seq<char>>),
    M(Seq<(Seq<char>, ScalarView)>),
}

/// The ghost form of a nested document's fields.
pub open spec fn doc_view(d: Seq<(String, AttrScalar)>) -> Seq<(Seq<char>, ScalarView)> {
    d.map_values(|p: (String, AttrScalar)| (p.0@, p.1@))
}

impl View for AttrValue {
    type V = ValueView;

    open spec fn view(&self) -> ValueView {
        match self {
            AttrValue::S(s) => ValueView::S(s@),
            AttrValue::N(n) => ValueView::N(*n),
            AttrValue::B(b) => ValueView::B(*b),
            AttrValue::L(v) => ValueView::L(v.deep_view()),
            AttrValue::M(d) => ValueView::M(doc_view(d@)),
        }
    }
}

/// Clone a vector of strings, preserving its contents.
pub fn clone_string_vec(v: &Vec<String>) -> (r: Vec<String>)
    ensures
        r.deep_view() == v.deep_view(),
{
    let mut r: Vec<String> = Vec::new();
    let mut i: usize = 0;
    while i < v.len()
        invariant
            i <= v.len(),
            r.len() == i,
            forall|j: int| 0 <= j < i ==> #[trigger] r@[j]@ == v@[j]@,
        decreases v.len() - i,
    {
        r.push(v[i].clone());
        i = i + 1;
    }
    proof {
        assert(r.deep_view() =~= v.deep_view());
    }
    r
}

/// Clone a nested document, preserving its contents.
fn clone_doc(d: &Vec<(String, AttrScalar)>) -> (r: Vec<(String, AttrScalar)>)
    ensures
        doc_view(r@) == doc_view(d@),
{
    let mut r: Vec<(String, AttrScalar)> = Vec::new();
    let mut i: usize = 0;
    while i < d.len()
        invariant
            i <= d.len(),
            r.len() == i,
            forall|j: int|
                0 <= j < i ==> #[trigger] r@[j].0@ == d@[j].0@ && r@[j].1@ == d@[j].1@,
        decreases d.len() - i,
    {
        let (k, v) = &d[i];
        r.push((k.clone(), v.clone()));
        i = i + 1;
    }
    proof {
        assert(doc_view(r@) =~= doc_view(d@));
    }
    r
}

impl Clone for AttrValue {
    fn clone(&self) -> (r: Self)
        ensures
            r@ == self@,
    {
        match self {
            AttrValue::S(s) => AttrValue::S(s.clone()),
            AttrValue::N(n) => AttrValue::N(*n),
            AttrValue::B(b) => AttrValue::B(*b),
            AttrValue::L(v) => AttrValue::L(clone_string_vec(v)),
            AttrValue::M(d) => AttrValue::M(clone_doc(d)),
        }
    }
}

/// Find the first attribute with the given name.
pub open spec fn lookup(entries: Seq<(Seq<char>, ValueView)>, key: Seq<char>) -> Option<ValueView>
    decreases entries.len(),
{
    if entries.len() == 0 {
        None
    } else if entries.first().0 == key {
        Some(entries.first().1)
    } else {
        lookup(entries.drop_first(), key)
    }
}

/// Find the first scalar field with the given name inside a nested document.
pub open spec fn doc_lookup(fields: Seq<(Seq<char>, ScalarView)>, key: Seq<char>) -> Option<
    ScalarView,
>
    decreases fields.len(),
{
    if fields.len() == 0 {
        None
    } else if fields.first().0 == key {
        Some(fields.first().1)
    } else {
        doc_lookup(fields.drop_first(), key)
    }
}

/// If no entry before position `i` carries the key and the entry at `i`
/// does, then lookup finds exactly that entry.
pub proof fn lemma_lookup_at(entries: Seq<(Seq<char>, ValueView)>, key: Seq<char>, i: int)
    requires
        0 <= i < entries.len(),
        entries[i].0 == key,
        forall|j: int| 0 <= j < i ==> (#[trigger] entries[j]).0 != key,
    ensures
        lookup(entries, key) == Some(entries[i].1),
    decreases i,
{
    if i > 0 {
        assert(entries.drop_first()[i - 1] == entries[i]);
        assert(forall|j: int|
            0 <= j < i - 1 ==> (#[trigger] entries.drop_first()[j]) == entries[j + 1]);
        lemma_lookup_at(entries.drop_first(), key, i - 1);
    }
}

/// If no entry carries the key, lookup finds nothing.
pub proof fn lemma_lookup_none(entries: Seq<(Seq<char>, ValueView)>, key: Seq<char>)
    requires
        forall|j: int| 0 <= j < entries.len() ==> (#[trigger] entries[j]).0 != key,
    ensures
        lookup(entries, key) is None,
    decreases entries.len(),
{
    if entries.len() > 0 {
        assert(forall|j: int|
            0 <= j < entries.len() - 1 ==> (#[trigger] entries.drop_first()[j]) == entries[j + 1]);
        lemma_lookup_none(entries.drop_first(), key);
    }
}

/// An item: an ordered attribute map.
pub struct AttrMap {
    pub entries: Vec<(String, AttrValue)>,
}

impl View for AttrMap {
    type V = Seq<(Seq<char>, ValueView)>;

    open spec fn view(&self) -> Seq<(Seq<char>, ValueView)> {
        self.entries@.map_values(|p: (String, AttrValue)| (p.0@, p.1@))
    }
}

impl Clone for AttrMap {
    fn clone(&self) -> (r: Self)
        ensures
            r@ == self@,
    {
        let mut entries: Vec<(String, AttrValue)> = Vec::new();
        let mut i: usize = 0;
        while i < self.entries.len()
            invariant
                i <= self.entries.len(),
                entries.len() == i,
                forall|j: int|
                    0 <= j < i ==> #[trigger] entries@[j].0@ == self.entries@[j].0@
                        && entries@[j].1@ == self.entries@[j].1@,
            decreases self.entries.len() - i,
        {
            let (k, v) = &self.entries[i];
            let k2 = k.clone();
            let v2 = v.clone();
            proof {
                assert(k2@ == self.entries@[i as int].0@);
                assert(v2@ == self.entries@[i as int].1@);
            }
            entries.push((k2, v2));
            i = i + 1;
        }
        let r = AttrMap { entries };
        proof {
            assert(r@ =~= self@);
        }
        r
    }
}

impl AttrMap {
    /// The attribute stored under `key`, if any.
    pub open spec fn spec_get(self, key: Seq<char>) -> Option<ValueView> {
        lookup(self@, key)
    }

    /// An empty item.
    pub fn new() -> (r: Self)
        ensures
            r@ == Seq::<(Seq<char>, ValueView)>::empty(),
    {
        let r = AttrMap { entries: Vec::new() };
        proof {
            assert(r@ =~= Seq::<(Seq<char>, ValueView)>::empty());
        }
        r
    }

    /// Look an attribute up by name.
    pub fn get(&self, key: &str) -> (r: Option<&AttrValue>)
        ensures
            match r {
                Some(v) => self.spec_get(key@) == Some(v@),
                None => self.spec_get(key@) is None,
            },
    {
        let n = self.entries.len();
        let mut i: usize = 0;
        while i < n
            invariant
                i <= n,
                n == self.entries.len(),
                forall|j: int| 0 <= j < i ==> (#[trigger] self@[j]).0 != key@,
            decreases n - i,
        {
            let (k, v) = &self.entries[i];
            if crate::text::str_eq(k.as_str(), key) {
                proof {
                    assert(self@[i as int].0 == key@);
                    lemma_lookup_at(self@, key@, i as int);
                }
                return Some(v);
            }
            proof {
                assert(self@[i as int].0 != key@);
            }
            i = i + 1;
        }
        proof {
            lemma_lookup_none(self@, key@);
        }
        None
    }

    /// Set an attribute: replace the first entry with this name, or append
    /// a new entry if none exists. Every other attribute keeps its value.
    pub fn set(&mut self, key: &str, value: AttrValue)
        ensures
            forall|k: Seq<char>|
                #[trigger] lookup(final(self)@, k) == if k == key@ {
                    Some(value@)
                } else {
                    lookup(old(self)@, k)
                },
    {
        let ghost pre = self@;
        let ghost vv = value@;
        let n = self.entries.len();
        let mut i: usize = 0;
        let mut found = false;
        while i < n && !found
            invariant
                i <= n,
                n == self.entries.len(),
                self@ == pre,
                found ==> i < n && self@[i as int].0 == key@,
                forall|j: int| 0 <= j < i ==> (#[trigger] self@[j]).0 != key@,
            decreases n - i + (if found { 0int } else { 1int }),
        {
            let hit = crate::text::str_eq(self.entries[i].0.as_str(), key);
            if hit {
                found = true;
            } else {
                i = i + 1;
            }
        }
        let owned_key = String::from_str(key);
        if found {
            self.entries.remove(i);
            self.entries.insert(i, (owned_key, value));
            proof {
                assert(self@ =~= pre.update(i as int, (key@, vv)));
                lemma_lookup_update(pre, key@, i as int, vv);
            }
        } else {
            self.entries.push((owned_key, value));
            proof {
                assert(self@ =~= pre.push((key@, vv)));
                lemma_lookup_push(pre, key@, vv);
            }
        }
    }
}

/// Updating the first entry that carries a key changes lookup for that key
/// alone.
proof fn lemma_lookup_update(
    entries: Seq<(Seq<char>, ValueView)>,
    key: Seq<char>,
    i: int,
    value: ValueView,
)
    requires
        0 <= i < entries.len(),
        entries[i].0 == key,
        forall|j: int| 0 <= j < i ==> (#[trigger] entries[j]).0 != key,
    ensures
        forall|k: Seq<char>|
            #[trigger] lookup(entries.update(i, (key, value)), k) == if k == key {
                Some(value)
            } else {
                lookup(entries, k)
            },
{
    let updated = entries.update(i, (key, value));
    assert forall|k: Seq<char>|
        #[trigger] lookup(updated, k) == if k == key {
            Some(value)
        } else {
            lookup(entries, k)
        } by {
        if k == key {
            lemma_lookup_at(updated, k, i);
        } else {
            lemma_lookup_same(entries, updated, k);
        }
    }
}

/// Two entry lists that agree on every entry carrying `k` (position by
/// position) give the same lookup for `k`.
proof fn lemma_lookup_same(
    a: Seq<(Seq<char>, ValueView)>,
    b: Seq<(Seq<char>, ValueView)>,
    k: Seq<char>,
)
    requires
        a.len() == b.len(),
        forall|j: int| 0 <= j < a.len() ==> (#[trigger] a[j]).0 == b[j].0,
        forall|j: int| 0 <= j < a.len() && a[j].0 == k ==> #[trigger] a[j] == b[j],
    ensures
        lookup(a, k) == lookup(b, k),
    decreases a.len(),
{
    if a.len() > 0 {
        assert(forall|j: int|
            0 <= j < a.len() - 1 ==> (#[trigger] a.drop_first()[j]) == a[j + 1]);
        assert(forall|j: int|
            0 <= j < b.len() - 1 ==> (#[trigger] b.drop_first()[j]) == b[j + 1]);
        lemma_lookup_same(a.drop_first(), b.drop_first(), k);
    }
}

/// Appending an entry with a fresh key changes lookup for that key alone.
proof fn lemma_lookup_push(
    entries: Seq<(Seq<char>, ValueView)>,
    key: Seq<char>,
    value: ValueView,
)
    requires
        forall|j: int| 0 <= j < entries.len() ==> (#[trigger] entries[j]).0 != key,
    ensures
        forall|k: Seq<char>|
            #[trigger] lookup(entries.push((key, value)), k) == if k == key {
                Some(value)
            } else {
                lookup(entries, k)
            },
{
    let pushed = entries.push((key, value));
    assert forall|k: Seq<char>|
        #[trigger] lookup(pushed, k) == if k == key {
            Some(value)
        } else {
            lookup(entries, k)
        } by {
        if k == key {
            lemma_lookup_at(pushed, k, entries.len() as int);
        } else {
            lemma_lookup_skip_last(entries, (key, value), k);
        }
    }
}

/// Lookup of a key different from the last entry's name ignores that entry.
proof fn lemma_lookup_skip_last(
    entries: Seq<(Seq<char>, ValueView)>,
    last: (Seq<char>, ValueView),
    k: Seq<char>,
)
    requires
        last.0 != k,
    ensures
        lookup(entries.push(last), k) == lookup(entries, k),
    decreases entries.len(),
{
    if entries.len() == 0 {
        assert(entries.push(last).drop_first() =~= Seq::<(Seq<char>, ValueView)>::empty());
    } else {
        assert(entries.push(last).drop_first() =~= entries.drop_first().push(last));
        lemma_lookup_skip_last(entries.drop_first(), last, k);
    }
}

} // verus!
