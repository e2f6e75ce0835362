//! A registry package manifest, modeled as an insertion-ordered association
//! list from field names to the shapes of JSON values the publish workflow
//! reads and writes. Fields the workflow never touches ride along verbatim as
//! raw JSON text.

use vstd::prelude::*;

verus! {

/// A manifest field value.
#[derive(Debug, Clone)]
pub enum JsonItem {
    /// A JSON string.
    Str(String),
    /// A JSON array whose elements are all strings.
    List(Vec<String>),
    /// A JSON object whose values are all strings, in insertion order.
    Table(Vec<(String, String)>),
    /// Any other JSON value, kept verbatim as source text.
    Raw(String),
}

/// The first value stored under key `k`, scanning from the front.
pub open spec fn lookup(entries: Seq<(String, JsonItem)>, k: Seq<char>) -> Option<JsonItem>
    decreases entries.len(),
{
    if entries.len() == 0 {
        None
    } else if entries[0].0@ == k {
        Some(entries[0].1)
    } else {
        lookup(entries.skip(1), k)
    }
}

/// A key stored nowhere looks up to nothing.
proof fn lemma_lookup_absent(entries: Seq<(String, JsonItem)>, k: Seq<char>)
    requires
        forall|j: int| 0 <= j < entries.len() ==> (#[trigger] entries[j]).0@ != k,
    ensures
        lookup(entries, k) is None,
    decreases entries.len(),
{
    if entries.len() > 0 {
        assert forall|j: int| 0 <= j < entries.skip(1).len() implies (#[trigger] entries.skip(
            1,
        )[j]).0@ != k by {
            assert(entries.skip(1)[j] == entries[j + 1]);
        }
        lemma_lookup_absent(entries.skip(1), k);
    }
}

/// The first index holding a key decides its lookup.
proof fn lemma_lookup_at(entries: Seq<(String, JsonItem)>, k: Seq<char>, i: int)
    requires
        0 <= i < entries.len(),
        entries[i].0@ == k,
        forall|j: int| 0 <= j < i ==> (#[trigger] entries[j]).0@ != k,
    ensures
        lookup(entries, k) == Some(entries[i].1),
    decreases entries.len(),
{
    if i > 0 {
        assert(entries.skip(1)[i - 1] == entries[i]);
        assert forall|j: int| 0 <= j < i - 1 implies (#[trigger] entries.skip(1)[j]).0@ != k by {
            assert(entries.skip(1)[j] == entries[j + 1]);
        }
        lemma_lookup_at(entries.skip(1), k, i - 1);
    }
}

/// Appending a fresh field leaves every other key's lookup unchanged.
proof fn lemma_lookup_push(entries: Seq<(String, JsonItem)>, p: (String, JsonItem), k: Seq<char>)
    requires
        k != p.0@,
    ensures
        lookup(entries.push(p), k) == lookup(entries, k),
    decreases entries.len(),
{
    if entries.len() == 0 {
        assert(entries.push(p)[0] == p);
        assert(entries.push(p).skip(1) =~= Seq::<(String, JsonItem)>::empty());
        assert(lookup(entries.push(p).skip(1), k) is None);
        assert(lookup(entries, k) is None);
    } else {
        assert(entries.push(p)[0] == entries[0]);
        assert(entries.push(p).skip(1) =~= entries.skip(1).push(p));
        lemma_lookup_push(entries.skip(1), p, k);
    }
}

/// Updating the first index holding a key rebinds that key and no other.
proof fn lemma_lookup_update(entries: Seq<(String, JsonItem)>, i: int, p: (String, JsonItem))
    requires
        0 <= i < entries.len(),
        p.0@ == entries[i].0@,
        forall|j: int| 0 <= j < i ==> (#[trigger] entries[j]).0@ != entries[i].0@,
    ensures
        lookup(entries.update(i, p), p.0@) == Some(p.1),
        forall|k2: Seq<char>| k2 != p.0@ ==> lookup(entries.update(i, p), k2) == lookup(
            entries,
            k2,
        ),
    decreases entries.len(),
{
    let upd = entries.update(i, p);
    if i == 0 {
        assert(upd[0] == p);
        assert(upd.skip(1) =~= entries.skip(1));
        assert(lookup(upd, p.0@) == Some(p.1));
        assert forall|k2: Seq<char>| k2 != p.0@ implies lookup(upd, k2) == lookup(
            entries,
            k2,
        ) by {
            assert(lookup(upd, k2) == lookup(upd.skip(1), k2));
            assert(lookup(entries, k2) == lookup(entries.skip(1), k2));
        }
    } else {
        assert(upd[0] == entries[0]);
        assert(upd.skip(1) =~= entries.skip(1).update(i - 1, p));
        assert(entries.skip(1)[i - 1] == entries[i]);
        assert forall|j: int| 0 <= j < i - 1 implies (#[trigger] entries.skip(1)[j]).0@
            != entries.skip(1)[i - 1].0@ by {
            assert(entries.skip(1)[j] == entries[j + 1]);
        }
        lemma_lookup_update(entries.skip(1), i - 1, p);
        assert(entries[0].0@ != entries[i].0@);
        assert forall|k2: Seq<char>| k2 != p.0@ implies lookup(upd, k2) == lookup(
            entries,
            k2,
        ) by {
            if entries[0].0@ != k2 {
                assert(lookup(upd, k2) == lookup(upd.skip(1), k2));
                assert(lookup(entries, k2) == lookup(entries.skip(1), k2));
                assert(lookup(entries.skip(1).update(i - 1, p), k2) == lookup(
                    entries.skip(1),
                    k2,
                ));
            }
        }
    }
}

/// A manifest: field names with their values, in file order, names unique.
#[derive(Debug, Clone)]
pub struct Manifest {
    pub entries: Vec<(String, JsonItem)>,
}

impl Manifest {
    /// Field names are unique.
    pub open spec fn wf(&self) -> bool {
        forall|i: int, j: int| 0 <= i < j < self.entries@.len() ==> (
        #[trigger] self.entries@[i]).0@ != (#[trigger] self.entries@[j]).0@
    }

    /// The value stored under `k`, if any.
    pub open spec fn spec_get(&self, k: Seq<char>) -> Option<JsonItem> {
        lookup(self.entries@, k)
    }

    /// An empty manifest.
    pub fn new() -> (r: Manifest)
        ensures
            r.wf(),
            r.entries@.len() == 0,
            forall|k: Seq<char>| r.spec_get(k) is None,
    {
        Manifest { entries: Vec::new() }
    }

    /// The index of the field named `k`, if present.
    fn index_of(&self, k: &str) -> (r: Option<usize>)
        ensures
            match r {
                Some(i) => i < self.entries@.len() && self.entries@[i as int].0@ == k@ && forall|
                    j: int,
                |
                    0 <= j < i ==> (#[trigger] self.entries@[j]).0@ != k@,
                None => forall|j: int| 0 <= j < self.entries@.len() ==> (
                #[trigger] self.entries@[j]).0@ != k@,
            },
    {
        let ks = String::from_str(k);
        let n = self.entries.len();
        let mut i: usize = 0;
        while i < n
            invariant
                0 <= i <= n,
                n == self.entries@.len(),
                ks@ == k@,
                forall|j: int| 0 <= j < i ==> (#[trigger] self.entries@[j]).0@ != k@,
            decreases n - i,
        {
            let eq = self.entries[i].0 == ks;
            if eq {
                return Some(i);
            }
            i += 1;
        }
        None
    }

    /// A reference to the value stored under `k`, if any.
    pub fn get(&self, k: &str) -> (r: Option<&JsonItem>)
        ensures
            match r {
                Some(v) => self.spec_get(k@) == Some(*v),
                None => self.spec_get(k@) is None,
            },
    {
        let idx = self.index_of(k);
        match idx {
            Some(i) => {
                proof {
                    lemma_lookup_at(self.entries@, k@, i as int);
                }
                Some(&self.entries[i].1)
            },
            None => {
                proof {
                    lemma_lookup_absent(self.entries@, k@);
                }
                None
            },
        }
    }

    /// Stores `v` under `k`: replaces the value of an existing field in
    /// place, or appends a new field at the end. Every other field keeps its
    /// value.
    pub fn set(&mut self, k: &str, v: JsonItem)
        requires
            old(self).wf(),
        ensures
            final(self).wf(),
            final(self).spec_get(k@) == Some(v),
            forall|k2: Seq<char>| k2 != k@ ==> final(self).spec_get(k2) == old(self).spec_get(k2),
    {
        let idx = self.index_of(k);
        match idx {
            Some(i) => {
                let key = String::from_str(k);
                let ghost before = self.entries@;
                self.entries[i] = (key, v);
                proof {
                    assert(self.entries@ == before.update(i as int, (key, v)));
                    lemma_lookup_update(before, i as int, (key, v));
                    assert forall|a: int, b: int|
                        0 <= a < b < self.entries@.len() implies (
                    #[trigger] self.entries@[a]).0@ != (#[trigger] self.entries@[b]).0@ by {
                        assert(self.entries@[a].0@ == before[a].0@);
                        assert(self.entries@[b].0@ == before[b].0@);
                    }
                }
            },
            None => {
                let key = String::from_str(k);
                let ghost before = self.entries@;
                self.entries.push((key, v));
                proof {
                    assert(self.entries@ == before.push((key, v)));
                    lemma_lookup_at(self.entries@, k@, before.len() as int);
                    assert forall|k2: Seq<char>| k2 != k@ implies lookup(self.entries@, k2)
                        == lookup(before, k2) by {
                        lemma_lookup_push(before, (key, v), k2);
                    }
                    assert forall|a: int, b: int|
                        0 <= a < b < self.entries@.len() implies (
                    #[trigger] self.entries@[a]).0@ != (#[trigger] self.entries@[b]).0@ by {
                        if b < before.len() {
                            assert(self.entries@[a] == before[a]);
                            assert(self.entries@[b] == before[b]);
                        } else {
                            assert(self.entries@[a] == before[a]);
                            assert(self.entries@[b].0@ == k@);
                        }
                    }
                }
            },
        }
    }
}

/// The character sequences of a list of strings.
pub open spec fn views_of(v: Seq<String>) -> Seq<Seq<char>> {
    v.map_values(|e: String| e@)
}

/// `views_of` distributes over `push`.
pub proof fn lemma_views_push(v: Seq<String>, c: String)
    ensures
        views_of(v.push(c)) == views_of(v).push(c@),
{
    assert(views_of(v.push(c)) =~~= views_of(v).push(c@));
}

/// The character sequences of a table of string pairs.
pub open spec fn table_view(t: Seq<(String, String)>) -> Seq<(Seq<char>, Seq<char>)> {
    t.map_values(|p: (String, String)| (p.0@, p.1@))
}

/// The mathematical content of a manifest field value.
pub enum ItemView {
    Str(Seq<char>),
    List(Seq<Seq<char>>),
    Table(Seq<(Seq<char>, Seq<char>)>),
    Raw(Seq<char>),
}

/// The content of a field value.
pub open spec fn item_view(it: JsonItem) -> ItemView {
    match it {
        JsonItem::Str(s) => ItemView::Str(s@),
        JsonItem::List(v) => ItemView::List(views_of(v@)),
        JsonItem::Table(t) => ItemView::Table(table_view(t@)),
        JsonItem::Raw(s) => ItemView::Raw(s@),
    }
}

/// The content of an optional field value.
pub open spec fn opt_item_view(o: Option<JsonItem>) -> Option<ItemView> {
    match o {
        Some(it) => Some(item_view(it)),
        None => None,
    }
}

/// The content stored under `k` in `m`.
pub open spec fn get_view(m: &Manifest, k: Seq<char>) -> Option<ItemView> {
    opt_item_view(m.spec_get(k))
}

/// Entry lists that agree key-for-key and content-for-content look up alike.
proof fn lemma_lookup_congruent(a: Seq<(String, JsonItem)>, b: Seq<(String, JsonItem)>, k: Seq<
    char,
>)
    requires
        a.len() == b.len(),
        forall|i: int| 0 <= i < a.len() ==> (#[trigger] a[i]).0@ == b[i].0@ && item_view(a[i].1)
            == item_view(b[i].1),
    ensures
        opt_item_view(lookup(a, k)) == opt_item_view(lookup(b, k)),
    decreases a.len(),
{
    if a.len() > 0 {
        assert(a[0].0@ == b[0].0@);
        assert forall|i: int| 0 <= i < a.skip(1).len() implies (#[trigger] a.skip(1)[i]).0@
            == b.skip(1)[i].0@ && item_view(a.skip(1)[i].1) == item_view(b.skip(1)[i].1) by {
            assert(a.skip(1)[i] == a[i + 1]);
            assert(b.skip(1)[i] == b[i + 1]);
        }
        lemma_lookup_congruent(a.skip(1), b.skip(1), k);
    }
}

impl JsonItem {
    /// A copy with the same content.
    pub fn duplicate(&self) -> (r: JsonItem)
        ensures
            item_view(r) == item_view(*self),
    {
        match self {
            JsonItem::Str(s) => JsonItem::Str(s.clone()),
            JsonItem::List(v) => {
                let mut out: Vec<String> = Vec::new();
                let n = v.len();
                let mut i: usize = 0;
                while i < n
                    invariant
                        0 <= i <= n,
                        n == v@.len(),
                        out@.len() == i,
                        forall|j: int| 0 <= j < i ==> out@[j] == v@[j],
                    decreases n - i,
                {
                    out.push(v[i].clone());
                    i += 1;
                }
                proof {
                    assert(out@ =~= v@);
                }
                JsonItem::List(out)
            },
            JsonItem::Table(t) => {
                let mut out: Vec<(String, String)> = Vec::new();
                let n = t.len();
                let mut i: usize = 0;
                while i < n
                    invariant
                        0 <= i <= n,
                        n == t@.len(),
                        out@.len() == i,
                        forall|j: int| 0 <= j < i ==> (#[trigger] out@[j]).0@ == t@[j].0@
                            && out@[j].1@ == t@[j].1@,
                    decreases n - i,
                {
                    out.push((t[i].0.clone(), t[i].1.clone()));
                    i += 1;
                }
                proof {
                    assert(table_view(out@) =~~= table_view(t@));
                }
                JsonItem::Table(out)
            },
            JsonItem::Raw(s) => JsonItem::Raw(s.clone()),
        }
    }
}

impl Manifest {
    /// A copy with the same fields and contents.
    pub fn duplicate(&self) -> (r: Manifest)
        ensures
            r.wf() == self.wf(),
            r.entries@.len() == self.entries@.len(),
            forall|i: int| 0 <= i < r.entries@.len() ==> (#[trigger] r.entries@[i]).0@
                == self.entries@[i].0@ && item_view(r.entries@[i].1) == item_view(
                self.entries@[i].1,
            ),
            forall|k: Seq<char>| get_view(&r, k) == get_view(self, k),
    {
        let mut out: Vec<(String, JsonItem)> = Vec::new();
        let n = self.entries.len();
        let mut i: usize = 0;
        while i < n
            invariant
                0 <= i <= n,
                n == self.entries@.len(),
                out@.len() == i,
                forall|j: int| 0 <= j < i ==> (#[trigger] out@[j]).0@ == self.entries@[j].0@
                    && item_view(out@[j].1) == item_view(self.entries@[j].1),
            decreases n - i,
        {
            let key = self.entries[i].0.clone();
            let val = self.entries[i].1.duplicate();
            out.push((key, val));
            i += 1;
        }
        let r = Manifest { entries: out };
        proof {
            assert forall|k: Seq<char>| get_view(&r, k) == get_view(self, k) by {
                lemma_lookup_congruent(r.entries@, self.entries@, k);
            }
            assert(r.wf() == self.wf()) by {
                if self.wf() {
                    assert forall|i2: int, j2: int|
                        0 <= i2 < j2 < r.entries@.len() implies (
                    #[trigger] r.entries@[i2]).0@ != (#[trigger] r.entries@[j2]).0@ by {
                        assert(self.entries@[i2].0@ != self.entries@[j2].0@);
                    }
                }
                if r.wf() {
                    assert forall|i2: int, j2: int|
                        0 <= i2 < j2 < self.entries@.len() implies (
                    #[trigger] self.entries@[i2]).0@ != (#[trigger] self.entries@[j2]).0@ by {
                        assert(r.entries@[i2].0@ != r.entries@[j2].0@);
                    }
                }
            }
        }
        r
    }
}


} // verus!
