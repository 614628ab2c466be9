//! The label database: a readable label for each known package name,
//! seeded with the shipped labels and grown as labels are resolved.
//!
//! Persisting the labels is the caller's part; `entries` gives what to
//! write.
use vstd::prelude::*;
use crate::seed_data::get_seed_data;

verus! {

/// Labels by package name, at most one per name.
pub struct PackageDB {
    pub labels: Vec<(String, String)>,
}

/// The labels after storing `pairs` in order into `m`, a later label of a
/// name replacing an earlier one.
pub open spec fn with_pairs(m: Map<Seq<char>, Seq<char>>, pairs: Seq<(String, String)>) -> Map<
    Seq<char>,
    Seq<char>,
>
    decreases pairs.len(),
{
    if pairs.len() == 0 {
        m
    } else {
        with_pairs(m, pairs.drop_last()).insert(pairs.last().0@, pairs.last().1@)
    }
}

/// A name that `pairs` labels has the same label whatever map they are
/// stored into.
proof fn lemma_later_pairs_win(
    m: Map<Seq<char>, Seq<char>>,
    pairs: Seq<(String, String)>,
    n: Seq<char>,
)
    requires
        with_pairs(Map::empty(), pairs).contains_key(n),
    ensures
        with_pairs(m, pairs).contains_key(n),
        with_pairs(m, pairs)[n] == with_pairs(Map::empty(), pairs)[n],
    decreases pairs.len(),
{
    if pairs.len() > 0 && pairs.last().0@ != n {
        lemma_later_pairs_win(m, pairs.drop_last(), n);
    }
}

impl PackageDB {
    pub open spec fn wf(&self) -> bool {
        forall|i: int, j: int|
            0 <= i < j < self.labels.len() ==> #[trigger] self.labels[i].0@
                != #[trigger] self.labels[j].0@
    }

    /// The labels, by package name.
    pub open spec fn view(&self) -> Map<Seq<char>, Seq<char>> {
        Map::new(
            |n: Seq<char>| exists|i: int| 0 <= i < self.labels.len() && self.labels[i].0@ == n,
            |n: Seq<char>|
                self.labels[choose|i: int| 0 <= i < self.labels.len() && self.labels[i].0@ == n].1@,
        )
    }

    fn find(&self, name: &str) -> (r: Option<usize>)
        requires
            self.wf(),
        ensures
            r is None <==> !self.view().contains_key(name@),
            r matches Some(i) ==> i < self.labels.len() && self.labels[i as int].0@ == name@
                && self.view()[name@] == self.labels[i as int].1@,
    {
        let key = crate::transport::owned(name);
        let mut i: usize = 0;
        while i < self.labels.len()
            invariant
                self.wf(),
                i <= self.labels.len(),
                key@ == name@,
                forall|j: int| 0 <= j < i ==> self.labels[j].0@ != name@,
            decreases self.labels.len() - i,
        {
            if self.labels[i].0 == key {
                assert(self.labels[i as int].0@ == name@);
                let ghost k = choose|j: int|
                    0 <= j < self.labels.len() && self.labels[j].0@ == name@;
                proof {
                    if k < i as int {
                        assert(self.labels[k].0@ != self.labels[i as int].0@);
                    } else if k > i as int {
                        assert(self.labels[i as int].0@ != self.labels[k].0@);
                    }
                }
                return Some(i);
            }
            i = i + 1;
        }
        None
    }

    /// The label of `package_name`, if one is known.
    pub fn get(&self, package_name: &str) -> (r: Option<String>)
        requires
            self.wf(),
        ensures
            r is Some <==> self.view().contains_key(package_name@),
            r matches Some(l) ==> l@ == self.view()[package_name@],
    {
        match self.find(package_name) {
            Some(i) => Some(self.labels[i].1.clone()),
            None => None,
        }
    }

    /// Stores `label` as the label of `package_name`, replacing any earlier
    /// one.
    pub fn insert(&mut self, package_name: String, label: String)
        requires
            old(self).wf(),
        ensures
            final(self).wf(),
            final(self).view() == old(self).view().insert(package_name@, label@),
    {
        let ghost key = package_name@;
        let ghost value = label@;
        match self.find(package_name.as_str()) {
            Some(i) => {
                self.labels.set(i, (package_name, label));
                assert forall|i1: int, j1: int|
                    0 <= i1 < j1 < self.labels.len() implies #[trigger] self.labels[i1].0@
                    != #[trigger] self.labels[j1].0@ by {
                    assert(old(self).labels[i1].0@ != old(self).labels[j1].0@);
                }
                assert(self.view() =~= old(self).view().insert(key, value)) by {
                    assert forall|n: Seq<char>| #[trigger]
                        self.view().contains_key(n) implies self.view()[n] == old(
                        self,
                    ).view().insert(key, value)[n] by {
                        let k = choose|j: int|
                            0 <= j < self.labels.len() && self.labels[j].0@ == n;
                        if n == key {
                            assert(k == i as int) by {
                                if k != i as int {
                                    if k < i as int {
                                        assert(self.labels[k].0@ != self.labels[i as int].0@);
                                    } else {
                                        assert(self.labels[i as int].0@ != self.labels[k].0@);
                                    }
                                }
                            }
                        } else {
                            assert(old(self).labels[k].0@ == n);
                        }
                    }
                    assert forall|n: Seq<char>|
                        old(self).view().insert(key, value).contains_key(n) implies #[trigger]
                        self.view().contains_key(n) by {
                        if n == key {
                            assert(self.labels[i as int].0@ == n);
                        } else {
                            let k = choose|j: int|
                                0 <= j < old(self).labels.len() && old(self).labels[j].0@ == n;
                            assert(self.labels[k].0@ == n);
                        }
                    }
                }
            },
            None => {
                self.labels.push((package_name, label));
                let last = self.labels.len() - 1;
                assert forall|i1: int, j1: int|
                    0 <= i1 < j1 < self.labels.len() implies #[trigger] self.labels[i1].0@
                    != #[trigger] self.labels[j1].0@ by {
                    if j1 == last {
                        assert(!old(self).view().contains_key(key));
                        assert(old(self).labels[i1].0@ != key);
                    } else {
                        assert(old(self).labels[i1].0@ != old(self).labels[j1].0@);
                    }
                }
                assert(self.view() =~= old(self).view().insert(key, value)) by {
                    assert forall|n: Seq<char>| #[trigger]
                        self.view().contains_key(n) implies self.view()[n] == old(
                        self,
                    ).view().insert(key, value)[n] by {
                        let k = choose|j: int|
                            0 <= j < self.labels.len() && self.labels[j].0@ == n;
                        if n == key {
                            assert(self.labels[last as int].0@ == n);
                            assert(k == last as int) by {
                                if k != last as int {
                                    assert(old(self).labels[k].0@ == key);
                                }
                            }
                        } else {
                            assert(k != last as int);
                            assert(old(self).labels[k].0@ == n);
                        }
                    }
                    assert forall|n: Seq<char>|
                        old(self).view().insert(key, value).contains_key(n) implies #[trigger]
                        self.view().contains_key(n) by {
                        if n == key {
                            assert(self.labels[last as int].0@ == n);
                        } else {
                            let k = choose|j: int|
                                0 <= j < old(self).labels.len() && old(self).labels[j].0@ == n;
                            assert(self.labels[k].0@ == n);
                        }
                    }
                }
            },
        }
    }

    /// An empty database.
    pub fn empty() -> (r: PackageDB)
        ensures
            r.wf(),
            r.view() == Map::<Seq<char>, Seq<char>>::empty(),
    {
        let r = PackageDB { labels: Vec::new() };
        assert(r.view() =~= Map::<Seq<char>, Seq<char>>::empty());
        r
    }

    /// Stores every pair of `pairs`, in order.
    pub fn insert_all(&mut self, pairs: Vec<(String, String)>)
        requires
            old(self).wf(),
        ensures
            final(self).wf(),
            final(self).view() == with_pairs(old(self).view(), pairs@),
    {
        let ghost all = pairs@;
        let ghost start = self.view();
        assert(all.take(0) =~= Seq::<(String, String)>::empty());
        for p in it: pairs
            invariant
                self.wf(),
                it.seq() == all,
                self.view() == with_pairs(start, all.take(it.index() as int)),
        {
            let ghost k = it.index() as int;
            assert(all.take(k + 1).drop_last() =~= all.take(k));
            let (name, label) = p;
            self.insert(name, label);
        }
        assert(all.take(all.len() as int) =~= all);
    }

    /// The labels of `seed`, overridden by those of `stored`.
    pub fn from_pairs(seed: Vec<(String, String)>, stored: Vec<(String, String)>) -> (r: PackageDB)
        ensures
            r.wf(),
            r.view() == with_pairs(with_pairs(Map::empty(), seed@), stored@),
    {
        let mut db = PackageDB::empty();
        db.insert_all(seed);
        db.insert_all(stored);
        db
    }

    /// The shipped labels, overridden by the `stored` ones, which may be
    /// more recent: every name that `stored` labels has its last label
    /// there.
    pub fn new(stored: Vec<(String, String)>) -> (r: PackageDB)
        ensures
            r.wf(),
            forall|n: Seq<char>| #[trigger]
                with_pairs(Map::empty(), stored@).contains_key(n) ==> r.view().contains_key(n)
                    && r.view()[n] == with_pairs(Map::empty(), stored@)[n],
    {
        let ghost pairs = stored@;
        let seed = get_seed_data();
        let ghost base = with_pairs(Map::empty(), seed@);
        let r = PackageDB::from_pairs(seed, stored);
        proof {
            assert forall|n: Seq<char>| #[trigger]
                with_pairs(Map::empty(), pairs).contains_key(n) implies r.view().contains_key(n)
                && r.view()[n] == with_pairs(Map::empty(), pairs)[n] by {
                lemma_later_pairs_win(base, pairs, n);
            }
        }
        r
    }

    /// Every (package name, label) pair, to be persisted.
    pub fn entries(&self) -> (r: Vec<(String, String)>)
        ensures
            r@.len() == self.labels@.len(),
            forall|i: int|
                0 <= i < r@.len() ==> #[trigger] r@[i].0@ == self.labels@[i].0@ && r@[i].1@
                    == self.labels@[i].1@,
    {
        let mut r: Vec<(String, String)> = Vec::new();
        let mut i: usize = 0;
        while i < self.labels.len()
            invariant
                i <= self.labels.len(),
                r@.len() == i,
                forall|j: int|
                    0 <= j < i ==> #[trigger] r@[j].0@ == self.labels@[j].0@ && r@[j].1@
                        == self.labels@[j].1@,
            decreases self.labels.len() - i,
        {
            r.push((self.labels[i].0.clone(), self.labels[i].1.clone()));
            i = i + 1;
        }
        r
    }
}

/// The number of bytes `c` takes in UTF-8.
pub open spec fn utf8_width(c: char) -> nat {
    if (c as u32) < 0x80 {
        1
    } else if (c as u32) < 0x800 {
        2
    } else if (c as u32) < 0x10000 {
        3
    } else {
        4
    }
}

/// The number of bytes `s` takes in UTF-8, what `str::len` counts.
pub open spec fn utf8_len(s: Seq<char>) -> nat
    decreases s.len(),
{
    if s.len() == 0 {
        0
    } else {
        utf8_len(s.drop_last()) + utf8_width(s.last())
    }
}

/// Whether `s` takes fewer than `bound` bytes in UTF-8.
fn utf8_shorter_than(s: &str, bound: usize) -> (r: bool)
    ensures
        r == (utf8_len(s@) < bound),
{
    let v = crate::text::chars_of(s);
    if bound == 0 {
        return false;
    }
    let mut total: usize = 0;
    let mut i: usize = 0;
    assert(v@.take(0) =~= Seq::<char>::empty());
    while i < v.len()
        invariant
            i <= v.len(),
            v@ == s@,
            total as nat == utf8_len(v@.take(i as int)),
            total < bound,
        decreases v.len() - i,
    {
        assert(v@.take(i + 1).drop_last() =~= v@.take(i as int));
        assert(v@.take(i + 1).last() == v@[i as int]);
        let u = v[i] as u32;
        let w: usize = if u < 0x80 {
            1
        } else if u < 0x800 {
            2
        } else if u < 0x10000 {
            3
        } else {
            4
        };
        if w >= bound - total {
            proof {
                lemma_utf8_len_prefix(v@, i + 1);
            }
            return false;
        }
        total = total + w;
        i = i + 1;
    }
    assert(v@.take(v.len() as int) =~= v@);
    true
}

proof fn lemma_utf8_len_prefix(s: Seq<char>, k: int)
    requires
        0 <= k <= s.len(),
    ensures
        utf8_len(s.take(k)) <= utf8_len(s),
    decreases s.len() - k,
{
    if k < s.len() {
        lemma_utf8_len_prefix(s, k + 1);
        assert(s.take(k + 1).drop_last() =~= s.take(k));
    } else {
        assert(s.take(k) =~= s);
    }
}

/// The label read from a store page, given the trimmed text of its named
/// title heading and of its first heading, when the page has them: the
/// named title, else the first heading when it is not empty and shorter
/// than 100 bytes.
pub fn label_from_headings(named: Option<String>, first: Option<String>) -> (r: Option<String>)
    ensures
        named is Some ==> r == named,
        named is None ==> match first {
            Some(t) => if t@.len() > 0 && utf8_len(t@) < 100 {
                r == Some(t)
            } else {
                r is None
            },
            None => r is None,
        },
{
    match named {
        Some(t) => Some(t),
        None => match first {
            Some(t) => {
                if !t.as_str().is_empty() && utf8_shorter_than(t.as_str(), 100) {
                    Some(t)
                } else {
                    None
                }
            },
            None => None,
        },
    }
}

} // verus!
