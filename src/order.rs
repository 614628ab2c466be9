//! Ordering by name: the order of `String`'s `Ord` on names, and the order
//! in which a stable sort by name puts a list.
use vstd::prelude::*;

verus! {

/// `a` comes no later than `b` in the lexicographic order of code points,
/// which is the order of `String` (byte order of UTF-8).
pub open spec fn lex_le(a: Seq<char>, b: Seq<char>) -> bool
    decreases a.len(),
{
    if a.len() == 0 {
        true
    } else if b.len() == 0 {
        false
    } else if a[0] != b[0] {
        (a[0] as u32) < (b[0] as u32)
    } else {
        lex_le(a.drop_first(), b.drop_first())
    }
}

/// `a` may stand before `b`: ascending, or descending when `desc`.
pub open spec fn in_order(a: Seq<char>, b: Seq<char>, desc: bool) -> bool {
    if desc {
        lex_le(b, a)
    } else {
        lex_le(a, b)
    }
}

/// Position `i` inserted into the stably sorted positions `s`: after every
/// position whose name may stand before that of `i`.
pub open spec fn insert_by_name(s: Seq<int>, names: Seq<Seq<char>>, i: int, desc: bool) -> Seq<
    int,
>
    decreases s.len(),
{
    if s.len() == 0 {
        seq![i]
    } else if in_order(names[s.last()], names[i], desc) {
        s.push(i)
    } else {
        insert_by_name(s.drop_last(), names, i, desc).push(s.last())
    }
}

/// The positions `0..n` in the order in which a stable sort by name puts
/// them.
pub open spec fn order_by_name(names: Seq<Seq<char>>, n: nat, desc: bool) -> Seq<int>
    decreases n,
{
    if n == 0 {
        seq![]
    } else {
        insert_by_name(order_by_name(names, (n - 1) as nat, desc), names, n - 1, desc)
    }
}

/// The positions of `names` in the order of a stable sort by name.
pub open spec fn sorted_order(names: Seq<Seq<char>>) -> Seq<int> {
    order_by_name(names, names.len(), false)
}

/// The positions of `names` in the order of a stable sort by name from the
/// last to the first.
pub open spec fn sorted_order_desc(names: Seq<Seq<char>>) -> Seq<int> {
    order_by_name(names, names.len(), true)
}

pub fn lex_le_exec(a: &Vec<char>, b: &Vec<char>) -> (r: bool)
    ensures
        r == lex_le(a@, b@),
{
    let mut i: usize = 0;
    assert(a@.skip(0) =~= a@);
    assert(b@.skip(0) =~= b@);
    assert(a@.take(0) =~= b@.take(0));
    while i < a.len()
        invariant
            i <= a.len(),
            i <= b.len(),
            a@.take(i as int) == b@.take(i as int),
            lex_le(a@, b@) == lex_le(a@.skip(i as int), b@.skip(i as int)),
        decreases a.len() - i,
    {
        if i >= b.len() {
            return false;
        }
        assert(a@.skip(i as int)[0] == a@[i as int]);
        assert(b@.skip(i as int)[0] == b@[i as int]);
        if a[i] != b[i] {
            return (a[i] as u32) < (b[i] as u32);
        }
        assert(a@.skip(i as int).drop_first() =~= a@.skip(i + 1));
        assert(b@.skip(i as int).drop_first() =~= b@.skip(i + 1));
        assert(a@.take(i + 1) =~= a@.take(i as int).push(a@[i as int]));
        assert(b@.take(i + 1) =~= b@.take(i as int).push(b@[i as int]));
        i = i + 1;
    }
    true
}

proof fn lemma_insert_at(s: Seq<int>, names: Seq<Seq<char>>, i: int, k: int, desc: bool)
    requires
        0 <= k <= s.len(),
        k > 0 ==> in_order(names[s[k - 1]], names[i], desc),
        forall|j: int| k <= j < s.len() ==> !in_order(names[s[j]], names[i], desc),
    ensures
        insert_by_name(s, names, i, desc) == s.insert(k, i),
    decreases s.len(),
{
    if s.len() == 0 {
        assert(s.insert(k, i) =~= seq![i]);
    } else if k == s.len() {
        assert(s.insert(k, i) =~= s.push(i));
    } else {
        let t = s.drop_last();
        assert forall|j: int| k <= j < t.len() implies !in_order(names[t[j]], names[i], desc) by {
            assert(t[j] == s[j]);
        }
        if k > 0 {
            assert(t[k - 1] == s[k - 1]);
        }
        lemma_insert_at(t, names, i, k, desc);
        assert(s.insert(k, i) =~= t.insert(k, i).push(s.last()));
    }
}

/// The positions of `names` in the order of a stable sort by name,
/// ascending, or descending when `desc`.
pub fn sort_order_by(names: &Vec<Vec<char>>, desc: bool) -> (r: Vec<usize>)
    ensures
        r@.len() == names.len(),
        forall|k: int| 0 <= k < r@.len() ==> #[trigger] r@[k] < names.len(),
        r@.map_values(|x: usize| x as int) == order_by_name(
            crate::text::views(names@),
            names.len() as nat,
            desc,
        ),
{
    let ghost ns = crate::text::views(names@);
    let mut r: Vec<usize> = Vec::new();
    let mut i: usize = 0;
    while i < names.len()
        invariant
            i <= names.len(),
            ns == crate::text::views(names@),
            ns.len() == names.len(),
            r@.map_values(|x: usize| x as int) == order_by_name(ns, i as nat, desc),
            r@.len() == i,
            forall|k: int| 0 <= k < r@.len() ==> #[trigger] r@[k] < i,
        decreases names.len() - i,
    {
        let mut k = r.len();
        while k > 0 && !in_order_exec(&names[r[k - 1]], &names[i], desc)
            invariant
                k <= r@.len(),
                i < names.len(),
                r@.len() == i,
                ns == crate::text::views(names@),
                forall|m: int| 0 <= m < r@.len() ==> #[trigger] r@[m] < i,
                forall|j: int|
                    k <= j < r@.len() ==> !in_order(ns[r@[j] as int], ns[i as int], desc),
            decreases k,
        {
            assert(ns[r@[k - 1] as int] == names@[r@[k - 1] as int]@);
            assert(ns[i as int] == names@[i as int]@);
            k = k - 1;
        }
        let ghost s = r@.map_values(|x: usize| x as int);
        proof {
            if k > 0 {
                assert(ns[r@[k - 1] as int] == names@[r@[k - 1] as int]@);
                assert(ns[i as int] == names@[i as int]@);
            }
            assert forall|j: int| k <= j < s.len() implies !in_order(ns[s[j]], ns[i as int], desc) by {}
            lemma_insert_at(s, ns, i as int, k as int, desc);
        }
        r.insert(k, i);
        assert(r@.map_values(|x: usize| x as int) =~= s.insert(k as int, i as int));
        assert forall|m: int| 0 <= m < r@.len() implies #[trigger] r@[m] < i + 1 by {
            assert(r@.map_values(|x: usize| x as int)[m] == r@[m] as int);
            if m < k {
                assert(s.insert(k as int, i as int)[m] == s[m]);
            } else if m > k {
                assert(s.insert(k as int, i as int)[m] == s[m - 1]);
            }
        }
        i = i + 1;
    }
    r
}

fn in_order_exec(a: &Vec<char>, b: &Vec<char>, desc: bool) -> (r: bool)
    ensures
        r == in_order(a@, b@, desc),
{
    if desc {
        lex_le_exec(b, a)
    } else {
        lex_le_exec(a, b)
    }
}

/// The positions of `names` in the order of a stable sort by name.
pub fn sort_order(names: &Vec<Vec<char>>) -> (r: Vec<usize>)
    ensures
        r@.len() == names.len(),
        forall|k: int| 0 <= k < r@.len() ==> #[trigger] r@[k] < names.len(),
        r@.map_values(|x: usize| x as int) == sorted_order(crate::text::views(names@)),
{
    sort_order_by(names, false)
}

} // verus!
