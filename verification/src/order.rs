//! Stable ordering by integer keys, and the lexicographic order on text.
use vstd::prelude::*;
use crate::time::Timestamp;

verus! {

/// `order` lists each index below `n` exactly once.
pub open spec fn is_index_permutation(order: Seq<usize>, n: nat) -> bool {
    &&& order.len() == n
    &&& forall|i: int| 0 <= i < order.len() ==> (#[trigger] order[i]) < n
    &&& forall|i: int, j: int| 0 <= i < j < order.len() ==> order[i] != order[j]
}

/// Listing the indices in `order` lists their keys in increasing order, and
/// indices with equal keys in their original order.
pub open spec fn stably_sorted(keys: Seq<i128>, order: Seq<usize>) -> bool {
    forall|i: int, j: int|
        #![trigger order[i], order[j]]
        0 <= i < j < order.len() ==> key_pair_less(keys, order[i] as int, order[j] as int)
}

/// Index `a` comes before index `b` by key, then by position.
pub open spec fn key_pair_less(keys: Seq<i128>, a: int, b: int) -> bool {
    keys[a] < keys[b] || (keys[a] == keys[b] && a < b)
}

/// The indices of `keys`, listed by increasing key; equal keys keep their
/// original order.
pub fn stable_order(keys: &Vec<i128>) -> (order: Vec<usize>)
    ensures
        is_index_permutation(order@, keys@.len()),
        stably_sorted(keys@, order@),
{
    let mut order: Vec<usize> = Vec::new();
    let mut m: usize = 0;
    while m < keys.len()
        invariant
            m <= keys@.len(),
            is_index_permutation(order@, m as nat),
            stably_sorted(keys@, order@),
        decreases keys@.len() - m,
    {
        let km = keys[m];
        let mut p: usize = order.len();
        while p > 0 && keys[order[p - 1]] > km
            invariant
                p <= order@.len(),
                order@.len() == m,
                m < keys@.len(),
                km == keys@[m as int],
                is_index_permutation(order@, m as nat),
                forall|q: int| p <= q < order@.len() ==> keys@[order@[q] as int] > km,
            decreases p,
        {
            p = p - 1;
        }
        let ghost old_order = order@;
        proof {
            assert forall|q: int| 0 <= q < p implies keys@[old_order[q] as int] <= km by {
                if q < p - 1 {
                    assert(keys@[old_order[q] as int] <= keys@[old_order[p - 1] as int]);
                }
            }
        }
        order.insert(p, m);
        proof {
            let o = order@;
            assert(o == old_order.insert(p as int, m));
            assert forall|i: int| 0 <= i < o.len() implies (#[trigger] o[i]) < m + 1 by {
                if i < p {
                    assert(o[i] == old_order[i]);
                } else if i > p {
                    assert(o[i] == old_order[i - 1]);
                }
            }
            assert forall|i: int, j: int| 0 <= i < j < o.len() implies o[i] != o[j] by {
                if i < p && j < p {
                    assert(o[i] == old_order[i] && o[j] == old_order[j]);
                } else if i < p && j == p {
                    assert(o[i] == old_order[i]);
                } else if i < p && j > p {
                    assert(o[i] == old_order[i] && o[j] == old_order[j - 1]);
                } else if i == p {
                    assert(o[j] == old_order[j - 1]);
                } else {
                    assert(o[i] == old_order[i - 1] && o[j] == old_order[j - 1]);
                }
            }
            assert forall|i: int, j: int| 0 <= i < j < o.len() implies key_pair_less(
                keys@,
                o[i] as int,
                o[j] as int,
            ) by {
                if i < p && j < p {
                    assert(o[i] == old_order[i] && o[j] == old_order[j]);
                } else if i < p && j == p {
                    assert(o[i] == old_order[i]);
                } else if i < p && j > p {
                    assert(o[i] == old_order[i] && o[j] == old_order[j - 1]);
                    assert(keys@[old_order[i] as int] <= km);
                } else if i == p {
                    assert(o[j] == old_order[j - 1]);
                } else {
                    assert(o[i] == old_order[i - 1] && o[j] == old_order[j - 1]);
                }
            }
        }
        m = m + 1;
    }
    order
}

/// `out` is `inp` reordered stably by the preorder `le`: some permutation
/// takes `inp` to `out`, `out` is ordered by `le`, and entries that `le`
/// ranks equal keep their original relative order.
pub open spec fn is_stable_sort<T>(out: Seq<T>, inp: Seq<T>, le: spec_fn(T, T) -> bool) -> bool {
    exists|order: Seq<usize>|
        {
            &&& is_index_permutation(order, inp.len())
            &&& out.len() == inp.len()
            &&& forall|i: int| 0 <= i < out.len() ==> out[i] == inp[#[trigger] order[i] as int]
            &&& forall|i: int, j: int| 0 <= i < j < out.len() ==> le(#[trigger] out[i], #[trigger] out[j])
            &&& forall|i: int, j: int|
                0 <= i < j < out.len() && le(out[j], out[i]) ==> #[trigger] order[i] < #[trigger] order[j]
        }
}

pub proof fn lemma_stable_sort_from_keys<T>(
    out: Seq<T>,
    inp: Seq<T>,
    keys: Seq<i128>,
    order: Seq<usize>,
    le: spec_fn(T, T) -> bool,
)
    requires
        keys.len() == inp.len(),
        is_index_permutation(order, inp.len()),
        stably_sorted(keys, order),
        out.len() == inp.len(),
        forall|i: int| 0 <= i < out.len() ==> out[i] == inp[#[trigger] order[i] as int],
        forall|a: int, b: int|
            0 <= a < inp.len() && 0 <= b < inp.len() ==> (le(inp[a], inp[b]) <==> keys[a] <= keys[b]),
    ensures
        is_stable_sort(out, inp, le),
{
    assert forall|i: int, j: int| 0 <= i < j < out.len() implies le(#[trigger] out[i], #[trigger] out[j]) by {
        assert(key_pair_less(keys, order[i] as int, order[j] as int));
    }
    assert forall|i: int, j: int|
        0 <= i < j < out.len() && le(out[j], out[i]) implies #[trigger] order[i] < #[trigger] order[j] by {
        assert(key_pair_less(keys, order[i] as int, order[j] as int));
    }
}

/// A key that orders instants from newest to oldest.
pub fn newest_first_key(t: &Timestamp) -> (k: i128)
    requires
        t.wf(),
    ensures
        k == -t.total_nanos(),
{
    -((t.secs as i128) * 1_000_000_000i128 + (t.nanos as i128))
}

/// `a` comes strictly before `b` in lexicographic order of character codes
/// (the order of `str`'s `cmp`).
pub open spec fn lex_less(a: Seq<char>, b: Seq<char>) -> bool
    decreases a.len(),
{
    if a.len() == 0 {
        b.len() > 0
    } else if b.len() == 0 {
        false
    } else if a[0] < b[0] {
        true
    } else if a[0] == b[0] {
        lex_less(a.drop_first(), b.drop_first())
    } else {
        false
    }
}

/// No sequence comes before itself.
pub proof fn lex_less_irreflexive(a: Seq<char>)
    ensures
        !lex_less(a, a),
    decreases a.len(),
{
    if a.len() > 0 {
        lex_less_irreflexive(a.drop_first());
    }
}

/// The lexicographic order is transitive.
pub proof fn lex_less_transitive(a: Seq<char>, b: Seq<char>, c: Seq<char>)
    requires
        lex_less(a, b),
        lex_less(b, c),
    ensures
        lex_less(a, c),
    decreases a.len(),
{
    if a.len() > 0 && b.len() > 0 && c.len() > 0 && a[0] == b[0] && b[0] == c[0] {
        lex_less_transitive(a.drop_first(), b.drop_first(), c.drop_first());
    }
}

/// Of two different sequences, one comes before the other.
pub proof fn lex_less_total(a: Seq<char>, b: Seq<char>)
    requires
        a != b,
    ensures
        lex_less(a, b) || lex_less(b, a),
    decreases a.len(),
{
    if a.len() > 0 && b.len() > 0 && a[0] == b[0] {
        if a.drop_first() == b.drop_first() {
            assert(a =~= seq![a[0]] + a.drop_first());
            assert(b =~= seq![b[0]] + b.drop_first());
        }
        lex_less_total(a.drop_first(), b.drop_first());
    } else if a.len() == 0 && b.len() == 0 {
        assert(a =~= b);
    }
}

/// Whether `a` comes strictly before `b` lexicographically.
pub fn lex_less_exec(a: &[char], b: &[char]) -> (r: bool)
    ensures
        r == lex_less(a@, b@),
{
    let mut i: usize = 0;
    assert(a@.subrange(0, a@.len() as int) =~= a@);
    assert(b@.subrange(0, b@.len() as int) =~= b@);
    while i < a.len() && i < b.len() && a[i] == b[i]
        invariant
            i <= a@.len(),
            i <= b@.len(),
            a@.subrange(0, i as int) =~= b@.subrange(0, i as int),
            lex_less(a@, b@) == lex_less(a@.subrange(i as int, a@.len() as int), b@.subrange(i as int, b@.len() as int)),
        decreases a@.len() - i,
    {
        let ghost sa = a@.subrange(i as int, a@.len() as int);
        let ghost sb = b@.subrange(i as int, b@.len() as int);
        assert(sa.drop_first() =~= a@.subrange(i + 1, a@.len() as int));
        assert(sb.drop_first() =~= b@.subrange(i + 1, b@.len() as int));
        i = i + 1;
    }
    let ghost sa = a@.subrange(i as int, a@.len() as int);
    let ghost sb = b@.subrange(i as int, b@.len() as int);
    if i == a.len() {
        i < b.len()
    } else if i == b.len() {
        false
    } else {
        assert(sa[0] == a@[i as int] && sb[0] == b@[i as int]);
        a[i] < b[i]
    }
}

/// Number of entries of `names` that come strictly before `x`.
pub open spec fn count_before(names: Seq<Seq<char>>, x: Seq<char>) -> nat
    decreases names.len(),
{
    if names.len() == 0 {
        0
    } else {
        count_before(names.drop_last(), x) + if lex_less(names.last(), x) { 1nat } else { 0nat }
    }
}

/// Number of entries of `names` equal to `x`.
pub open spec fn count_equal(names: Seq<Seq<char>>, x: Seq<char>) -> nat
    decreases names.len(),
{
    if names.len() == 0 {
        0
    } else {
        count_equal(names.drop_last(), x) + if names.last() == x { 1nat } else { 0nat }
    }
}

proof fn lemma_count_before_grows(names: Seq<Seq<char>>, x: Seq<char>, y: Seq<char>)
    requires
        lex_less(x, y),
    ensures
        count_before(names, y) >= count_before(names, x) + count_equal(names, x),
    decreases names.len(),
{
    if names.len() > 0 {
        lemma_count_before_grows(names.drop_last(), x, y);
        let z = names.last();
        if lex_less(z, x) {
            lex_less_transitive(z, x, y);
        }
        if z == x {
            lex_less_irreflexive(x);
        }
    }
}

proof fn lemma_count_equal_member(names: Seq<Seq<char>>, i: int)
    requires
        0 <= i < names.len(),
    ensures
        count_equal(names, names[i]) >= 1,
    decreases names.len(),
{
    if i < names.len() - 1 {
        lemma_count_equal_member(names.drop_last(), i);
    }
}

/// Ranking names by how many names precede them orders them exactly as the
/// lexicographic order does.
pub proof fn count_before_orders_names(names: Seq<Seq<char>>, i: int, j: int)
    requires
        0 <= i < names.len(),
        0 <= j < names.len(),
    ensures
        count_before(names, names[i]) <= count_before(names, names[j]) <==> !lex_less(names[j], names[i]),
        count_before(names, names[i]) == count_before(names, names[j]) <==> names[i] == names[j],
{
    let a = names[i];
    let b = names[j];
    if lex_less(b, a) {
        lemma_count_before_grows(names, b, a);
        lemma_count_equal_member(names, j);
        lex_less_irreflexive(a);
    } else if a != b {
        lex_less_total(a, b);
        lemma_count_before_grows(names, a, b);
        lemma_count_equal_member(names, i);
    }
}

/// For each name, how many names come strictly before it.
pub fn name_ranks(names: &Vec<Vec<char>>) -> (r: Vec<i128>)
    ensures
        r@.len() == names@.len(),
        forall|i: int|
            0 <= i < names@.len() ==> r@[i] == count_before(
                names@.map_values(|v: Vec<char>| v@),
                names@[i]@,
            ),
{
    let ghost all = names@.map_values(|v: Vec<char>| v@);
    let mut r: Vec<i128> = Vec::new();
    let mut i: usize = 0;
    while i < names.len()
        invariant
            i <= names@.len(),
            all == names@.map_values(|v: Vec<char>| v@),
            r@.len() == i,
            forall|k: int| 0 <= k < i ==> r@[k] == count_before(all, names@[k]@),
        decreases names@.len() - i,
    {
        let mut c: i128 = 0;
        let mut j: usize = 0;
        while j < names.len()
            invariant
                j <= names@.len(),
                i < names@.len(),
                all == names@.map_values(|v: Vec<char>| v@),
                c == count_before(all.subrange(0, j as int), names@[i as int]@),
                c <= j,
            decreases names@.len() - j,
        {
            assert(all.subrange(0, j + 1).drop_last() =~= all.subrange(0, j as int));
            if lex_less_exec(names[j].as_slice(), names[i].as_slice()) {
                c = c + 1;
            }
            j = j + 1;
        }
        assert(all.subrange(0, names@.len() as int) =~= all);
        r.push(c);
        i = i + 1;
    }
    r
}

} // verus!
