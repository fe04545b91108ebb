//! The order in which discovered players are considered: by bus name.
use vstd::prelude::*;
use vstd::string::*;

verus! {

/// Strict order of names: lexicographic by code point, which is also the
/// order of their UTF-8 bytes.
pub open spec fn name_lt(a: Seq<char>, b: Seq<char>) -> bool
    decreases a.len(),
{
    if b.len() == 0 {
        false
    } else if a.len() == 0 {
        true
    } else if a[0] != b[0] {
        (a[0] as int) < (b[0] as int)
    } else {
        name_lt(a.drop_first(), b.drop_first())
    }
}

/// Handle `x` comes before handle `y`: by name, and by discovery position
/// between equal names.
pub open spec fn comes_before(names: Seq<String>, x: usize, y: usize) -> bool {
    name_lt(names[x as int]@, names[y as int]@) || (names[x as int]@ == names[y as int]@ && x < y)
}

/// `order` lists each of the indices `0..n` exactly once.
pub open spec fn is_index_permutation(order: Seq<usize>, n: nat) -> bool {
    &&& order.len() == n
    &&& forall|i: int| 0 <= i < order.len() ==> #[trigger] order[i] < n
    &&& forall|i: int, j: int| 0 <= i < j < order.len() ==> order[i] != order[j]
}

/// `order` lists handles by name, equal names in discovery order.
pub open spec fn sorted_by_name(names: Seq<String>, order: Seq<usize>) -> bool {
    forall|i: int, j: int|
        0 <= i < j < order.len() ==> comes_before(names, #[trigger] order[i], #[trigger] order[j])
}

proof fn lemma_name_lt_trans(a: Seq<char>, b: Seq<char>, c: Seq<char>)
    requires
        name_lt(a, b),
        name_lt(b, c),
    ensures
        name_lt(a, c),
    decreases a.len(),
{
    if a.len() > 0 && a[0] == b[0] && b[0] == c[0] {
        lemma_name_lt_trans(a.drop_first(), b.drop_first(), c.drop_first());
    }
}

proof fn lemma_name_lt_total(a: Seq<char>, b: Seq<char>)
    ensures
        name_lt(a, b) || name_lt(b, a) || a == b,
    decreases a.len(),
{
    if a.len() > 0 && b.len() > 0 && a[0] == b[0] {
        lemma_name_lt_total(a.drop_first(), b.drop_first());
        if a.drop_first() == b.drop_first() {
            assert(a =~= b) by {
                assert forall|i: int| 0 <= i < a.len() implies a[i] == b[i] by {
                    if i > 0 {
                        assert(a[i] == a.drop_first()[i - 1]);
                    }
                }
            }
        }
    } else if a.len() == 0 && b.len() == 0 {
        assert(a =~= b);
    } else if a.len() > 0 && b.len() > 0 {
        assert((a[0] as int) != (b[0] as int));
    }
}

proof fn lemma_before_trans(names: Seq<String>, x: usize, y: usize, z: usize)
    requires
        x < names.len(),
        y < names.len(),
        z < names.len(),
        comes_before(names, x, y),
        comes_before(names, y, z),
    ensures
        comes_before(names, x, z),
{
    let (a, b, c) = (names[x as int]@, names[y as int]@, names[z as int]@);
    if name_lt(a, b) && name_lt(b, c) {
        lemma_name_lt_trans(a, b, c);
    }
}

/// Whether name `a` comes strictly before name `b`.
pub fn name_less(a: &str, b: &str) -> (r: bool)
    ensures
        r == name_lt(a@, b@),
{
    let na = a.unicode_len();
    let nb = b.unicode_len();
    let mut k: usize = 0;
    assert(a@.subrange(0, na as int) =~= a@);
    assert(b@.subrange(0, nb as int) =~= b@);
    while k < na && k < nb && a.get_char(k) == b.get_char(k)
        invariant
            k <= na == a@.len(),
            k <= nb == b@.len(),
            name_lt(a@, b@) == name_lt(a@.subrange(k as int, na as int), b@.subrange(k as int, nb as int)),
        decreases na - k,
    {
        assert(a@.subrange(k as int, na as int).drop_first() =~= a@.subrange(k + 1, na as int));
        assert(b@.subrange(k as int, nb as int).drop_first() =~= b@.subrange(k + 1, nb as int));
        k = k + 1;
    }
    if k == nb {
        false
    } else if k == na {
        true
    } else {
        (a.get_char(k) as u32) < (b.get_char(k) as u32)
    }
}

proof fn lemma_insert_keeps_sorted(names: Seq<String>, order: Seq<usize>, j: int, k: usize)
    requires
        k < names.len(),
        0 <= j <= order.len(),
        forall|i: int| 0 <= i < order.len() ==> #[trigger] order[i] < k,
        sorted_by_name(names, order),
        forall|m: int| j <= m < order.len() ==> name_lt(names[k as int]@, names[#[trigger] order[m] as int]@),
        j > 0 ==> comes_before(names, order[j - 1], k),
    ensures
        sorted_by_name(names, order.insert(j, k)),
{
    let s = order.insert(j, k);
    assert forall|a: int, b: int| 0 <= a < b < s.len() implies comes_before(
        names,
        #[trigger] s[a],
        #[trigger] s[b],
    ) by {
        if b < j {
            assert(s[a] == order[a] && s[b] == order[b]);
        } else if b == j {
            if a < j - 1 {
                assert(comes_before(names, order[a], order[j - 1]));
                lemma_before_trans(names, order[a], order[j - 1], k);
            }
        } else if a < j {
            assert(s[b] == order[b - 1]);
            assert(name_lt(names[k as int]@, names[order[b - 1] as int]@));
        } else if a == j {
            assert(s[b] == order[b - 1]);
        } else {
            assert(s[a] == order[a - 1] && s[b] == order[b - 1]);
        }
    }
}

/// The order in which the discovered handles, given by their names, are
/// considered: every index once, sorted by name, handles with equal names
/// kept in discovery order.
pub fn discovery_order(names: &Vec<String>) -> (order: Vec<usize>)
    ensures
        is_index_permutation(order@, names@.len()),
        sorted_by_name(names@, order@),
{
    let n = names.len();
    let mut order: Vec<usize> = Vec::new();
    let mut k: usize = 0;
    while k < n
        invariant
            k <= n == names@.len(),
            order@.len() == k,
            forall|i: int| 0 <= i < order@.len() ==> #[trigger] order@[i] < k,
            forall|i: int, j: int| 0 <= i < j < order@.len() ==> order@[i] != order@[j],
            sorted_by_name(names@, order@),
        decreases n - k,
    {
        let mut j: usize = order.len();
        while j > 0 && name_less(names[k].as_str(), names[order[j - 1]].as_str())
            invariant
                k < n == names@.len(),
                j <= order@.len() == k,
                forall|i: int| 0 <= i < order@.len() ==> #[trigger] order@[i] < k,
                forall|m: int|
                    j <= m < order@.len() ==> name_lt(
                        names@[k as int]@,
                        names@[#[trigger] order@[m] as int]@,
                    ),
            decreases j,
        {
            j = j - 1;
        }
        proof {
            if j > 0 {
                let p = order@[j - 1];
                lemma_name_lt_total(names@[k as int]@, names@[p as int]@);
            }
            lemma_insert_keeps_sorted(names@, order@, j as int, k);
        }
        let ghost prev = order@;
        order.insert(j, k);
        proof {
            assert forall|i: int, m: int| 0 <= i < m < order@.len() implies order@[i] != order@[m] by {
                if i == j {
                    assert(order@[m] == prev[m - 1]);
                } else if m == j {
                    assert(order@[i] == prev[i]);
                } else {
                    let oi = if i < j { i } else { i - 1 };
                    let om = if m < j { m } else { m - 1 };
                    assert(order@[i] == prev[oi] && order@[m] == prev[om]);
                }
            }
            assert forall|i: int| 0 <= i < order@.len() implies #[trigger] order@[i] < k + 1 by {
                if i < j {
                    assert(order@[i] == prev[i]);
                } else if i > j {
                    assert(order@[i] == prev[i - 1]);
                }
            }
        }
        k = k + 1;
    }
    order
}

} // verus!
