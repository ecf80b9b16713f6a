//! The resource and asset lists of the inspector, ordered by type name.
use vstd::prelude::*;

verus! {

/// A registered type shown in a list: its short name and its type id.
#[derive(Debug)]
pub struct TypeEntry {
    pub name: String,
    pub type_id: u64,
}

/// Lexicographic order of names by character code, which is the order of
/// their UTF-8 bytes.
pub open spec fn name_le(a: Seq<char>, b: Seq<char>) -> bool
    decreases a.len(),
{
    if a.len() == 0 {
        true
    } else if b.len() == 0 {
        false
    } else if (a[0] as u32) != (b[0] as u32) {
        (a[0] as u32) < (b[0] as u32)
    } else {
        name_le(a.subrange(1, a.len() as int), b.subrange(1, b.len() as int))
    }
}

proof fn lemma_name_le_total(a: Seq<char>, b: Seq<char>)
    ensures
        name_le(a, b) || name_le(b, a),
    decreases a.len(),
{
    if a.len() > 0 && b.len() > 0 && (a[0] as u32) == (b[0] as u32) {
        lemma_name_le_total(a.subrange(1, a.len() as int), b.subrange(1, b.len() as int));
    }
}

proof fn lemma_name_le_trans(a: Seq<char>, b: Seq<char>, c: Seq<char>)
    requires
        name_le(a, b),
        name_le(b, c),
    ensures
        name_le(a, c),
    decreases a.len(),
{
    if a.len() > 0 && b.len() > 0 && c.len() > 0 && (a[0] as u32) == (b[0] as u32) && (b[0] as u32) == (
        c[0] as u32) {
        lemma_name_le_trans(
            a.subrange(1, a.len() as int),
            b.subrange(1, b.len() as int),
            c.subrange(1, c.len() as int),
        );
    }
}

proof fn lemma_name_le_refl(a: Seq<char>)
    ensures
        name_le(a, a),
    decreases a.len(),
{
    if a.len() > 0 {
        lemma_name_le_refl(a.subrange(1, a.len() as int));
    }
}

/// The entries named `n`, in order.
pub open spec fn named(v: Seq<TypeEntry>, n: Seq<char>) -> Seq<TypeEntry>
    decreases v.len(),
{
    if v.len() == 0 {
        seq![]
    } else if v.last().name@ == n {
        named(v.drop_last(), n).push(v.last())
    } else {
        named(v.drop_last(), n)
    }
}

proof fn lemma_named_insert(s: Seq<TypeEntry>, p: int, x: TypeEntry, n: Seq<char>)
    requires
        0 <= p <= s.len(),
        forall|k: int| p <= k < s.len() ==> #[trigger] s[k].name@ != x.name@,
    ensures
        named(s.insert(p, x), n) == if x.name@ == n {
            named(s, n).push(x)
        } else {
            named(s, n)
        },
    decreases s.len(),
{
    let t = s.insert(p, x);
    if p == s.len() {
        assert(t.drop_last() =~= s);
        assert(t.last() == x);
    } else {
        let d = s.drop_last();
        assert(t.drop_last() =~= d.insert(p, x));
        assert(t.last() == s.last());
        assert forall|k: int| p <= k < d.len() implies #[trigger] d[k].name@ != x.name@ by {
            assert(d[k] == s[k]);
        }
        lemma_named_insert(d, p, x, n);
        assert(s.last().name@ != x.name@);
    }
}

/// Whether `a` comes no later than `b`.
pub fn name_le_exec(a: &str, b: &str) -> (r: bool)
    ensures
        r == name_le(a@, b@),
{
    let n = a.unicode_len();
    let m = b.unicode_len();
    let mut i: usize = 0;
    proof {
        assert(a@.subrange(0, a@.len() as int) =~= a@);
        assert(b@.subrange(0, b@.len() as int) =~= b@);
    }
    while i < n && i < m
        invariant
            n == a@.len(),
            m == b@.len(),
            i <= n,
            i <= m,
            name_le(a@, b@) == name_le(a@.subrange(i as int, n as int), b@.subrange(i as int, m as int)),
        decreases n - i,
    {
        let x = a.get_char(i);
        let y = b.get_char(i);
        let ghost sa = a@.subrange(i as int, n as int);
        let ghost sb = b@.subrange(i as int, m as int);
        proof {
            assert(sa[0] == x);
            assert(sb[0] == y);
        }
        if (x as u32) != (y as u32) {
            return (x as u32) < (y as u32);
        }
        proof {
            assert(sa.subrange(1, sa.len() as int) =~= a@.subrange(i + 1, n as int));
            assert(sb.subrange(1, sb.len() as int) =~= b@.subrange(i + 1, m as int));
        }
        i += 1;
    }
    i == n
}

/// Whether the entries are in name order.
pub open spec fn sorted_by_name(v: Seq<TypeEntry>) -> bool {
    forall|i: int, j: int| 0 <= i < j < v.len() ==> name_le(#[trigger] v[i].name@, #[trigger] v[j].name@)
}

fn copy_entry(e: &TypeEntry) -> (r: TypeEntry)
    ensures
        r == *e,
{
    TypeEntry { name: e.name.clone(), type_id: e.type_id }
}

/// The entries ordered by name; entries with equal names keep their order.
pub fn sort_by_name(entries: &Vec<TypeEntry>) -> (r: Vec<TypeEntry>)
    ensures
        sorted_by_name(r@),
        r@.to_multiset() == entries@.to_multiset(),
        forall|n: Seq<char>| #[trigger] named(r@, n) == named(entries@, n),
{
    broadcast use vstd::seq_lib::group_to_multiset_ensures;
    broadcast use vstd::seq_lib::to_multiset_insert;

    let mut out: Vec<TypeEntry> = Vec::new();
    let mut i: usize = 0;
    while i < entries.len()
        invariant
            i <= entries@.len(),
            sorted_by_name(out@),
            out@.to_multiset() == entries@.take(i as int).to_multiset(),
            forall|n: Seq<char>| #[trigger] named(out@, n) == named(entries@.take(i as int), n),
        decreases entries.len() - i,
    {
        let x = copy_entry(&entries[i]);
        let mut p: usize = 0;
        while p < out.len() && name_le_exec(out[p].name.as_str(), x.name.as_str())
            invariant
                p <= out@.len(),
                forall|k: int| 0 <= k < p ==> name_le(#[trigger] out@[k].name@, x.name@),
            decreases out@.len() - p,
        {
            p += 1;
        }
        let ghost before = out@;
        proof {
            if p < before.len() {
                lemma_name_le_total(before[p as int].name@, x.name@);
            }
        }
        out.insert(p, x);
        proof {
            assert(out@ == before.insert(p as int, x));
            assert forall|a: int, b: int| 0 <= a < b < out@.len() implies name_le(
                #[trigger] out@[a].name@,
                #[trigger] out@[b].name@,
            ) by {
                if a < p && b == p {
                } else if a < p && b > p {
                    assert(out@[b] == before[b - 1]);
                } else if a == p {
                    assert(out@[b] == before[b - 1]);
                    if b - 1 > p {
                        lemma_name_le_trans(x.name@, before[p as int].name@, before[b - 1].name@);
                    }
                } else if a < p {
                } else {
                    assert(out@[a] == before[a - 1]);
                    assert(out@[b] == before[b - 1]);
                }
            }
            assert(entries@.take(i + 1) =~= entries@.take(i as int).push(entries@[i as int]));
            vstd::seq_lib::to_multiset_insert(before, p as int, x);
            entries@.take(i as int).to_multiset_ensures();
            assert(x == entries@[i as int]);
            assert forall|k: int| p <= k < before.len() implies #[trigger] before[k].name@ != x.name@ by {
                if before[k].name@ == x.name@ {
                    if k == p {
                        lemma_name_le_refl(x.name@);
                    } else {
                        assert(name_le(before[p as int].name@, before[k].name@));
                    }
                }
            }
            let t = entries@.take(i + 1);
            assert(t.drop_last() =~= entries@.take(i as int));
            assert(t.last() == x);
            assert forall|n: Seq<char>| #[trigger] named(out@, n) == named(t, n) by {
                lemma_named_insert(before, p as int, x, n);
            }
        }
        i += 1;
    }
    proof {
        assert(entries@.take(entries@.len() as int) =~= entries@);
    }
    out
}

} // verus!
