//! The catalog of task packs: packs found on disk, in the order they were
//! found, then the built-in ones; the first pack of each id is kept, and
//! the catalog is listed by id.
use vstd::prelude::*;
use crate::builtin_packs::{built_in_ids, built_in_packs};
use crate::order::{chars_lt, compare_chars, lemma_chars_lt_total, lemma_chars_lt_trans, Order3};
use crate::task_pack::{validate_spec, TaskPack};
use crate::text::{chars_of, str_eq};

verus! {

pub open spec fn ids_of(v: Seq<TaskPack>) -> Seq<Seq<char>> {
    v.map_values(|p: TaskPack| p.manifest.id@)
}

/// The packs with the first pack of each id kept, in order.
pub open spec fn first_per_id(v: Seq<TaskPack>) -> Seq<TaskPack>
    decreases v.len(),
{
    if v.len() == 0 {
        seq![]
    } else {
        let t = first_per_id(v.drop_last());
        if ids_of(t).contains(v.last().manifest.id@) {
            t
        } else {
            t.push(v.last())
        }
    }
}

/// Where `x` goes in `s[i..]`: before the first pack whose id it precedes.
pub open spec fn pack_pos(s: Seq<TaskPack>, x: TaskPack, i: int) -> int
    decreases s.len() - i,
{
    if i < 0 || i >= s.len() {
        s.len() as int
    } else if chars_lt(x.manifest.id@, s[i].manifest.id@) {
        i
    } else {
        pack_pos(s, x, i + 1)
    }
}

/// The packs by id (insertion sort; equal ids keep their order).
pub open spec fn sort_by_id(s: Seq<TaskPack>) -> Seq<TaskPack>
    decreases s.len(),
{
    if s.len() == 0 {
        seq![]
    } else {
        let t = sort_by_id(s.drop_last());
        t.insert(pack_pos(t, s.last(), 0), s.last())
    }
}

/// The catalog of `loaded` packs followed by `builtins`.
pub open spec fn catalog_spec(loaded: Seq<TaskPack>, builtins: Seq<TaskPack>) -> Seq<TaskPack> {
    sort_by_id(first_per_id(loaded + builtins))
}

proof fn lemma_pack_pos_range(s: Seq<TaskPack>, x: TaskPack, i: int)
    requires
        0 <= i <= s.len(),
    ensures
        i <= pack_pos(s, x, i) <= s.len(),
    decreases s.len() - i,
{
    if i < s.len() && !chars_lt(x.manifest.id@, s[i].manifest.id@) {
        lemma_pack_pos_range(s, x, i + 1);
    }
}

proof fn lemma_pack_pos_before(s: Seq<TaskPack>, x: TaskPack, i: int, k: int)
    requires
        0 <= i <= k < pack_pos(s, x, i),
        pack_pos(s, x, i) <= s.len(),
    ensures
        !chars_lt(x.manifest.id@, s[k].manifest.id@),
    decreases s.len() - i,
{
    if i < k {
        lemma_pack_pos_before(s, x, i + 1, k);
    }
}

proof fn lemma_pack_pos_at(s: Seq<TaskPack>, x: TaskPack, i: int)
    requires
        0 <= i <= s.len(),
        pack_pos(s, x, i) < s.len(),
    ensures
        chars_lt(x.manifest.id@, s[pack_pos(s, x, i)].manifest.id@),
    decreases s.len() - i,
{
    if i < s.len() && !chars_lt(x.manifest.id@, s[i].manifest.id@) {
        lemma_pack_pos_at(s, x, i + 1);
    }
}

/// The kept packs come from the input, carry distinct ids, and cover
/// every id of the input.
proof fn lemma_first_per_id(v: Seq<TaskPack>)
    ensures
        forall|i: int, j: int|
            0 <= i < j < first_per_id(v).len() ==> (#[trigger] first_per_id(v)[i]).manifest.id@ != (
            #[trigger] first_per_id(v)[j]).manifest.id@,
        forall|k: int| 0 <= k < first_per_id(v).len() ==> v.contains(#[trigger] first_per_id(v)[k]),
        forall|m: int| 0 <= m < v.len() ==> ids_of(first_per_id(v)).contains(#[trigger] v[m].manifest.id@),
        first_per_id(v).len() <= v.len(),
    decreases v.len(),
{
    if v.len() > 0 {
        let w = v.drop_last();
        let t = first_per_id(w);
        let x = v.last();
        lemma_first_per_id(w);
        assert forall|k: int| 0 <= k < first_per_id(v).len() implies v.contains(#[trigger] first_per_id(v)[k]) by {
            if k < t.len() {
                let m = choose|m: int| 0 <= m < w.len() && w[m] == t[k];
                assert(v[m] == t[k]);
            } else {
                assert(v[v.len() - 1] == x);
            }
        }
        assert forall|m: int| 0 <= m < v.len() implies ids_of(first_per_id(v)).contains(#[trigger] v[m].manifest.id@) by {
            if m < w.len() {
                assert(v[m] == w[m]);
                let k = choose|k: int| 0 <= k < ids_of(t).len() && ids_of(t)[k] == w[m].manifest.id@;
                if !ids_of(t).contains(x.manifest.id@) {
                    assert(ids_of(t.push(x))[k] == ids_of(t)[k]);
                }
            } else {
                if !ids_of(t).contains(x.manifest.id@) {
                    assert(ids_of(t.push(x))[t.len() as int] == x.manifest.id@);
                }
            }
        }
        if !ids_of(t).contains(x.manifest.id@) {
            assert forall|i: int, j: int|
                0 <= i < j < first_per_id(v).len() implies (#[trigger] first_per_id(v)[i]).manifest.id@ != (
                #[trigger] first_per_id(v)[j]).manifest.id@ by {
                if j == t.len() {
                    assert(ids_of(t)[i] == t[i].manifest.id@);
                }
            }
        }
    }
}

/// Sorting keeps the packs (none lost, none added) and their number.
proof fn lemma_sort_members(s: Seq<TaskPack>)
    ensures
        sort_by_id(s).len() == s.len(),
        forall|k: int| 0 <= k < sort_by_id(s).len() ==> s.contains(#[trigger] sort_by_id(s)[k]),
        forall|m: int| 0 <= m < s.len() ==> sort_by_id(s).contains(#[trigger] s[m]),
    decreases s.len(),
{
    if s.len() > 0 {
        let w = s.drop_last();
        let t = sort_by_id(w);
        let x = s.last();
        lemma_sort_members(w);
        lemma_pack_pos_range(t, x, 0);
        let p = pack_pos(t, x, 0);
        let r = t.insert(p, x);
        assert forall|k: int| 0 <= k < r.len() implies s.contains(#[trigger] r[k]) by {
            if k < p {
                let m = choose|m: int| 0 <= m < w.len() && w[m] == t[k];
                assert(s[m] == r[k]);
            } else if k == p {
                assert(s[s.len() - 1] == r[k]);
            } else {
                let m = choose|m: int| 0 <= m < w.len() && w[m] == t[k - 1];
                assert(s[m] == r[k]);
            }
        }
        assert forall|m: int| 0 <= m < s.len() implies r.contains(#[trigger] s[m]) by {
            if m < w.len() {
                assert(w[m] == s[m]);
                let k = choose|k: int| 0 <= k < t.len() && t[k] == w[m];
                if k < p {
                    assert(r[k] == s[m]);
                } else {
                    assert(r[k + 1] == s[m]);
                }
            } else {
                assert(r[p] == s[m]);
            }
        }
    }
}

pub open spec fn ids_distinct(s: Seq<TaskPack>) -> bool {
    forall|i: int, j: int| 0 <= i < j < s.len() ==> (#[trigger] s[i]).manifest.id@ != (#[trigger] s[j]).manifest.id@
}

pub open spec fn ids_ascending(s: Seq<TaskPack>) -> bool {
    forall|i: int, j: int|
        0 <= i < j < s.len() ==> chars_lt((#[trigger] s[i]).manifest.id@, (#[trigger] s[j]).manifest.id@)
}

/// Packs with distinct ids come out strictly ascending by id.
proof fn lemma_sort_ascending(s: Seq<TaskPack>)
    requires
        ids_distinct(s),
    ensures
        ids_ascending(sort_by_id(s)),
    decreases s.len(),
{
    if s.len() > 0 {
        let w = s.drop_last();
        let t = sort_by_id(w);
        let x = s.last();
        assert(ids_distinct(w));
        lemma_sort_ascending(w);
        lemma_sort_members(w);
        lemma_pack_pos_range(t, x, 0);
        let p = pack_pos(t, x, 0);
        let r = t.insert(p, x);
        if p < t.len() {
            lemma_pack_pos_at(t, x, 0);
        }
        assert forall|k: int| 0 <= k < t.len() implies (#[trigger] t[k]).manifest.id@ != x.manifest.id@ by {
            let m = choose|m: int| 0 <= m < w.len() && w[m] == t[k];
            assert(s[m] == t[k]);
            assert(s[s.len() - 1] == x);
        }
        assert forall|i: int, j: int| 0 <= i < j < r.len() implies chars_lt(
            (#[trigger] r[i]).manifest.id@,
            (#[trigger] r[j]).manifest.id@,
        ) by {
            if j < p {
                assert(r[i] == t[i] && r[j] == t[j]);
            } else if j == p {
                assert(r[i] == t[i]);
                lemma_pack_pos_before(t, x, 0, i);
                lemma_chars_lt_total(x.manifest.id@, t[i].manifest.id@);
            } else if i < p {
                assert(r[i] == t[i] && r[j] == t[j - 1]);
            } else if i == p {
                assert(r[j] == t[j - 1]);
                if j - 1 > p {
                    lemma_chars_lt_trans(x.manifest.id@, t[p].manifest.id@, t[j - 1].manifest.id@);
                }
            } else {
                assert(r[i] == t[i - 1] && r[j] == t[j - 1]);
            }
        }
    }
}

fn has_id(v: &Vec<TaskPack>, id: &String) -> (r: bool)
    ensures
        r == ids_of(v@).contains(id@),
{
    let mut i: usize = 0;
    while i < v.len()
        invariant
            i <= v@.len(),
            forall|k: int| 0 <= k < i ==> v@[k].manifest.id@ != id@,
        decreases v.len() - i,
    {
        if str_eq(v[i].manifest.id.as_str(), id.as_str()) {
            assert(ids_of(v@)[i as int] == id@);
            return true;
        }
        i += 1;
    }
    assert forall|k: int| 0 <= k < ids_of(v@).len() implies ids_of(v@)[k] != id@ by {
        assert(ids_of(v@)[k] == v@[k].manifest.id@);
    }
    false
}

fn id_before(a: &String, b: &String) -> (r: bool)
    ensures
        r == chars_lt(a@, b@),
{
    let x = chars_of(a.as_str());
    let y = chars_of(b.as_str());
    match compare_chars(x.as_slice(), y.as_slice()) {
        Order3::Less => true,
        _ => false,
    }
}

/// The catalog of the packs found on disk (`loaded`, in the order found)
/// and of `builtins`: the first pack of each id, listed by id.
pub fn merge_pack_lists(loaded: Vec<TaskPack>, builtins: Vec<TaskPack>) -> (r: Vec<TaskPack>)
    ensures
        r@ == catalog_spec(loaded@, builtins@),
{
    let ghost all0 = loaded@ + builtins@;
    let mut all = loaded;
    let mut rest = builtins;
    while rest.len() > 0
        invariant
            all@ + rest@ == all0,
        decreases rest.len(),
    {
        let ghost before = all@ + rest@;
        let x = rest.remove(0);
        all.push(x);
        assert(all@ + rest@ =~= before);
    }
    assert(all@ =~= all0);
    let mut kept: Vec<TaskPack> = Vec::new();
    let ghost mut i: int = 0;
    while all.len() > 0
        invariant
            0 <= i <= all0.len(),
            all@ == all0.skip(i),
            kept@ == first_per_id(all0.take(i)),
        decreases all.len(),
    {
        let x = all.remove(0);
        proof {
            assert(all0.take(i + 1).drop_last() =~= all0.take(i));
            assert(all0.take(i + 1).last() == x);
            assert(all@ =~= all0.skip(i + 1));
        }
        if !has_id(&kept, &x.manifest.id) {
            kept.push(x);
        }
        proof {
            i = i + 1;
        }
    }
    assert(all0.take(i) =~= all0);
    let ghost dd = kept@;
    let mut out: Vec<TaskPack> = Vec::new();
    let ghost mut j: int = 0;
    while kept.len() > 0
        invariant
            0 <= j <= dd.len(),
            kept@ == dd.skip(j),
            out@ == sort_by_id(dd.take(j)),
            out@.len() == j,
        decreases kept.len(),
    {
        let x = kept.remove(0);
        let ghost t = out@;
        proof {
            assert(dd.take(j + 1).drop_last() =~= dd.take(j));
            assert(dd.take(j + 1).last() == x);
            assert(kept@ =~= dd.skip(j + 1));
        }
        let mut p: usize = 0;
        while p < out.len() && !id_before(&x.manifest.id, &out[p].manifest.id)
            invariant
                p <= out@.len(),
                t == out@,
                pack_pos(t, x, 0) == pack_pos(t, x, p as int),
            decreases out.len() - p,
        {
            p += 1;
        }
        proof {
            lemma_pack_pos_range(t, x, 0);
        }
        out.insert(p, x);
        proof {
            j = j + 1;
        }
    }
    assert(dd.take(j) =~= dd);
    out
}

/// The catalog of task packs: those found on disk (`loaded`, in the order
/// found) and the built-in ones, the first of each id kept, listed by id.
pub fn list_task_packs(loaded: Vec<TaskPack>) -> (r: Vec<TaskPack>)
    ensures
        exists|b: Seq<TaskPack>|
            {
                &&& b.len() == 4
                &&& ids_of(b) == built_in_ids()
                &&& forall|i: int| 0 <= i < 4 ==> validate_spec(#[trigger] b[i]) is Ok && b[i].source is BuiltIn
                &&& r@ == catalog_spec(loaded@, b)
            },
{
    let b = built_in_packs();
    let ghost bs = b@;
    assert(ids_of(bs) =~= built_in_ids());
    merge_pack_lists(loaded, b)
}

/// Every catalog is listed strictly by id (so no id twice), holds only
/// packs it was given, and holds a pack of every id it was given.
pub proof fn law_catalog_sorted_and_complete(loaded: Seq<TaskPack>, builtins: Seq<TaskPack>)
    ensures
        ids_ascending(catalog_spec(loaded, builtins)),
        forall|k: int|
            0 <= k < catalog_spec(loaded, builtins).len() ==> (loaded + builtins).contains(
                #[trigger] catalog_spec(loaded, builtins)[k],
            ),
        forall|m: int|
            0 <= m < (loaded + builtins).len() ==> ids_of(catalog_spec(loaded, builtins)).contains(
                #[trigger] (loaded + builtins)[m].manifest.id@,
            ),
{
    let v = loaded + builtins;
    let f = first_per_id(v);
    lemma_first_per_id(v);
    lemma_sort_members(f);
    assert(ids_distinct(f));
    lemma_sort_ascending(f);
    let c = sort_by_id(f);
    assert forall|k: int| 0 <= k < c.len() implies v.contains(#[trigger] c[k]) by {
        let m = choose|m: int| 0 <= m < f.len() && f[m] == c[k];
        assert(v.contains(f[m]));
    }
    assert forall|m: int| 0 <= m < v.len() implies ids_of(c).contains(#[trigger] v[m].manifest.id@) by {
        let k = choose|k: int| 0 <= k < ids_of(f).len() && ids_of(f)[k] == v[m].manifest.id@;
        assert(c.contains(f[k]));
        let q = choose|q: int| 0 <= q < c.len() && c[q] == f[k];
        assert(ids_of(c)[q] == v[m].manifest.id@);
    }
}

} // verus!
