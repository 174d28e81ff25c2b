//! The agent transcript a terminal view keeps: one rendered line per agent,
//! replaced as the agent speaks again, and the most recent lines in order.
use vstd::prelude::*;
use crate::report::strs;
use crate::text::str_eq;

verus! {

/// An agent's latest rendered exchange and its sequence number.
#[derive(Clone, Debug)]
pub struct TranscriptEntry {
    pub id: String,
    pub rendered: String,
    pub seq: u64,
}

pub type EntryModel = (Seq<char>, Seq<char>, u64);

pub open spec fn entry_models(v: Seq<TranscriptEntry>) -> Seq<EntryModel> {
    v.map_values(|e: TranscriptEntry| (e.id@, e.rendered@, e.seq))
}

pub open spec fn entry_pos(es: Seq<EntryModel>, id: Seq<char>, i: int) -> Option<int>
    decreases es.len() - i,
{
    if i < 0 || i >= es.len() {
        None
    } else if es[i].0 == id {
        Some(i)
    } else {
        entry_pos(es, id, i + 1)
    }
}

pub open spec fn upsert_spec(es: Seq<EntryModel>, id: Seq<char>, rendered: Seq<char>, seq: u64) -> Seq<EntryModel> {
    match entry_pos(es, id, 0) {
        Some(k) => es.update(k, (es[k].0, rendered, seq)),
        None => es.push((id, rendered, seq)),
    }
}

/// The agent ids of the entries.
pub open spec fn entry_ids(es: Seq<EntryModel>) -> Seq<Seq<char>> {
    es.map_values(|e: EntryModel| e.0)
}

proof fn lemma_entry_pos(es: Seq<EntryModel>, id: Seq<char>, i: int)
    requires
        0 <= i <= es.len(),
    ensures
        match entry_pos(es, id, i) {
            Some(k) => i <= k < es.len() && es[k].0 == id,
            None => forall|k: int| i <= k < es.len() ==> es[k].0 != id,
        },
    decreases es.len() - i,
{
    if i < es.len() && es[i].0 != id {
        lemma_entry_pos(es, id, i + 1);
    }
}

/// Recording lines keeps one entry per agent: when no id occurs twice
/// before, none occurs twice after, and the agent's entry then holds the
/// new line.
pub proof fn law_upsert_keeps_ids_distinct(es: Seq<EntryModel>, id: Seq<char>, rendered: Seq<char>, seq: u64)
    requires
        entry_ids(es).no_duplicates(),
    ensures
        entry_ids(upsert_spec(es, id, rendered, seq)).no_duplicates(),
        entry_ids(upsert_spec(es, id, rendered, seq)).contains(id),
        exists|k: int| 0 <= k < upsert_spec(es, id, rendered, seq).len() && #[trigger] upsert_spec(es, id, rendered, seq)[k]
            == (id, rendered, seq),
{
    lemma_entry_pos(es, id, 0);
    let r = upsert_spec(es, id, rendered, seq);
    match entry_pos(es, id, 0) {
        Some(k) => {
            assert(entry_ids(r) =~= entry_ids(es));
            assert(entry_ids(r)[k] == id);
            assert(r[k] == (id, rendered, seq));
        },
        None => {
            assert(entry_ids(r) =~= entry_ids(es).push(id));
            assert forall|a: int, b: int| 0 <= a < b < entry_ids(r).len() implies entry_ids(r)[a] != entry_ids(r)[b] by {
                if b == es.len() {
                    assert(es[a].0 != id);
                } else {
                    assert(entry_ids(es)[a] != entry_ids(es)[b]);
                }
            }
            assert(entry_ids(r)[es.len() as int] == id);
            assert(r[es.len() as int] == (id, rendered, seq));
        },
    }
}

/// Records an agent's latest line: its entry is replaced, or added.
pub fn upsert_transcript_entry(entries: &mut Vec<TranscriptEntry>, id: &str, rendered: String, seq: u64)
    ensures
        entry_models(final(entries)@) == upsert_spec(entry_models(old(entries)@), id@, rendered@, seq),
{
    let ghost em = entry_models(entries@);
    let mut i: usize = 0;
    while i < entries.len()
        invariant_except_break
            entry_pos(em, id@, 0) == entry_pos(em, id@, i as int),
        invariant
            i <= entries@.len(),
            em == entry_models(entries@),
        ensures
            i < entries@.len() ==> entry_pos(em, id@, 0) == Some(i as int),
            i >= entries@.len() ==> entry_pos(em, id@, 0) is None,
            em == entry_models(entries@),
        decreases entries.len() - i,
    {
        if str_eq(entries[i].id.as_str(), id) {
            assert(em[i as int].0 == id@);
            break;
        }
        i += 1;
    }
    if i < entries.len() {
        let eid = entries[i].id.clone();
        entries.set(i, TranscriptEntry { id: eid, rendered, seq });
        assert(entry_models(entries@) =~= em.update(i as int, (em[i as int].0, rendered@, seq)));
    } else {
        entries.push(TranscriptEntry { id: id.to_owned(), rendered, seq });
        assert(entry_models(entries@) =~= em.push((id@, rendered@, seq)));
    }
}

/// `x` sorts before `y`: by sequence number, descending or ascending.
pub open spec fn seq_before(x: EntryModel, y: EntryModel, desc: bool) -> bool {
    if desc {
        x.2 > y.2
    } else {
        x.2 < y.2
    }
}

pub open spec fn seq_ins_pos(s: Seq<EntryModel>, x: EntryModel, desc: bool, i: int) -> int
    decreases s.len() - i,
{
    if i < 0 || i >= s.len() {
        s.len() as int
    } else if seq_before(x, s[i], desc) {
        i
    } else {
        seq_ins_pos(s, x, desc, i + 1)
    }
}

/// The entries by sequence number, equal numbers in input order.
pub open spec fn sort_entries_spec(s: Seq<EntryModel>, desc: bool) -> Seq<EntryModel>
    decreases s.len(),
{
    if s.len() == 0 {
        seq![]
    } else {
        let t = sort_entries_spec(s.drop_last(), desc);
        t.insert(seq_ins_pos(t, s.last(), desc, 0), s.last())
    }
}

proof fn lemma_seq_ins_pos_range(s: Seq<EntryModel>, x: EntryModel, desc: bool, i: int)
    requires
        0 <= i <= s.len(),
    ensures
        i <= seq_ins_pos(s, x, desc, i) <= s.len(),
    decreases s.len() - i,
{
    if i < s.len() && !seq_before(x, s[i], desc) {
        lemma_seq_ins_pos_range(s, x, desc, i + 1);
    }
}

proof fn lemma_sort_entries_len(s: Seq<EntryModel>, desc: bool)
    ensures
        sort_entries_spec(s, desc).len() == s.len(),
    decreases s.len(),
{
    if s.len() > 0 {
        lemma_sort_entries_len(s.drop_last(), desc);
        lemma_seq_ins_pos_range(sort_entries_spec(s.drop_last(), desc), s.last(), desc, 0);
    }
}

fn seq_before_exec(x: u64, y: u64, desc: bool) -> (r: bool)
    ensures
        r == if desc {
            x > y
        } else {
            x < y
        },
{
    if desc {
        x > y
    } else {
        x < y
    }
}

fn sort_entries(v: &Vec<TranscriptEntry>, desc: bool) -> (r: Vec<TranscriptEntry>)
    ensures
        entry_models(r@) == sort_entries_spec(entry_models(v@), desc),
{
    let ghost orig = entry_models(v@);
    let mut out: Vec<TranscriptEntry> = Vec::new();
    let mut i: usize = 0;
    while i < v.len()
        invariant
            i <= v@.len(),
            orig == entry_models(v@),
            entry_models(out@) == sort_entries_spec(orig.take(i as int), desc),
        decreases v.len() - i,
    {
        let ghost t = entry_models(out@);
        assert(orig.take(i + 1).drop_last() =~= orig.take(i as int));
        assert(orig.take(i + 1).last() == orig[i as int]);
        let x = &v[i];
        let mut p: usize = 0;
        while p < out.len() && !seq_before_exec(x.seq, out[p].seq, desc)
            invariant
                p <= out@.len(),
                t == entry_models(out@),
                i < v@.len(),
                orig == entry_models(v@),
                *x == v@[i as int],
                seq_ins_pos(t, orig[i as int], desc, 0) == seq_ins_pos(t, orig[i as int], desc, p as int),
            decreases out.len() - p,
        {
            assert(t[p as int] == (out@[p as int].id@, out@[p as int].rendered@, out@[p as int].seq));
            p += 1;
        }
        proof {
            if p < out@.len() {
                assert(t[p as int] == (out@[p as int].id@, out@[p as int].rendered@, out@[p as int].seq));
            }
            lemma_seq_ins_pos_range(t, orig[i as int], desc, 0);
        }
        out.insert(p, TranscriptEntry { id: x.id.clone(), rendered: x.rendered.clone(), seq: x.seq });
        assert(entry_models(out@) =~= t.insert(p as int, orig[i as int]));
        i += 1;
    }
    assert(orig.take(orig.len() as int) =~= orig);
    out
}

pub open spec fn latest_spec(es: Seq<EntryModel>, limit: usize) -> Seq<Seq<char>> {
    let newest = sort_entries_spec(es, true);
    let kept = if newest.len() > limit {
        newest.take(limit as int)
    } else {
        newest
    };
    sort_entries_spec(kept, false).map_values(|e: EntryModel| e.1)
}

/// The `limit` most recent lines (by sequence number), oldest first.
pub fn latest_transcript_lines(entries: &Vec<TranscriptEntry>, limit: usize) -> (r: Vec<String>)
    ensures
        strs(r@) == latest_spec(entry_models(entries@), limit),
{
    let newest = sort_entries(entries, true);
    proof {
        lemma_sort_entries_len(entry_models(entries@), true);
    }
    let ghost nm = entry_models(newest@);
    let mut kept: Vec<TranscriptEntry> = Vec::new();
    let mut i: usize = 0;
    while i < newest.len() && i < limit
        invariant
            i <= newest@.len(),
            i <= limit,
            nm == entry_models(newest@),
            entry_models(kept@) == nm.take(i as int),
        decreases newest.len() - i,
    {
        let e = &newest[i];
        let ghost before = entry_models(kept@);
        kept.push(TranscriptEntry { id: e.id.clone(), rendered: e.rendered.clone(), seq: e.seq });
        assert(nm[i as int] == (e.id@, e.rendered@, e.seq));
        assert(entry_models(kept@) =~= before.push(nm[i as int]));
        assert(nm.take(i + 1) =~= nm.take(i as int).push(nm[i as int]));
        i += 1;
    }
    assert(nm.len() <= limit ==> nm.take(i as int) =~= nm);
    let ordered = sort_entries(&kept, false);
    let ghost om = entry_models(ordered@);
    let mut out: Vec<String> = Vec::new();
    let mut k: usize = 0;
    while k < ordered.len()
        invariant
            k <= ordered@.len(),
            om == entry_models(ordered@),
            strs(out@) == om.take(k as int).map_values(|e: EntryModel| e.1),
        decreases ordered.len() - k,
    {
        let ghost before = strs(out@);
        let line = ordered[k].rendered.clone();
        assert(om[k as int].1 == line@);
        out.push(line);
        assert(strs(out@) =~= before.push(om[k as int].1));
        assert(om.take(k + 1).map_values(|e: EntryModel| e.1) =~= om.take(k as int).map_values(|e: EntryModel| e.1).push(om[k as int].1));
        k += 1;
    }
    assert(om.take(om.len() as int) =~= om);
    out
}

} // verus!
