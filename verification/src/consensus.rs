//! Consensus on generic task packs: items agents raise are grouped by kind,
//! title and message, agreement is counted per group, and the groups below
//! the quorum are reported as unresolved.
use vstd::prelude::*;
use crate::order::{chars_lt, compare_chars, Order3};
use crate::report::{clone_strs, strs, Confidence};
use crate::task_pack::{AttachmentKind, TaskPack};
use crate::text::{
    chars_of, decimal, join, join_with, push_str, push_string, seqs, spec_lowercase, str_eq,
    string_of, to_lowercase, words, words_of,
};
use crate::tracker::{sort_seqs, sort_strings};

verus! {

/// A request to run a task pack on a prompt and attachments.
#[derive(Clone, Debug)]
pub struct ConsensusTaskRequest {
    pub pack_id: String,
    pub prompt: String,
    pub attachments: Vec<TaskAttachment>,
    pub task_paths: Vec<String>,
    pub clarification_history: Vec<String>,
}

/// An attachment named by path or given inline.
#[derive(Clone, Debug)]
pub struct TaskAttachment {
    pub id: String,
    pub kind: AttachmentKind,
    pub path: Option<String>,
    pub inline: Option<String>,
}

/// An attachment with its contents read.
#[derive(Clone, Debug)]
pub struct TaskAttachmentContent {
    pub id: String,
    pub kind: AttachmentKind,
    pub path: Option<String>,
    pub content: String,
}

#[derive(Clone, Copy, Debug, PartialEq, Eq, Structural)]
pub enum ItemImportance {
    Low,
    Medium,
    High,
}

/// A quote from an attachment that supports an item.
#[derive(Clone, Debug)]
pub struct ConsensusAnchor {
    pub attachment_id: String,
    pub quote: String,
}

pub open spec fn anchor_models(v: Seq<ConsensusAnchor>) -> Seq<(Seq<char>, Seq<char>)> {
    v.map_values(|a: ConsensusAnchor| (a.attachment_id@, a.quote@))
}

pub fn clone_anchors(v: &Vec<ConsensusAnchor>) -> (r: Vec<ConsensusAnchor>)
    ensures
        anchor_models(r@) == anchor_models(v@),
{
    let mut out: Vec<ConsensusAnchor> = Vec::new();
    let mut i: usize = 0;
    while i < v.len()
        invariant
            i <= v@.len(),
            out@.len() == i,
            forall|k: int| 0 <= k < i ==> (#[trigger] out@[k]).attachment_id@ == v@[k].attachment_id@ && out@[k].quote@ == v@[k].quote@,
        decreases v.len() - i,
    {
        out.push(ConsensusAnchor { attachment_id: v[i].attachment_id.clone(), quote: v[i].quote.clone() });
        i += 1;
    }
    assert(anchor_models(out@) =~= anchor_models(v@));
    out
}

/// An item one agent raised in a round.
#[derive(Clone, Debug)]
pub struct ConsensusItem {
    pub agent: String,
    pub kind: String,
    pub importance: ItemImportance,
    pub title: String,
    pub message: String,
    pub confidence: Confidence,
    pub anchors: Vec<ConsensusAnchor>,
    pub round: u8,
    pub raised_by: Vec<String>,
}

pub struct ItemModel {
    pub agent: Seq<char>,
    pub kind: Seq<char>,
    pub importance: ItemImportance,
    pub title: Seq<char>,
    pub message: Seq<char>,
    pub confidence: Confidence,
    pub anchors: Seq<(Seq<char>, Seq<char>)>,
    pub round: u8,
    pub raised_by: Seq<Seq<char>>,
}

impl View for ConsensusItem {
    type V = ItemModel;

    open spec fn view(&self) -> ItemModel {
        ItemModel {
            agent: self.agent@,
            kind: self.kind@,
            importance: self.importance,
            title: self.title@,
            message: self.message@,
            confidence: self.confidence,
            anchors: anchor_models(self.anchors@),
            round: self.round,
            raised_by: strs(self.raised_by@),
        }
    }
}

pub open spec fn item_models(v: Seq<ConsensusItem>) -> Seq<ItemModel> {
    v.map_values(|i: ConsensusItem| i@)
}

impl ConsensusItem {
    pub fn duplicate(&self) -> (r: Self)
        ensures
            r@ == self@,
    {
        ConsensusItem {
            agent: self.agent.clone(),
            kind: self.kind.clone(),
            importance: self.importance,
            title: self.title.clone(),
            message: self.message.clone(),
            confidence: self.confidence,
            anchors: clone_anchors(&self.anchors),
            round: self.round,
            raised_by: clone_strs(&self.raised_by),
        }
    }
}

/// An item as an agent returned it, before attribution.
#[derive(Clone, Debug)]
pub struct RawConsensusItem {
    pub kind: String,
    pub importance: ItemImportance,
    pub title: String,
    pub message: String,
    pub confidence: Confidence,
    pub anchors: Vec<ConsensusAnchor>,
}

pub open spec fn importance_rank_spec(i: ItemImportance) -> u8 {
    match i {
        ItemImportance::High => 3,
        ItemImportance::Medium => 2,
        ItemImportance::Low => 1,
    }
}

pub fn importance_rank(i: &ItemImportance) -> (r: u8)
    ensures
        r == importance_rank_spec(*i),
{
    match i {
        ItemImportance::High => 3,
        ItemImportance::Medium => 2,
        ItemImportance::Low => 1,
    }
}

/// The grouping key of an item: kind, title, and message with its words
/// joined by single spaces, each lowercased, separated by colons.
pub open spec fn item_key_spec(kind: Seq<char>, title: Seq<char>, message: Seq<char>) -> Seq<char> {
    spec_lowercase(kind) + ":"@ + spec_lowercase(title) + ":"@ + spec_lowercase(join_with(words_of(message), " "@))
}

pub fn normalize_item_key(raw: &RawConsensusItem) -> (r: String)
    ensures
        r@ == item_key_spec(raw.kind@, raw.title@, raw.message@),
{
    let mut out = to_lowercase(raw.kind.as_str());
    push_str(&mut out, ":");
    let t = to_lowercase(raw.title.as_str());
    push_string(&mut out, &t);
    push_str(&mut out, ":");
    let mc = chars_of(raw.message.as_str());
    let ws = words(mc.as_slice());
    let sp = chars_of(" ");
    let j = join(&ws, sp.as_slice());
    let js = string_of(j.as_slice());
    let low = to_lowercase(js.as_str());
    push_string(&mut out, &low);
    out
}

/// The items raised about one key, each agent at most once.
#[derive(Clone, Debug)]
pub struct ItemGroup {
    pub key: String,
    pub items: Vec<ConsensusItem>,
    pub agents: Vec<String>,
}

pub struct GroupModel {
    pub key: Seq<char>,
    pub items: Seq<ItemModel>,
    pub agents: Seq<Seq<char>>,
}

impl View for ItemGroup {
    type V = GroupModel;

    open spec fn view(&self) -> GroupModel {
        GroupModel { key: self.key@, items: item_models(self.items@), agents: strs(self.agents@) }
    }
}

pub open spec fn group_models(v: Seq<ItemGroup>) -> Seq<GroupModel> {
    v.map_values(|g: ItemGroup| g@)
}

/// Groups of items, the quorum in thousandths, and the number of agents.
pub struct ItemTracker {
    groups: Vec<ItemGroup>,
    quorum_permille: u32,
    agents: usize,
}

pub struct ItemTrackerModel {
    pub groups: Seq<GroupModel>,
    pub quorum_permille: u32,
    pub agents: nat,
}

impl View for ItemTracker {
    type V = ItemTrackerModel;

    closed spec fn view(&self) -> ItemTrackerModel {
        ItemTrackerModel { groups: group_models(self.groups@), quorum_permille: self.quorum_permille, agents: self.agents as nat }
    }
}

pub open spec fn item_tracker_wf(m: ItemTrackerModel) -> bool {
    &&& m.agents >= 1
    &&& forall|i: int| 0 <= i < m.groups.len() ==> (#[trigger] m.groups[i]).items.len() >= 1
}

pub open spec fn group_pos(gs: Seq<GroupModel>, key: Seq<char>, i: int) -> Option<int>
    decreases gs.len() - i,
{
    if i < 0 || i >= gs.len() {
        None
    } else if gs[i].key == key {
        Some(i)
    } else {
        group_pos(gs, key, i + 1)
    }
}

/// The item an agent's raw item becomes in a round.
pub open spec fn item_of(raw: RawConsensusItem, round: u8, agent: Seq<char>) -> ItemModel {
    ItemModel {
        agent,
        kind: raw.kind@,
        importance: raw.importance,
        title: raw.title@,
        message: raw.message@,
        confidence: raw.confidence,
        anchors: anchor_models(raw.anchors@),
        round,
        raised_by: seq![agent],
    }
}

/// One raw item: it joins the group with its key (once per agent) or
/// starts a new group.
pub open spec fn ingest_item(m: ItemTrackerModel, raw: RawConsensusItem, round: u8, agent: Seq<char>) -> ItemTrackerModel {
    let key = item_key_spec(raw.kind@, raw.title@, raw.message@);
    let item = item_of(raw, round, agent);
    let groups = match group_pos(m.groups, key, 0) {
        Some(k) => if m.groups[k].agents.contains(agent) {
            m.groups
        } else {
            m.groups.update(k, GroupModel { key: m.groups[k].key, items: m.groups[k].items.push(item), agents: m.groups[k].agents.push(agent) })
        },
        None => m.groups.push(GroupModel { key, items: seq![item], agents: seq![agent] }),
    };
    ItemTrackerModel { groups, quorum_permille: m.quorum_permille, agents: m.agents }
}

pub open spec fn ingest_items(m: ItemTrackerModel, raws: Seq<RawConsensusItem>, round: u8, agent: Seq<char>) -> ItemTrackerModel
    decreases raws.len(),
{
    if raws.len() == 0 {
        m
    } else {
        ingest_item(ingest_items(m, raws.drop_last(), round, agent), raws.last(), round, agent)
    }
}

proof fn lemma_group_pos_found(gs: Seq<GroupModel>, key: Seq<char>, i: int)
    ensures
        group_pos(gs, key, i) matches Some(k) ==> i <= k < gs.len() && gs[k].key == key,
    decreases gs.len() - i,
{
    if 0 <= i < gs.len() && gs[i].key != key {
        lemma_group_pos_found(gs, key, i + 1);
    }
}

proof fn lemma_group_pos_same_keys(gs: Seq<GroupModel>, hs: Seq<GroupModel>, key: Seq<char>, i: int)
    requires
        gs.len() == hs.len(),
        forall|j: int| 0 <= j < gs.len() ==> (#[trigger] gs[j]).key == hs[j].key,
    ensures
        group_pos(gs, key, i) == group_pos(hs, key, i),
    decreases gs.len() - i,
{
    if 0 <= i < gs.len() {
        assert(gs[i].key == hs[i].key);
        lemma_group_pos_same_keys(gs, hs, key, i + 1);
    }
}

proof fn lemma_group_pos_push(gs: Seq<GroupModel>, g: GroupModel, key: Seq<char>, i: int)
    requires
        0 <= i <= gs.len(),
        group_pos(gs, key, i) is None,
        g.key == key,
    ensures
        group_pos(gs.push(g), key, i) == Some(gs.len() as int),
    decreases gs.len() - i,
{
    if i < gs.len() {
        assert(gs.push(g)[i] == gs[i]);
        lemma_group_pos_push(gs, g, key, i + 1);
    } else {
        assert(gs.push(g)[i] == g);
    }
}

/// An agent counts once per item: an agent raising the same item again
/// leaves the tracker as its first raising left it.
pub proof fn law_ingest_once_per_agent(m: ItemTrackerModel, raw: RawConsensusItem, round: u8, agent: Seq<char>)
    ensures
        ingest_item(ingest_item(m, raw, round, agent), raw, round, agent) == ingest_item(m, raw, round, agent),
{
    let key = item_key_spec(raw.kind@, raw.title@, raw.message@);
    let item = item_of(raw, round, agent);
    let m1 = ingest_item(m, raw, round, agent);
    lemma_group_pos_found(m.groups, key, 0);
    match group_pos(m.groups, key, 0) {
        Some(k) => {
            if !m.groups[k].agents.contains(agent) {
                let g = GroupModel { key: m.groups[k].key, items: m.groups[k].items.push(item), agents: m.groups[k].agents.push(agent) };
                assert(m1.groups == m.groups.update(k, g));
                assert forall|j: int| 0 <= j < m.groups.len() implies (#[trigger] m.groups[j]).key == m1.groups[j].key by {}
                lemma_group_pos_same_keys(m.groups, m1.groups, key, 0);
                assert(m1.groups[k].agents[m1.groups[k].agents.len() - 1] == agent);
                assert(m1.groups[k].agents.contains(agent));
            }
        },
        None => {
            let g = GroupModel { key, items: seq![item], agents: seq![agent] };
            lemma_group_pos_push(m.groups, g, key, 0);
            assert(m1.groups[m.groups.len() as int] == g);
            assert(g.agents[0] == agent);
            assert(m1.groups[m.groups.len() as int].agents.contains(agent));
        },
    }
}

/// `a` ranks before `b`: higher importance, then the smaller title.
pub open spec fn item_better(a: ItemModel, b: ItemModel) -> bool {
    importance_rank_spec(a.importance) > importance_rank_spec(b.importance) || (importance_rank_spec(a.importance)
        == importance_rank_spec(b.importance) && chars_lt(a.title, b.title))
}

pub open spec fn item_best_from(v: Seq<ItemModel>, i: int, best: int) -> int
    decreases v.len() - i,
{
    if i < 0 || i >= v.len() {
        best
    } else if item_better(v[i], v[best]) {
        item_best_from(v, i + 1, i)
    } else {
        item_best_from(v, i + 1, best)
    }
}

proof fn lemma_item_best_range(v: Seq<ItemModel>, i: int, best: int)
    requires
        0 <= best < v.len(),
        0 <= i,
    ensures
        0 <= item_best_from(v, i, best) < v.len(),
    decreases v.len() - i,
{
    if i < v.len() {
        if item_better(v[i], v[best]) {
            lemma_item_best_range(v, i + 1, i);
        } else {
            lemma_item_best_range(v, i + 1, best);
        }
    }
}

/// A group's item: its best-ranked item (the first among equals) raised by
/// all the group's agents, sorted.
pub open spec fn group_item(g: GroupModel) -> ItemModel {
    let b = g.items[item_best_from(g.items, 1, 0)];
    ItemModel {
        agent: b.agent,
        kind: b.kind,
        importance: b.importance,
        title: b.title,
        message: b.message,
        confidence: b.confidence,
        anchors: b.anchors,
        round: b.round,
        raised_by: sort_seqs(g.agents),
    }
}

/// The group's share of agents is below the quorum.
pub open spec fn below_quorum(g: GroupModel, m: ItemTrackerModel) -> bool {
    1000 * g.agents.len() < m.quorum_permille * m.agents
}

pub open spec fn unresolved_spec(gs: Seq<GroupModel>, m: ItemTrackerModel) -> Seq<ItemModel>
    decreases gs.len(),
{
    if gs.len() == 0 {
        seq![]
    } else {
        let r = unresolved_spec(gs.drop_last(), m);
        if below_quorum(gs.last(), m) {
            r.push(group_item(gs.last()))
        } else {
            r
        }
    }
}

fn group_primary(g: &ItemGroup) -> (r: ConsensusItem)
    requires
        g@.items.len() >= 1,
    ensures
        r@ == group_item(g@),
{
    let ghost v = g@.items;
    let mut best: usize = 0;
    let mut i: usize = 1;
    while i < g.items.len()
        invariant
            v == item_models(g.items@),
            v.len() >= 1,
            1 <= i <= v.len(),
            best < i,
            item_best_from(v, 1, 0) == item_best_from(v, i as int, best as int),
        decreases g.items.len() - i,
    {
        let a = &g.items[i];
        let b = &g.items[best];
        assert(v[i as int] == a@);
        assert(v[best as int] == b@);
        let ra = importance_rank(&a.importance);
        let rb = importance_rank(&b.importance);
        let better = if ra != rb {
            ra > rb
        } else {
            let x = chars_of(a.title.as_str());
            let y = chars_of(b.title.as_str());
            match compare_chars(x.as_slice(), y.as_slice()) {
                Order3::Less => true,
                _ => false,
            }
        };
        if better {
            best = i;
        }
        i += 1;
    }
    proof {
        lemma_item_best_range(v, 1, 0);
    }
    assert(v[best as int] == g.items@[best as int]@);
    let mut item = g.items[best].duplicate();
    item.raised_by = sort_strings(&g.agents);
    item
}

impl ItemTracker {
    pub closed spec fn wf(&self) -> bool {
        item_tracker_wf(self@)
    }

    pub fn new(quorum_permille: u32, agents: usize) -> (r: Self)
        ensures
            r.wf(),
            r@.groups.len() == 0,
            r@.quorum_permille == quorum_permille,
            r@.agents == if agents < 1 {
                1
            } else {
                agents as nat
            },
    {
        let r = ItemTracker { groups: Vec::new(), quorum_permille, agents: if agents < 1 {
            1
        } else {
            agents
        } };
        assert(r@.groups =~= seq![]);
        r
    }

    fn ingest_one(&mut self, raw: &RawConsensusItem, round: u8, agent_id: &str)
        requires
            old(self).wf(),
        ensures
            final(self).wf(),
            final(self)@ == ingest_item(old(self)@, *raw, round, agent_id@),
    {
        let key = normalize_item_key(raw);
        let mut raised_by: Vec<String> = Vec::new();
        raised_by.push(agent_id.to_owned());
        let item = ConsensusItem {
            agent: agent_id.to_owned(),
            kind: raw.kind.clone(),
            importance: raw.importance,
            title: raw.title.clone(),
            message: raw.message.clone(),
            confidence: raw.confidence,
            anchors: clone_anchors(&raw.anchors),
            round,
            raised_by,
        };
        assert(strs(item.raised_by@) =~= seq![agent_id@]);
        assert(item@ == item_of(*raw, round, agent_id@));
        let ghost gs = group_models(self.groups@);
        assert(item_tracker_wf(self@));
        assert(self@.groups == gs);
        assert(forall|q: int| 0 <= q < gs.len() ==> (#[trigger] gs[q]).items.len() >= 1);
        let mut k: usize = 0;
        while k < self.groups.len() && !str_eq(self.groups[k].key.as_str(), key.as_str())
            invariant
                k <= self.groups@.len(),
                gs == group_models(self.groups@),
                group_pos(gs, key@, 0) == group_pos(gs, key@, k as int),
            decreases self.groups.len() - k,
        {
            assert(gs[k as int].key == self.groups@[k as int].key@);
            k += 1;
        }
        if k < self.groups.len() {
            assert(gs[k as int].key == self.groups@[k as int].key@);
            let mut g = self.groups.remove(k);
            assert(g@ == gs[k as int]);
            let mut present = false;
            let mut j: usize = 0;
            while j < g.agents.len()
                invariant
                    j <= g.agents@.len(),
                    present == exists|q: int| 0 <= q < j && (#[trigger] g.agents@[q])@ == agent_id@,
                decreases g.agents.len() - j,
            {
                if str_eq(g.agents[j].as_str(), agent_id) {
                    present = true;
                }
                j += 1;
            }
            assert(present == strs(g.agents@).contains(agent_id@)) by {
                if strs(g.agents@).contains(agent_id@) {
                    let q = choose|q: int| 0 <= q < strs(g.agents@).len() && strs(g.agents@)[q] == agent_id@;
                    assert(g.agents@[q]@ == agent_id@);
                }
                if present {
                    let q = choose|q: int| 0 <= q < j && (#[trigger] g.agents@[q])@ == agent_id@;
                    assert(strs(g.agents@)[q] == agent_id@);
                }
            }
            if !present {
                let ghost a0 = strs(g.agents@);
                let ghost i0 = item_models(g.items@);
                g.items.push(item);
                g.agents.push(agent_id.to_owned());
                assert(strs(g.agents@) =~= a0.push(agent_id@));
                assert(item_models(g.items@) =~= i0.push(item_of(*raw, round, agent_id@)));
            }
            let ghost gm = g@;
            assert(gs[k as int].items.len() >= 1);
            assert(gm.items.len() >= 1);
            self.groups.insert(k, g);
            assert(group_models(self.groups@) =~= gs.update(k as int, gm));
            if present {
                assert(gs.update(k as int, gm) =~= gs);
            }
            assert(forall|q: int| 0 <= q < gs.len() ==> (#[trigger] group_models(self.groups@)[q]).items.len() >= 1);
        } else {
            let mut items: Vec<ConsensusItem> = Vec::new();
            items.push(item);
            let mut agents: Vec<String> = Vec::new();
            agents.push(agent_id.to_owned());
            let g = ItemGroup { key, items, agents };
            assert(item_models(g.items@) =~= seq![item_of(*raw, round, agent_id@)]);
            assert(strs(g.agents@) =~= seq![agent_id@]);
            self.groups.push(g);
            assert(group_models(self.groups@) =~= gs.push(g@));
        }
    }

    /// Ingests one agent's items of a round, in order.
    pub fn ingest(&mut self, round: u8, agent_id: &str, items: &Vec<RawConsensusItem>)
        requires
            old(self).wf(),
        ensures
            final(self).wf(),
            final(self)@ == ingest_items(old(self)@, items@, round, agent_id@),
    {
        let ghost start = self@;
        let mut i: usize = 0;
        while i < items.len()
            invariant
                i <= items@.len(),
                self.wf(),
                self@ == ingest_items(start, items@.take(i as int), round, agent_id@),
            decreases items.len() - i,
        {
            assert(items@.take(i + 1).drop_last() =~= items@.take(i as int));
            assert(items@.take(i + 1).last() == items@[i as int]);
            self.ingest_one(&items[i], round, agent_id);
            i += 1;
        }
        assert(items@.take(items@.len() as int) =~= items@);
    }

    /// One item per group, in group order.
    pub fn all_items(&self) -> (r: Vec<ConsensusItem>)
        requires
            self.wf(),
        ensures
            item_models(r@) == self@.groups.map_values(|g: GroupModel| group_item(g)),
    {
        let mut out: Vec<ConsensusItem> = Vec::new();
        let mut i: usize = 0;
        while i < self.groups.len()
            invariant
                i <= self.groups@.len(),
                item_tracker_wf(self@),
                self@.groups.len() == self.groups@.len(),
                out@.len() == i,
                forall|k: int| 0 <= k < i ==> #[trigger] out@[k]@ == group_item(self@.groups[k]),
            decreases self.groups.len() - i,
        {
            assert(self@.groups[i as int] == self.groups@[i as int]@);
            out.push(group_primary(&self.groups[i]));
            i += 1;
        }
        assert(item_models(out@) =~= self@.groups.map_values(|g: GroupModel| group_item(g)));
        out
    }

    /// One item per group whose share of agents is below the quorum.
    pub fn unresolved_items(&self) -> (r: Vec<ConsensusItem>)
        requires
            self.wf(),
        ensures
            item_models(r@) == unresolved_spec(self@.groups, self@),
    {
        let ghost gs = self@.groups;
        let mut out: Vec<ConsensusItem> = Vec::new();
        let mut i: usize = 0;
        while i < self.groups.len()
            invariant
                i <= self.groups@.len(),
                item_tracker_wf(self@),
                gs == self@.groups,
                gs.len() == self.groups@.len(),
                item_models(out@) == unresolved_spec(gs.take(i as int), self@),
            decreases self.groups.len() - i,
        {
            assert(gs.take(i + 1).drop_last() =~= gs.take(i as int));
            assert(gs.take(i + 1).last() == self.groups@[i as int]@);
            let g = &self.groups[i];
            let q = self.quorum_permille as u128;
            let a = self.agents as u128;
            assert(q * a <= 0xffff_ffffu128 * 0xffff_ffff_ffff_ffffu128) by (nonlinear_arith)
                requires
                    q <= 0xffff_ffffu128,
                    a <= 0xffff_ffff_ffff_ffffu128,
            ;
            if 1000 * (g.agents.len() as u128) < q * a {
                let ghost before = item_models(out@);
                out.push(group_primary(g));
                assert(item_models(out@) =~= before.push(group_item(g@)));
            }
            i += 1;
        }
        assert(gs.take(gs.len() as int) =~= gs);
        out
    }
}

// ---------------------------------------------------------------------
// Summary when the judge gives none
// ---------------------------------------------------------------------

pub open spec fn item_lines(items: Seq<ItemModel>) -> Seq<char>
    decreases items.len(),
{
    if items.len() == 0 {
        seq![]
    } else {
        item_lines(items.drop_last()) + "- "@ + items.last().title + ": "@ + items.last().message + "\n"@
    }
}

/// Up to ten items as `- title: message` lines, or `- None`.
pub open spec fn item_section(items: Seq<ItemModel>) -> Seq<char> {
    if items.len() == 0 {
        "- None\n"@
    } else if items.len() > 10 {
        item_lines(items.take(10))
    } else {
        item_lines(items)
    }
}

pub open spec fn fallback_summary_spec(title: Seq<char>, agreed: Seq<ItemModel>, unresolved: Seq<ItemModel>) -> Seq<char> {
    "# "@ + title + "\n\n## Agreed Items\n"@ + item_section(agreed) + "\n## Unresolved Items\n"@ + item_section(unresolved)
}

fn push_item_section(out: &mut String, items: &[ConsensusItem])
    ensures
        final(out)@ == old(out)@ + item_section(item_models(items@)),
{
    let ghost m = item_models(items@);
    if items.len() == 0 {
        push_str(out, "- None\n");
        return;
    }
    let limit: usize = if items.len() > 10 {
        10
    } else {
        items.len()
    };
    let ghost shown = if m.len() > 10 {
        m.take(10)
    } else {
        m
    };
    let ghost start = out@;
    let mut i: usize = 0;
    while i < limit
        invariant
            i <= limit,
            limit <= items@.len(),
            limit == shown.len(),
            m == item_models(items@),
            shown == m.take(limit as int),
            out@ == start + item_lines(shown.take(i as int)),
        decreases limit - i,
    {
        assert(shown.take(i + 1).drop_last() =~= shown.take(i as int));
        assert(shown.take(i + 1).last() == items@[i as int]@);
        push_str(out, "- ");
        push_string(out, &items[i].title);
        push_str(out, ": ");
        push_string(out, &items[i].message);
        push_str(out, "\n");
        assert(out@ =~= start + item_lines(shown.take(i + 1)));
        i += 1;
    }
    assert(shown.take(limit as int) =~= shown);
}

/// The summary of a task when the judge gives none: the pack's title, then
/// up to ten agreed and ten unresolved items.
pub fn fallback_summary(pack: &TaskPack, agreed_items: &[ConsensusItem], unresolved_items: &[ConsensusItem]) -> (r: String)
    ensures
        r@ == fallback_summary_spec(pack.manifest.title@, item_models(agreed_items@), item_models(unresolved_items@)),
{
    let mut out = "# ".to_owned();
    push_string(&mut out, &pack.manifest.title);
    push_str(&mut out, "\n\n## Agreed Items\n");
    push_item_section(&mut out, agreed_items);
    push_str(&mut out, "\n## Unresolved Items\n");
    push_item_section(&mut out, unresolved_items);
    out
}


/// A section of the fallback summary lists items one line each, in order,
/// up to ten: with no items it reads `- None`; an item added while fewer
/// than ten are listed adds its `- title: message` line at the end; once ten
/// are listed, further items change nothing.
pub proof fn law_item_section_lines(items: Seq<ItemModel>, x: ItemModel)
    ensures
        item_section(seq![]) == "- None\n"@,
        item_section(seq![x]) == "- "@ + x.title + ": "@ + x.message + "\n"@,
        0 < items.len() < 10 ==> item_section(items.push(x)) == item_section(items) + "- "@ + x.title + ": "@
            + x.message + "\n"@,
        items.len() >= 10 ==> item_section(items.push(x)) == item_section(items),
{
    assert(seq![x].drop_last() =~= Seq::<ItemModel>::empty());
    assert(item_lines(seq![x]) == item_lines(Seq::<ItemModel>::empty()) + "- "@ + x.title + ": "@ + x.message + "\n"@);
    assert(item_lines(Seq::<ItemModel>::empty()) == Seq::<char>::empty());
    assert(Seq::<char>::empty() + "- "@ + x.title + ": "@ + x.message + "\n"@ =~= "- "@ + x.title + ": "@ + x.message
        + "\n"@);
    if 0 < items.len() < 10 {
        assert(items.push(x).drop_last() =~= items);
    }
    if items.len() >= 10 {
        assert(items.push(x).take(10) =~= items.take(10));
        if items.len() == 10 {
            assert(items.take(10) =~= items);
        }
    }
}

} // verus!
