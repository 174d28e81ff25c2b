//! What an analyzer says about a change, and the context an agent works in.
use vstd::prelude::*;
use crate::context::{GatheredContext, GatheredModel};
use crate::report::{clone_strs, strs};
use crate::task_pack::TaskPack;

verus! {

/// One area to look at, and why.
#[derive(Clone, Debug)]
pub struct FocusItem {
    pub area: String,
    pub rationale: String,
}

pub open spec fn focus_item_models(v: Seq<FocusItem>) -> Seq<(Seq<char>, Seq<char>)> {
    v.map_values(|f: FocusItem| (f.area@, f.rationale@))
}

/// The analyzer's summary of a change and the areas that need attention.
#[derive(Clone, Debug)]
pub struct FocusAreas {
    pub summary: String,
    pub focus_items: Vec<FocusItem>,
    pub trade_offs: Vec<String>,
    pub affected_modules: Vec<String>,
    pub call_chain: Vec<String>,
    pub design_patterns: Vec<String>,
    pub reviewer_checklist: Vec<String>,
}

pub struct FocusModel {
    pub summary: Seq<char>,
    pub focus_items: Seq<(Seq<char>, Seq<char>)>,
    pub trade_offs: Seq<Seq<char>>,
    pub affected_modules: Seq<Seq<char>>,
    pub call_chain: Seq<Seq<char>>,
    pub design_patterns: Seq<Seq<char>>,
    pub checklist: Seq<Seq<char>>,
}

impl View for FocusAreas {
    type V = FocusModel;

    open spec fn view(&self) -> FocusModel {
        FocusModel {
            summary: self.summary@,
            focus_items: focus_item_models(self.focus_items@),
            trade_offs: strs(self.trade_offs@),
            affected_modules: strs(self.affected_modules@),
            call_chain: strs(self.call_chain@),
            design_patterns: strs(self.design_patterns@),
            checklist: strs(self.reviewer_checklist@),
        }
    }
}

fn clone_focus_items(v: &Vec<FocusItem>) -> (r: Vec<FocusItem>)
    ensures
        focus_item_models(r@) == focus_item_models(v@),
{
    let mut out: Vec<FocusItem> = Vec::new();
    let mut i: usize = 0;
    while i < v.len()
        invariant
            i <= v@.len(),
            out@.len() == i,
            forall|k: int| 0 <= k < i ==> (#[trigger] out@[k]).area@ == v@[k].area@ && out@[k].rationale@ == v@[k].rationale@,
        decreases v.len() - i,
    {
        out.push(FocusItem { area: v[i].area.clone(), rationale: v[i].rationale.clone() });
        i += 1;
    }
    assert(focus_item_models(out@) =~= focus_item_models(v@));
    out
}

impl FocusAreas {
    pub fn duplicate(&self) -> (r: Self)
        ensures
            r@ == self@,
    {
        FocusAreas {
            summary: self.summary.clone(),
            focus_items: clone_focus_items(&self.focus_items),
            trade_offs: clone_strs(&self.trade_offs),
            affected_modules: clone_strs(&self.affected_modules),
            call_chain: clone_strs(&self.call_chain),
            design_patterns: clone_strs(&self.design_patterns),
            reviewer_checklist: clone_strs(&self.reviewer_checklist),
        }
    }
}

/// Everything an agent is given: the diff, the gathered context, the
/// analyzer's focus, a dependency graph, and the task pack in use.
#[derive(Clone, Debug)]
pub struct AgentContext {
    pub diff: String,
    pub gathered: GatheredContext,
    pub focus: Option<FocusAreas>,
    pub dep_graph: Option<String>,
    pub review_pack: Option<TaskPack>,
}

pub open spec fn opt_focus(f: Option<FocusAreas>) -> Option<FocusModel> {
    match f {
        Some(x) => Some(x@),
        None => None,
    }
}

} // verus!
