//! The named items of a Rust source file that a diff touches: the file's
//! syntax nodes come from tree-sitter; which of them are items, and which
//! of those the changed lines overlap, is decided here.
use vstd::prelude::*;
use tree_sitter::Parser;
use tree_sitter_rust::LANGUAGE;
use crate::reference::{overlaps_any, overlaps_any_spec, symbol_kind_for, symbol_kind_spec, LineRange, Symbol, SymbolKind};

verus! {

/// One syntax node: its kind, the text of its `name` (else `type`) field,
/// and its first and last rows (from zero).
#[derive(Clone, Debug)]
pub struct SyntaxNode {
    pub kind: String,
    pub name: Option<String>,
    pub start_row: u32,
    pub end_row: u32,
}

pub struct NodeModel {
    pub kind: Seq<char>,
    pub name: Option<Seq<char>>,
    pub start_row: u32,
    pub end_row: u32,
}

pub open spec fn node_model(n: SyntaxNode) -> NodeModel {
    NodeModel {
        kind: n.kind@,
        name: match n.name {
            Some(s) => Some(s@),
            None => None,
        },
        start_row: n.start_row,
        end_row: n.end_row,
    }
}

pub open spec fn node_models(v: Seq<SyntaxNode>) -> Seq<NodeModel> {
    v.map_values(|n: SyntaxNode| node_model(n))
}

/// One node of a syntax tree held as an arena, listed level by level from
/// the root: its kind, the text of its `name` and `type` fields, its first
/// and last rows (from zero), and how many children it has (which follow,
/// in order, those of the nodes listed before it).
#[derive(Debug)]
pub struct TreeNode<'a> {
    pub kind: String,
    pub fields: (Option<&'a str>, Option<&'a str>),
    pub rows: (usize, usize),
    pub children: u32,
}

pub struct TreeNodeModel {
    pub kind: Seq<char>,
    pub name: Option<Seq<char>>,
    pub type_field: Option<Seq<char>>,
    pub rows: (usize, usize),
    pub children: u32,
}

pub open spec fn opt_str(o: Option<&str>) -> Option<Seq<char>> {
    match o {
        Some(s) => Some(s@),
        None => None,
    }
}

pub open spec fn tree_node_model(n: TreeNode) -> TreeNodeModel {
    TreeNodeModel { kind: n.kind@, name: opt_str(n.fields.0), type_field: opt_str(n.fields.1), rows: n.rows, children: n.children }
}

pub open spec fn tree_models(v: Seq<TreeNode>) -> Seq<TreeNodeModel> {
    v.map_values(|n: TreeNode| tree_node_model(n))
}

/// The syntax tree tree-sitter's Rust grammar gives for a source text, as
/// an arena listed level by level from the root (index 0); `None` when the
/// grammar cannot be loaded or the parse gives no tree.
pub uninterp spec fn rust_tree_of(source: Seq<char>) -> Option<Seq<TreeNodeModel>>;

/// Calls `tree_sitter::Parser::parse` with the `tree_sitter_rust` grammar
/// and copies the tree into an arena, one entry per node, level by level.
/// Trusted: the result is the name `rust_tree_of` of the source.
#[verifier::external_body]
fn rust_tree(source: &str) -> (r: Option<Vec<TreeNode<'_>>>)
    ensures
        match r {
            Some(v) => rust_tree_of(source@) == Some(tree_models(v@)),
            None => rust_tree_of(source@) is None,
        },
{
    let mut p = Parser::new();
    p.set_language(&LANGUAGE.into()).ok()?;
    let tree = p.parse(source, None)?;
    let (mut todo, mut out) = (vec![tree.root_node()], vec![]);
    while let Some(&n) = todo.get(out.len()) {
        let text = |f| n.child_by_field_name(f)?.utf8_text(source.as_bytes()).ok();
        todo.extend(n.children(&mut n.walk()));
        out.push(TreeNode { kind: n.kind().into(), fields: (text("name"), text("type")),
            rows: (n.start_position().row, n.end_position().row), children: n.child_count() });
    }
    Some(out)
}

/// Where the children of node `i` start: after the root and the children
/// of the nodes before it.
pub open spec fn start_of(ns: Seq<TreeNodeModel>, i: int) -> int
    decreases i,
{
    if i <= 0 {
        1
    } else {
        start_of(ns, i - 1) + ns[i - 1].children
    }
}

/// The arena indices of the children of node `i`.
pub open spec fn child_span(ns: Seq<TreeNodeModel>, i: int) -> (int, int) {
    (start_of(ns, i), start_of(ns, i) + ns[i].children)
}

/// Every node's children lie after it and inside the arena.
pub open spec fn arena_wf(ns: Seq<TreeNodeModel>) -> bool {
    forall|i: int| 0 <= i < ns.len() ==> i < (#[trigger] child_span(ns, i)).0 && child_span(ns, i).1 <= ns.len()
}

/// The order in which a stack walk from node `i` takes the nodes: the node,
/// then the subtrees of its children from the last child to the first.
pub open spec fn subtree(ns: Seq<TreeNodeModel>, i: int) -> Seq<int>
    decreases ns.len() - i, 1int, 0int,
{
    if i < 0 || i >= ns.len() {
        seq![]
    } else {
        seq![i] + kids_rev(ns, i, child_span(ns, i).1)
    }
}

/// The subtrees of the children of `i` before index `k`, last first.
pub open spec fn kids_rev(ns: Seq<TreeNodeModel>, i: int, k: int) -> Seq<int>
    decreases ns.len() - i, 0int, k,
{
    if i < 0 || i >= ns.len() || k - 1 <= i || k - 1 >= ns.len() || k <= child_span(ns, i).0 {
        seq![]
    } else {
        subtree(ns, k - 1) + kids_rev(ns, i, k - 1)
    }
}

/// What a stack (top last) still yields.
pub open spec fn stack_order(ns: Seq<TreeNodeModel>, st: Seq<usize>) -> Seq<int>
    decreases st.len(),
{
    if st.len() == 0 {
        seq![]
    } else {
        subtree(ns, st.last() as int) + stack_order(ns, st.drop_last())
    }
}

/// A node as a candidate symbol: its `name` field, else its `type` field,
/// and its rows.
pub open spec fn candidate(n: TreeNodeModel) -> NodeModel {
    NodeModel {
        kind: n.kind,
        name: match n.name {
            Some(x) => Some(x),
            None => n.type_field,
        },
        start_row: n.rows.0 as u32,
        end_row: n.rows.1 as u32,
    }
}

/// The nodes of a tree in the order of a stack walk from the root.
pub open spec fn walk_spec(ns: Seq<TreeNodeModel>) -> Seq<NodeModel> {
    subtree(ns, 0).map_values(|i: int| candidate(ns[i]))
}

/// The arena indices of each node's children, when every node's children
/// lie after it and inside the arena.
pub fn child_spans(ns: &Vec<TreeNode>) -> (r: Option<Vec<(usize, usize)>>)
    ensures
        r is None <==> !arena_wf(tree_models(ns@)),
        r matches Some(v) ==> v@.len() == ns@.len() && forall|i: int|
            0 <= i < ns@.len() ==> (#[trigger] v@[i]).0 == child_span(tree_models(ns@), i).0 && v@[i].1 == child_span(
                tree_models(ns@),
                i,
            ).1,
{
    let ghost m = tree_models(ns@);
    let mut spans: Vec<(usize, usize)> = Vec::new();
    let mut start: usize = 1;
    let mut i: usize = 0;
    while i < ns.len()
        invariant
            i <= ns@.len(),
            m == tree_models(ns@),
            start == start_of(m, i as int),
            spans@.len() == i,
            forall|k: int| 0 <= k < i ==> (#[trigger] spans@[k]).0 == child_span(m, k).0 && spans@[k].1 == child_span(m, k).1,
            forall|k: int| 0 <= k < i ==> k < (#[trigger] child_span(m, k)).0 && child_span(m, k).1 <= m.len(),
        decreases ns.len() - i,
    {
        assert(m[i as int] == tree_node_model(ns@[i as int]));
        let count = ns[i].children as usize;
        if !(i < start && start <= ns.len() && count <= ns.len() - start) {
            assert(!(i < child_span(m, i as int).0 && child_span(m, i as int).1 <= m.len()));
            return None;
        }
        spans.push((start, start + count));
        start = start + count;
        i += 1;
    }
    Some(spans)
}

/// The nodes of a tree, as candidate symbols, in the order in which a stack
/// walk from the root takes them (a node, then its children's subtrees from
/// the last child to the first); `None` when the arena is not a tree whose
/// children lie after their parents.
pub fn walk_nodes(ns: &Vec<TreeNode>) -> (r: Option<Vec<SyntaxNode>>)
    ensures
        r is None <==> !arena_wf(tree_models(ns@)),
        r matches Some(v) ==> node_models(v@) == walk_spec(tree_models(ns@)),
{
    let spans = match child_spans(ns) {
        Some(v) => v,
        None => {
            return None;
        },
    };
    let ghost m = tree_models(ns@);
    let mut out: Vec<SyntaxNode> = Vec::new();
    let mut stack: Vec<usize> = Vec::new();
    let ghost mut emitted: Seq<int> = seq![];
    if ns.len() > 0 {
        stack.push(0);
        assert(stack@.drop_last() =~= Seq::<usize>::empty());
        assert(stack@.last() == 0);
        assert(stack_order(m, stack@) == subtree(m, 0) + stack_order(m, stack@.drop_last()));
        assert(stack_order(m, stack@) =~= subtree(m, 0));
    }
    assert(emitted + stack_order(m, stack@) =~= subtree(m, 0));
    while stack.len() > 0
        invariant
            m == tree_models(ns@),
            arena_wf(m),
            forall|j: int| 0 <= j < stack@.len() ==> 0 <= #[trigger] stack@[j] < m.len(),
            emitted + stack_order(m, stack@) == subtree(m, 0),
            node_models(out@) == emitted.map_values(|i: int| candidate(m[i])),
            spans@.len() == m.len(),
            forall|j: int| 0 <= j < m.len() ==> (#[trigger] spans@[j]).0 == child_span(m, j).0 && spans@[j].1 == child_span(m, j).1,
        decreases stack_order(m, stack@).len(),
    {
        let ghost before = stack@;
        let i = stack.pop().unwrap();
        assert(before.drop_last() == stack@);
        let ghost rest = stack_order(m, stack@);
        assert(m[i as int] == tree_node_model(ns@[i as int]));
        let (first, end) = spans[i];
        assert(subtree(m, i as int) == seq![i as int] + kids_rev(m, i as int, end as int));
        let mut k: usize = first;
        assert(kids_rev(m, i as int, first as int) == Seq::<int>::empty());
        assert(stack_order(m, stack@) =~= kids_rev(m, i as int, k as int) + rest);
        while k < end
            invariant
                m == tree_models(ns@),
                arena_wf(m),
                0 <= i < m.len(),
                child_span(m, i as int) == (first as int, end as int),
                first <= k <= end,
                end <= m.len(),
                i < first,
                forall|j: int| 0 <= j < stack@.len() ==> 0 <= #[trigger] stack@[j] < m.len(),
                stack_order(m, stack@) == kids_rev(m, i as int, k as int) + rest,
            decreases end - k,
        {
            let ghost st0 = stack@;
            stack.push(k);
            assert(stack@.drop_last() == st0);
            assert(kids_rev(m, i as int, k + 1) == subtree(m, k as int) + kids_rev(m, i as int, k as int));
            assert(stack_order(m, stack@) =~= kids_rev(m, i as int, k + 1) + rest);
            k += 1;
        }
        let n = &ns[i];
        let name = match n.fields.0 {
            Some(x) => Some(x.to_owned()),
            None => match n.fields.1 {
                Some(t) => Some(t.to_owned()),
                None => None,
            },
        };
        let ghost prev = node_models(out@);
        out.push(SyntaxNode { kind: n.kind.clone(), name, start_row: n.rows.0 as u32, end_row: n.rows.1 as u32 });
        proof {
            assert(node_models(out@) =~= prev.push(candidate(m[i as int])));
            assert(emitted.push(i as int).map_values(|i: int| candidate(m[i])) =~= emitted.map_values(
                |i: int| candidate(m[i]),
            ).push(candidate(m[i as int])));
            assert(emitted.push(i as int) + stack_order(m, stack@) =~= emitted + (seq![i as int] + kids_rev(
                m,
                i as int,
                end as int,
            ) + rest));
            emitted = emitted.push(i as int);
        }
    }
    assert(stack_order(m, stack@) =~= Seq::<int>::empty());
    assert(emitted =~= subtree(m, 0));
    Some(out)
}

/// A row as a line number (from one), wrapping as `u32` addition does.
pub open spec fn line_of_row(row: u32) -> u32 {
    if row == u32::MAX {
        0
    } else {
        (row + 1) as u32
    }
}

pub struct SymbolModel {
    pub name: Seq<char>,
    pub kind: SymbolKind,
    pub file: Seq<char>,
}

pub open spec fn symbol_model(s: Symbol) -> SymbolModel {
    SymbolModel { name: s.name@, kind: s.kind, file: s.file@ }
}

pub open spec fn symbol_models(v: Seq<Symbol>) -> Seq<SymbolModel> {
    v.map_values(|s: Symbol| symbol_model(s))
}

/// The symbols of the first `i` nodes: each node of an item kind whose lines
/// overlap a changed range and that has a name, in node order.
pub open spec fn changed_spec(file: Seq<char>, ranges: Seq<LineRange>, nodes: Seq<NodeModel>, i: int) -> Seq<SymbolModel>
    decreases i,
{
    if i <= 0 {
        seq![]
    } else {
        let n = nodes[i - 1];
        changed_spec(file, ranges, nodes, i - 1) + match (symbol_kind_spec(n.kind), n.name) {
            (Some(k), Some(name)) => if overlaps_any_spec(line_of_row(n.start_row), line_of_row(n.end_row), ranges) {
                seq![SymbolModel { name, kind: k, file }]
            } else {
                seq![]
            },
            _ => seq![],
        }
    }
}

/// The symbols that the changed ranges of `file` touch among its nodes.
pub fn changed_symbols(file: &str, ranges: &Vec<LineRange>, nodes: &Vec<SyntaxNode>) -> (r: Vec<Symbol>)
    ensures
        symbol_models(r@) == changed_spec(file@, ranges@, node_models(nodes@), nodes@.len() as int),
{
    let ghost nm = node_models(nodes@);
    let mut out: Vec<Symbol> = Vec::new();
    let mut i: usize = 0;
    while i < nodes.len()
        invariant
            i <= nodes@.len(),
            nm == node_models(nodes@),
            symbol_models(out@) == changed_spec(file@, ranges@, nm, i as int),
        decreases nodes.len() - i,
    {
        let n = &nodes[i];
        assert(nm[i as int] == node_model(*n));
        let ghost prev = symbol_models(out@);
        match symbol_kind_for(n.kind.as_str()) {
            Some(k) => match &n.name {
                Some(name) => {
                    let start = n.start_row.wrapping_add(1);
                    let end = n.end_row.wrapping_add(1);
                    if overlaps_any(start, end, ranges.as_slice()) {
                        out.push(Symbol { name: name.clone(), kind: k, file: file.to_owned() });
                        assert(symbol_models(out@) =~= prev + seq![symbol_model(out@[out@.len() - 1])]);
                    }
                },
                None => {},
            },
            None => {},
        }
        i += 1;
    }
    out
}

/// The symbols that the changed ranges of `file` touch in its source text,
/// its nodes taken in the order of a stack walk from the root; `None` when
/// the source gives no syntax tree (or the tree is not well formed).
pub fn file_symbols(file: &str, source: &str, ranges: &Vec<LineRange>) -> (r: Option<Vec<Symbol>>)
    ensures
        match rust_tree_of(source@) {
            Some(t) if arena_wf(t) => r is Some && symbol_models(r.unwrap()@) == changed_spec(
                file@,
                ranges@,
                walk_spec(t),
                walk_spec(t).len() as int,
            ),
            _ => r is None,
        },
{
    let tree = match rust_tree(source) {
        None => {
            return None;
        },
        Some(t) => t,
    };
    match walk_nodes(&tree) {
        None => None,
        Some(nodes) => Some(changed_symbols(file, ranges, &nodes)),
    }
}

} // verus!
