//! The lines of the searched files that mention a changed symbol as a whole
//! word: for each file in the order given, each of its lines in order, each
//! distinct symbol name in the order the names first occur.
use vstd::prelude::*;
use crate::reference::{reference_models, symbol_names, Reference, ReferenceModel, Symbol};
use crate::text::{chars_of, lines, lines_of, seqs, str_eq, string_of, trim, trim_of};

verus! {

/// Whether `line` holds `name` between word boundaries, as the regular
/// expression `\b<name>\b` (the name escaped) decides.
pub uninterp spec fn word_match(line: Seq<char>, name: Seq<char>) -> bool;

/// Calls `regex::Regex::new` on `\b<name>\b`, with the name passed through
/// `regex::escape`, and `Regex::is_match` on the line; `false` when the
/// pattern cannot be built. Trusted: the result is the name `word_match` of
/// the line and the symbol name.
#[verifier::external_body]
fn mentions(line: &str, name: &str) -> (r: bool)
    ensures
        r == word_match(line@, name@),
{
    match regex::Regex::new(&format!(r"\b{}\b", regex::escape(name))) {
        Ok(re) => re.is_match(line),
        Err(_) => false,
    }
}

/// The names, each kept at its first occurrence.
pub open spec fn distinct_names(names: Seq<Seq<char>>) -> Seq<Seq<char>>
    decreases names.len(),
{
    if names.len() == 0 {
        seq![]
    } else {
        let p = distinct_names(names.drop_last());
        if p.contains(names.last()) {
            p
        } else {
            p.push(names.last())
        }
    }
}

/// The references one line (at index `idx`) makes to the first `k` names.
pub open spec fn line_refs(names: Seq<Seq<char>>, path: Seq<char>, idx: int, line: Seq<char>, k: int) -> Seq<ReferenceModel>
    decreases k,
{
    if k <= 0 {
        seq![]
    } else {
        line_refs(names, path, idx, line, k - 1) + if word_match(line, names[k - 1]) {
            seq![ReferenceModel { symbol: names[k - 1], file: path, line: (idx + 1) as u32, snippet: trim_of(line) }]
        } else {
            seq![]
        }
    }
}

/// The references of the first `j` lines of a file.
pub open spec fn file_refs(names: Seq<Seq<char>>, path: Seq<char>, ls: Seq<Seq<char>>, j: int) -> Seq<ReferenceModel>
    decreases j,
{
    if j <= 0 {
        seq![]
    } else {
        file_refs(names, path, ls, j - 1) + line_refs(names, path, j - 1, ls[j - 1], names.len() as int)
    }
}

/// The references of the first `i` files, each given by path and contents.
pub open spec fn all_refs(names: Seq<Seq<char>>, files: Seq<(Seq<char>, Seq<char>)>, i: int) -> Seq<ReferenceModel>
    decreases i,
{
    if i <= 0 {
        seq![]
    } else {
        let f = files[i - 1];
        all_refs(names, files, i - 1) + file_refs(names, f.0, lines_of(f.1), lines_of(f.1).len() as int)
    }
}

pub open spec fn file_models(files: Seq<(String, String)>) -> Seq<(Seq<char>, Seq<char>)> {
    files.map_values(|f: (String, String)| (f.0@, f.1@))
}

/// Every reference the files make to the symbols.
pub open spec fn references_spec(symbols: Seq<Symbol>, files: Seq<(Seq<char>, Seq<char>)>) -> Seq<ReferenceModel> {
    all_refs(distinct_names(symbol_names(symbols)), files, files.len() as int)
}

fn has_name(v: &Vec<String>, x: &String) -> (r: bool)
    ensures
        r == v@.map_values(|s: String| s@).contains(x@),
{
    let ghost m = v@.map_values(|s: String| s@);
    let mut i: usize = 0;
    while i < v.len()
        invariant
            i <= v@.len(),
            m == v@.map_values(|s: String| s@),
            forall|k: int| 0 <= k < i ==> m[k] != x@,
        decreases v.len() - i,
    {
        if str_eq(v[i].as_str(), x.as_str()) {
            assert(m[i as int] == x@);
            return true;
        }
        i += 1;
    }
    false
}

fn names_of(symbols: &Vec<Symbol>) -> (r: Vec<String>)
    ensures
        r@.map_values(|s: String| s@) == distinct_names(symbol_names(symbols@)),
{
    let ghost all = symbol_names(symbols@);
    let mut out: Vec<String> = Vec::new();
    let mut i: usize = 0;
    while i < symbols.len()
        invariant
            i <= symbols@.len(),
            all == symbol_names(symbols@),
            out@.map_values(|s: String| s@) == distinct_names(all.take(i as int)),
        decreases symbols.len() - i,
    {
        assert(all.take(i + 1).drop_last() =~= all.take(i as int));
        assert(all.take(i + 1).last() == symbols@[i as int].name@);
        let ghost before = out@.map_values(|s: String| s@);
        if !has_name(&out, &symbols[i].name) {
            out.push(symbols[i].name.clone());
            assert(out@.map_values(|s: String| s@) =~= before.push(symbols@[i as int].name@));
        }
        i += 1;
    }
    assert(all.take(symbols@.len() as int) =~= all);
    out
}

/// Whether the pattern `\b<name>\b` (the name escaped) can be built.
pub uninterp spec fn pattern_builds(name: Seq<char>) -> bool;

/// Calls `regex::Regex::new` on `\b<name>\b`, with the name passed through
/// `regex::escape`, and says whether it succeeded. Trusted: the result is
/// the name `pattern_builds` of the symbol name.
#[verifier::external_body]
fn word_pattern_builds(name: &str) -> (r: bool)
    ensures
        r == pattern_builds(name@),
{
    regex::Regex::new(&format!(r"\b{}\b", regex::escape(name))).is_ok()
}

/// Every distinct name's pattern can be built.
pub open spec fn patterns_build(symbols: Seq<Symbol>) -> bool {
    let names = distinct_names(symbol_names(symbols));
    forall|k: int| 0 <= k < names.len() ==> pattern_builds(#[trigger] names[k])
}

/// The lines of the files (path and contents, in the order given) that
/// mention a symbol's name as a whole word, with the line number and the
/// trimmed line; `None` when the pattern for some name cannot be built.
pub fn collect_references(symbols: &Vec<Symbol>, files: &Vec<(String, String)>) -> (r: Option<Vec<Reference>>)
    ensures
        r is None <==> !patterns_build(symbols@),
        r matches Some(v) ==> reference_models(v@) == references_spec(symbols@, file_models(files@)),
{
    let names = names_of(symbols);
    let ghost nm = names@.map_values(|s: String| s@);
    let mut p: usize = 0;
    while p < names.len()
        invariant
            p <= names@.len(),
            nm == names@.map_values(|s: String| s@),
            nm == distinct_names(symbol_names(symbols@)),
            forall|k: int| 0 <= k < p ==> pattern_builds(#[trigger] nm[k]),
        decreases names.len() - p,
    {
        assert(nm[p as int] == names@[p as int]@);
        if !word_pattern_builds(names[p].as_str()) {
            assert(!pattern_builds(nm[p as int]));
            return None;
        }
        p += 1;
    }
    let ghost fm = file_models(files@);
    let mut out: Vec<Reference> = Vec::new();
    let mut i: usize = 0;
    while i < files.len()
        invariant
            i <= files@.len(),
            nm == names@.map_values(|s: String| s@),
            fm == file_models(files@),
            reference_models(out@) == all_refs(nm, fm, i as int),
        decreases files.len() - i,
    {
        let path = &files[i].0;
        let cs = chars_of(files[i].1.as_str());
        let ls = lines(cs.as_slice());
        let ghost lm = lines_of(fm[i as int].1);
        let ghost base = reference_models(out@);
        assert(fm[i as int] == (path@, files@[i as int].1@));
        let mut j: usize = 0;
        while j < ls.len()
            invariant
                j <= ls@.len(),
                seqs(ls@) == lm,
                nm == names@.map_values(|s: String| s@),
                reference_models(out@) == base + file_refs(nm, path@, lm, j as int),
            decreases ls.len() - j,
        {
            assert(lm[j as int] == ls@[j as int]@);
            let line = string_of(ls[j].as_slice());
            let snippet_chars = trim(ls[j].as_slice());
            let ghost mid = reference_models(out@);
            let mut k: usize = 0;
            while k < names.len()
                invariant
                    k <= names@.len(),
                    j < ls.len(),
                    nm == names@.map_values(|s: String| s@),
                    line@ == lm[j as int],
                    snippet_chars@ == trim_of(lm[j as int]),
                    reference_models(out@) == mid + line_refs(nm, path@, j as int, lm[j as int], k as int),
                decreases names.len() - k,
            {
                let ghost prev = reference_models(out@);
                if mentions(line.as_str(), names[k].as_str()) {
                    let number: u32 = (j + 1) as u32;
                    out.push(Reference {
                        symbol: names[k].clone(),
                        file: path.clone(),
                        line: number,
                        snippet: string_of(snippet_chars.as_slice()),
                    });
                    assert(reference_models(out@) =~= prev + seq![out@[out@.len() - 1]@]);
                }
                assert(nm[k as int] == names@[k as int]@);
                k += 1;
            }
            proof {
                assert(mid == base + file_refs(nm, path@, lm, j as int));
            }
            j += 1;
        }
        i += 1;
    }
    Some(out)
}

} // verus!
