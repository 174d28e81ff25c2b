//! `${NAME}` placeholders in configuration text (NAME made of capital
//! letters, digits and underscores), filled from the environment's
//! variables; any that is not set makes the whole text unusable.
use vstd::prelude::*;
use crate::report::{join_strs, opt_str, strs};
use crate::text::{join_with, push_string, str_eq};

verus! {

pub type VarModel = (Seq<char>, Seq<char>);

pub open spec fn var_models(v: Seq<(String, String)>) -> Seq<VarModel> {
    v.map_values(|p: (String, String)| (p.0@, p.1@))
}

/// The value of the first variable of this name.
pub open spec fn var_value(vars: Seq<VarModel>, name: Seq<char>) -> Option<Seq<char>>
    decreases vars.len(),
{
    if vars.len() == 0 {
        None
    } else if vars[0].0 == name {
        Some(vars[0].1)
    } else {
        var_value(vars.drop_first(), name)
    }
}

/// The value of the variable `name`, if it is set.
pub fn lookup_var(vars: &Vec<(String, String)>, name: &str) -> (r: Option<String>)
    ensures
        opt_str(r) == var_value(var_models(vars@), name@),
{
    let ghost m = var_models(vars@);
    assert(m.skip(0) =~= m);
    let mut i: usize = 0;
    while i < vars.len()
        invariant
            i <= vars@.len(),
            m == var_models(vars@),
            var_value(m, name@) == var_value(m.skip(i as int), name@),
        decreases vars.len() - i,
    {
        assert(m.skip(i as int)[0] == m[i as int]);
        if str_eq(vars[i].0.as_str(), name) {
            return Some(vars[i].1.clone());
        }
        assert(m.skip(i as int).drop_first() =~= m.skip(i + 1));
        i += 1;
    }
    None
}

/// What a placeholder becomes: the variable's value, or nothing when the
/// variable is not set.
pub fn placeholder_value(vars: &Vec<(String, String)>, name: &str) -> (r: String)
    ensures
        r@ == match var_value(var_models(vars@), name@) {
            Some(v) => v,
            None => Seq::empty(),
        },
{
    match lookup_var(vars, name) {
        Some(v) => v,
        None => String::new(),
    }
}

/// The names of the placeholders in `input`, in order, as
/// `regex::Regex::captures_iter` with the pattern `\$\{([A-Z0-9_]+)\}`
/// finds them (its first group).
pub uninterp spec fn placeholder_names_of(input: Seq<char>) -> Seq<Seq<char>>;

/// `input` with every placeholder replaced by its value, as
/// `regex::Regex::replace_all` with the pattern `\$\{([A-Z0-9_]+)\}`
/// gives it when each match is replaced by `placeholder_value`.
pub uninterp spec fn filled_of(input: Seq<char>, vars: Seq<VarModel>) -> Seq<char>;

/// Calls `regex::Regex::captures_iter` on `input`; the contract claims the
/// names it yields are those `placeholder_names_of` names.
#[verifier::external_body]
fn placeholder_names(input: &str) -> (r: Vec<String>)
    ensures
        strs(r@) == placeholder_names_of(input@),
{
    let re = regex::Regex::new(r"\$\{([A-Z0-9_]+)\}").expect("valid pattern");
    re.captures_iter(input).map(|caps| caps[1].to_string()).collect()
}

/// Calls `regex::Regex::replace_all` on `input`, each match replaced by
/// `placeholder_value` of its name; the contract claims the result is what
/// `filled_of` names.
#[verifier::external_body]
fn fill_placeholders(input: &str, vars: &Vec<(String, String)>) -> (r: String)
    ensures
        r@ == filled_of(input@, var_models(vars@)),
{
    let re = regex::Regex::new(r"\$\{([A-Z0-9_]+)\}").expect("valid pattern");
    re.replace_all(input, |caps: &regex::Captures| placeholder_value(vars, &caps[1])).into_owned()
}

/// The names that no variable is set for, in order (repeats kept).
pub open spec fn missing_names(names: Seq<Seq<char>>, vars: Seq<VarModel>) -> Seq<Seq<char>>
    decreases names.len(),
{
    if names.len() == 0 {
        seq![]
    } else {
        let m = missing_names(names.drop_last(), vars);
        if var_value(vars, names.last()) is None {
            m.push(names.last())
        } else {
            m
        }
    }
}

/// The names of `names` that no variable in `vars` is set for.
pub fn unset_names(names: &Vec<String>, vars: &Vec<(String, String)>) -> (r: Vec<String>)
    ensures
        strs(r@) == missing_names(strs(names@), var_models(vars@)),
{
    let ghost ns = strs(names@);
    let mut out: Vec<String> = Vec::new();
    let mut i: usize = 0;
    while i < names.len()
        invariant
            i <= names@.len(),
            ns == strs(names@),
            strs(out@) == missing_names(ns.take(i as int), var_models(vars@)),
        decreases names.len() - i,
    {
        assert(ns.take(i + 1).drop_last() =~= ns.take(i as int));
        assert(ns.take(i + 1).last() == names@[i as int]@);
        if lookup_var(vars, names[i].as_str()).is_none() {
            let ghost before = strs(out@);
            out.push(names[i].clone());
            assert(strs(out@) =~= before.push(names@[i as int]@));
        }
        i += 1;
    }
    assert(ns.take(ns.len() as int) =~= ns);
    out
}

/// Fills the placeholders of configuration text from `vars` (the
/// environment's variables): the filled text, or, when some placeholder
/// names a variable that is not set, an error listing those names.
pub fn expand_env(input: &str, vars: &Vec<(String, String)>) -> (r: Result<String, String>)
    ensures
        r is Ok <==> missing_names(placeholder_names_of(input@), var_models(vars@)).len() == 0,
        r matches Ok(s) ==> s@ == filled_of(input@, var_models(vars@)),
        r matches Err(e) ==> e@ == "missing env vars in config: "@ + join_with(
            missing_names(placeholder_names_of(input@), var_models(vars@)),
            ", "@,
        ),
{
    let names = placeholder_names(input);
    let missing = unset_names(&names, vars);
    if missing.len() > 0 {
        let mut msg = "missing env vars in config: ".to_owned();
        let joined = join_strs(&missing, ", ");
        push_string(&mut msg, &joined);
        return Err(msg);
    }
    Ok(fill_placeholders(input, vars))
}

} // verus!
