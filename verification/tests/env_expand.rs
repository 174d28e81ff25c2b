use libcrucible::env_expand::{expand_env, lookup_var, unset_names};

fn vars(pairs: &[(&str, &str)]) -> Vec<(String, String)> {
    pairs.iter().map(|(k, v)| (k.to_string(), v.to_string())).collect()
}

#[test]
fn placeholders_are_filled_from_the_variables() {
    let v = vars(&[("HOST", "example.org"), ("PORT_1", "8080")]);
    assert_eq!(expand_env("url=${HOST}:${PORT_1}/${HOST}", &v), Ok("url=example.org:8080/example.org".to_string()));
    assert_eq!(expand_env("no placeholders", &v), Ok("no placeholders".to_string()));
    assert_eq!(expand_env("${lower} $HOST ${} ${HOST", &v), Ok("${lower} $HOST ${} ${HOST".to_string()));
    assert_eq!(expand_env("${EMPTY}", &vars(&[("EMPTY", "")])), Ok(String::new()));
}

#[test]
fn unset_variables_are_all_reported() {
    let v = vars(&[("HOST", "h")]);
    assert_eq!(
        expand_env("${TOKEN} ${HOST} ${OTHER} ${TOKEN}", &v),
        Err("missing env vars in config: TOKEN, OTHER, TOKEN".to_string())
    );
    assert_eq!(expand_env("${A}", &Vec::new()), Err("missing env vars in config: A".to_string()));
}

#[test]
fn lookups_take_the_first_variable_of_a_name() {
    let v = vars(&[("A", "1"), ("A", "2"), ("B", "3")]);
    assert_eq!(lookup_var(&v, "A"), Some("1".to_string()));
    assert_eq!(lookup_var(&v, "C"), None);
    let names = vec!["A".to_string(), "C".to_string(), "B".to_string(), "C".to_string()];
    assert_eq!(unset_names(&names, &v), vec!["C".to_string(), "C".to_string()]);
}
