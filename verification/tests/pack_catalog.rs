use libcrucible::builtin_packs::built_in_design_pack;
use libcrucible::pack_catalog::{list_task_packs, merge_pack_lists};
use libcrucible::task_pack::TaskPackSource;

fn pack(id: &str, title: &str) -> libcrucible::task_pack::TaskPack {
    let mut p = built_in_design_pack();
    p.manifest.id = id.to_string();
    p.manifest.title = title.to_string();
    p.source = TaskPackSource::Directory(format!("/packs/{id}"));
    p
}

#[test]
fn catalog_keeps_the_first_pack_of_each_id_sorted() {
    let loaded = vec![pack("zeta", "first zeta"), pack("alpha", "a"), pack("zeta", "second zeta")];
    let builtins = vec![pack("beta", "b"), pack("alpha", "built-in alpha")];
    let out = merge_pack_lists(loaded, builtins);
    let ids: Vec<&str> = out.iter().map(|p| p.manifest.id.as_str()).collect();
    assert_eq!(ids, vec!["alpha", "beta", "zeta"]);
    assert_eq!(out[0].manifest.title, "a");
    assert_eq!(out[2].manifest.title, "first zeta");
}

#[test]
fn listing_adds_the_built_in_packs_unless_overridden() {
    let out = list_task_packs(vec![pack("review", "custom review"), pack("my-pack", "mine")]);
    let ids: Vec<&str> = out.iter().map(|p| p.manifest.id.as_str()).collect();
    assert_eq!(ids, vec!["design-review", "my-pack", "requirements-review", "review", "test-plan-review"]);
    assert_eq!(out[3].manifest.title, "custom review");
    assert!(matches!(out[0].source, TaskPackSource::BuiltIn));
    assert_eq!(list_task_packs(Vec::new()).len(), 4);
}
