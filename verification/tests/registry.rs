use vismatch_svc::image_hash::ImageHashEntry;
use vismatch_svc::metric::ImageHash;
use vismatch_svc::registry::ProjectRegistry;

fn entry(name: &str, bits: Vec<bool>) -> ImageHashEntry {
    ImageHashEntry { image_name: name.to_owned(), hash: ImageHash { bits } }
}

#[test]
fn empty_registry_knows_nothing() {
    let registry = ProjectRegistry::new();
    assert!(registry.lookup(&"anything".to_owned()).is_none());
}

#[test]
fn inserted_project_is_found() {
    let mut registry = ProjectRegistry::new();
    registry.insert_project("p1".to_owned(), vec![entry("a", vec![true])]);
    registry.insert_project("p2".to_owned(), vec![entry("b", vec![false])]);
    let l1 = registry.lookup(&"p1".to_owned()).unwrap();
    assert_eq!(l1.len(), 1);
    assert_eq!(l1[0].image_name, "a");
    let l2 = registry.lookup(&"p2".to_owned()).unwrap();
    assert_eq!(l2[0].image_name, "b");
}

#[test]
fn refresh_replaces_the_whole_list() {
    let mut registry = ProjectRegistry::new();
    registry.insert_project("p".to_owned(), vec![entry("old", vec![true]), entry("older", vec![false])]);
    registry.insert_project("p".to_owned(), vec![entry("new", vec![true])]);
    let l = registry.lookup(&"p".to_owned()).unwrap();
    assert_eq!(l.len(), 1);
    assert_eq!(l[0].image_name, "new");
}

#[test]
fn refresh_leaves_other_projects_alone() {
    let mut registry = ProjectRegistry::new();
    registry.insert_project("stay".to_owned(), vec![entry("kept", vec![true])]);
    registry.insert_project("churn".to_owned(), vec![entry("a", vec![true])]);
    registry.insert_project("churn".to_owned(), vec![entry("b", vec![false])]);
    let l = registry.lookup(&"stay".to_owned()).unwrap();
    assert_eq!(l[0].image_name, "kept");
}
