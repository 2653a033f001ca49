use vismatch_svc::descriptor::Descriptive;
use vismatch_svc::descriptor::ProjectDescriptor;

#[test]
fn descriptors_with_equal_fields_are_the_same_project() {
    let pa = ProjectDescriptor::new("12345", "Some");
    let pb = ProjectDescriptor::new("12345", "Some");
    assert!(pa == pb);
}

#[test]
fn differing_id_or_name_is_another_project() {
    let pa = ProjectDescriptor::new("12345", "Some");
    let pb = ProjectDescriptor::new("99999", "Some");
    let pc = ProjectDescriptor::new("12345", "Other");
    assert!(pa != pb);
    assert!(pa != pc);
}

#[test]
fn a_project_describes_itself_by_its_name() {
    let pa = ProjectDescriptor::new("12345", "Some");
    assert_eq!(pa.describe(), "Some");
}
