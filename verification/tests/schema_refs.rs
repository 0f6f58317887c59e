use codev::schema_refs::{ImageContentRef, RoleRef, SchemaRef, TextContentRef};

#[test]
fn stand_ins_refer_to_their_targets() {
    assert_eq!(RoleRef::reference().ref_location, "#/components/schemas/Role");
    assert_eq!(TextContentRef::reference().ref_location, "#/components/schemas/TextContent");
    assert_eq!(ImageContentRef::reference().ref_location, "#/components/schemas/ImageContent");
}

#[test]
fn stand_ins_say_nothing_of_their_own() {
    for reference in [
        RoleRef::reference(),
        TextContentRef::reference(),
        ImageContentRef::reference(),
    ] {
        assert_eq!(reference.description, "");
        assert_eq!(reference.summary, "");
    }
}

#[test]
fn stand_ins_have_names_of_their_own() {
    assert_eq!(RoleRef::name(), "RoleRef");
    assert_eq!(TextContentRef::name(), "TextContentRef");
    assert_eq!(ImageContentRef::name(), "ImageContentRef");
    assert_ne!(RoleRef::name(), RoleRef::target_name());
    let targets = [
        RoleRef::target_name(),
        TextContentRef::target_name(),
        ImageContentRef::target_name(),
    ];
    for name in [RoleRef::name(), TextContentRef::name(), ImageContentRef::name()] {
        assert!(!targets.contains(&name.as_str()));
    }
}
