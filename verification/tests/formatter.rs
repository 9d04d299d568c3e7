use completist::formatter::FormatterBuilder;

#[test]
fn construct_builder() {
    let builder = FormatterBuilder::new("formatter name");
    assert_eq!(builder.name(), "formatter name");
    let formatter = builder.build().ok().expect("Not all required params filled in");
    assert_eq!(formatter.name(), "formatter name");
}

#[test]
fn update_extensions() {
    let mut builder = FormatterBuilder::new("formatter name");
    builder.ext(".fish").ext(".fsh").ext(".fish-completion");
    assert_eq!(builder.extension_count(), 3);

    builder.ext("fish"); // should be treated the same as ".fish"
    assert_eq!(builder.extension_count(), 3);

    builder.exts(&[".fs", ".fishy", ".fish.completion"]);
    assert_eq!(builder.extension_count(), 6);
}

#[test]
fn build_extensions() {
    let mut builder = FormatterBuilder::new("formatter name");
    builder.ext(".fish").exts(&[".fsh", "fish-completion"]);
    let formatter = builder.build().ok().expect("Not all required params filled in");
    assert_eq!(formatter.extension_count(), 3);

    let builder = FormatterBuilder::new("formatter name");
    let formatter = builder.build().ok().expect("Not all required params filled in");
    assert_eq!(formatter.extension_count(), 0);
}

#[test]
fn matches_extension() {
    let mut builder = FormatterBuilder::new("formatter");
    builder.exts(&[".fish", ".fsh"]);
    let formatter = builder.build().ok().expect("Not all required params filled in");

    assert!(formatter.matches_extension(".fish".to_string()));
    assert!(!formatter.matches_extension(".fhs".to_string()));
}

#[test]
fn extension_is_matched_as_written() {
    let mut builder = FormatterBuilder::new("formatter");
    builder.ext("fish");
    let formatter = builder.build().ok().expect("Not all required params filled in");
    assert!(formatter.matches_extension(".fish".to_string()));
    assert!(!formatter.matches_extension("fish".to_string()));
    assert!(!formatter.matches_extension(".FISH".to_string()));
}
