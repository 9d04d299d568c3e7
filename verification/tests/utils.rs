use completist::utils::{normalise_extension, path_extension};

#[test]
fn test_normalise_extension() {
    assert_eq!(normalise_extension("hello".to_string()), ".hello".to_string());
    assert_eq!(normalise_extension(".hello".to_string()), ".hello".to_string());
    assert_eq!(normalise_extension("he.llo".to_string()), ".he.llo".to_string());
    assert_eq!(normalise_extension(".he.llo".to_string()), ".he.llo".to_string());
    assert_eq!(normalise_extension("he.llo.".to_string()), ".he.llo.".to_string());
    assert_eq!(normalise_extension(".he.llo.".to_string()), ".he.llo.".to_string());
}

#[test]
fn normalise_extension_edge_cases() {
    assert_eq!(normalise_extension("".to_string()), ".".to_string());
    assert_eq!(normalise_extension(".".to_string()), ".".to_string());
    assert_eq!(normalise_extension("..".to_string()), "..".to_string());
    assert_eq!(normalise_extension("Fish".to_string()), ".Fish".to_string());
}

#[test]
fn path_extension_cases() {
    assert_eq!(path_extension("cat.fish"), Some("fish".to_string()));
    assert_eq!(path_extension("out/dir.d/cat.tar.gz"), Some("gz".to_string()));
    assert_eq!(path_extension("out/dir.d/cat"), None);
    assert_eq!(path_extension(".fish"), None);
    assert_eq!(path_extension("dir/.hidden"), None);
    assert_eq!(path_extension("dir/.hidden.fish"), Some("fish".to_string()));
    assert_eq!(path_extension("cat."), Some(String::new()));
    assert_eq!(path_extension(""), None);
    assert_eq!(path_extension("dir.d/"), None);
    assert_eq!(path_extension("--"), None);
}
