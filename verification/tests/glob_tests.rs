use dataspace_fetch::globset::GlobPatternSet;
use dataspace_fetch::PipelineError;

#[test]
fn empty_pattern_set_matches_any_key() {
    let set = GlobPatternSet::new(Vec::new()).unwrap();
    assert!(set.matches("/bucketA/S2A_MSI/manifest.xml"));
    assert!(set.matches(""));
    assert!(set.matches("anything at all"));
}

#[test]
fn xml_pattern_selects_manifest_and_skips_jp2() {
    let set = GlobPatternSet::new(vec![String::from("*.xml")]).unwrap();
    assert!(set.matches("/bucketA/S2A_MSI/manifest.xml"));
    assert!(!set.matches("/bucketA/S2A_MSI/data.jp2"));
}

#[test]
fn any_pattern_of_the_set_suffices() {
    let set = GlobPatternSet::new(vec![String::from("*.txt"), String::from("*.jp2")]).unwrap();
    assert!(set.matches("/bucketA/S2A_MSI/data/B01.jp2"));
    assert!(!set.matches("/bucketA/S2A_MSI/manifest.xml"));
}

#[test]
fn question_mark_matches_single_character() {
    let set = GlobPatternSet::new(vec![String::from("c?t")]).unwrap();
    assert!(set.matches("cat"));
    assert!(!set.matches("cart"));
}

#[test]
fn invalid_pattern_fails_construction() {
    let err = GlobPatternSet::new(vec![String::from("a[")]).unwrap_err();
    assert_eq!(err, PipelineError::InvalidGlobPattern);
    let err = GlobPatternSet::new(vec![String::from("ok*"), String::from("***")]).unwrap_err();
    assert_eq!(err, PipelineError::InvalidGlobPattern);
}

#[test]
fn select_keys_keeps_matching_keys_in_order() {
    let set = GlobPatternSet::new(vec![String::from("*.xml")]).unwrap();
    let keys = vec![
        String::from("/b/p/manifest.xml"),
        String::from("/b/p/data/B01.jp2"),
        String::from("/b/p/extra.xml"),
    ];
    let kept = set.select_keys(&keys);
    assert_eq!(
        kept,
        vec![
            String::from("/b/p/manifest.xml"),
            String::from("/b/p/extra.xml"),
        ]
    );
}

#[test]
fn select_keys_with_empty_set_keeps_everything() {
    let set = GlobPatternSet::new(Vec::new()).unwrap();
    let keys = vec![String::from("/b/p/a"), String::from("/b/p/b")];
    assert_eq!(set.select_keys(&keys), keys);
}

#[test]
fn pattern_set_len_counts_patterns() {
    let set = GlobPatternSet::new(vec![String::from("*.xml"), String::from("*.jp2")]).unwrap();
    assert_eq!(set.len(), 2);
}
