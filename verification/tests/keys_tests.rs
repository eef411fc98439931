use dataspace_fetch::keys::{
    file_name, listing_parts, local_folder, plan_download, product_prefix, split,
    subkeys_from_listing,
};
use dataspace_fetch::PipelineError;

#[test]
fn split_recovers_bucket_and_path() {
    let (bucket, path) = split("/bucketA/S2A_MSI/manifest.xml").unwrap();
    assert_eq!(bucket, "bucketA");
    assert_eq!(path, "S2A_MSI/manifest.xml");
}

#[test]
fn split_accepts_bucket_only_key() {
    let (bucket, path) = split("/bucketA").unwrap();
    assert_eq!(bucket, "bucketA");
    assert_eq!(path, "");
}

#[test]
fn split_rejects_key_without_second_segment() {
    assert_eq!(split("bucketA").unwrap_err(), PipelineError::MalformedKey);
    assert_eq!(split("").unwrap_err(), PipelineError::MalformedKey);
    assert_eq!(split("/").unwrap_err(), PipelineError::MalformedKey);
}

#[test]
fn split_rejects_empty_segments() {
    assert_eq!(split("//bucketA").unwrap_err(), PipelineError::MalformedKey);
    assert_eq!(split("/bucketA//x").unwrap_err(), PipelineError::MalformedKey);
    assert_eq!(split("/bucketA/x/").unwrap_err(), PipelineError::MalformedKey);
    assert_eq!(split("bucketA/x").unwrap_err(), PipelineError::MalformedKey);
}

#[test]
fn product_prefix_drops_final_segment() {
    let prefix = product_prefix("/bucketA/S2A_MSI/manifest.xml").unwrap();
    assert_eq!(prefix, "/bucketA/S2A_MSI/");
    let prefix = product_prefix("/bucketA/file").unwrap();
    assert_eq!(prefix, "/bucketA/");
}

#[test]
fn product_prefix_rejects_malformed_key() {
    assert_eq!(
        product_prefix("no-bucket").unwrap_err(),
        PipelineError::MalformedKey
    );
}

#[test]
fn file_name_is_final_segment() {
    assert_eq!(file_name("/bucketA/S2A_MSI/manifest.xml"), "manifest.xml");
    assert_eq!(file_name("plain"), "plain");
}

#[test]
fn local_folder_joins_parent_onto_target_root() {
    let dir = local_folder("/b/p/q/f.xml", "/b/p/", "root").unwrap();
    assert_eq!(dir, "root/q");
}

#[test]
fn local_folder_with_flat_remainder_is_target_root() {
    let dir = local_folder("/b/p/f.xml", "/b/p/", "root").unwrap();
    assert_eq!(dir, "root");
}

#[test]
fn local_folder_rejects_foreign_prefix() {
    assert_eq!(
        local_folder("/b/p/f.xml", "/other/", "root").unwrap_err(),
        PipelineError::NotRelative
    );
}

#[test]
fn listing_parts_drop_final_segment_and_keep_separator() {
    let parts = listing_parts("/bucketA/S2A_MSI/manifest.xml").unwrap();
    assert_eq!(parts.bucket, "bucketA");
    assert_eq!(parts.prefix, "S2A_MSI/");
}

#[test]
fn listing_parts_reject_malformed_key() {
    assert_eq!(
        listing_parts("bucketA").unwrap_err(),
        PipelineError::MalformedKey
    );
}

#[test]
fn subkeys_are_rebuilt_from_bucket_and_listing() {
    let listed = vec![
        String::from("S2A_MSI/manifest.xml"),
        String::from("S2A_MSI/data/B01.jp2"),
    ];
    let keys = subkeys_from_listing("bucketA", &listed);
    assert_eq!(
        keys,
        vec![
            String::from("/bucketA/S2A_MSI/manifest.xml"),
            String::from("/bucketA/S2A_MSI/data/B01.jp2"),
        ]
    );
}

#[test]
fn plan_download_derives_all_parts() {
    let plan = plan_download("/bucketA/S2A_MSI/data/B01.jp2", "/bucketA/S2A_MSI/", "target")
        .unwrap();
    assert_eq!(plan.bucket, "bucketA");
    assert_eq!(plan.object_path, "S2A_MSI/data/B01.jp2");
    assert_eq!(plan.local_dir, "target/data");
    assert_eq!(plan.file_name, "B01.jp2");
    assert_eq!(plan.local_path(), "target/data/B01.jp2");
}

#[test]
fn plan_download_classifies_failures() {
    assert_eq!(
        plan_download("no-bucket", "/b/", "t").unwrap_err(),
        PipelineError::MalformedKey
    );
    assert_eq!(
        plan_download("/b/p/f.xml", "/elsewhere/", "t").unwrap_err(),
        PipelineError::NotRelative
    );
}
