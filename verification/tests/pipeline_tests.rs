use dataspace_fetch::config::{
    default_opensearch_endpoint, default_s3_endpoint, Configuration, KeysConfiguration,
};
use dataspace_fetch::keys::{listing_parts, plan_download, product_prefix, subkeys_from_listing};
use dataspace_fetch::storage::StorageSettings;
use dataspace_fetch::PipelineError;

#[test]
fn xml_product_yields_exactly_the_manifest_in_target_root() {
    // The product is identified by /bucketA/S2A_MSI/manifest.xml; its objects
    // live under the prefix /bucketA/S2A_MSI/.
    let product_key = "/bucketA/S2A_MSI/manifest.xml";
    let settings = StorageSettings::new(
        String::from("https://eodata.example/"),
        String::from("key"),
        String::from("secret"),
        String::from("targetRoot"),
        vec![String::from("*.xml")],
    )
    .unwrap();

    let prefix = product_prefix(product_key).unwrap();
    assert_eq!(prefix, "/bucketA/S2A_MSI/");

    let parts = listing_parts(product_key).unwrap();
    assert_eq!(parts.bucket, "bucketA");
    assert_eq!(parts.prefix, "S2A_MSI/");

    // What the storage backend would answer for that bucket and prefix.
    let listed = vec![
        String::from("S2A_MSI/manifest.xml"),
        String::from("S2A_MSI/data/B01.jp2"),
    ];
    let keys = subkeys_from_listing(&parts.bucket, &listed);
    let kept = settings.patterns.select_keys(&keys);
    assert_eq!(kept, vec![String::from("/bucketA/S2A_MSI/manifest.xml")]);

    let plan = plan_download(&kept[0], &prefix, &settings.target_root).unwrap();
    assert_eq!(plan.bucket, "bucketA");
    assert_eq!(plan.object_path, "S2A_MSI/manifest.xml");
    assert_eq!(plan.local_dir, "targetRoot");
    assert_eq!(plan.local_path(), "targetRoot/manifest.xml");
}

#[test]
fn settings_reject_invalid_glob_before_any_work() {
    let err = StorageSettings::new(
        String::from("https://eodata.example/"),
        String::from("key"),
        String::from("secret"),
        String::from("target"),
        vec![String::from("*.xml"), String::from("[")],
    )
    .unwrap_err();
    assert_eq!(err, PipelineError::InvalidGlobPattern);
}

#[test]
fn settings_keep_the_configured_values() {
    let settings = StorageSettings::new(
        String::from("https://eodata.example/"),
        String::from("key-id"),
        String::from("secret"),
        String::from("target"),
        vec![String::from("*.xml")],
    )
    .unwrap();
    assert_eq!(settings.endpoint_url, "https://eodata.example/");
    assert_eq!(settings.access_key_id, "key-id");
    assert_eq!(settings.secret_access_key, "secret");
    assert_eq!(settings.target_root, "target");
    assert_eq!(settings.patterns.len(), 1);
}

#[test]
fn default_endpoints_are_the_documented_ones() {
    assert_eq!(
        default_opensearch_endpoint(),
        "https://catalogue.dataspace.copernicus.eu/resto/api/collections/"
    );
    assert_eq!(default_s3_endpoint(), "https://eodata.dataspace.copernicus.eu/");
}

#[test]
fn default_configuration_values() {
    let config = Configuration::default();
    assert_eq!(
        config.endpoint_url,
        "https://catalogue.dataspace.copernicus.eu/resto/api/collections/"
    );
    assert!(config.collection.is_none());
    assert!(config.query.is_empty());
    assert!(!config.depaginate);
    assert!(config.glob_patterns.is_empty());
}

#[test]
fn default_keys_configuration_values() {
    let keys = KeysConfiguration::default();
    assert_eq!(keys.endpoint_url, "https://eodata.dataspace.copernicus.eu/");
    assert_eq!(keys.access_key_id, "not-set");
    assert_eq!(keys.secret_access_key, "not-set");
}
