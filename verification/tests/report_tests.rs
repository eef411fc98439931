use dataspace_fetch::report::{aggregate, collect_key_outcomes, KeyOutcome, ProductOutcome};
use dataspace_fetch::PipelineError;

#[test]
fn key_outcomes_split_into_paths_and_failures() {
    let outcomes = vec![
        KeyOutcome {
            key: String::from("/b/p/manifest.xml"),
            result: Ok(String::from("target/manifest.xml")),
        },
        KeyOutcome {
            key: String::from("/b/p/data/B01.jp2"),
            result: Err(PipelineError::GetObjectFailed),
        },
        KeyOutcome {
            key: String::from("/b/p/extra.xml"),
            result: Ok(String::from("target/extra.xml")),
        },
        KeyOutcome {
            key: String::from("/b/p/broken.xml"),
            result: Err(PipelineError::LocalIOFailed),
        },
    ];
    let report = collect_key_outcomes(outcomes);
    assert_eq!(
        report.paths,
        vec![
            String::from("target/manifest.xml"),
            String::from("target/extra.xml"),
        ]
    );
    assert_eq!(report.key_failures.len(), 2);
    assert_eq!(report.key_failures[0].key, "/b/p/data/B01.jp2");
    assert_eq!(report.key_failures[0].error, PipelineError::GetObjectFailed);
    assert_eq!(report.key_failures[1].key, "/b/p/broken.xml");
    assert_eq!(report.key_failures[1].error, PipelineError::LocalIOFailed);
}

#[test]
fn one_failed_listing_leaves_other_products_untouched() {
    let outcomes: Vec<ProductOutcome> = (1..=5)
        .map(|i| {
            if i == 3 {
                ProductOutcome {
                    product: format!("/bucketA/product{}/item", i),
                    result: Err(PipelineError::ListFailed),
                }
            } else {
                ProductOutcome {
                    product: format!("/bucketA/product{}/item", i),
                    result: Ok(vec![format!("target/product{}/file", i)]),
                }
            }
        })
        .collect();
    let report = aggregate(outcomes);
    assert_eq!(
        report.written,
        vec![
            String::from("target/product1/file"),
            String::from("target/product2/file"),
            String::from("target/product4/file"),
            String::from("target/product5/file"),
        ]
    );
    assert_eq!(report.failures.len(), 1);
    assert_eq!(report.failures[0].product, "/bucketA/product3/item");
    assert_eq!(report.failures[0].error, PipelineError::ListFailed);
}

#[test]
fn aggregate_concatenates_paths_in_product_order() {
    let outcomes = vec![
        ProductOutcome {
            product: String::from("/b/p1/x"),
            result: Ok(vec![String::from("t/a"), String::from("t/b")]),
        },
        ProductOutcome {
            product: String::from("/b/p2/x"),
            result: Ok(Vec::new()),
        },
        ProductOutcome {
            product: String::from("/b/p3/x"),
            result: Ok(vec![String::from("t/c")]),
        },
    ];
    let report = aggregate(outcomes);
    assert_eq!(
        report.written,
        vec![String::from("t/a"), String::from("t/b"), String::from("t/c")]
    );
    assert!(report.failures.is_empty());
}
