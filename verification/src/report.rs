//! Aggregation of per-key and per-product outcomes into a batch report:
//! successes are collected, failures are recorded against the key or product
//! they belong to, and no failure removes or reorders anybody else's results.

use vstd::prelude::*;

use crate::PipelineError;

verus! {

/// The outcome of downloading one object key: the local path written, or the
/// error that stopped that key alone.
pub struct KeyOutcome {
    pub key: String,
    pub result: Result<String, PipelineError>,
}

/// One key that failed, and how.
pub struct KeyFailure {
    pub key: String,
    pub error: PipelineError,
}

/// What one product's processing produced: the paths written for its keys,
/// and the keys that failed.
pub struct ProductReport {
    pub paths: Vec<String>,
    pub key_failures: Vec<KeyFailure>,
}

/// The paths of the successful key outcomes, in order.
pub open spec fn spec_paths(outcomes: Seq<KeyOutcome>) -> Seq<String>
    decreases outcomes.len(),
{
    if outcomes.len() == 0 {
        Seq::empty()
    } else {
        spec_paths(outcomes.drop_last()) + (match outcomes.last().result {
            Ok(p) => seq![p],
            Err(_) => Seq::empty(),
        })
    }
}

/// The failed keys with their errors, in order.
pub open spec fn spec_key_failures(outcomes: Seq<KeyOutcome>) -> Seq<KeyFailure>
    decreases outcomes.len(),
{
    if outcomes.len() == 0 {
        Seq::empty()
    } else {
        spec_key_failures(outcomes.drop_last()) + (match outcomes.last().result {
            Ok(_) => Seq::empty(),
            Err(e) => seq![KeyFailure { key: outcomes.last().key, error: e }],
        })
    }
}

/// Collects one product's per-key outcomes: every path written, in key
/// order, and every key that failed, with its error — a failed key never
/// disturbs the others.
pub fn collect_key_outcomes(outcomes: Vec<KeyOutcome>) -> (r: ProductReport)
    ensures
        r.paths@ == spec_paths(outcomes@),
        r.key_failures@ == spec_key_failures(outcomes@),
{
    let mut paths: Vec<String> = Vec::new();
    let mut key_failures: Vec<KeyFailure> = Vec::new();
    let mut i: usize = 0;
    proof {
        assert(outcomes@.subrange(0, 0) =~= Seq::<KeyOutcome>::empty());
    }
    while i < outcomes.len()
        invariant
            0 <= i <= outcomes@.len(),
            paths@ == spec_paths(outcomes@.subrange(0, i as int)),
            key_failures@ == spec_key_failures(outcomes@.subrange(0, i as int)),
        decreases outcomes@.len() - i,
    {
        let ghost pre = outcomes@.subrange(0, i as int);
        match &outcomes[i].result {
            Ok(p) => {
                paths.push(p.clone());
            },
            Err(e) => {
                key_failures.push(KeyFailure { key: outcomes[i].key.clone(), error: *e });
            },
        }
        proof {
            let cur = outcomes@.subrange(0, i + 1 as int);
            assert(cur.drop_last() =~= pre);
            assert(paths@ =~= spec_paths(cur));
            assert(key_failures@ =~= spec_key_failures(cur));
        }
        i = i + 1;
    }
    proof {
        assert(outcomes@.subrange(0, outcomes@.len() as int) =~= outcomes@);
    }
    ProductReport { paths, key_failures }
}

/// The outcome of one whole product: the paths written for it, or the error
/// that aborted this product alone.
pub struct ProductOutcome {
    pub product: String,
    pub result: Result<Vec<String>, PipelineError>,
}

/// One product that failed, and how.
pub struct ProductFailure {
    pub product: String,
    pub error: PipelineError,
}

/// What a whole run produced: every path written, and every product that
/// failed.
pub struct BatchReport {
    pub written: Vec<String>,
    pub failures: Vec<ProductFailure>,
}

/// The paths of the successful products, concatenated in product order.
pub open spec fn spec_written(outcomes: Seq<ProductOutcome>) -> Seq<String>
    decreases outcomes.len(),
{
    if outcomes.len() == 0 {
        Seq::empty()
    } else {
        spec_written(outcomes.drop_last()) + (match outcomes.last().result {
            Ok(ps) => ps@,
            Err(_) => Seq::empty(),
        })
    }
}

/// The failed products with their errors, in order.
pub open spec fn spec_failures(outcomes: Seq<ProductOutcome>) -> Seq<ProductFailure>
    decreases outcomes.len(),
{
    if outcomes.len() == 0 {
        Seq::empty()
    } else {
        spec_failures(outcomes.drop_last()) + (match outcomes.last().result {
            Ok(_) => Seq::empty(),
            Err(e) => seq![ProductFailure { product: outcomes.last().product, error: e }],
        })
    }
}

/// Aggregates every product's outcome into the batch report: the union of
/// all written paths, in product order, and a record of exactly the products
/// that failed — the run itself never fails here.
pub fn aggregate(outcomes: Vec<ProductOutcome>) -> (r: BatchReport)
    ensures
        r.written@ == spec_written(outcomes@),
        r.failures@ == spec_failures(outcomes@),
{
    let mut written: Vec<String> = Vec::new();
    let mut failures: Vec<ProductFailure> = Vec::new();
    let mut i: usize = 0;
    proof {
        assert(outcomes@.subrange(0, 0) =~= Seq::<ProductOutcome>::empty());
    }
    while i < outcomes.len()
        invariant
            0 <= i <= outcomes@.len(),
            written@ == spec_written(outcomes@.subrange(0, i as int)),
            failures@ == spec_failures(outcomes@.subrange(0, i as int)),
        decreases outcomes@.len() - i,
    {
        let ghost pre = outcomes@.subrange(0, i as int);
        let ghost before = written@;
        match &outcomes[i].result {
            Ok(ps) => {
                let mut j: usize = 0;
                while j < ps.len()
                    invariant
                        0 <= j <= ps@.len(),
                        written@ == before + ps@.subrange(0, j as int),
                    decreases ps@.len() - j,
                {
                    written.push(ps[j].clone());
                    proof {
                        assert(written@ =~= before + ps@.subrange(0, j + 1 as int));
                    }
                    j = j + 1;
                }
                proof {
                    assert(ps@.subrange(0, ps@.len() as int) =~= ps@);
                }
            },
            Err(e) => {
                failures.push(
                    ProductFailure { product: outcomes[i].product.clone(), error: *e },
                );
            },
        }
        proof {
            let cur = outcomes@.subrange(0, i + 1 as int);
            assert(cur.drop_last() =~= pre);
            assert(written@ =~= spec_written(cur));
            assert(failures@ =~= spec_failures(cur));
        }
        i = i + 1;
    }
    proof {
        assert(outcomes@.subrange(0, outcomes@.len() as int) =~= outcomes@);
    }
    BatchReport { written, failures }
}

/// Law: failures are isolated. Whatever the other products did, a product
/// that succeeded has every one of its paths in the batch report, and a
/// product that failed is recorded in it with its error.
pub proof fn lemma_failure_isolation(outcomes: Seq<ProductOutcome>, i: int)
    requires
        0 <= i < outcomes.len(),
    ensures
        outcomes[i].result matches Err(e) ==> spec_failures(outcomes).contains(
            ProductFailure { product: outcomes[i].product, error: e },
        ),
        outcomes[i].result matches Ok(ps) ==> forall|j: int|
            0 <= j < ps@.len() ==> spec_written(outcomes).contains(#[trigger] ps@[j]),
    decreases outcomes.len(),
{
    if i == outcomes.len() - 1 {
        match outcomes[i].result {
            Err(e) => {
                let f = ProductFailure { product: outcomes[i].product, error: e };
                assert(spec_failures(outcomes).last() == f);
            },
            Ok(ps) => {
                let pre = spec_written(outcomes.drop_last());
                assert forall|j: int| 0 <= j < ps@.len() implies spec_written(outcomes).contains(
                    #[trigger] ps@[j],
                ) by {
                    assert(spec_written(outcomes)[pre.len() + j] == ps@[j]);
                }
            },
        }
    } else {
        lemma_failure_isolation(outcomes.drop_last(), i);
        assert(outcomes.drop_last()[i] == outcomes[i]);
        match outcomes[i].result {
            Err(e) => {
                let f = ProductFailure { product: outcomes[i].product, error: e };
                let k = choose|k: int|
                    0 <= k < spec_failures(outcomes.drop_last()).len() && spec_failures(
                        outcomes.drop_last(),
                    )[k] == f;
                assert(spec_failures(outcomes)[k] == f);
            },
            Ok(ps) => {
                assert forall|j: int| 0 <= j < ps@.len() implies spec_written(outcomes).contains(
                    #[trigger] ps@[j],
                ) by {
                    assert(spec_written(outcomes.drop_last()).contains(ps@[j]));
                    let k = choose|k: int|
                        0 <= k < spec_written(outcomes.drop_last()).len() && spec_written(
                            outcomes.drop_last(),
                        )[k] == ps@[j];
                    assert(spec_written(outcomes)[k] == ps@[j]);
                }
            },
        }
    }
}

} // verus!
