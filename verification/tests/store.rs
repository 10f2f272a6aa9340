use block_validator::result::{BlockStatus, BlockValidationResult, TxnExecutionResult};
use block_validator::service::ResultKeeper;
use block_validator::store::{
    BlockStatusStore, BlockValidationResultStore, BLOCK_VALIDATION_RESULT_CACHE_SIZE,
};

fn result(block_id: &str, status: BlockStatus) -> BlockValidationResult {
    BlockValidationResult::new(block_id.into(), vec![], 0, status)
}

fn numbered(n: usize) -> BlockValidationResult {
    BlockValidationResult::new(format!("block-{}", n), vec![], n as u64, BlockStatus::Valid)
}

#[test]
fn a_new_store_knows_nothing() {
    let mut store = BlockValidationResultStore::new();
    assert!(store.get("A").is_none());
    assert_eq!(store.status("A"), BlockStatus::Unknown);
}

#[test]
fn what_was_stored_is_found() {
    let mut store = BlockValidationResultStore::new();
    store.insert(BlockValidationResult::new(
        "A".into(),
        vec![TxnExecutionResult {
            signature: "t".into(),
            is_valid: true,
            receipt: vec![3, 1],
        }],
        1,
        BlockStatus::Valid,
    ));
    store.insert(result("B", BlockStatus::Invalid));
    let a = store.get("A").unwrap();
    assert_eq!(a.block_id, "A");
    assert_eq!(a.execution_results.len(), 1);
    assert_eq!(a.execution_results[0].signature, "t");
    assert!(a.execution_results[0].is_valid);
    assert_eq!(a.execution_results[0].receipt, vec![3, 1]);
    assert_eq!(a.num_transactions, 1);
    assert_eq!(a.status, BlockStatus::Valid);
    assert_eq!(store.status("B"), BlockStatus::Invalid);
    assert_eq!(store.status("C"), BlockStatus::Unknown);
}

#[test]
fn the_latest_result_of_a_block_counts() {
    let mut store = BlockValidationResultStore::new();
    store.insert(result("A", BlockStatus::Valid));
    store.insert(result("A", BlockStatus::Invalid));
    assert_eq!(store.status("A"), BlockStatus::Invalid);
    assert_eq!(store.get("A").unwrap().status, BlockStatus::Invalid);
}

#[test]
fn a_result_is_kept_until_there_is_no_room() {
    let mut store = BlockValidationResultStore::new();
    for n in 0..BLOCK_VALIDATION_RESULT_CACHE_SIZE {
        store.insert(numbered(n));
    }
    store.insert(numbered(BLOCK_VALIDATION_RESULT_CACHE_SIZE));
    assert!(store.get("block-0").is_none());
    assert_eq!(store.get("block-1").unwrap().num_transactions, 1);
    assert_eq!(
        store.get("block-512").unwrap().num_transactions,
        BLOCK_VALIDATION_RESULT_CACHE_SIZE as u64
    );
}

#[test]
fn asking_keeps_a_result_longer() {
    let mut store = BlockValidationResultStore::new();
    for n in 0..BLOCK_VALIDATION_RESULT_CACHE_SIZE {
        store.insert(numbered(n));
    }
    assert_eq!(store.status("block-0"), BlockStatus::Valid);
    store.insert(numbered(BLOCK_VALIDATION_RESULT_CACHE_SIZE));
    assert!(store.get("block-0").is_some());
    assert!(store.get("block-1").is_none());
}

#[test]
fn a_result_that_is_asked_for_is_never_forgotten() {
    let mut store = BlockValidationResultStore::new();
    store.insert(result("A", BlockStatus::Invalid));
    for n in 0..3 * BLOCK_VALIDATION_RESULT_CACHE_SIZE {
        store.insert(numbered(n));
        if n % (BLOCK_VALIDATION_RESULT_CACHE_SIZE - 1) == 0 {
            assert_eq!(store.status("A"), BlockStatus::Invalid);
        }
    }
}

#[test]
fn a_result_is_forgotten_whatever_else_is_asked_for() {
    let mut store = BlockValidationResultStore::new();
    store.insert(result("A", BlockStatus::Invalid));
    for n in 0..BLOCK_VALIDATION_RESULT_CACHE_SIZE {
        store.insert(numbered(n));
        assert_eq!(store.status("block-0"), BlockStatus::Valid);
    }
    assert!(store.get("A").is_none());
    assert!(store.get("block-1").is_some());
}

#[test]
fn asking_for_others_takes_up_no_more_than_their_place() {
    let mut store = BlockValidationResultStore::new();
    store.insert(result("A", BlockStatus::Invalid));
    for n in 0..BLOCK_VALIDATION_RESULT_CACHE_SIZE / 2 {
        store.insert(numbered(n));
        if n > 0 {
            assert!(store.get("block-0").is_some());
        }
    }
    assert_eq!(store.status("A"), BlockStatus::Invalid);
}

#[test]
fn asking_in_vain_forgets_nothing() {
    let mut store = BlockValidationResultStore::new();
    for n in 0..BLOCK_VALIDATION_RESULT_CACHE_SIZE {
        store.insert(numbered(n));
    }
    for n in 0..2 * BLOCK_VALIDATION_RESULT_CACHE_SIZE {
        assert!(store.get(&format!("other-{}", n)).is_none());
    }
    assert_eq!(store.status("block-0"), BlockStatus::Valid);
}

#[test]
fn storing_a_result_again_keeps_its_block_longer() {
    let mut store = BlockValidationResultStore::new();
    store.insert(result("A", BlockStatus::Invalid));
    for n in 0..BLOCK_VALIDATION_RESULT_CACHE_SIZE - 1 {
        store.insert(numbered(n));
    }
    store.insert(result("A", BlockStatus::Valid));
    for n in 0..BLOCK_VALIDATION_RESULT_CACHE_SIZE - 1 {
        store.insert(numbered(n));
    }
    assert_eq!(store.status("A"), BlockStatus::Valid);
}

#[test]
fn keeping_a_result_stores_it() {
    let store = BlockValidationResultStore::new().keep(result("A", BlockStatus::Invalid));
    let mut store = store.keep(result("B", BlockStatus::Valid));
    assert_eq!(store.status("A"), BlockStatus::Invalid);
    assert_eq!(store.status("B"), BlockStatus::Valid);
}

#[test]
fn asking_changes_no_answer() {
    let mut store = BlockValidationResultStore::new();
    store.insert(result("A", BlockStatus::Valid));
    store.insert(result("B", BlockStatus::Invalid));
    for _ in 0..3 {
        assert_eq!(store.status("A"), BlockStatus::Valid);
        assert_eq!(store.status("B"), BlockStatus::Invalid);
    }
}

#[test]
fn a_default_store_is_a_new_one() {
    assert!(BlockValidationResultStore::default().get("A").is_none());
}
