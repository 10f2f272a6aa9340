use block_validator::block::{Batch, Block, Transaction};
use block_validator::duplicates::DuplicatesAndDependenciesValidation;
use block_validator::error::{ChainCommitStateError, ServiceError, ValidationError};
use block_validator::permission::{judge_permissions, PermissionValidation};
use block_validator::rules::{check_housekeeping, OnChainRulesValidation};
use block_validator::service::{BlockManager, PermissionVerifier, SettingsView, StateViewFactory};
use block_validator::validation::BlockValidation;
use std::sync::{Arc, Mutex};

fn transaction(id: &str, payload: &[u8]) -> Transaction {
    Transaction {
        header_signature: id.into(),
        dependencies: vec![format!("{}-before", id)],
        payload: payload.to_vec(),
        header_bytes: vec![],
    }
}

fn batch(id: &str, transactions: Vec<Transaction>) -> Batch {
    Batch {
        header_signature: id.into(),
        signer_public_key: format!("{}-key", id),
        transactions,
        header_bytes: vec![],
    }
}

fn block(block_num: u64, batches: Vec<Batch>) -> Block {
    Block {
        header_signature: "B1".into(),
        batches,
        state_root_hash: "end".into(),
        consensus: vec![],
        batch_ids: vec![],
        signer_public_key: "signer".into(),
        previous_block_id: "B0".into(),
        block_num,
        header_bytes: vec![],
    }
}

fn two_batches(block_num: u64) -> Block {
    block(
        block_num,
        vec![
            batch("b1", vec![transaction("t1", b"one"), transaction("t2", b"two")]),
            batch("b2", vec![transaction("t3", b"three")]),
        ],
    )
}

type Log = Arc<Mutex<Vec<String>>>;

/// A block tree whose searches find what they are told to.
struct Tree {
    batches: Option<ChainCommitStateError>,
    transactions: Option<ChainCommitStateError>,
    dependencies: Option<ChainCommitStateError>,
    log: Log,
}

fn told(finding: &Option<ChainCommitStateError>) -> Result<(), ChainCommitStateError> {
    match finding {
        None => Ok(()),
        Some(ChainCommitStateError::DuplicateBatch(id)) => {
            Err(ChainCommitStateError::DuplicateBatch(id.clone()))
        }
        Some(ChainCommitStateError::DuplicateTransaction(id)) => {
            Err(ChainCommitStateError::DuplicateTransaction(id.clone()))
        }
        Some(_) => Err(ChainCommitStateError::BlockStoreUpdated),
    }
}

impl BlockManager for Tree {
    fn get(&self, _block_ids: &[&String]) -> Vec<Option<Block>> {
        vec![]
    }

    fn validate_no_duplicate_batches(
        &self,
        branch_head_id: &String,
        batch_ids: &[&String],
    ) -> Result<(), ChainCommitStateError> {
        self.log
            .lock()
            .unwrap()
            .push(format!("batches {} {:?}", branch_head_id, batch_ids));
        told(&self.batches)
    }

    fn validate_no_duplicate_transactions(
        &self,
        branch_head_id: &String,
        transaction_ids: &[&String],
    ) -> Result<(), ChainCommitStateError> {
        self.log
            .lock()
            .unwrap()
            .push(format!("transactions {} {:?}", branch_head_id, transaction_ids));
        told(&self.transactions)
    }

    fn validate_transaction_dependencies(
        &self,
        branch_head_id: &String,
        transactions: &Vec<Transaction>,
    ) -> Result<(), ChainCommitStateError> {
        let dependencies: Vec<&String> =
            transactions.iter().flat_map(|t| t.dependencies.iter()).collect();
        self.log
            .lock()
            .unwrap()
            .push(format!("dependencies {} {:?}", branch_head_id, dependencies));
        told(&self.dependencies)
    }
}

fn search(
    batches: Option<ChainCommitStateError>,
    transactions: Option<ChainCommitStateError>,
    dependencies: Option<ChainCommitStateError>,
) -> (Result<(), ValidationError>, Vec<String>) {
    let log: Log = Arc::new(Mutex::new(vec![]));
    let validation = DuplicatesAndDependenciesValidation::new(Tree {
        batches,
        transactions,
        dependencies,
        log: log.clone(),
    });
    let result = validation.validate_block(&two_batches(3), None);
    let calls = log.lock().unwrap().clone();
    (result, calls)
}

#[test]
fn the_chain_is_searched_for_everything_in_the_block() {
    let (result, calls) = search(None, None, None);
    assert_eq!(result, Ok(()));
    assert_eq!(
        calls,
        vec![
            "batches B0 [\"b1\", \"b2\"]",
            "transactions B0 [\"t1\", \"t2\", \"t3\"]",
            "dependencies B0 [\"t1-before\", \"t2-before\", \"t3-before\"]",
        ]
    );
}

#[test]
fn the_search_ends_with_the_first_finding() {
    let (result, calls) = search(
        Some(ChainCommitStateError::DuplicateBatch("b2".into())),
        Some(ChainCommitStateError::BlockStoreUpdated),
        None,
    );
    assert_eq!(
        result,
        Err(ValidationError::BlockValidationFailure(
            "Validation failure, duplicate batch b2".into()
        ))
    );
    assert_eq!(calls.len(), 1);
    let (result, calls) = search(
        None,
        Some(ChainCommitStateError::DuplicateTransaction("t3".into())),
        None,
    );
    assert_eq!(
        result,
        Err(ValidationError::BlockValidationFailure(
            "Validation failure, duplicate transaction t3".into()
        ))
    );
    assert_eq!(calls.len(), 2);
    let (result, calls) = search(None, None, Some(ChainCommitStateError::BlockStoreUpdated));
    assert_eq!(result, Err(ValidationError::BlockStoreUpdated));
    assert_eq!(calls.len(), 3);
}

/// Permissions that refuse the signers of the given batches.
struct Refusing {
    refused: Vec<String>,
    log: Log,
}

impl PermissionVerifier for Refusing {
    fn is_batch_signer_authorized(&self, batch: &Batch, state_root: &String) -> bool {
        self.log
            .lock()
            .unwrap()
            .push(format!("{} {}", batch.signer_public_key, state_root));
        !self.refused.contains(&batch.header_signature)
    }
}

fn ask(
    refused: &[&str],
    block_num: u64,
    root: Option<&String>,
) -> (Result<(), ValidationError>, Vec<String>) {
    let log: Log = Arc::new(Mutex::new(vec![]));
    let validation = PermissionValidation::new(Refusing {
        refused: refused.iter().map(|id| id.to_string()).collect(),
        log: log.clone(),
    });
    let result = validation.validate_block(&two_batches(block_num), root);
    let calls = log.lock().unwrap().clone();
    (result, calls)
}

#[test]
fn all_signers_have_to_be_authorized() {
    let root = "root".to_string();
    let (result, calls) = ask(&[], 3, Some(&root));
    assert_eq!(result, Ok(()));
    assert_eq!(calls, vec!["b1-key root", "b2-key root"]);
    let (result, _) = ask(&["b2"], 3, Some(&root));
    assert_eq!(
        result,
        Err(ValidationError::BlockValidationFailure(
            "Block B1 failed permission verification: batch b2 signer is not authorized".into()
        ))
    );
    let (result, calls) = ask(&["b1", "b2"], 3, Some(&root));
    assert_eq!(
        result,
        Err(ValidationError::BlockValidationFailure(
            "Block B1 failed permission verification: batch b1 signer is not authorized".into()
        ))
    );
    assert_eq!(calls.len(), 1);
}

#[test]
fn the_first_block_needs_no_permission() {
    let (result, calls) = ask(&["b1", "b2"], 0, None);
    assert_eq!(result, Ok(()));
    assert!(calls.is_empty());
}

#[test]
fn permissions_need_a_predecessor() {
    let (result, calls) = ask(&[], 12, None);
    assert_eq!(
        result,
        Err(ValidationError::BlockValidationError(
            "During permission check of block B1 block_num is 12 but missing a previous state root"
                .into()
        ))
    );
    assert!(calls.is_empty());
}

#[test]
fn answers_on_signers_are_judged() {
    let judged = judge_permissions(&two_batches(3), true, &vec![true, false]);
    assert_eq!(
        judged,
        Err(ValidationError::BlockValidationFailure(
            "Block B1 failed permission verification: batch b2 signer is not authorized".into()
        ))
    );
    assert_eq!(judge_permissions(&two_batches(3), true, &vec![true, true]), Ok(()));
    assert_eq!(judge_permissions(&two_batches(0), false, &vec![false]), Ok(()));
}

/// Settings whose rules are obeyed or not, as told.
struct Settings {
    opens: bool,
    obeyed: bool,
    log: Log,
}

impl StateViewFactory for Settings {
    type View = OpenSettings;

    fn create_view(&self, state_root: &String) -> Result<OpenSettings, ServiceError> {
        self.log.lock().unwrap().push(format!("open {}", state_root));
        if self.opens {
            Ok(OpenSettings {
                obeyed: self.obeyed,
                log: self.log.clone(),
            })
        } else {
            Err(ServiceError {
                detail: "NotFound".into(),
            })
        }
    }
}

struct OpenSettings {
    obeyed: bool,
    log: Log,
}

impl SettingsView for OpenSettings {
    fn enforce_validation_rules(&self, signer_public_key: &String, batches: &Vec<Batch>) -> bool {
        let ids: Vec<&String> = batches.iter().map(|b| &b.header_signature).collect();
        self.log
            .lock()
            .unwrap()
            .push(format!("enforce {} {:?}", signer_public_key, ids));
        self.obeyed
    }
}

fn hold_to_rules(
    opens: bool,
    obeyed: bool,
    payload: &[u8],
    block_num: u64,
    root: Option<&String>,
) -> (Result<(), ValidationError>, Vec<String>) {
    hold_block_to_rules(opens, obeyed, payload, two_batches(block_num), root)
}

fn hold_block_to_rules(
    opens: bool,
    obeyed: bool,
    payload: &[u8],
    block: Block,
    root: Option<&String>,
) -> (Result<(), ValidationError>, Vec<String>) {
    let log: Log = Arc::new(Mutex::new(vec![]));
    let injector_payload = {
        let gil = cpython::Python::acquire_gil();
        cpython::PyBytes::new(gil.python(), payload)
    };
    let validation = OnChainRulesValidation::new(
        Settings {
            opens,
            obeyed,
            log: log.clone(),
        },
        Arc::new(injector_payload),
    );
    let result = validation.validate_block(&block, root);
    let calls = log.lock().unwrap().clone();
    (result, calls)
}

#[test]
fn rules_in_the_settings_are_enforced() {
    let root = "root".to_string();
    let (result, calls) = hold_to_rules(true, true, b"house", 3, Some(&root));
    assert_eq!(result, Ok(()));
    assert_eq!(calls, vec!["open root", "enforce signer [\"b1\", \"b2\"]"]);
    let (result, _) = hold_to_rules(true, false, b"house", 3, Some(&root));
    assert_eq!(
        result,
        Err(ValidationError::BlockValidationFailure(
            "Block B1 failed validation rules".into()
        ))
    );
}

#[test]
fn settings_that_cannot_be_opened_are_an_error() {
    let root = "root".to_string();
    let (result, calls) = hold_to_rules(false, true, b"three", 3, Some(&root));
    assert_eq!(
        result,
        Err(ValidationError::BlockValidationError(
            "During validate_on_chain_rules, error creating settings view: NotFound".into()
        ))
    );
    assert_eq!(calls, vec!["open root"]);
}

#[test]
fn housekeeping_belongs_into_the_first_batch() {
    let root = "root".to_string();
    let (result, calls) = hold_to_rules(true, true, b"three", 3, Some(&root));
    assert_eq!(
        result,
        Err(ValidationError::BlockValidationFailure(
            "Block invalid B1 due to unneeded housekeeping.".into()
        ))
    );
    assert_eq!(calls, vec!["open root"]);
    let (result, _) = hold_to_rules(true, true, b"one", 3, Some(&root));
    assert_eq!(result, Ok(()));
    let (result, _) = hold_to_rules(true, true, b"thre", 3, Some(&root));
    assert_eq!(result, Ok(()));
}

#[test]
fn the_first_block_is_held_to_no_rule() {
    let (result, calls) = hold_to_rules(false, false, b"three", 0, None);
    assert_eq!(result, Ok(()));
    assert!(calls.is_empty());
}

#[test]
fn rules_need_a_predecessor() {
    let (result, calls) = hold_to_rules(true, true, b"house", 18_446_744_073_709_551_615, None);
    assert_eq!(
        result,
        Err(ValidationError::BlockValidationError(
            "During check of on-chain rules for block B1, block num was 18446744073709551615, \
             but missing a previous state root"
                .into()
        ))
    );
    assert!(calls.is_empty());
}

#[test]
fn housekeeping_is_looked_for_by_its_payload() {
    assert!(check_housekeeping(&two_batches(3), &b"three".to_vec()).is_err());
    assert!(check_housekeeping(&two_batches(3), &b"two".to_vec()).is_ok());
    assert!(check_housekeeping(&two_batches(3), &b"".to_vec()).is_ok());
}

#[test]
fn an_empty_block_is_held_to_the_rules() {
    let root = "root".to_string();
    let (result, calls) = hold_block_to_rules(true, true, b"house", block(5, vec![]), None);
    assert_eq!(
        result,
        Err(ValidationError::BlockValidationError(
            "During check of on-chain rules for block B1, block num was 5, \
             but missing a previous state root"
                .into()
        ))
    );
    assert!(calls.is_empty());
    let (result, calls) = hold_block_to_rules(true, true, b"house", block(5, vec![]), Some(&root));
    assert_eq!(result, Ok(()));
    assert_eq!(calls, vec!["open root", "enforce signer []"]);
    let (result, _) = hold_block_to_rules(true, false, b"house", block(5, vec![]), Some(&root));
    assert_eq!(
        result,
        Err(ValidationError::BlockValidationFailure(
            "Block B1 failed validation rules".into()
        ))
    );
}
