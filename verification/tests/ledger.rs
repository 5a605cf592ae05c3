use bpm_sei::{BpmError, BufferLedger};

#[test]
fn a_lent_buffer_comes_back_with_its_length() {
    let mut ledger = BufferLedger::new();
    assert_eq!(ledger.lend(0x1000, 250), Ok(()));
    assert!(ledger.is_on_loan(0x1000));
    assert_eq!(ledger.release(0x1000), Ok(250));
    assert!(!ledger.is_on_loan(0x1000));
}

#[test]
fn a_buffer_is_released_once() {
    let mut ledger = BufferLedger::new();
    assert_eq!(ledger.lend(0x1000, 125), Ok(()));
    assert_eq!(ledger.release(0x1000), Ok(125));
    assert_eq!(ledger.release(0x1000), Err(BpmError::DoubleRelease));
    assert_eq!(ledger.release(0x1000), Err(BpmError::DoubleRelease));
}

#[test]
fn the_null_address_is_refused() {
    let mut ledger = BufferLedger::new();
    assert_eq!(ledger.lend(0, 250), Err(BpmError::NullPointer));
    assert_eq!(ledger.release(0), Err(BpmError::NullPointer));
    assert!(!ledger.is_on_loan(0));
}

#[test]
fn a_foreign_address_is_refused() {
    let mut ledger = BufferLedger::new();
    assert_eq!(ledger.release(0xdead_b000), Err(BpmError::DoubleRelease));
    assert_eq!(ledger.lend(0x1000, 60), Ok(()));
    assert_eq!(ledger.release(0x1001), Err(BpmError::DoubleRelease));
    assert!(ledger.is_on_loan(0x1000));
    assert_eq!(ledger.release(0x1000), Ok(60));
}

#[test]
fn loans_are_kept_apart() {
    let mut ledger = BufferLedger::new();
    assert_eq!(ledger.lend(0x1000, 125), Ok(()));
    assert_eq!(ledger.lend(0x2000, 65), Ok(()));
    assert_eq!(ledger.lend(0x3000, 60), Ok(()));
    assert_eq!(ledger.release(0x2000), Ok(65));
    assert!(ledger.is_on_loan(0x1000));
    assert!(!ledger.is_on_loan(0x2000));
    assert!(ledger.is_on_loan(0x3000));
    assert_eq!(ledger.release(0x1000), Ok(125));
    assert_eq!(ledger.release(0x3000), Ok(60));
    assert_eq!(ledger.release(0x3000), Err(BpmError::DoubleRelease));
}

#[test]
fn an_address_can_be_lent_again_after_its_release() {
    let mut ledger = BufferLedger::new();
    assert_eq!(ledger.lend(0x1000, 125), Ok(()));
    assert_eq!(ledger.release(0x1000), Ok(125));
    assert_eq!(ledger.lend(0x1000, 250), Ok(()));
    assert_eq!(ledger.release(0x1000), Ok(250));
}

#[test]
fn lending_an_address_on_loan_records_the_new_length() {
    let mut ledger = BufferLedger::new();
    assert_eq!(ledger.lend(0x1000, 125), Ok(()));
    assert_eq!(ledger.lend(0x1000, 60), Ok(()));
    assert_eq!(ledger.release(0x1000), Ok(60));
    assert_eq!(ledger.release(0x1000), Err(BpmError::DoubleRelease));
}
