use cluster_lend::errors::LendingError;
use cluster_lend::transaction::{check_refresh, flash_borrow_checks, flash_repay_checks, IxKind, TxContext, TxInstruction};
use cluster_lend::types::Pubkey;

fn key(n: u64) -> Pubkey {
    Pubkey::new_from_words(n, 0, 0, 0)
}

fn program() -> Pubkey {
    key(999)
}

fn flash_accounts() -> Vec<Pubkey> {
    vec![key(1), key(2), key(3), key(50), key(5)]
}

fn ix(kind: IxKind, amount: u64, borrow_index: u8, accounts: Vec<Pubkey>) -> TxInstruction {
    TxInstruction { program_id: program(), kind, liquidity_amount: amount, borrow_instruction_index: borrow_index, accounts }
}

fn ctx(instructions: Vec<TxInstruction>, current_index: usize) -> TxContext {
    TxContext { instructions, current_index, top_level: true }
}

#[test]
fn flash_pair_accepted() {
    let ixs = vec![
        ix(IxKind::FlashBorrow, 1_000, 0, flash_accounts()),
        ix(IxKind::FlashRepay, 1_000, 0, flash_accounts()),
    ];
    assert!(flash_borrow_checks(&ctx(ixs.clone(), 0), program(), 1_000).is_ok());
    assert!(flash_repay_checks(&ctx(ixs, 1), program(), key(50), 1_000, 0).is_ok());
}

#[test]
fn flash_repay_amount_mismatch() {
    let ixs = vec![
        ix(IxKind::FlashBorrow, 1_000, 0, flash_accounts()),
        ix(IxKind::FlashRepay, 900, 0, flash_accounts()),
    ];
    assert_eq!(flash_borrow_checks(&ctx(ixs.clone(), 0), program(), 1_000), Err(LendingError::InvalidFlashRepay));
    assert_eq!(flash_repay_checks(&ctx(ixs, 1), program(), key(50), 900, 0), Err(LendingError::InvalidFlashRepay));
}

#[test]
fn flash_borrow_without_repay() {
    let ixs = vec![ix(IxKind::FlashBorrow, 1_000, 0, flash_accounts())];
    assert_eq!(flash_borrow_checks(&ctx(ixs, 0), program(), 1_000), Err(LendingError::NoFlashRepayFound));
}

#[test]
fn two_flash_borrows() {
    let ixs = vec![
        ix(IxKind::FlashBorrow, 1_000, 0, flash_accounts()),
        ix(IxKind::FlashBorrow, 1_000, 0, flash_accounts()),
        ix(IxKind::FlashRepay, 1_000, 0, flash_accounts()),
    ];
    assert_eq!(flash_borrow_checks(&ctx(ixs, 0), program(), 1_000), Err(LendingError::MultipleFlashBorrows));
}

#[test]
fn flash_checks_refuse_nested_calls_and_bad_links() {
    let ixs = vec![
        ix(IxKind::FlashBorrow, 1_000, 0, flash_accounts()),
        ix(IxKind::FlashRepay, 1_000, 0, flash_accounts()),
    ];
    let mut nested = ctx(ixs.clone(), 0);
    nested.top_level = false;
    assert_eq!(flash_borrow_checks(&nested, program(), 1_000), Err(LendingError::FlashBorrowCpi));
    let mut nested_repay = ctx(ixs.clone(), 1);
    nested_repay.top_level = false;
    assert_eq!(flash_repay_checks(&nested_repay, program(), key(50), 1_000, 0), Err(LendingError::FlashRepayCpi));
    // repay pointing at itself, or at another reserve
    assert_eq!(flash_repay_checks(&ctx(ixs.clone(), 1), program(), key(50), 1_000, 1), Err(LendingError::InvalidFlashRepay));
    assert_eq!(flash_repay_checks(&ctx(ixs.clone(), 1), program(), key(51), 1_000, 0), Err(LendingError::InvalidFlashRepay));
    // a repay with other accounts does not pair
    let other = vec![
        ix(IxKind::FlashBorrow, 1_000, 0, flash_accounts()),
        ix(IxKind::FlashRepay, 1_000, 0, vec![key(1)]),
    ];
    assert_eq!(flash_borrow_checks(&ctx(other, 0), program(), 1_000), Err(LendingError::InvalidFlashRepay));
}

#[test]
fn refresh_sequence_enforced() {
    let reserve = key(10);
    let obligation = key(20);
    let borrow = ix(IxKind::Other, 0, 0, vec![]);
    let alone = vec![borrow.clone()];
    assert_eq!(
        check_refresh(&ctx(alone, 0), program(), &vec![reserve], obligation),
        Err(LendingError::IncorrectInstructionInPosition)
    );
    let good = vec![
        ix(IxKind::RefreshReserve, 0, 0, vec![reserve]),
        ix(IxKind::RefreshObligation, 0, 0, vec![key(30), obligation]),
        borrow.clone(),
    ];
    assert!(check_refresh(&ctx(good, 2), program(), &vec![reserve], obligation).is_ok());
    let swapped = vec![
        ix(IxKind::RefreshObligation, 0, 0, vec![key(30), obligation]),
        ix(IxKind::RefreshReserve, 0, 0, vec![reserve]),
        borrow.clone(),
    ];
    assert_eq!(
        check_refresh(&ctx(swapped, 2), program(), &vec![reserve], obligation),
        Err(LendingError::IncorrectInstructionInPosition)
    );
    // two reserves, in the order given; a repeated reserve needs one refresh
    let two = vec![
        ix(IxKind::RefreshReserve, 0, 0, vec![reserve]),
        ix(IxKind::RefreshReserve, 0, 0, vec![key(11)]),
        ix(IxKind::RefreshObligation, 0, 0, vec![key(30), obligation]),
        borrow,
    ];
    assert!(check_refresh(&ctx(two.clone(), 3), program(), &vec![reserve, key(11)], obligation).is_ok());
    assert!(check_refresh(&ctx(two.clone(), 3), program(), &vec![key(11), key(11)], obligation).is_ok());
    assert_eq!(
        check_refresh(&ctx(two, 3), program(), &vec![key(11), reserve], obligation),
        Err(LendingError::IncorrectInstructionInPosition)
    );
}
