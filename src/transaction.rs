use vstd::prelude::*;
use crate::errors::{LendingError, LendingResult};
use crate::types::Pubkey;

verus! {

/// What an instruction of the enclosing transaction asks for, as far as this engine
/// cares.
#[derive(Clone, Copy, Debug, PartialEq, Eq, Structural)]
pub enum IxKind {
    FlashBorrow,
    FlashRepay,
    RefreshReserve,
    RefreshObligation,
    Other,
}

/// One instruction of the enclosing transaction, decoded.
#[derive(Clone, Debug)]
pub struct TxInstruction {
    pub program_id: Pubkey,
    pub kind: IxKind,
    pub liquidity_amount: u64,
    pub borrow_instruction_index: u8,
    pub accounts: Vec<Pubkey>,
}

/// The transaction around the running instruction.
#[derive(Clone, Debug)]
pub struct TxContext {
    pub instructions: Vec<TxInstruction>,
    pub current_index: usize,
    /// The running instruction was invoked directly by the transaction, not by another
    /// program.
    pub top_level: bool,
}

impl TxContext {
    pub open spec fn wf(&self) -> bool {
        self.current_index < self.instructions.len()
    }
}

/// Two account lists are the same, entry by entry.
pub open spec fn same_accounts(a: Seq<Pubkey>, b: Seq<Pubkey>) -> bool {
    a.len() == b.len() && forall|i: int| 0 <= i < a.len() ==> a[i] == b[i]
}

/// A flash repay that pairs with the flash borrow at `borrow_index`.
pub open spec fn repay_matches(
    borrow_ix: TxInstruction,
    repay_ix: TxInstruction,
    amount: u64,
    borrow_index: int,
) -> bool {
    repay_ix.liquidity_amount == amount && repay_ix.borrow_instruction_index == borrow_index
        && same_accounts(borrow_ix.accounts@, repay_ix.accounts@)
}

/// The scan after a flash borrow, from position `i` on, given whether its repay was
/// already found.
pub open spec fn borrow_scan(
    ixs: Seq<TxInstruction>,
    i: int,
    current: int,
    program: Pubkey,
    amount: u64,
    found: bool,
) -> LendingResult<()>
    decreases ixs.len() - i,
{
    if i < 0 || i >= ixs.len() {
        if found {
            Ok(())
        } else {
            Err(LendingError::NoFlashRepayFound)
        }
    } else if ixs[i].program_id != program {
        borrow_scan(ixs, i + 1, current, program, amount, found)
    } else if ixs[i].kind == IxKind::FlashBorrow {
        Err(LendingError::MultipleFlashBorrows)
    } else if ixs[i].kind == IxKind::FlashRepay {
        if found {
            Err(LendingError::MultipleFlashBorrows)
        } else if !repay_matches(ixs[current], ixs[i], amount, current) {
            Err(LendingError::InvalidFlashRepay)
        } else {
            borrow_scan(ixs, i + 1, current, program, amount, true)
        }
    } else {
        borrow_scan(ixs, i + 1, current, program, amount, found)
    }
}

fn accounts_match(a: &Vec<Pubkey>, b: &Vec<Pubkey>) -> (r: bool)
    ensures
        r == same_accounts(a@, b@),
{
    if a.len() != b.len() {
        return false;
    }
    let mut i: usize = 0;
    while i < a.len()
        invariant
            a.len() == b.len(),
            i <= a.len(),
            forall|j: int| 0 <= j < i ==> a@[j] == b@[j],
        decreases a.len() - i,
    {
        if a[i] != b[i] {
            return false;
        }
        i = i + 1;
    }
    true
}

/// A flash repay pairs with the flash borrow at `borrow_index`: same amount, pointing back
/// at it, same accounts.
pub fn flash_borrow_check_matching_repay(
    amount: u64,
    borrow_ix: &TxInstruction,
    repay_ix: &TxInstruction,
    borrow_index: usize,
) -> (r: LendingResult<()>)
    ensures
        r is Ok <==> repay_matches(*borrow_ix, *repay_ix, amount, borrow_index as int),
        r is Err ==> r == Err::<(), LendingError>(LendingError::InvalidFlashRepay),
{
    if repay_ix.liquidity_amount != amount || repay_ix.borrow_instruction_index as usize != borrow_index
        || !accounts_match(&borrow_ix.accounts, &repay_ix.accounts) {
        return Err(LendingError::InvalidFlashRepay);
    }
    Ok(())
}

/// Checks that the flash borrow running at the context's position is paired: it is not
/// called from another program, no other flash borrow of `program` follows it, and
/// exactly one flash repay of `program` follows, for the same amount, pointing back at
/// it, with the same accounts.
pub fn flash_borrow_checks(ctx: &TxContext, program: Pubkey, amount: u64) -> (r: LendingResult<()>)
    requires
        ctx.wf(),
    ensures
        !ctx.top_level ==> r == Err::<(), LendingError>(LendingError::FlashBorrowCpi),
        ctx.top_level ==> r == borrow_scan(
            ctx.instructions@,
            ctx.current_index + 1,
            ctx.current_index as int,
            program,
            amount,
            false,
        ),
{
    if !ctx.top_level {
        return Err(LendingError::FlashBorrowCpi);
    }
    let cur = ctx.current_index;
    let borrow_ix = &ctx.instructions[cur];
    let mut found = false;
    let mut i: usize = cur + 1;
    while i < ctx.instructions.len()
        invariant
            ctx.wf(),
            ctx.top_level,
            cur == ctx.current_index,
            *borrow_ix == ctx.instructions@[cur as int],
            cur < i <= ctx.instructions.len(),
            borrow_scan(ctx.instructions@, cur + 1, cur as int, program, amount, false) == borrow_scan(
                ctx.instructions@,
                i as int,
                cur as int,
                program,
                amount,
                found,
            ),
        decreases ctx.instructions.len() - i,
    {
        let ix = &ctx.instructions[i];
        proof {
            reveal_with_fuel(borrow_scan, 2);
        }
        if ix.program_id == program {
            if ix.kind == IxKind::FlashBorrow {
                return Err(LendingError::MultipleFlashBorrows);
            }
            if ix.kind == IxKind::FlashRepay {
                if found {
                    return Err(LendingError::MultipleFlashBorrows);
                }
                flash_borrow_check_matching_repay(amount, borrow_ix, ix, cur)?;
                found = true;
            }
        }
        i = i + 1;
    }
    if !found {
        return Err(LendingError::NoFlashRepayFound);
    }
    Ok(())
}

/// The position of the reserve account in a flash loan instruction.
pub const FLASH_RESERVE_ACCOUNT_INDEX: usize = 3;

/// The flash borrow that a flash repay points back at is a valid partner.
pub open spec fn repay_target_ok(
    ixs: Seq<TxInstruction>,
    current: int,
    program: Pubkey,
    reserve: Pubkey,
    amount: u64,
    borrow_index: int,
) -> bool {
    &&& borrow_index < current
    &&& ixs[borrow_index].program_id == program
    &&& ixs[borrow_index].kind == IxKind::FlashBorrow
    &&& ixs[borrow_index].accounts.len() > FLASH_RESERVE_ACCOUNT_INDEX
    &&& ixs[borrow_index].accounts@[FLASH_RESERVE_ACCOUNT_INDEX as int] == reserve
    &&& ixs[borrow_index].liquidity_amount == amount
}

/// Checks a flash repay running at the context's position: not called from another
/// program, and the instruction at `borrow_index` is an earlier flash borrow of `program`
/// on the same reserve for the same amount.
pub fn flash_repay_checks(
    ctx: &TxContext,
    program: Pubkey,
    reserve: Pubkey,
    amount: u64,
    borrow_index: u8,
) -> (r: LendingResult<()>)
    requires
        ctx.wf(),
    ensures
        !ctx.top_level ==> r == Err::<(), LendingError>(LendingError::FlashRepayCpi),
        ctx.top_level && repay_target_ok(
            ctx.instructions@,
            ctx.current_index as int,
            program,
            reserve,
            amount,
            borrow_index as int,
        ) ==> r is Ok,
        ctx.top_level && !repay_target_ok(
            ctx.instructions@,
            ctx.current_index as int,
            program,
            reserve,
            amount,
            borrow_index as int,
        ) ==> r == Err::<(), LendingError>(LendingError::InvalidFlashRepay),
{
    if !ctx.top_level {
        return Err(LendingError::FlashRepayCpi);
    }
    let bi = borrow_index as usize;
    if bi >= ctx.current_index {
        return Err(LendingError::InvalidFlashRepay);
    }
    let ix = &ctx.instructions[bi];
    if ix.program_id != program || ix.kind != IxKind::FlashBorrow {
        return Err(LendingError::InvalidFlashRepay);
    }
    if ix.accounts.len() <= FLASH_RESERVE_ACCOUNT_INDEX || ix.accounts[FLASH_RESERVE_ACCOUNT_INDEX]
        != reserve {
        return Err(LendingError::InvalidFlashRepay);
    }
    if ix.liquidity_amount != amount {
        return Err(LendingError::InvalidFlashRepay);
    }
    Ok(())
}

/// Account position of the reserve in a reserve refresh, and of the obligation in an
/// obligation refresh.
pub const REFRESH_RESERVE_ACCOUNT_INDEX: usize = 0;
pub const REFRESH_OBLIGATION_ACCOUNT_INDEX: usize = 1;

/// Number of reserve refreshes required: one per distinct reserve.
pub open spec fn reserve_refreshes(reserves: Seq<Pubkey>) -> int {
    if reserves.len() == 2 && reserves[0] == reserves[1] {
        1
    } else {
        reserves.len() as int
    }
}

/// The instruction at `pos` is a refresh of `program` of the given kind whose account at
/// `acc` is `key`.
pub open spec fn refresh_at(
    ixs: Seq<TxInstruction>,
    pos: int,
    program: Pubkey,
    kind: IxKind,
    acc: int,
    key: Pubkey,
) -> bool {
    &&& 0 <= pos < ixs.len()
    &&& ixs[pos].program_id == program
    &&& ixs[pos].kind == kind
    &&& acc < ixs[pos].accounts.len()
    &&& ixs[pos].accounts@[acc] == key
}

/// The refresh sequence in front of the running instruction: right before it the
/// obligation's refresh, and before that one reserve refresh per distinct reserve, the
/// last reserve nearest.
pub open spec fn refresh_sequence_ok(
    ixs: Seq<TxInstruction>,
    current: int,
    program: Pubkey,
    reserves: Seq<Pubkey>,
    obligation: Pubkey,
) -> bool {
    &&& refresh_at(
        ixs,
        current - 1,
        program,
        IxKind::RefreshObligation,
        REFRESH_OBLIGATION_ACCOUNT_INDEX as int,
        obligation,
    )
    &&& forall|k: int|
        0 <= k < reserve_refreshes(reserves) ==> refresh_at(
            ixs,
            current - 2 - k,
            program,
            IxKind::RefreshReserve,
            REFRESH_RESERVE_ACCOUNT_INDEX as int,
            #[trigger] reserves[reserve_refreshes(reserves) - 1 - k],
        )
}

fn check_refresh_at(
    ctx: &TxContext,
    back: usize,
    program: Pubkey,
    kind: IxKind,
    acc: usize,
    key: Pubkey,
) -> (r: bool)
    requires
        ctx.wf(),
    ensures
        r == refresh_at(ctx.instructions@, ctx.current_index - back, program, kind, acc as int, key),
{
    if back > ctx.current_index {
        return false;
    }
    let ix = &ctx.instructions[ctx.current_index - back];
    ix.program_id == program && ix.kind == kind && acc < ix.accounts.len() && ix.accounts[acc]
        == key
}

/// Enforces that the running instruction is preceded by the refreshes of its reserves
/// (one or two, a repeated reserve once) and of its obligation, in that order.
pub fn check_refresh(ctx: &TxContext, program: Pubkey, reserves: &Vec<Pubkey>, obligation: Pubkey) -> (r:
    LendingResult<()>)
    requires
        ctx.wf(),
        reserves.len() <= 2,
    ensures
        r is Ok <==> refresh_sequence_ok(
            ctx.instructions@,
            ctx.current_index as int,
            program,
            reserves@,
            obligation,
        ),
        r is Err ==> r == Err::<(), LendingError>(LendingError::IncorrectInstructionInPosition),
{
    let n: usize = if reserves.len() == 2 && reserves[0] == reserves[1] {
        1
    } else {
        reserves.len()
    };
    if !check_refresh_at(ctx, 1, program, IxKind::RefreshObligation, REFRESH_OBLIGATION_ACCOUNT_INDEX, obligation) {
        return Err(LendingError::IncorrectInstructionInPosition);
    }
    let mut k: usize = 0;
    while k < n
        invariant
            ctx.wf(),
            reserves.len() <= 2,
            n == reserve_refreshes(reserves@),
            k <= n,
            forall|j: int|
                0 <= j < k ==> refresh_at(
                    ctx.instructions@,
                    ctx.current_index - 2 - j,
                    program,
                    IxKind::RefreshReserve,
                    REFRESH_RESERVE_ACCOUNT_INDEX as int,
                    #[trigger] reserves@[n - 1 - j],
                ),
        decreases n - k,
    {
        if !check_refresh_at(ctx, k + 2, program, IxKind::RefreshReserve, REFRESH_RESERVE_ACCOUNT_INDEX, reserves[n - 1 - k]) {
            return Err(LendingError::IncorrectInstructionInPosition);
        }
        k = k + 1;
    }
    Ok(())
}

} // verus!
