use vstd::prelude::*;

verus! {

/// The closed set of failures that the engine reports to its callers.
#[derive(Clone, Copy, Debug, PartialEq, Eq, Structural)]
pub enum LendingError {
    InvalidMarketAuthority,
    InvalidMarketOwner,
    InvalidAccountOwner,
    InvalidAmount,
    InvalidConfig,
    InvalidSigner,
    InvalidAccountInput,
    MathOverflow,
    InsufficientLiquidity,
    ReserveStale,
    WithdrawTooSmall,
    WithdrawTooLarge,
    BorrowTooSmall,
    BorrowTooLarge,
    RepayTooSmall,
    LiquidationTooSmall,
    ObligationHealthy,
    ObligationStale,
    ObligationReserveLimit,
    InvalidObligationOwner,
    ObligationDepositsEmpty,
    ObligationBorrowsEmpty,
    ObligationDepositsZero,
    ObligationBorrowsZero,
    InvalidObligationCollateral,
    InvalidObligationLiquidity,
    ObligationCollateralEmpty,
    ObligationLiquidityEmpty,
    NegativeInterestRate,
    InvalidOracleConfig,
    InsufficientProtocolFeesToRedeem,
    FlashBorrowCpi,
    NoFlashRepayFound,
    InvalidFlashRepay,
    FlashRepayCpi,
    MultipleFlashBorrows,
    FlashLoansDisabled,
    PriceTooOld,
    PriceTooDivergentFromTwap,
    InvalidTwapPrice,
    GlobalEmergencyMode,
    InvalidFlag,
    PriceNotValid,
    PriceIsZero,
    PriceConfidenceTooWide,
    IntegerOverflow,
    IncorrectInstructionInPosition,
    NoPriceFound,
    InvalidTwapConfig,
    InvalidPythPriceAccount,
    ObligationCollateralLtvZero,
    InvalidObligationSeedsValue,
    InvalidObligationId,
    InvalidBorrowRateCurvePoint,
    InvalidUtilizationRate,
    CannotSocializeObligationWithCollateral,
    ObligationEmpty,
    WithdrawalCapReached,
    LastTimestampGreaterThanCurrent,
    LiquidationSlippageError,
    IsolatedAssetTierViolation,
    ReserveDeprecated,
    CpiDisabled,
    ReserveObsolete,
    ObligationInDeprecatedReserve,
    CollateralNonLiquidatable,
    BorrowingDisabled,
    BorrowLimitExceeded,
    DepositLimitExceeded,
    NetValueRemainingTooSmall,
    WorseLTVBlocked,
    LiabilitiesBiggerThanAssets,
    ReserveTokenBalanceMismatch,
    ReserveVaultBalanceMismatch,
    ReserveAccountingMismatch,
}

pub type LendingResult<T> = Result<T, LendingError>;

} // verus!
