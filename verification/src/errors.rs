//! The failures an operation can report. Every error aborts the whole
//! invocation: the caller applies none of the writes or transfers of a call
//! that returned one of these.

use vstd::prelude::*;

verus! {

/// One variant per distinct rejection, so a contract can say exactly which
/// inputs produce which failure.
#[derive(Clone, Copy, Debug, PartialEq, Eq, Structural)]
pub enum Error {
    /// The caller is not on the relevant allow-list, or is not this system
    /// itself where only a self-call is accepted.
    Unauthorized,
    /// No order exists at the addressed position.
    OrderNotFound,
    /// The execution-fee escrow was not paid in the designated fee token.
    WrongExecutionFeeToken,
    /// The amount sent in does not equal the configured execution fee.
    WrongExecutionFeeAmount,
    /// The creator has no order yet, so no escrow can be attached.
    OrderDoesNotExist,
    /// The order already carries an execution-fee escrow.
    ExecutionFeeAlreadySet,
    /// The escrow can only be posted in the same logical block in which the
    /// order was created.
    ExecutionFeeWrongBlock,
    /// The order was already cancelled.
    OrderAlreadyCancelled,
    /// The order was already filled in full.
    OrderAlreadyFilled,
    /// The token offered does not match the order's input token.
    FromTokenMismatch,
    /// The output token of a new order is not a registered asset.
    ToTokenNotRegistered,
    /// A fill must deliver a positive amount.
    ZeroAmount,
    /// The token delivered does not match the order's output token.
    ToTokenMismatch,
    /// The fill delivers more than the order's remaining unfilled output.
    AmountAboveUnfilled,
    /// A locked-balance counter would go negative.
    Underflow,
    /// No route is in flight.
    RouteNotFound,
    /// There is no route awaiting a finalize check.
    NoRouteToFinalize,
    /// A finalize check found undelivered hops still queued.
    RouteStillContainsHops,
    /// A route needs at least two hops.
    TooFewHops,
    /// A route callback came from a venue other than the one recorded in the
    /// current hop.
    WrongTradeContract,
    /// A route callback delivered a token other than the one the next hop (or
    /// the repayment) expects.
    WrongRouteToken,
    /// The final leg returned less than the borrowed amount.
    BorrowShortfall,
    /// The final leg returned less than the route's slippage floor.
    BelowMinimumAcceptableAmount,
}

} // verus!
