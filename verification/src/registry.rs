use vstd::prelude::*;
use crate::error::PoolError;

verus! {

/// The administrators: the identities that may act on operator records.
#[derive(Clone, Debug)]
pub struct AdminConfig {
    pub admins: Vec<[u8; 32]>,
}

/// A record that entitles `operator` to claim protocol fees.
#[derive(Clone, Copy, Debug, PartialEq, Eq)]
pub struct ClaimFeeOperator {
    /// Where the record is kept.
    pub address: [u8; 32],
    pub operator: [u8; 32],
}

/// What closing a record needs: the record, who receives the resources that
/// it held, and who asks.
#[derive(Clone, Copy, Debug, PartialEq, Eq)]
pub struct CloseClaimFeeOperatorCtx {
    pub claim_fee_operator: ClaimFeeOperator,
    pub rent_receiver: [u8; 32],
    pub admin: [u8; 32],
}

/// The audit record of a closed operator record.
#[derive(Clone, Copy, Debug, PartialEq, Eq)]
pub struct EvtCloseClaimFeeOperator {
    pub claim_fee_operator: [u8; 32],
    pub operator: [u8; 32],
}

/// A granted closing: the event to emit, and the recipient of the resources
/// that the record held.
#[derive(Clone, Copy, Debug, PartialEq, Eq)]
pub struct OperatorClosed {
    pub event: EvtCloseClaimFeeOperator,
    pub rent_receiver: [u8; 32],
}

/// `identity` is one of the administrators.
pub open spec fn authorized(identity: [u8; 32], admins: Seq<[u8; 32]>) -> bool {
    exists|i: int| 0 <= i < admins.len() && (#[trigger] admins[i])@ == identity@
}

/// Whether two identities are the same, byte for byte.
pub fn same_identity(a: &[u8; 32], b: &[u8; 32]) -> (same: bool)
    ensures
        same == (a@ == b@),
{
    let mut i: usize = 0;
    while i < 32
        invariant
            i <= 32,
            forall|j: int| 0 <= j < i ==> a@[j] == b@[j],
        decreases 32 - i,
    {
        if a[i] != b[i] {
            return false;
        }
        i += 1;
    }
    assert(a@ =~= b@);
    true
}

/// Whether `identity` is one of the administrators of `config`.
pub fn is_authorized(identity: &[u8; 32], config: &AdminConfig) -> (ok: bool)
    ensures
        ok == authorized(*identity, config.admins@),
{
    let mut i: usize = 0;
    while i < config.admins.len()
        invariant
            i <= config.admins.len(),
            forall|j: int| 0 <= j < i ==> (#[trigger] config.admins@[j])@ != identity@,
        decreases config.admins.len() - i,
    {
        if same_identity(&config.admins[i], identity) {
            return true;
        }
        i += 1;
    }
    false
}

/// Closes an operator record for an administrator: grants the closing with
/// its event and the recipient, or refuses a caller who is no administrator.
pub fn handle_close_claim_fee_operator(ctx: &CloseClaimFeeOperatorCtx, config: &AdminConfig) -> (r:
    Result<OperatorClosed, PoolError>)
    ensures
        authorized(ctx.admin, config.admins@) ==> r == Ok::<OperatorClosed, PoolError>(
            (OperatorClosed {
                event: EvtCloseClaimFeeOperator {
                    claim_fee_operator: ctx.claim_fee_operator.address,
                    operator: ctx.claim_fee_operator.operator,
                },
                rent_receiver: ctx.rent_receiver,
            }),
        ),
        !authorized(ctx.admin, config.admins@) ==> r == Err::<OperatorClosed, PoolError>(
            PoolError::AuthError,
        ),
{
    if !is_authorized(&ctx.admin, config) {
        return Err(PoolError::AuthError);
    }
    Ok(
        OperatorClosed {
            event: EvtCloseClaimFeeOperator {
                claim_fee_operator: ctx.claim_fee_operator.address,
                operator: ctx.claim_fee_operator.operator,
            },
            rent_receiver: ctx.rent_receiver,
        },
    )
}

} // verus!
