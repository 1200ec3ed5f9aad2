//! The checks a download must pass before any request goes out: the song's
//! price against the caller's limit, its total cost against the account
//! balance, and the existence of a distributor.

use vstd::prelude::*;

verus! {

/// The number of bytes in a distributor's ledger address.
pub const ADDRESS_BYTES: usize = 20;

/// Why a purchase was refused before any data moved.
#[derive(Clone, Copy, Debug, PartialEq, Eq, Structural)]
pub enum PurchaseError {
    /// The song's unit price exceeds the caller's limit.
    TooExpensive,
    /// The song's total price exceeds the account balance.
    InsufficientFunds,
    /// The ledger returned the all-zero address: no distributor serves the song.
    NoDistributor,
}

/// Whether an address is the all-zero address, the ledger's way of saying
/// "none".
pub open spec fn spec_zero_address(address: Seq<u8>) -> bool {
    forall|i: int| 0 <= i < address.len() ==> address[i] == 0
}

/// Decide whether a download may begin: refuse a song dearer than the
/// caller's limit, then one the balance cannot cover, then a missing
/// distributor; otherwise allow it. The checks run in exactly that order, so
/// the first failing one names the error.
pub fn check_purchase(
    price: u128,
    max_price: u128,
    total_price: u128,
    balance: u128,
    distributor: &[u8; ADDRESS_BYTES],
) -> (decision: Result<(), PurchaseError>)
    ensures
        decision == if price > max_price {
            Result::<(), PurchaseError>::Err(PurchaseError::TooExpensive)
        } else if total_price > balance {
            Result::<(), PurchaseError>::Err(PurchaseError::InsufficientFunds)
        } else if spec_zero_address(distributor@) {
            Result::<(), PurchaseError>::Err(PurchaseError::NoDistributor)
        } else {
            Result::<(), PurchaseError>::Ok(())
        },
{
    if price > max_price {
        return Err(PurchaseError::TooExpensive);
    }
    if total_price > balance {
        return Err(PurchaseError::InsufficientFunds);
    }
    let mut i: usize = 0;
    while i < ADDRESS_BYTES
        invariant
            i <= ADDRESS_BYTES,
            price <= max_price,
            total_price <= balance,
            forall|j: int| 0 <= j < i ==> distributor@[j] == 0,
        decreases ADDRESS_BYTES - i,
    {
        if distributor[i] != 0 {
            proof {
                assert(distributor@[i as int] != 0);
            }
            return Ok(());
        }
        i = i + 1;
    }
    Err(PurchaseError::NoDistributor)
}

} // verus!
