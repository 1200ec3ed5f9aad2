//! The decision that picks how the stored wallet key is to be used, given
//! whether a key exists, whether it is encrypted, and whether the user gave
//! a password.

use vstd::prelude::*;

verus! {

/// How the stored key is to be turned into a wallet.
#[derive(Clone, Copy, Debug, PartialEq, Eq, Structural)]
pub enum WalletKeySource {
    /// The stored key is plaintext and is used as it is.
    Plain,
    /// The stored key is encrypted and must be decrypted with the password.
    Decrypted,
}

/// Why no wallet can be built from the store.
#[derive(Clone, Copy, Debug, PartialEq, Eq, Structural)]
pub enum WalletKeyError {
    /// No private key is stored; one must be imported or generated.
    NoKey,
    /// The stored key is encrypted and no password was given.
    MissingPassword,
    /// The stored key is not encrypted, yet a password was given.
    UnexpectedPassword,
}

/// Decide how to obtain the wallet key: a stored key must exist, an
/// encrypted key demands a password, and a plaintext key forbids one.
pub fn plan_wallet_key(key_present: bool, encrypted: bool, password_given: bool) -> (plan: Result<
    WalletKeySource,
    WalletKeyError,
>)
    ensures
        plan == if !key_present {
            Result::<WalletKeySource, WalletKeyError>::Err(WalletKeyError::NoKey)
        } else if encrypted && password_given {
            Result::<WalletKeySource, WalletKeyError>::Ok(WalletKeySource::Decrypted)
        } else if !encrypted && !password_given {
            Result::<WalletKeySource, WalletKeyError>::Ok(WalletKeySource::Plain)
        } else if encrypted {
            Result::<WalletKeySource, WalletKeyError>::Err(WalletKeyError::MissingPassword)
        } else {
            Result::<WalletKeySource, WalletKeyError>::Err(WalletKeyError::UnexpectedPassword)
        },
{
    if !key_present {
        return Err(WalletKeyError::NoKey);
    }
    match (encrypted, password_given) {
        (true, true) => Ok(WalletKeySource::Decrypted),
        (false, false) => Ok(WalletKeySource::Plain),
        (true, false) => Err(WalletKeyError::MissingPassword),
        (false, true) => Err(WalletKeyError::UnexpectedPassword),
    }
}

} // verus!
