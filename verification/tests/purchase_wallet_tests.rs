use tangle_tunes::config::ConfigFile;
use tangle_tunes::purchase::{check_purchase, PurchaseError};
use tangle_tunes::wallet::{plan_wallet_key, WalletKeyError, WalletKeySource};

const DISTRIBUTOR: [u8; 20] = [
    1, 2, 3, 4, 5, 6, 7, 8, 9, 10, 11, 12, 13, 14, 15, 16, 17, 18, 19, 20,
];

#[test]
fn purchase_is_allowed_when_everything_holds() {
    assert_eq!(check_purchase(5, 10, 50, 100, &DISTRIBUTOR), Ok(()));
    assert_eq!(check_purchase(10, 10, 100, 100, &DISTRIBUTOR), Ok(()));
}

#[test]
fn too_expensive_song_is_refused_first() {
    assert_eq!(
        check_purchase(11, 10, 50, 100, &DISTRIBUTOR),
        Err(PurchaseError::TooExpensive)
    );
    // The price check runs before the balance and distributor checks.
    assert_eq!(
        check_purchase(11, 10, 1000, 100, &[0; 20]),
        Err(PurchaseError::TooExpensive)
    );
}

#[test]
fn insufficient_funds_are_refused() {
    assert_eq!(
        check_purchase(5, 10, 101, 100, &DISTRIBUTOR),
        Err(PurchaseError::InsufficientFunds)
    );
    assert_eq!(
        check_purchase(5, 10, 101, 100, &[0; 20]),
        Err(PurchaseError::InsufficientFunds)
    );
}

#[test]
fn zero_address_means_no_distributor() {
    assert_eq!(
        check_purchase(5, 10, 50, 100, &[0; 20]),
        Err(PurchaseError::NoDistributor)
    );
    // A single non-zero byte anywhere names a distributor.
    let mut nearly_zero = [0u8; 20];
    nearly_zero[19] = 1;
    assert_eq!(check_purchase(5, 10, 50, 100, &nearly_zero), Ok(()));
}

#[test]
fn wallet_key_plans() {
    assert_eq!(
        plan_wallet_key(false, false, false),
        Err(WalletKeyError::NoKey)
    );
    assert_eq!(
        plan_wallet_key(false, true, true),
        Err(WalletKeyError::NoKey)
    );
    assert_eq!(
        plan_wallet_key(true, true, true),
        Ok(WalletKeySource::Decrypted)
    );
    assert_eq!(plan_wallet_key(true, false, false), Ok(WalletKeySource::Plain));
    assert_eq!(
        plan_wallet_key(true, true, false),
        Err(WalletKeyError::MissingPassword)
    );
    assert_eq!(
        plan_wallet_key(true, false, true),
        Err(WalletKeyError::UnexpectedPassword)
    );
}

#[test]
fn config_maps_into_builder() {
    let config = ConfigFile {
        port: 3000,
        contract_address: String::from("0x1234"),
        node_url: String::from("ws://localhost:9000"),
        database_path: String::from("client.db"),
        chain_id: 1074,
        fee: 1,
        ip_address: String::from("127.0.0.1"),
    };
    let builder = config.into_app_builder(
        Some(String::from("passphrase")),
        String::from("/etc/client/client.db"),
    );
    assert_eq!(builder.port, 3000);
    assert_eq!(builder.contract_address, "0x1234");
    assert_eq!(builder.node_url, "ws://localhost:9000");
    assert_eq!(builder.chain_id, 1074);
    assert_eq!(builder.fee, 1);
    assert_eq!(builder.ip_address, "127.0.0.1");
    assert_eq!(builder.database_path, "/etc/client/client.db");
    assert_eq!(builder.password.as_deref(), Some("passphrase"));
}
