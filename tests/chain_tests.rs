use solana_tss::cli::Network;
use solana_tss::error::Error;
use solana_sdk::transaction::Transaction;
use solana_tss::token::{
    attach_signature, create_unsigned_token_transaction, get_ata_address,
    token_transfer_instructions, token_transfer_message, TokenInstruction,
};

#[test]
fn cluster_urls() {
    assert_eq!(Network::Mainnet.get_cluster_url(), "https://api.mainnet-beta.solana.com");
    assert_eq!(Network::Testnet.get_cluster_url(), "https://api.testnet.solana.com");
    assert_eq!(Network::Devnet.get_cluster_url(), "https://api.devnet.solana.com");
    assert_eq!(Network::Localnet.get_cluster_url(), "http://127.0.0.1:8899");
}

#[test]
fn network_labels() {
    assert_eq!(Network::parse_label("MainNet").unwrap(), Network::Mainnet);
    assert_eq!(Network::parse_label("testnet").unwrap(), Network::Testnet);
    assert_eq!(Network::parse_label("DEVNET").unwrap(), Network::Devnet);
    assert_eq!(Network::parse_label("local").unwrap(), Network::Localnet);
    assert_eq!("Localnet".parse::<Network>().unwrap(), Network::Localnet);
    match Network::parse_label("moon") {
        Err(Error::WrongNetwork(s)) => assert_eq!(s, "moon"),
        _ => panic!("expected WrongNetwork"),
    }
}

#[test]
fn ata_address_is_derived() {
    let wallet = [8u8; 32];
    let mint = [9u8; 32];
    let ata = get_ata_address(&wallet, &mint);
    assert_ne!(ata, wallet);
    assert_ne!(ata, mint);
    assert_eq!(ata, get_ata_address(&wallet, &mint));
    assert_ne!(ata, get_ata_address(&[7u8; 32], &mint));
}

#[test]
fn transfer_plan_with_account_creation() {
    let (mint, to, payer) = ([9u8; 32], [8u8; 32], [6u8; 32]);
    let ixs = token_transfer_instructions(&mint, 1000, 6, &to, &payer, true);
    assert_eq!(ixs.len(), 2);
    assert_eq!(
        ixs[0],
        TokenInstruction::CreateAssociatedTokenAccount { payer, wallet: to, mint }
    );
    assert_eq!(
        ixs[1],
        TokenInstruction::TransferChecked {
            source: get_ata_address(&payer, &mint),
            mint,
            destination: get_ata_address(&to, &mint),
            authority: payer,
            amount: 1000,
            decimals: 6,
        }
    );
    let only = token_transfer_instructions(&mint, 1000, 6, &to, &payer, false);
    assert_eq!(only.len(), 1);
    assert_eq!(only[0], ixs[1]);
}

#[test]
fn token_transaction_bytes_are_reproducible() {
    let (mint, to, payer, hash) = ([9u8; 32], [8u8; 32], [6u8; 32], [5u8; 32]);
    let a = create_unsigned_token_transaction(&mint, 1000, 6, &to, &payer, true, &hash);
    let b = create_unsigned_token_transaction(&mint, 1000, 6, &to, &payer, true, &hash);
    assert_eq!(a, b);
    let message = token_transfer_message(&mint, 1000, 6, &to, &payer, true, &hash);
    assert_eq!(a[0], 1);
    assert_eq!(&a[1..65], &[0u8; 64][..]);
    assert_eq!(&a[65..], &message[..]);
    let tx: Transaction = bincode::deserialize(&a).unwrap();
    assert_eq!(tx.signatures.len(), 1);
    assert_eq!(tx.message.header.num_required_signatures, 1);
    assert_eq!(tx.message.account_keys[0].to_bytes(), payer);
    assert_eq!(tx.message.recent_blockhash.to_bytes(), hash);
    assert_eq!(tx.message.instructions.len(), 2);
    assert_eq!(tx.message_data(), message);
    let c = create_unsigned_token_transaction(&mint, 1000, 6, &to, &payer, false, &hash);
    let tc: Transaction = bincode::deserialize(&c).unwrap();
    assert_eq!(tc.message.instructions.len(), 1);
    assert_ne!(a, c);
}

#[test]
fn signature_goes_into_the_slot() {
    let message = vec![3u8, 4, 5];
    let sig = [7u8; 64];
    let tx = attach_signature(&message, &sig);
    assert_eq!(tx.len(), 1 + 64 + 3);
    assert_eq!(tx[0], 1);
    assert_eq!(&tx[1..65], &sig[..]);
    assert_eq!(&tx[65..], &message[..]);
}
