//! The token-transfer transaction that every party signs: an optional
//! creation of the recipient's associated token account, then a checked
//! transfer, paid for and authorised by the aggregated key.
use vstd::prelude::*;

use solana_sdk::instruction::Instruction;
use solana_sdk::message::Message;
use solana_sdk::pubkey::Pubkey;
use spl_associated_token_account::instruction::create_associated_token_account;
use spl_token::instruction::transfer_checked;

verus! {

/// The associated token account of a wallet for a mint.
pub uninterp spec fn ata_of(wallet: Seq<u8>, mint: Seq<u8>) -> Seq<u8>;

/// Relies on `spl_associated_token_account::get_associated_token_address`,
/// a function of the wallet and the mint.
#[verifier::external_body]
fn ata_address(wallet: &[u8; 32], mint: &[u8; 32]) -> (r: [u8; 32])
    ensures
        r@ == ata_of(wallet@, mint@),
{
    spl_associated_token_account::get_associated_token_address(
        &Pubkey::from(*wallet),
        &Pubkey::from(*mint),
    ).to_bytes()
}

/// One instruction of a token transfer, as plain keys and numbers.
#[derive(Debug, Clone, Copy, PartialEq, Eq)]
pub enum TokenInstruction {
    /// Create `wallet`'s associated token account for `mint`, paid by `payer`.
    CreateAssociatedTokenAccount { payer: [u8; 32], wallet: [u8; 32], mint: [u8; 32] },
    /// Move `amount` smallest units of `mint` from `source` to `destination`.
    TransferChecked {
        source: [u8; 32],
        mint: [u8; 32],
        destination: [u8; 32],
        authority: [u8; 32],
        amount: u64,
        decimals: u8,
    },
}

/// An instruction as plain values: its kind (0 creates an account, 1
/// transfers), four keys, the amount and the decimals.
pub type InstructionView = (u8, Seq<u8>, Seq<u8>, Seq<u8>, Seq<u8>, u64, u8);

pub open spec fn instruction_view(ix: TokenInstruction) -> InstructionView {
    match ix {
        TokenInstruction::CreateAssociatedTokenAccount { payer, wallet, mint } => (
            0u8,
            payer@,
            wallet@,
            mint@,
            Seq::empty(),
            0u64,
            0u8,
        ),
        TokenInstruction::TransferChecked {
            source,
            mint,
            destination,
            authority,
            amount,
            decimals,
        } => (1u8, source@, mint@, destination@, authority@, amount, decimals),
    }
}

pub open spec fn plan_view(ixs: Seq<TokenInstruction>) -> Seq<InstructionView> {
    ixs.map_values(|ix: TokenInstruction| instruction_view(ix))
}

/// The instructions of a token transfer: the creation of the recipient's
/// associated account when asked for, then a checked transfer from the payer's
/// associated account to the recipient's, authorised by the payer.
pub open spec fn transfer_plan(
    mint: Seq<u8>,
    amount: u64,
    decimals: u8,
    to: Seq<u8>,
    payer: Seq<u8>,
    create_destination_account: bool,
) -> Seq<InstructionView> {
    let transfer = (1u8, ata_of(payer, mint), mint, ata_of(to, mint), payer, amount, decimals);
    if create_destination_account {
        seq![(0u8, payer, to, mint, Seq::<u8>::empty(), 0u64, 0u8), transfer]
    } else {
        seq![transfer]
    }
}

/// The serialised message of the instructions `plan`, paid for by `payer`,
/// with `blockhash` as its recent blockhash.
pub uninterp spec fn message_of(plan: Seq<InstructionView>, payer: Seq<u8>, blockhash: Seq<u8>) -> Seq<u8>;

/// The bytes that every party signs for a token transfer.
pub open spec fn token_message(
    mint: Seq<u8>,
    amount: u64,
    decimals: u8,
    to: Seq<u8>,
    payer: Seq<u8>,
    create_destination_account: bool,
    blockhash: Seq<u8>,
) -> Seq<u8> {
    message_of(
        transfer_plan(mint, amount, decimals, to, payer, create_destination_account),
        payer,
        blockhash,
    )
}

/// The wire form of a transaction with one signature slot: the slot count
/// (one, as a compact-u16), the 64-byte signature, then the message.
pub open spec fn transaction_bytes(sig: Seq<u8>, message: Seq<u8>) -> Seq<u8> {
    seq![1u8] + sig + message
}

/// Relies on `create_associated_token_account` and `transfer_checked` of the
/// token programs, then `Message::new_with_blockhash` and `Message::serialize`.
/// Each instruction converts field for field; `transfer_checked` fails only for
/// another program id than the token program's. With at most two such
/// instructions the account count and the lists stay far below the limits at
/// which the message builder and its serialisation panic.
#[verifier::external_body]
fn compile_message(plan: &Vec<TokenInstruction>, payer: &[u8; 32], blockhash: &[u8; 32]) -> (r: Vec<u8>)
    requires
        plan@.len() <= 2,
    ensures
        r@ == message_of(plan_view(plan@), payer@, blockhash@),
{
    let k = |b: &[u8; 32]| Pubkey::from(*b);
    let ixs: Vec<Instruction> = plan.iter().map(|ix| match ix {
        TokenInstruction::CreateAssociatedTokenAccount { payer, wallet, mint } =>
            create_associated_token_account(&k(payer), &k(wallet), &k(mint), &spl_token::id()),
        TokenInstruction::TransferChecked { source, mint, destination, authority, amount, decimals } =>
            transfer_checked(&spl_token::id(), &k(source), &k(mint), &k(destination), &k(authority), &[], *amount, *decimals).unwrap(),
    }).collect();
    let hash = solana_sdk::hash::Hash::new_from_array(*blockhash);
    Message::new_with_blockhash(&ixs, Some(&k(payer)), &hash).serialize()
}

/// The associated token account of `wallet` for `mint`.
pub fn get_ata_address(wallet: &[u8; 32], mint: &[u8; 32]) -> (r: [u8; 32])
    ensures
        r@ == ata_of(wallet@, mint@),
{
    ata_address(wallet, mint)
}

/// The instructions that move `amount` of `mint` from `payer` to `to`;
/// `create_destination_account` says whether the recipient's associated token
/// account is still to be made. All parties must agree on that answer.
pub fn token_transfer_instructions(
    mint: &[u8; 32],
    amount: u64,
    decimals: u8,
    to: &[u8; 32],
    payer: &[u8; 32],
    create_destination_account: bool,
) -> (r: Vec<TokenInstruction>)
    ensures
        plan_view(r@) == transfer_plan(mint@, amount, decimals, to@, payer@, create_destination_account),
        r@.len() <= 2,
{
    let mut ixs: Vec<TokenInstruction> = Vec::new();
    if create_destination_account {
        ixs.push(
            TokenInstruction::CreateAssociatedTokenAccount { payer: *payer, wallet: *to, mint: *mint },
        );
    }
    ixs.push(
        TokenInstruction::TransferChecked {
            source: get_ata_address(payer, mint),
            mint: *mint,
            destination: get_ata_address(to, mint),
            authority: *payer,
            amount,
            decimals,
        },
    );
    assert(plan_view(ixs@) =~= transfer_plan(
        mint@,
        amount,
        decimals,
        to@,
        payer@,
        create_destination_account,
    ));
    ixs
}

/// The message bytes of the token transfer that every party signs: fee payer
/// and transfer authority `payer`, recent blockhash `recent_blockhash`.
pub fn token_transfer_message(
    mint: &[u8; 32],
    amount: u64,
    decimals: u8,
    to: &[u8; 32],
    payer: &[u8; 32],
    create_destination_account: bool,
    recent_blockhash: &[u8; 32],
) -> (r: Vec<u8>)
    ensures
        r@ == token_message(
            mint@,
            amount,
            decimals,
            to@,
            payer@,
            create_destination_account,
            recent_blockhash@,
        ),
{
    let plan = token_transfer_instructions(mint, amount, decimals, to, payer, create_destination_account);
    compile_message(&plan, payer, recent_blockhash)
}

/// Puts a 64-byte signature into the single slot of the transaction whose
/// message is `message`, giving the transaction's wire bytes.
pub fn attach_signature(message: &Vec<u8>, sig: &[u8; 64]) -> (r: Vec<u8>)
    ensures
        r@ == transaction_bytes(sig@, message@),
{
    let mut out: Vec<u8> = Vec::new();
    out.push(1u8);
    crate::serialization::append_bytes(&mut out, sig.as_slice());
    crate::serialization::append_bytes(&mut out, message.as_slice());
    assert(out@ =~= transaction_bytes(sig@, message@));
    out
}

/// The wire bytes of the unsigned token-transfer transaction: its one
/// signature slot, for `payer`, is still all zero.
pub fn create_unsigned_token_transaction(
    mint: &[u8; 32],
    amount: u64,
    decimals: u8,
    to: &[u8; 32],
    payer: &[u8; 32],
    create_destination_account: bool,
    recent_blockhash: &[u8; 32],
) -> (r: Vec<u8>)
    ensures
        r@ == transaction_bytes(
            Seq::new(64, |i: int| 0u8),
            token_message(
                mint@,
                amount,
                decimals,
                to@,
                payer@,
                create_destination_account,
                recent_blockhash@,
            ),
        ),
{
    let message = token_transfer_message(
        mint,
        amount,
        decimals,
        to,
        payer,
        create_destination_account,
        recent_blockhash,
    );
    let empty = [0u8; 64];
    assert(empty@ =~= Seq::new(64, |i: int| 0u8));
    attach_signature(&message, &empty)
}

/// Equal inputs give byte-identical transfer messages: every party that
/// builds the transaction from the same parameters signs the same bytes.
pub proof fn lemma_token_message_reproducible(
    mint: [u8; 32],
    amount: u64,
    decimals: u8,
    to: [u8; 32],
    payer: [u8; 32],
    create_destination_account: bool,
    recent_blockhash: [u8; 32],
    m1: Seq<u8>,
    m2: Seq<u8>,
)
    requires
        m1 == token_message(mint@, amount, decimals, to@, payer@, create_destination_account, recent_blockhash@),
        m2 == token_message(mint@, amount, decimals, to@, payer@, create_destination_account, recent_blockhash@),
    ensures
        m1 == m2,
{
}

} // verus!
