//! The `ChangePubKey` transaction: sets the owner's public key hash for an
//! account, authorized either on-chain, by an ECDSA signature, or by a
//! CREATE2 address derivation.
//!
//! The byte encodings here are the protocol's own wire format and are
//! specified exactly; the Keccak digest itself comes from the outside
//! crypto crate behind a trusted wrapper.

use vstd::prelude::*;

use crate::helpers::Hash256;
use parity_crypto::Keccak256;

verus! {

/// Unique identifier of this transaction type in the rollup network.
pub const CHANGE_PUBKEY_TX_TYPE: u8 = 7;

/// A 20-byte base-chain address.
#[derive(Debug)]
pub struct Address {
    pub bytes: Vec<u8>,
}

impl Address {
    pub open spec fn wf(self) -> bool {
        self.bytes@.len() == 20
    }
}

/// A 20-byte rollup public key hash.
#[derive(Debug)]
pub struct PubKeyHash {
    pub data: Vec<u8>,
}

impl PubKeyHash {
    pub open spec fn wf(self) -> bool {
        self.data@.len() == 20
    }
}

/// A packed 65-byte base-chain ECDSA signature.
#[derive(Debug)]
pub struct PackedEthSignature {
    pub bytes: Vec<u8>,
}

impl PackedEthSignature {
    pub open spec fn wf(self) -> bool {
        self.bytes@.len() == 65
    }
}

/// ECDSA authorization data: the signature and the hash of the batch the
/// transaction belongs to (zero when it stands alone).
pub struct ChangePubKeyECDSAData {
    pub eth_signature: PackedEthSignature,
    pub batch_hash: Hash256,
}

/// CREATE2 authorization data: the inputs of the address derivation.
pub struct ChangePubKeyCREATE2Data {
    pub creator_address: Address,
    pub salt_arg: Hash256,
    pub code_hash: Hash256,
}

/// How the account's owner authorized the key change.
pub enum ChangePubKeyEthAuthData {
    Onchain,
    ECDSA(ChangePubKeyECDSAData),
    CREATE2(ChangePubKeyCREATE2Data),
}

impl ChangePubKeyEthAuthData {
    pub open spec fn wf(self) -> bool {
        match self {
            ChangePubKeyEthAuthData::Onchain => true,
            ChangePubKeyEthAuthData::ECDSA(data) => data.eth_signature.wf()
                && data.batch_hash.wf(),
            ChangePubKeyEthAuthData::CREATE2(data) => data.creator_address.wf()
                && data.salt_arg.wf() && data.code_hash.wf(),
        }
    }

    /// The base-chain witness bytes of the authorization.
    pub open spec fn spec_eth_witness(self) -> Seq<u8> {
        match self {
            ChangePubKeyEthAuthData::Onchain => Seq::empty(),
            ChangePubKeyEthAuthData::ECDSA(data) => seq![0x00u8] + data.eth_signature.bytes@
                + data.batch_hash.bytes@,
            ChangePubKeyEthAuthData::CREATE2(data) => seq![0x01u8] + data.creator_address.bytes@
                + data.salt_arg.bytes@ + data.code_hash.bytes@,
        }
    }

    pub fn is_ecdsa(&self) -> (r: bool)
        ensures
            r == (self is ECDSA),
    {
        match self {
            ChangePubKeyEthAuthData::ECDSA(..) => true,
            _ => false,
        }
    }

    pub fn is_onchain(&self) -> (r: bool)
        ensures
            r == (self is Onchain),
    {
        match self {
            ChangePubKeyEthAuthData::Onchain => true,
            _ => false,
        }
    }

    /// The witness bytes handed to the base-chain contract: a tag byte and
    /// the authorization's fields.
    pub fn get_eth_witness(&self) -> (r: Vec<u8>)
        ensures
            r@ == self.spec_eth_witness(),
    {
        match self {
            ChangePubKeyEthAuthData::Onchain => Vec::new(),
            ChangePubKeyEthAuthData::ECDSA(data) => {
                let mut bytes: Vec<u8> = Vec::new();
                bytes.push(0x00);
                push_bytes(&mut bytes, &data.eth_signature.bytes);
                push_bytes(&mut bytes, &data.batch_hash.bytes);
                proof {
                    assert(bytes@ =~= self.spec_eth_witness());
                }
                bytes
            },
            ChangePubKeyEthAuthData::CREATE2(data) => {
                let mut bytes: Vec<u8> = Vec::new();
                bytes.push(0x01);
                push_bytes(&mut bytes, &data.creator_address.bytes);
                push_bytes(&mut bytes, &data.salt_arg.bytes);
                push_bytes(&mut bytes, &data.code_hash.bytes);
                proof {
                    assert(bytes@ =~= self.spec_eth_witness());
                }
                bytes
            },
        }
    }
}

/// Append a byte string.
fn push_bytes(out: &mut Vec<u8>, data: &Vec<u8>)
    ensures
        final(out)@ == old(out)@ + data@,
{
    let mut i: usize = 0;
    while i < data.len()
        invariant
            0 <= i <= data@.len(),
            out@ == old(out)@ + data@.take(i as int),
        decreases data@.len() - i,
    {
        out.push(data[i]);
        i = i + 1;
        proof {
            assert(out@ =~= old(out)@ + data@.take(i as int));
        }
    }
    proof {
        assert(data@.take(data@.len() as int) =~= data@);
    }
}

/// The Keccak-256 digest of a byte string; the digest is a function of the
/// bytes alone.
pub uninterp spec fn keccak_of(data: Seq<u8>) -> Seq<u8>;

/// Relies on parity-crypto's Keccak256: a 32-byte digest computed from the
/// input bytes alone.
#[verifier::external_body]
fn keccak256(data: &Vec<u8>) -> (r: Vec<u8>)
    ensures
        r@ == keccak_of(data@),
        r@.len() == 32,
{
    data.keccak256().to_vec()
}

/// The CREATE2 salt: the digest of the key hash and the salt argument.
pub open spec fn create2_salt(pubkey_hash: Seq<u8>, salt_arg: Seq<u8>) -> Seq<u8> {
    keccak_of(pubkey_hash + salt_arg)
}

/// The CREATE2-derived address: the last 20 bytes of the digest of
/// `0xff ++ creator ++ salt ++ code_hash`.
pub open spec fn create2_address(
    creator: Seq<u8>,
    salt_arg: Seq<u8>,
    code_hash: Seq<u8>,
    pubkey_hash: Seq<u8>,
) -> Seq<u8> {
    keccak_of(seq![0xffu8] + creator + create2_salt(pubkey_hash, salt_arg) + code_hash).subrange(
        12,
        32,
    )
}

impl ChangePubKeyCREATE2Data {
    /// The address the CREATE2 derivation assigns to this authorization's
    /// account for the given key hash.
    pub fn get_address(&self, pubkey_hash: &PubKeyHash) -> (r: Address)
        requires
            self.creator_address.wf(),
            self.salt_arg.wf(),
            self.code_hash.wf(),
            pubkey_hash.wf(),
        ensures
            r.wf(),
            r.bytes@ == create2_address(
                self.creator_address.bytes@,
                self.salt_arg.bytes@,
                self.code_hash.bytes@,
                pubkey_hash.data@,
            ),
    {
        let mut salt_input: Vec<u8> = Vec::new();
        push_bytes(&mut salt_input, &pubkey_hash.data);
        push_bytes(&mut salt_input, &self.salt_arg.bytes);
        let salt = keccak256(&salt_input);

        let mut bytes: Vec<u8> = Vec::new();
        bytes.push(0xff);
        push_bytes(&mut bytes, &self.creator_address.bytes);
        push_bytes(&mut bytes, &salt);
        push_bytes(&mut bytes, &self.code_hash.bytes);
        proof {
            assert(bytes@ =~= seq![0xffu8] + self.creator_address.bytes@ + create2_salt(
                pubkey_hash.data@,
                self.salt_arg.bytes@,
            ) + self.code_hash.bytes@);
        }
        let digest = keccak256(&bytes);
        let mut address: Vec<u8> = Vec::new();
        let mut i: usize = 12;
        while i < 32
            invariant
                12 <= i <= 32,
                digest@.len() == 32,
                address@ == digest@.subrange(12, i as int),
            decreases 32 - i,
        {
            address.push(digest[i]);
            i = i + 1;
            proof {
                assert(address@ =~= digest@.subrange(12, i as int));
            }
        }
        Address { bytes: address }
    }
}

/// Ten to the power of `e`.
pub open spec fn pow10(e: nat) -> int
    decreases e,
{
    if e == 0 {
        1
    } else {
        10 * pow10((e - 1) as nat)
    }
}

/// The greedy fee packing: divide the fee by ten until the mantissa fits
/// eleven bits, failing when a division would lose digits or the exponent
/// would overflow five bits. `Some((exponent, mantissa))` represents the
/// fee exactly as `mantissa * 10^exponent`.
pub open spec fn spec_pack_fee(fee: int, e: nat) -> Option<(nat, int)>
    decreases fee,
{
    if fee <= 2047 {
        Option::Some((e, fee))
    } else if fee % 10 != 0 || e >= 31 {
        Option::None
    } else {
        spec_pack_fee(fee / 10, e + 1)
    }
}

/// Is the fee representable as an 11-bit mantissa with a 5-bit decimal
/// exponent?
pub open spec fn fee_packable(fee: u128) -> bool {
    spec_pack_fee(fee as int, 0) is Some
}

/// The packed 16-bit value: exponent in the high five bits, mantissa in
/// the low eleven.
pub open spec fn packed_fee_value(fee: u128) -> int {
    let packed = spec_pack_fee(fee as int, 0)->Some_0;
    packed.0 * 2048 + packed.1
}

/// Pack a fee amount into its 16-bit exponent/mantissa form.
pub fn pack_fee_amount(fee: u128) -> (r: Option<u16>)
    ensures
        (r is Some) <==> fee_packable(fee),
        r matches Some(v) ==> v as int == packed_fee_value(fee),
{
    let mut mantissa: u128 = fee;
    let mut exponent: u32 = 0;
    while mantissa > 2047
        invariant
            0 <= exponent <= 31,
            spec_pack_fee(mantissa as int, exponent as nat) == spec_pack_fee(fee as int, 0),
        ensures
            spec_pack_fee(mantissa as int, exponent as nat) == spec_pack_fee(fee as int, 0),
            mantissa <= 2047 || spec_pack_fee(fee as int, 0) is None,
        decreases mantissa,
    {
        if mantissa % 10 != 0 || exponent >= 31 {
            return None;
        }
        mantissa = mantissa / 10;
        exponent = exponent + 1;
    }
    if mantissa > 2047 {
        return None;
    }
    Some((exponent * 2048 + mantissa as u32) as u16)
}

/// Fee packing represents the fee exactly: the packed mantissa times ten to
/// the packed exponent is the fee.
pub proof fn lemma_fee_packing_exact(fee: u128)
    requires
        fee_packable(fee),
    ensures
        ({
            let packed = spec_pack_fee(fee as int, 0)->Some_0;
            &&& 0 <= packed.1 <= 2047
            &&& packed.0 <= 31
            &&& fee as int == packed.1 * pow10(packed.0)
        }),
{
    lemma_spec_pack_fee_exact(fee as int, 0);
}

proof fn lemma_spec_pack_fee_exact(fee: int, e: nat)
    requires
        fee >= 0,
        spec_pack_fee(fee, e) is Some,
    ensures
        ({
            let packed = spec_pack_fee(fee, e)->Some_0;
            &&& 0 <= packed.1 <= 2047
            &&& packed.0 >= e
            &&& packed.0 <= 31 || packed.0 == e
            &&& fee * pow10(e) == packed.1 * pow10(packed.0)
        }),
    decreases fee,
{
    if fee <= 2047 {
    } else {
        lemma_spec_pack_fee_exact(fee / 10, e + 1);
        let packed = spec_pack_fee(fee / 10, e + 1)->Some_0;
        assert(fee == (fee / 10) * 10) by {
            assert(fee % 10 == 0);
        }
        assert(pow10(e + 1) == 10 * pow10(e));
        assert((fee / 10) * pow10(e + 1) == (fee / 10) * (10 * pow10(e)));
        assert((fee / 10) * (10 * pow10(e)) == ((fee / 10) * 10) * pow10(e))
            by (nonlinear_arith);
        assert(fee * pow10(e) == (fee / 10) * pow10(e + 1));
    }
}

/// Errors of transaction assembly.
#[derive(Clone, Copy, Debug, PartialEq, Eq, Structural)]
pub enum ChangePubKeyError {
    /// The base-chain signed message is only defined for ECDSA
    /// authorization.
    NotEcdsaAuthorized,
    /// The fee does not fit the packed exponent/mantissa form.
    FeeNotPackable,
}

/// A `u16` as two big-endian bytes.
pub open spec fn spec_be_u16(x: int) -> Seq<u8> {
    seq![(x / 256 % 256) as u8, (x % 256) as u8]
}

/// A `u32` as four big-endian bytes.
pub open spec fn spec_be_u32(x: u32) -> Seq<u8> {
    seq![
        (x / 0x100_0000 % 256) as u8,
        (x / 0x1_0000 % 256) as u8,
        (x / 256 % 256) as u8,
        (x % 256) as u8,
    ]
}

fn push_be_u16(out: &mut Vec<u8>, x: u16)
    ensures
        final(out)@ == old(out)@ + spec_be_u16(x as int),
{
    out.push((x / 256 % 256) as u8);
    out.push((x % 256) as u8);
    proof {
        assert(out@ =~= old(out)@ + spec_be_u16(x as int));
    }
}

fn push_be_u32(out: &mut Vec<u8>, x: u32)
    ensures
        final(out)@ == old(out)@ + spec_be_u32(x),
{
    out.push((x / 0x100_0000 % 256) as u8);
    out.push((x / 0x1_0000 % 256) as u8);
    out.push((x / 256 % 256) as u8);
    out.push((x % 256) as u8);
    proof {
        assert(out@ =~= old(out)@ + spec_be_u32(x));
    }
}

/// A `ChangePubKey` transaction, modelled with its plain fields; the rollup
/// signature and its verification stay with the proof system's crypto.
pub struct ChangePubKey {
    /// Rollup account id to apply the operation to.
    pub account_id: u32,
    /// Address of the account.
    pub account: Address,
    /// Public key hash to set.
    pub new_pk_hash: PubKeyHash,
    /// Token used for the fee.
    pub fee_token: u16,
    /// Fee for the transaction.
    pub fee: u128,
    /// Current account nonce.
    pub nonce: u32,
    /// How the owner authorized the change.
    pub eth_auth_data: ChangePubKeyEthAuthData,
}

/// The protocol encoding of a `ChangePubKey` transaction.
pub open spec fn spec_change_pubkey_bytes(tx: ChangePubKey) -> Seq<u8> {
    seq![CHANGE_PUBKEY_TX_TYPE] + spec_be_u32(tx.account_id) + tx.account.bytes@
        + tx.new_pk_hash.data@ + spec_be_u16(tx.fee_token as int) + spec_be_u16(
        packed_fee_value(tx.fee),
    ) + spec_be_u32(tx.nonce)
}

/// The base-chain message the owner signs for ECDSA authorization: key
/// hash, nonce, account id and batch hash, 60 bytes in all. Fee data is
/// deliberately absent; it is covered by the rollup signature instead.
pub open spec fn spec_eth_signed_message(tx: ChangePubKey) -> Seq<u8> {
    match tx.eth_auth_data {
        ChangePubKeyEthAuthData::ECDSA(data) => tx.new_pk_hash.data@ + spec_be_u32(tx.nonce)
            + spec_be_u32(tx.account_id) + data.batch_hash.bytes@,
        _ => Seq::empty(),
    }
}

impl ChangePubKey {
    pub open spec fn wf(self) -> bool {
        &&& self.account.wf()
        &&& self.new_pk_hash.wf()
        &&& self.eth_auth_data.wf()
    }

    /// Encode the transaction as the byte sequence the rollup signs.
    pub fn get_bytes(&self) -> (r: Result<Vec<u8>, ChangePubKeyError>)
        requires
            self.wf(),
        ensures
            (r is Ok) <==> fee_packable(self.fee),
            r matches Ok(bytes) ==> bytes@ == spec_change_pubkey_bytes(*self),
            r matches Err(e) ==> e == ChangePubKeyError::FeeNotPackable,
    {
        let packed_fee = match pack_fee_amount(self.fee) {
            Option::Some(v) => v,
            Option::None => {
                return Err(ChangePubKeyError::FeeNotPackable);
            },
        };
        let mut out: Vec<u8> = Vec::new();
        out.push(CHANGE_PUBKEY_TX_TYPE);
        push_be_u32(&mut out, self.account_id);
        push_bytes(&mut out, &self.account.bytes);
        push_bytes(&mut out, &self.new_pk_hash.data);
        push_be_u16(&mut out, self.fee_token);
        push_be_u16(&mut out, packed_fee);
        push_be_u32(&mut out, self.nonce);
        proof {
            assert(out@ =~= spec_change_pubkey_bytes(*self));
        }
        Ok(out)
    }

    /// The message to be signed with the base-chain private key; defined
    /// only for ECDSA authorization, where it is exactly 60 bytes.
    pub fn get_eth_signed_data(&self) -> (r: Result<Vec<u8>, ChangePubKeyError>)
        requires
            self.wf(),
        ensures
            (r is Ok) <==> (self.eth_auth_data is ECDSA),
            r matches Ok(bytes) ==> bytes@ == spec_eth_signed_message(*self) && bytes@.len() == 60,
            r matches Err(e) ==> e == ChangePubKeyError::NotEcdsaAuthorized,
    {
        match &self.eth_auth_data {
            ChangePubKeyEthAuthData::ECDSA(data) => {
                let mut msg: Vec<u8> = Vec::new();
                push_bytes(&mut msg, &self.new_pk_hash.data);
                push_be_u32(&mut msg, self.nonce);
                push_be_u32(&mut msg, self.account_id);
                push_bytes(&mut msg, &data.batch_hash.bytes);
                proof {
                    assert(msg@ =~= spec_eth_signed_message(*self));
                }
                Ok(msg)
            },
            _ => Err(ChangePubKeyError::NotEcdsaAuthorized),
        }
    }

    /// Structural authorization validity for the parts that need no
    /// base-chain signature recovery: on-chain authorization is trusted to
    /// be checked against the base chain, and a CREATE2 authorization must
    /// derive exactly the transaction's account address.
    pub fn is_create2_auth_data_valid(&self) -> (r: bool)
        requires
            self.wf(),
        ensures
            (match self.eth_auth_data {
                ChangePubKeyEthAuthData::CREATE2(data) => r == (create2_address(
                    data.creator_address.bytes@,
                    data.salt_arg.bytes@,
                    data.code_hash.bytes@,
                    self.new_pk_hash.data@,
                ) =~= self.account.bytes@),
                ChangePubKeyEthAuthData::Onchain => r,
                ChangePubKeyEthAuthData::ECDSA(_) => !r,
            }),
    {
        match &self.eth_auth_data {
            ChangePubKeyEthAuthData::Onchain => true,
            ChangePubKeyEthAuthData::CREATE2(create2_data) => {
                let derived = create2_data.get_address(&self.new_pk_hash);
                crate::aggregated_operations::bytes_eq(&derived.bytes, &self.account.bytes)
            },
            ChangePubKeyEthAuthData::ECDSA(_) => false,
        }
    }
}

/// The public key ECDSA recovery yields for a signature and a 32-byte
/// message hash, when recovery succeeds; deterministic in its inputs.
pub uninterp spec fn recover_of(sig: Seq<u8>, msg_hash: Seq<u8>) -> Option<Seq<u8>>;

/// Relies on parity-crypto's publickey::recover: recovery of the signing
/// key from a 65-byte signature and a 32-byte message hash, deterministic
/// in its inputs, yielding a 64-byte public key when it succeeds.
#[verifier::external_body]
fn recover_signer_public(sig: &Vec<u8>, msg_hash: &Vec<u8>) -> (r: Option<Vec<u8>>)
    requires
        sig@.len() == 65,
        msg_hash@.len() == 32,
    ensures
        (r is Some) <==> (recover_of(sig@, msg_hash@) is Some),
        r matches Some(public) ==> recover_of(sig@, msg_hash@) == Some(public@) && public@.len()
            == 64,
{
    let mut sig_array = [0u8; 65];
    sig_array.copy_from_slice(sig);
    let signature = parity_crypto::publickey::Signature::from(sig_array);
    let message = parity_crypto::publickey::Message::from_slice(msg_hash);
    match parity_crypto::publickey::recover(&signature, &message) {
        Ok(public) => Some(public.as_bytes().to_vec()),
        Err(_) => None,
    }
}

/// The decimal digits of a number, most significant first.
pub open spec fn spec_decimal(n: nat) -> Seq<u8>
    decreases n,
{
    if n < 10 {
        seq![(48 + n) as u8]
    } else {
        spec_decimal(n / 10) + seq![(48 + n % 10) as u8]
    }
}

/// Append a number's decimal digits.
fn push_decimal(out: &mut Vec<u8>, n: u64)
    ensures
        final(out)@ == old(out)@ + spec_decimal(n as nat),
    decreases n,
{
    if n < 10 {
        out.push(48 + n as u8);
        proof {
            assert(out@ =~= old(out)@ + spec_decimal(n as nat));
        }
    } else {
        push_decimal(out, n / 10);
        out.push(48 + (n % 10) as u8);
        proof {
            assert(out@ =~= old(out)@ + spec_decimal(n as nat));
        }
    }
}

/// The standard base-chain signed-message prefix: `\x19Ethereum Signed
/// Message:\n` followed by the message length in decimal.
pub open spec fn eth_message_prefix(msg_len: nat) -> Seq<u8> {
    seq![
        0x19u8, 0x45u8, 0x74u8, 0x68u8, 0x65u8, 0x72u8, 0x65u8, 0x75u8, 0x6du8, 0x20u8, 0x53u8,
        0x69u8, 0x67u8, 0x6eu8, 0x65u8, 0x64u8, 0x20u8, 0x4du8, 0x65u8, 0x73u8, 0x73u8, 0x61u8,
        0x67u8, 0x65u8, 0x3au8, 0x0au8,
    ] + spec_decimal(msg_len)
}

/// The hash the owner actually signs: the digest of the prefixed message.
pub open spec fn eth_message_hash(msg: Seq<u8>) -> Seq<u8> {
    keccak_of(eth_message_prefix(msg.len()) + msg)
}

/// The base-chain address a signature recovers to for a message, when
/// recovery succeeds: the last 20 bytes of the recovered key's digest.
pub open spec fn recovered_signer_address(sig: Seq<u8>, msg: Seq<u8>) -> Option<Seq<u8>> {
    match recover_of(sig, eth_message_hash(msg)) {
        Option::Some(public) => Option::Some(keccak_of(public).subrange(12, 32)),
        Option::None => Option::None,
    }
}

impl PackedEthSignature {
    /// Recover the address that signed the message, when the signature
    /// recovers at all.
    pub fn signature_recover_signer(&self, msg: &Vec<u8>) -> (r: Option<Address>)
        requires
            self.wf(),
        ensures
            (r is Some) <==> (recovered_signer_address(self.bytes@, msg@) is Some),
            r matches Some(addr) ==> addr.wf() && recovered_signer_address(self.bytes@, msg@)
                == Some(addr.bytes@),
    {
        let mut prefixed: Vec<u8> = Vec::new();
        prefixed.push(0x19);
        prefixed.push(0x45);
        prefixed.push(0x74);
        prefixed.push(0x68);
        prefixed.push(0x65);
        prefixed.push(0x72);
        prefixed.push(0x65);
        prefixed.push(0x75);
        prefixed.push(0x6d);
        prefixed.push(0x20);
        prefixed.push(0x53);
        prefixed.push(0x69);
        prefixed.push(0x67);
        prefixed.push(0x6e);
        prefixed.push(0x65);
        prefixed.push(0x64);
        prefixed.push(0x20);
        prefixed.push(0x4d);
        prefixed.push(0x65);
        prefixed.push(0x73);
        prefixed.push(0x73);
        prefixed.push(0x61);
        prefixed.push(0x67);
        prefixed.push(0x65);
        prefixed.push(0x3a);
        prefixed.push(0x0a);
        push_decimal(&mut prefixed, msg.len() as u64);
        push_bytes(&mut prefixed, msg);
        proof {
            assert(prefixed@ =~= eth_message_prefix(msg@.len()) + msg@);
        }
        let msg_hash = keccak256(&prefixed);
        let public = match recover_signer_public(&self.bytes, &msg_hash) {
            Option::Some(public) => public,
            Option::None => {
                return None;
            },
        };
        let digest = keccak256(&public);
        let mut address: Vec<u8> = Vec::new();
        let mut i: usize = 12;
        while i < 32
            invariant
                12 <= i <= 32,
                digest@.len() == 32,
                address@ == digest@.subrange(12, i as int),
            decreases 32 - i,
        {
            address.push(digest[i]);
            i = i + 1;
            proof {
                assert(address@ =~= digest@.subrange(12, i as int));
            }
        }
        Some(Address { bytes: address })
    }
}

impl ChangePubKey {
    /// Authorization validity: on-chain authorization is left to the base
    /// chain; an ECDSA authorization must recover the transaction's account
    /// address from its signed message; a CREATE2 authorization must derive
    /// exactly that address.
    pub fn is_eth_auth_data_valid(&self) -> (r: bool)
        requires
            self.wf(),
        ensures
            (match self.eth_auth_data {
                ChangePubKeyEthAuthData::Onchain => r,
                ChangePubKeyEthAuthData::ECDSA(data) => r == (recovered_signer_address(
                    data.eth_signature.bytes@,
                    spec_eth_signed_message(*self),
                ) matches Some(addr) && addr =~= self.account.bytes@),
                ChangePubKeyEthAuthData::CREATE2(data) => r == (create2_address(
                    data.creator_address.bytes@,
                    data.salt_arg.bytes@,
                    data.code_hash.bytes@,
                    self.new_pk_hash.data@,
                ) =~= self.account.bytes@),
            }),
    {
        match &self.eth_auth_data {
            ChangePubKeyEthAuthData::Onchain => true,
            ChangePubKeyEthAuthData::ECDSA(data) => {
                let msg = match self.get_eth_signed_data() {
                    Result::Ok(msg) => msg,
                    Result::Err(_) => {
                        return false;
                    },
                };
                match data.eth_signature.signature_recover_signer(&msg) {
                    Option::Some(recovered) => crate::aggregated_operations::bytes_eq(
                        &recovered.bytes,
                        &self.account.bytes,
                    ),
                    Option::None => false,
                }
            },
            ChangePubKeyEthAuthData::CREATE2(create2_data) => {
                let derived = create2_data.get_address(&self.new_pk_hash);
                crate::aggregated_operations::bytes_eq(&derived.bytes, &self.account.bytes)
            },
        }
    }
}

} // verus!
