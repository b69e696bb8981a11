//! The wallet signer's decision logic.
//!
//! Producing the actual rollup and base-chain signatures is the crypto
//! collaborators' work; what is decided here is which authorization a
//! signed `ChangePubKey` carries and which base-chain signatures are
//! acceptable, as pure functions of what the signing collaborators
//! returned.

use vstd::prelude::*;

use crate::change_pubkey::{
    ChangePubKeyECDSAData, ChangePubKeyEthAuthData, PackedEthSignature,
};
use crate::helpers::Hash256;

verus! {

/// Why signing a transaction failed.
#[derive(Clone, Copy, Debug, PartialEq, Eq, Structural)]
pub enum SignerError {
    /// The signer has no rollup account id yet.
    NoSigningKey,
    /// A base-chain signature is needed but no base-chain signer is set.
    MissingEthSigner,
    /// The base-chain signer produced a signature kind this flow cannot
    /// carry.
    UnsupportedSignatureKind,
}

/// A base-chain signature as returned by a signing collaborator.
pub enum TxEthSignature {
    EthereumSignature(PackedEthSignature),
    EIP1271Signature(Vec<u8>),
}

/// The signer must know its rollup account id before it can sign.
pub fn require_account_id(account_id: Option<u32>) -> (r: Result<u32, SignerError>)
    ensures
        (r is Ok) <==> (account_id is Some),
        r matches Ok(id) ==> account_id == Some(id),
        r matches Err(e) ==> e == SignerError::NoSigningKey,
{
    match account_id {
        Option::Some(id) => Ok(id),
        Option::None => Err(SignerError::NoSigningKey),
    }
}

/// Decide the authorization a signed `ChangePubKey` carries: on-chain
/// authorization when asked for; otherwise the base-chain signer's packed
/// ECDSA signature with a zero batch hash. A missing signer or a smart
/// contract signature cannot authorize a key change.
pub fn change_pubkey_auth_from_signature(
    auth_onchain: bool,
    eth_signature: Option<TxEthSignature>,
) -> (r: Result<ChangePubKeyEthAuthData, SignerError>)
    ensures
        auth_onchain ==> (r matches Ok(auth) && auth is Onchain),
        !auth_onchain ==> (match eth_signature {
            Option::None => r == Err::<ChangePubKeyEthAuthData, SignerError>(
                SignerError::MissingEthSigner,
            ),
            Option::Some(TxEthSignature::EthereumSignature(_)) => r matches Ok(auth) && (match (
                auth,
                eth_signature,
            ) {
                (
                    ChangePubKeyEthAuthData::ECDSA(data),
                    Option::Some(TxEthSignature::EthereumSignature(sig)),
                ) => data.eth_signature.bytes@ == sig.bytes@ && data.batch_hash.bytes@ == Seq::new(
                    32,
                    |i: int| 0u8,
                ),
                _ => false,
            }),
            Option::Some(TxEthSignature::EIP1271Signature(_)) => r == Err::<
                ChangePubKeyEthAuthData,
                SignerError,
            >(SignerError::UnsupportedSignatureKind),
        }),
{
    if auth_onchain {
        return Ok(ChangePubKeyEthAuthData::Onchain);
    }
    match eth_signature {
        Option::None => Err(SignerError::MissingEthSigner),
        Option::Some(TxEthSignature::EthereumSignature(sig)) => {
            let mut zero_hash: Vec<u8> = Vec::new();
            let mut i: usize = 0;
            while i < 32
                invariant
                    0 <= i <= 32,
                    zero_hash@ =~= Seq::new(i as nat, |j: int| 0u8),
                decreases 32 - i,
            {
                zero_hash.push(0u8);
                i = i + 1;
                proof {
                    assert(zero_hash@ =~= Seq::new(i as nat, |j: int| 0u8));
                }
            }
            Ok(
                ChangePubKeyEthAuthData::ECDSA(
                    ChangePubKeyECDSAData {
                        eth_signature: sig,
                        batch_hash: Hash256 { bytes: zero_hash },
                    },
                ),
            )
        },
        Option::Some(TxEthSignature::EIP1271Signature(_)) => Err(
            SignerError::UnsupportedSignatureKind,
        ),
    }
}

/// Decide which base-chain signature accompanies a transfer or withdrawal:
/// none when no base-chain signer is set, the packed signature when the
/// signer produced a plain one, and a failure when it produced a smart
/// contract signature.
pub fn extract_packed_signature(eth_signature: Option<TxEthSignature>) -> (r: Result<
    Option<PackedEthSignature>,
    SignerError,
>)
    ensures
        (match eth_signature {
            Option::None => r matches Ok(s) && s is None,
            Option::Some(TxEthSignature::EthereumSignature(_)) => r matches Ok(s) && (match (
                s,
                eth_signature,
            ) {
                (Option::Some(packed), Option::Some(TxEthSignature::EthereumSignature(sig))) => (
                packed.bytes@ == sig.bytes@),
                _ => false,
            }),
            Option::Some(TxEthSignature::EIP1271Signature(_)) => r == Err::<
                Option<PackedEthSignature>,
                SignerError,
            >(SignerError::MissingEthSigner),
        }),
{
    match eth_signature {
        Option::None => Ok(None),
        Option::Some(TxEthSignature::EthereumSignature(sig)) => Ok(Some(sig)),
        Option::Some(TxEthSignature::EIP1271Signature(_)) => Err(SignerError::MissingEthSigner),
    }
}

} // verus!
