use vstd::prelude::*;

use crate::credentials::Credentials;
use crate::credentials::Macaroon;
use crate::errors::LndError;
use crate::hex::hex_of;

verus! {

/// The authentication metadata of one call: the key/value pair under which
/// the macaroon travels with the request.
pub struct RequestMeta {
    pub key: &'static str,
    pub value: Vec<u8>,
}

/// The invoice-creation request as it is sent: the memo, the amount in the
/// smallest currency unit, and the fixed expiry.
pub struct InvoiceRequest {
    pub memo: String,
    pub value: i64,
    pub expiry: i64,
}

/// The seconds an invoice created by this wallet stays payable.
pub const INVOICE_EXPIRY_SECONDS: i64 = 120;

/// The wallet-balance reply, as handed back by the transport.
pub struct WalletBalanceReply {
    pub confirmed_balance: i64,
    pub unconfirmed_balance: i64,
}

/// The channel-balance reply, as handed back by the transport.
pub struct ChannelBalanceReply {
    pub balance: i64,
    pub pending_open_balance: i64,
}

/// The node metadata record of the info query.
pub struct NodeInfo {
    pub alias: String,
    pub identity_pubkey: String,
    pub num_active_channels: u32,
    pub num_peers: u32,
    pub block_height: u32,
    pub synced_to_chain: bool,
}

/// The invoice-creation reply: the payment hash, the encoded
/// payment-request string and the index the node gave the invoice.
pub struct InvoiceReply {
    pub r_hash: Vec<u8>,
    pub payment_request: String,
    pub add_index: u64,
}

fn auth_meta(mac: &Macaroon) -> (r: RequestMeta)
    ensures
        r.key@ == "macaroon"@,
        r.value@ == hex_of(mac@),
{
    RequestMeta { key: Macaroon::metadata_key(), value: mac.metadata_value() }
}

/// Prepares the wallet-balance query.  The call needs the read-only
/// macaroon; where it is absent the call fails here, before anything is
/// sent.
pub fn wallet_balance_call(creds: &Credentials) -> (r: Result<RequestMeta, LndError>)
    ensures
        r is Ok <==> creds.readonly_macaroon is Some,
        (r matches Ok(m) ==> m.key@ == "macaroon"@ && m.value@ == hex_of(
            creds.readonly_macaroon.unwrap()@,
        )),
        (r matches Err(e) ==> e == LndError::MissingToken),
{
    match &creds.readonly_macaroon {
        Some(mac) => Ok(auth_meta(mac)),
        None => Err(LndError::MissingToken),
    }
}

/// Prepares the channel-balance query, under the read-only macaroon.
pub fn channel_balance_call(creds: &Credentials) -> (r: Result<RequestMeta, LndError>)
    ensures
        r is Ok <==> creds.readonly_macaroon is Some,
        (r matches Ok(m) ==> m.key@ == "macaroon"@ && m.value@ == hex_of(
            creds.readonly_macaroon.unwrap()@,
        )),
        (r matches Err(e) ==> e == LndError::MissingToken),
{
    match &creds.readonly_macaroon {
        Some(mac) => Ok(auth_meta(mac)),
        None => Err(LndError::MissingToken),
    }
}

/// Prepares the node-info query, under the read-only macaroon.
pub fn get_info_call(creds: &Credentials) -> (r: Result<RequestMeta, LndError>)
    ensures
        r is Ok <==> creds.readonly_macaroon is Some,
        (r matches Ok(m) ==> m.key@ == "macaroon"@ && m.value@ == hex_of(
            creds.readonly_macaroon.unwrap()@,
        )),
        (r matches Err(e) ==> e == LndError::MissingToken),
{
    match &creds.readonly_macaroon {
        Some(mac) => Ok(auth_meta(mac)),
        None => Err(LndError::MissingToken),
    }
}

/// Prepares invoice creation: the request carries the memo, the amount and
/// the fixed expiry, and travels under the invoice-scoped macaroon; where
/// that macaroon is absent the call fails here, before anything is sent.
pub fn create_invoice_call(amount: u32, memo: String, creds: &Credentials) -> (r: Result<
    (RequestMeta, InvoiceRequest),
    LndError,
>)
    ensures
        r is Ok <==> creds.invoice_macaroon is Some,
        (r matches Ok(p) ==> {
            &&& p.0.key@ == "macaroon"@
            &&& p.0.value@ == hex_of(creds.invoice_macaroon.unwrap()@)
            &&& p.1.memo == memo
            &&& p.1.value == amount as i64
            &&& p.1.expiry == INVOICE_EXPIRY_SECONDS
        }),
        (r matches Err(e) ==> e == LndError::MissingToken),
{
    match &creds.invoice_macaroon {
        Some(mac) => {
            let meta = auth_meta(mac);
            let invoice = InvoiceRequest {
                memo,
                value: amount as i64,
                expiry: INVOICE_EXPIRY_SECONDS,
            };
            Ok((meta, invoice))
        },
        None => Err(LndError::MissingToken),
    }
}

/// The on-chain wallet balance: the sum of the confirmed and the
/// unconfirmed balance of the reply.  Without the read-only macaroon the
/// call fails with `MissingToken` whatever the transport said; a transport
/// failure becomes `RpcError`; a sum outside the signed 64-bit range is
/// reported as `RpcError` rather than wrapped around.
pub fn get_wallet_balance(creds: &Credentials, outcome: Result<WalletBalanceReply, String>) -> (r:
    Result<i64, LndError>)
    ensures
        creds.readonly_macaroon is None ==> (r matches Err(e) && e == LndError::MissingToken),
        creds.readonly_macaroon is Some ==> match outcome {
            Err(m) => r matches Err(e) && e == LndError::RpcError(m),
            Ok(w) => {
                let total = w.confirmed_balance + w.unconfirmed_balance;
                &&& (i64::MIN <= total <= i64::MAX ==> (r matches Ok(v) && v == total))
                &&& (!(i64::MIN <= total <= i64::MAX) ==> (r matches Err(e) && e matches
                    LndError::RpcError(s) && s@ == "balance out of range"@))
            },
        },
{
    if creds.readonly_macaroon.is_none() {
        return Err(LndError::MissingToken);
    }
    match outcome {
        Err(m) => Err(LndError::RpcError(m)),
        Ok(w) => {
            let total = (w.confirmed_balance as i128) + (w.unconfirmed_balance as i128);
            if total >= i64::MIN as i128 && total <= i64::MAX as i128 {
                Ok(total as i64)
            } else {
                Err(LndError::RpcError("balance out of range".to_owned()))
            }
        },
    }
}

/// The aggregate balance across open channels, excluding pending ones.
/// Token and transport failures are reported as in `get_wallet_balance`.
pub fn get_channel_balance(creds: &Credentials, outcome: Result<ChannelBalanceReply, String>) -> (r:
    Result<i64, LndError>)
    ensures
        creds.readonly_macaroon is None ==> (r matches Err(e) && e == LndError::MissingToken),
        creds.readonly_macaroon is Some ==> match outcome {
            Err(m) => r matches Err(e) && e == LndError::RpcError(m),
            Ok(c) => r matches Ok(v) && v == c.balance,
        },
{
    if creds.readonly_macaroon.is_none() {
        return Err(LndError::MissingToken);
    }
    match outcome {
        Err(m) => Err(LndError::RpcError(m)),
        Ok(c) => Ok(c.balance),
    }
}

/// The node metadata record, handed through unchanged.  The query needs the
/// read-only macaroon; token and transport failures are reported as in
/// `get_wallet_balance`.
pub fn get_info(creds: &Credentials, outcome: Result<NodeInfo, String>) -> (r: Result<
    NodeInfo,
    LndError,
>)
    ensures
        creds.readonly_macaroon is None ==> (r matches Err(e) && e == LndError::MissingToken),
        creds.readonly_macaroon is Some ==> match outcome {
            Err(m) => r matches Err(e) && e == LndError::RpcError(m),
            Ok(info) => r matches Ok(i) && i == info,
        },
{
    if creds.readonly_macaroon.is_none() {
        return Err(LndError::MissingToken);
    }
    match outcome {
        Err(m) => Err(LndError::RpcError(m)),
        Ok(info) => Ok(info),
    }
}

/// The created invoice, handed through unchanged, payment-request string
/// included.  The call needs the invoice-scoped macaroon; token and
/// transport failures are reported as in `get_wallet_balance`.
pub fn create_invoice(creds: &Credentials, outcome: Result<InvoiceReply, String>) -> (r: Result<
    InvoiceReply,
    LndError,
>)
    ensures
        creds.invoice_macaroon is None ==> (r matches Err(e) && e == LndError::MissingToken),
        creds.invoice_macaroon is Some ==> match outcome {
            Err(m) => r matches Err(e) && e == LndError::RpcError(m),
            Ok(inv) => r matches Ok(i) && i == inv,
        },
{
    if creds.invoice_macaroon.is_none() {
        return Err(LndError::MissingToken);
    }
    match outcome {
        Err(m) => Err(LndError::RpcError(m)),
        Ok(inv) => Ok(inv),
    }
}

} // verus!
