use lnd_wallet::addr::NodeAddr;
use lnd_wallet::credentials::Credentials;
use lnd_wallet::credentials::Macaroon;
use lnd_wallet::errors::LndError;
use lnd_wallet::qr::Qr;
use lnd_wallet::qr::qr_image_data;
use lnd_wallet::rpc::ChannelBalanceReply;
use lnd_wallet::rpc::InvoiceReply;
use lnd_wallet::rpc::NodeInfo;
use lnd_wallet::rpc::WalletBalanceReply;
use lnd_wallet::rpc::channel_balance_call;
use lnd_wallet::rpc::create_invoice;
use lnd_wallet::rpc::create_invoice_call;
use lnd_wallet::rpc::get_channel_balance;
use lnd_wallet::rpc::get_info;
use lnd_wallet::rpc::get_info_call;
use lnd_wallet::rpc::get_wallet_balance;
use lnd_wallet::rpc::wallet_balance_call;

fn creds_with_tokens() -> Credentials {
    Credentials {
        certificate: vec![1, 2, 3],
        invoice_macaroon: Some(Macaroon::new(vec![0xDE, 0xAD])),
        readonly_macaroon: Some(Macaroon::new(vec![0xBE, 0xEF])),
        socket_addr: NodeAddr { a: 127, b: 0, c: 0, d: 1, port: 10009 },
    }
}

fn creds_without_readonly() -> Credentials {
    let mut c = creds_with_tokens();
    c.readonly_macaroon = None;
    c
}

fn creds_without_invoice() -> Credentials {
    let mut c = creds_with_tokens();
    c.invoice_macaroon = None;
    c
}

/// A stand-in transport that only counts how often it was reached.
struct MockTransport {
    calls: usize,
}

fn drive_wallet_balance(
    creds: &Credentials,
    transport: &mut MockTransport,
    reply: Result<WalletBalanceReply, String>,
) -> Result<i64, LndError> {
    let _meta = match wallet_balance_call(creds) {
        Err(e) => return Err(e),
        Ok(m) => m,
    };
    transport.calls += 1;
    get_wallet_balance(creds, reply)
}

#[test]
fn wallet_balance_without_token_makes_no_call() {
    let creds = creds_without_readonly();
    let mut transport = MockTransport { calls: 0 };
    let r = drive_wallet_balance(
        &creds,
        &mut transport,
        Ok(WalletBalanceReply { confirmed_balance: 1, unconfirmed_balance: 1 }),
    );
    assert!(matches!(r, Err(LndError::MissingToken)));
    assert_eq!(transport.calls, 0);
    assert!(matches!(
        get_wallet_balance(&creds, Ok(WalletBalanceReply { confirmed_balance: 1, unconfirmed_balance: 1 })),
        Err(LndError::MissingToken),
    ));
}

#[test]
fn wallet_balance_sums_confirmed_and_unconfirmed() {
    let creds = creds_with_tokens();
    let mut transport = MockTransport { calls: 0 };
    let r = drive_wallet_balance(
        &creds,
        &mut transport,
        Ok(WalletBalanceReply { confirmed_balance: 100, unconfirmed_balance: 42 }),
    );
    assert_eq!(r.unwrap(), 142);
    assert_eq!(transport.calls, 1);
}

#[test]
fn wallet_balance_overflow_is_reported_not_wrapped() {
    let creds = creds_with_tokens();
    let r = get_wallet_balance(
        &creds,
        Ok(WalletBalanceReply { confirmed_balance: i64::MAX, unconfirmed_balance: 1 }),
    );
    match r {
        Err(LndError::RpcError(m)) => assert_eq!(m, "balance out of range"),
        _ => panic!("expected an out-of-range failure"),
    }
}

#[test]
fn channel_balance_returns_reply_balance() {
    let creds = creds_with_tokens();
    let r = get_channel_balance(
        &creds,
        Ok(ChannelBalanceReply { balance: 500, pending_open_balance: 7 }),
    );
    assert_eq!(r.unwrap(), 500);
}

#[test]
fn channel_balance_without_token_is_missing_token() {
    let creds = creds_without_readonly();
    assert!(matches!(channel_balance_call(&creds), Err(LndError::MissingToken)));
    let r = get_channel_balance(
        &creds,
        Ok(ChannelBalanceReply { balance: 500, pending_open_balance: 0 }),
    );
    assert!(matches!(r, Err(LndError::MissingToken)));
}

#[test]
fn calls_carry_the_macaroon_as_metadata() {
    let creds = creds_with_tokens();
    let meta = wallet_balance_call(&creds).unwrap();
    assert_eq!(meta.key, "macaroon");
    assert_eq!(meta.value, b"BEEF".to_vec());
    let meta = get_info_call(&creds).unwrap();
    assert_eq!(meta.value, b"BEEF".to_vec());
    let (meta, _) = create_invoice_call(1, "m".to_string(), &creds).unwrap();
    assert_eq!(meta.value, b"DEAD".to_vec());
}

#[test]
fn get_info_hands_the_record_through() {
    let creds = creds_with_tokens();
    let info = NodeInfo {
        alias: "carol".to_string(),
        identity_pubkey: "02abc".to_string(),
        num_active_channels: 3,
        num_peers: 8,
        block_height: 700000,
        synced_to_chain: true,
    };
    let r = get_info(&creds, Ok(info)).unwrap();
    assert_eq!(r.alias, "carol");
    assert_eq!(r.identity_pubkey, "02abc");
    assert_eq!(r.num_active_channels, 3);
    assert!(r.synced_to_chain);
}

#[test]
fn invoice_request_carries_amount_memo_and_fixed_expiry() {
    let creds = creds_with_tokens();
    let (meta, req) = create_invoice_call(142, "woah".to_string(), &creds).unwrap();
    assert_eq!(meta.key, "macaroon");
    assert_eq!(req.value, 142);
    assert_eq!(req.memo, "woah");
    assert_eq!(req.expiry, 120);
}

#[test]
fn invoice_reply_returns_payment_request_unchanged() {
    let creds = creds_with_tokens();
    let reply = InvoiceReply {
        r_hash: vec![1, 2],
        payment_request: "lnbc1pexample".to_string(),
        add_index: 5,
    };
    let r = create_invoice(&creds, Ok(reply)).unwrap();
    assert_eq!(r.payment_request, "lnbc1pexample");
    assert_eq!(r.add_index, 5);
}

#[test]
fn invoice_without_token_is_missing_token() {
    let creds = creds_without_invoice();
    assert!(matches!(
        create_invoice_call(1, "m".to_string(), &creds),
        Err(LndError::MissingToken),
    ));
    let reply = InvoiceReply {
        r_hash: Vec::new(),
        payment_request: String::new(),
        add_index: 0,
    };
    assert!(matches!(create_invoice(&creds, Ok(reply)), Err(LndError::MissingToken)));
}

#[test]
fn transport_failure_is_rpc_error_for_every_call() {
    let creds = creds_with_tokens();
    let r = get_wallet_balance(&creds, Err("boom".to_string()));
    assert!(matches!(r, Err(LndError::RpcError(m)) if m == "boom"));
    let r = get_channel_balance(&creds, Err("boom".to_string()));
    assert!(matches!(r, Err(LndError::RpcError(m)) if m == "boom"));
    let r = get_info(&creds, Err("boom".to_string()));
    assert!(matches!(r, Err(LndError::RpcError(m)) if m == "boom"));
    let r = create_invoice(&creds, Err("boom".to_string()));
    assert!(matches!(r, Err(LndError::RpcError(m)) if m == "boom"));
}

#[test]
fn qr_image_maps_modules_to_pixels() {
    let modules = vec![true, false, false, true];
    let img = qr_image_data(2, &modules);
    assert_eq!(img.len(), 16);
    assert_eq!(&img[0..4], &[0, 0, 0, 255]);
    assert_eq!(&img[4..8], &[255, 255, 255, 255]);
    assert_eq!(&img[8..12], &[255, 255, 255, 255]);
    assert_eq!(&img[12..16], &[0, 0, 0, 255]);
}

#[test]
fn qr_symbol_of_a_payment_request_renders() {
    let qr = Qr::new("lnbc1pexamplepaymentrequest".to_string());
    let (size, img) = qr.image().expect("the text fits a QR code");
    assert!((21..=177).contains(&size));
    assert_eq!(img.len(), 4 * size * size);
    assert!(img.iter().all(|&b| b == 0 || b == 255));
}

#[test]
fn qr_of_overlong_text_is_refused() {
    let qr = Qr::new("a".repeat(5000));
    assert!(qr.image().is_none());
}
