use lnd_wallet::addr::NodeAddr;
use lnd_wallet::addr::parse_node_addr;
use lnd_wallet::credentials::Credentials;
use lnd_wallet::credentials::Macaroon;
use lnd_wallet::errors::EnvVar;
use lnd_wallet::errors::LndError;
use lnd_wallet::loader::EnvSnapshot;
use lnd_wallet::loader::Loader;

fn full_env() -> EnvSnapshot {
    EnvSnapshot {
        tls_cert: Some("/tmp/tls.cert".to_string()),
        invoice_macaroon: Some("/tmp/invoice.macaroon".to_string()),
        read_macaroon: Some("/tmp/readonly.macaroon".to_string()),
        grpc_url: Some("127.0.0.1:10009".to_string()),
    }
}

/// Drives the loader with a fake file reader, recording every path the
/// loader asks for.
fn drive<F: FnMut(&str) -> Result<Vec<u8>, String>>(
    env: EnvSnapshot,
    mut read: F,
    log: &mut Vec<String>,
) -> Loader {
    let mut st = Loader::start(env);
    loop {
        let path = match st.requested_file() {
            None => return st,
            Some(p) => p.clone(),
        };
        log.push(path.clone());
        let outcome = read(&path);
        st = st.provide_file(outcome);
    }
}

fn happy_reader(path: &str) -> Result<Vec<u8>, String> {
    match path {
        "/tmp/tls.cert" => Ok(vec![1, 2, 3]),
        "/tmp/invoice.macaroon" => Ok(vec![0xDE, 0xAD]),
        "/tmp/readonly.macaroon" => Ok(vec![0xBE, 0xEF]),
        _ => Err(format!("unexpected path {}", path)),
    }
}

#[test]
fn missing_tls_cert_var_fails_without_reads() {
    let mut env = full_env();
    env.tls_cert = None;
    let mut log = Vec::new();
    let st = drive(env, happy_reader, &mut log);
    assert!(log.is_empty());
    match st {
        Loader::Failed(LndError::MissingEnvVar(v)) => {
            assert!(matches!(v, EnvVar::TlsCert));
            assert_eq!(v.name(), "LND_TLS_CERT");
        },
        _ => panic!("expected a missing-variable failure"),
    }
}

#[test]
fn missing_invoice_macaroon_var_fails_without_reads() {
    let mut env = full_env();
    env.invoice_macaroon = None;
    let mut log = Vec::new();
    let st = drive(env, happy_reader, &mut log);
    assert!(log.is_empty());
    match st {
        Loader::Failed(LndError::MissingEnvVar(v)) => {
            assert_eq!(v.name(), "LND_INVOICE_MACAROON");
        },
        _ => panic!("expected a missing-variable failure"),
    }
}

#[test]
fn missing_read_macaroon_var_fails_without_reads() {
    let mut env = full_env();
    env.read_macaroon = None;
    let mut log = Vec::new();
    let st = drive(env, happy_reader, &mut log);
    assert!(log.is_empty());
    match st {
        Loader::Failed(LndError::MissingEnvVar(v)) => {
            assert_eq!(v.name(), "LND_READ_MACAROON");
        },
        _ => panic!("expected a missing-variable failure"),
    }
}

#[test]
fn missing_grpc_url_var_fails_without_reads() {
    let mut env = full_env();
    env.grpc_url = None;
    let mut log = Vec::new();
    let st = drive(env, happy_reader, &mut log);
    assert!(log.is_empty());
    match st {
        Loader::Failed(LndError::MissingEnvVar(v)) => {
            assert_eq!(v.name(), "LND_GRPC_URL");
        },
        _ => panic!("expected a missing-variable failure"),
    }
}

#[test]
fn certificate_read_failure_stops_before_macaroons() {
    let mut log = Vec::new();
    let st = drive(full_env(), |_| Err("no such file".to_string()), &mut log);
    assert_eq!(log, vec!["/tmp/tls.cert".to_string()]);
    match st {
        Loader::Failed(LndError::CertificateError(m)) => assert_eq!(m, "no such file"),
        _ => panic!("expected a certificate failure"),
    }
}

#[test]
fn macaroon_read_failure_is_credential_file_error() {
    let mut log = Vec::new();
    let st = drive(
        full_env(),
        |path| {
            if path == "/tmp/tls.cert" {
                Ok(vec![1])
            } else {
                Err("denied".to_string())
            }
        },
        &mut log,
    );
    assert_eq!(
        log,
        vec!["/tmp/tls.cert".to_string(), "/tmp/invoice.macaroon".to_string()],
    );
    assert!(matches!(st, Loader::Failed(LndError::CredentialFileError(_))));
}

#[test]
fn complete_load_yields_credentials() {
    let mut log = Vec::new();
    let st = drive(full_env(), happy_reader, &mut log);
    assert_eq!(log.len(), 3);
    match st {
        Loader::Done(creds) => {
            assert_eq!(creds.certificate, vec![1, 2, 3]);
            assert_eq!(creds.invoice_macaroon.as_ref().unwrap().bytes, vec![0xDE, 0xAD]);
            assert_eq!(creds.readonly_macaroon.as_ref().unwrap().bytes, vec![0xBE, 0xEF]);
            assert_eq!(
                creds.socket_addr,
                NodeAddr { a: 127, b: 0, c: 0, d: 1, port: 10009 },
            );
        },
        _ => panic!("expected a finished load"),
    }
}

#[test]
fn malformed_address_fails_with_address_parse_error() {
    let mut env = full_env();
    env.grpc_url = Some("not-a-host-port".to_string());
    let mut log = Vec::new();
    let st = drive(env, happy_reader, &mut log);
    assert!(matches!(st, Loader::Failed(LndError::AddressParseError)));
}

#[test]
fn parse_accepts_well_formed_addresses() {
    assert_eq!(
        parse_node_addr("1.2.3.4:80").unwrap(),
        NodeAddr { a: 1, b: 2, c: 3, d: 4, port: 80 },
    );
    assert_eq!(
        parse_node_addr("255.255.255.255:65535").unwrap(),
        NodeAddr { a: 255, b: 255, c: 255, d: 255, port: 65535 },
    );
    assert_eq!(
        parse_node_addr("0.0.0.0:0").unwrap(),
        NodeAddr { a: 0, b: 0, c: 0, d: 0, port: 0 },
    );
}

#[test]
fn parse_rejects_malformed_addresses() {
    for bad in [
        "",
        "not-a-host-port",
        "1.2.3.4",
        "1.2.3.4:",
        "1.2.3:80",
        "1.2.3.4.5:80",
        "256.1.1.1:80",
        "1.2.3.4:65536",
        "01.2.3.4:80",
        "1.2.3.4:0080x",
        "1.2.3.4:80 ",
        " 1.2.3.4:80",
        "a.b.c.d:80",
        "1.2.3.4::80",
    ] {
        assert!(
            matches!(parse_node_addr(bad), Err(LndError::AddressParseError)),
            "accepted {:?}",
            bad,
        );
    }
}

#[test]
fn host_bytes_renders_dotted_quad() {
    let n = NodeAddr { a: 192, b: 168, c: 0, d: 7, port: 10009 };
    assert_eq!(n.host_bytes(), b"192.168.0.7".to_vec());
    let m = NodeAddr { a: 0, b: 10, c: 100, d: 255, port: 1 };
    assert_eq!(m.host_bytes(), b"0.10.100.255".to_vec());
}

#[test]
fn macaroon_metadata_pair_is_uppercase_hex() {
    let mac = Macaroon::new(vec![0x0F, 0xA0, 0xDE, 0xAD]);
    assert_eq!(Macaroon::metadata_key(), "macaroon");
    assert_eq!(mac.metadata_value(), b"0FA0DEAD".to_vec());
    let empty = Macaroon::new(Vec::new());
    assert_eq!(empty.metadata_value(), Vec::<u8>::new());
}

#[test]
fn credentials_hold_what_was_loaded() {
    let creds = Credentials {
        certificate: vec![9],
        invoice_macaroon: Some(Macaroon::new(vec![1])),
        readonly_macaroon: None,
        socket_addr: NodeAddr { a: 10, b: 0, c: 0, d: 1, port: 1 },
    };
    assert!(creds.readonly_macaroon.is_none());
    assert_eq!(creds.invoice_macaroon.unwrap().bytes, vec![1]);
}
