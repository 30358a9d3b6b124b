use vstd::prelude::*;

use crate::addr::is_valid_addr;
use crate::addr::parse_node_addr;
use crate::addr::spec_parsed_addr;
use crate::credentials::Credentials;
use crate::credentials::Macaroon;
use crate::errors::EnvVar;
use crate::errors::LndError;

verus! {

/// The four configuration values as found in the process environment, each
/// absent or present.
pub struct EnvSnapshot {
    pub tls_cert: Option<String>,
    pub invoice_macaroon: Option<String>,
    pub read_macaroon: Option<String>,
    pub grpc_url: Option<String>,
}

/// The file paths named by the environment, in the order their files are
/// read: certificate first, then the two macaroons; the address string is
/// parsed last.
pub struct LoadPaths {
    pub cert: String,
    pub invoice: String,
    pub readonly: String,
    pub url: String,
}

/// The credential loader, one step at a time.  The loader only decides: it
/// names the file it needs next, the caller reads that file and hands the
/// outcome back, and the loader moves on or fails.  A failed or finished
/// loader is terminal and never asks for anything again.
pub enum Loader {
    AwaitCert(LoadPaths),
    AwaitInvoice(LoadPaths, Vec<u8>),
    AwaitReadonly(LoadPaths, Vec<u8>, Vec<u8>),
    Done(Credentials),
    Failed(LndError),
}

/// The first absent variable, in the order the loader checks them.
pub open spec fn first_missing_env(env: EnvSnapshot) -> EnvVar {
    if env.tls_cert is None {
        EnvVar::TlsCert
    } else if env.invoice_macaroon is None {
        EnvVar::InvoiceMacaroon
    } else if env.read_macaroon is None {
        EnvVar::ReadMacaroon
    } else {
        EnvVar::GrpcUrl
    }
}

impl Loader {
    /// The state a loader starts in: failed on the first absent environment
    /// variable, else awaiting the certificate file.
    pub open spec fn start_spec(env: EnvSnapshot) -> Loader {
        if env.tls_cert is None || env.invoice_macaroon is None || env.read_macaroon is None
            || env.grpc_url is None {
            Loader::Failed(LndError::MissingEnvVar(first_missing_env(env)))
        } else {
            Loader::AwaitCert(
                LoadPaths {
                    cert: env.tls_cert.unwrap(),
                    invoice: env.invoice_macaroon.unwrap(),
                    readonly: env.read_macaroon.unwrap(),
                    url: env.grpc_url.unwrap(),
                },
            )
        }
    }

    /// The file the loader wants read next, if any.
    pub open spec fn requested_spec(self) -> Option<Seq<char>> {
        match self {
            Loader::AwaitCert(p) => Some(p.cert@),
            Loader::AwaitInvoice(p, _) => Some(p.invoice@),
            Loader::AwaitReadonly(p, _, _) => Some(p.readonly@),
            Loader::Done(_) => None,
            Loader::Failed(_) => None,
        }
    }

    /// The state after one file outcome is handed back.  A terminal state is
    /// left as it is.
    pub open spec fn step_spec(self, outcome: Result<Vec<u8>, String>) -> Loader {
        match self {
            Loader::AwaitCert(p) => match outcome {
                Ok(bytes) => Loader::AwaitInvoice(p, bytes),
                Err(m) => Loader::Failed(LndError::CertificateError(m)),
            },
            Loader::AwaitInvoice(p, cert) => match outcome {
                Ok(bytes) => Loader::AwaitReadonly(p, cert, bytes),
                Err(m) => Loader::Failed(LndError::CredentialFileError(m)),
            },
            Loader::AwaitReadonly(p, cert, inv) => match outcome {
                Ok(bytes) => Loader::finish_spec(p, cert, inv, bytes),
                Err(m) => Loader::Failed(LndError::CredentialFileError(m)),
            },
            Loader::Done(c) => Loader::Done(c),
            Loader::Failed(e) => Loader::Failed(e),
        }
    }

    /// The last step: the address string is parsed, and on success the
    /// credentials are complete.
    pub open spec fn finish_spec(p: LoadPaths, cert: Vec<u8>, inv: Vec<u8>, ro: Vec<u8>) -> Loader {
        if is_valid_addr(p.url@) {
            Loader::Done(
                Credentials {
                    certificate: cert,
                    invoice_macaroon: Some(Macaroon { bytes: inv }),
                    readonly_macaroon: Some(Macaroon { bytes: ro }),
                    socket_addr: spec_parsed_addr(p.url@),
                },
            )
        } else {
            Loader::Failed(LndError::AddressParseError)
        }
    }

    /// Checks the environment snapshot and starts loading.
    pub fn start(env: EnvSnapshot) -> (r: Loader)
        ensures
            r == Loader::start_spec(env),
    {
        let EnvSnapshot { tls_cert, invoice_macaroon, read_macaroon, grpc_url } = env;
        match tls_cert {
            None => Loader::Failed(LndError::MissingEnvVar(EnvVar::TlsCert)),
            Some(cert) => match invoice_macaroon {
                None => Loader::Failed(LndError::MissingEnvVar(EnvVar::InvoiceMacaroon)),
                Some(invoice) => match read_macaroon {
                    None => Loader::Failed(LndError::MissingEnvVar(EnvVar::ReadMacaroon)),
                    Some(readonly) => match grpc_url {
                        None => Loader::Failed(LndError::MissingEnvVar(EnvVar::GrpcUrl)),
                        Some(url) => Loader::AwaitCert(
                            LoadPaths { cert, invoice, readonly, url },
                        ),
                    },
                },
            },
        }
    }

    /// The path of the file the loader wants read next, if any.
    pub fn requested_file(&self) -> (r: Option<&String>)
        ensures
            r is Some <==> self.requested_spec() is Some,
            (r matches Some(p) ==> p@ == self.requested_spec()->Some_0),
    {
        match self {
            Loader::AwaitCert(p) => Some(&p.cert),
            Loader::AwaitInvoice(p, _) => Some(&p.invoice),
            Loader::AwaitReadonly(p, _, _) => Some(&p.readonly),
            Loader::Done(_) => None,
            Loader::Failed(_) => None,
        }
    }

    /// Hands the loader the outcome of reading the file it asked for.
    pub fn provide_file(self, outcome: Result<Vec<u8>, String>) -> (r: Loader)
        ensures
            r == self.step_spec(outcome),
    {
        match self {
            Loader::AwaitCert(p) => match outcome {
                Ok(bytes) => Loader::AwaitInvoice(p, bytes),
                Err(m) => Loader::Failed(LndError::CertificateError(m)),
            },
            Loader::AwaitInvoice(p, cert) => match outcome {
                Ok(bytes) => Loader::AwaitReadonly(p, cert, bytes),
                Err(m) => Loader::Failed(LndError::CredentialFileError(m)),
            },
            Loader::AwaitReadonly(p, cert, inv) => match outcome {
                Ok(bytes) => {
                    match parse_node_addr(p.url.as_str()) {
                        Ok(addr) => Loader::Done(
                            Credentials {
                                certificate: cert,
                                invoice_macaroon: Some(Macaroon { bytes: inv }),
                                readonly_macaroon: Some(Macaroon { bytes }),
                                socket_addr: addr,
                            },
                        ),
                        Err(e) => Loader::Failed(e),
                    }
                },
                Err(m) => Loader::Failed(LndError::CredentialFileError(m)),
            },
            Loader::Done(c) => Loader::Done(c),
            Loader::Failed(e) => Loader::Failed(e),
        }
    }
}

/// Law: with any of the four environment variables absent, loading fails at
/// once with `MissingEnvVar` naming the first absent variable in the fixed
/// order, the loader requests no file, and every later step leaves the
/// failure as it is: no file is ever read and no address is ever parsed.
pub proof fn lemma_missing_env_fails_fast(env: EnvSnapshot)
    requires
        env.tls_cert is None || env.invoice_macaroon is None || env.read_macaroon is None
            || env.grpc_url is None,
    ensures
        Loader::start_spec(env) == Loader::Failed(
            LndError::MissingEnvVar(first_missing_env(env)),
        ),
        Loader::start_spec(env).requested_spec() is None,
        forall|o: Result<Vec<u8>, String>| #[trigger] Loader::start_spec(env).step_spec(o)
            == Loader::start_spec(env),
{
}

/// Law: with the environment complete, the loader asks for the certificate
/// file first; where that read or parse fails, loading stops at once with
/// `CertificateError`, and the failure is terminal: the macaroon files are
/// never requested and the address is never parsed.
pub proof fn lemma_cert_failure_fails_fast(env: EnvSnapshot, m: String)
    requires
        env.tls_cert is Some,
        env.invoice_macaroon is Some,
        env.read_macaroon is Some,
        env.grpc_url is Some,
    ensures
        Loader::start_spec(env).requested_spec() == Some(env.tls_cert.unwrap()@),
        Loader::start_spec(env).step_spec(Err(m)) == Loader::Failed(
            LndError::CertificateError(m),
        ),
        Loader::start_spec(env).step_spec(Err(m)).requested_spec() is None,
        forall|o: Result<Vec<u8>, String>| #[trigger] Loader::start_spec(env).step_spec(
            Err(m),
        ).step_spec(o) == Loader::start_spec(env).step_spec(Err(m)),
{
}

} // verus!
