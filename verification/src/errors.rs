use vstd::prelude::*;

verus! {

/// The four process-environment variables that configure the wallet.
#[derive(Clone, Copy, Debug, PartialEq, Eq, Structural)]
pub enum EnvVar {
    TlsCert,
    InvoiceMacaroon,
    ReadMacaroon,
    GrpcUrl,
}

impl EnvVar {
    /// The name of this variable in the process environment.
    pub open spec fn spec_name(self) -> Seq<char> {
        match self {
            EnvVar::TlsCert => "LND_TLS_CERT"@,
            EnvVar::InvoiceMacaroon => "LND_INVOICE_MACAROON"@,
            EnvVar::ReadMacaroon => "LND_READ_MACAROON"@,
            EnvVar::GrpcUrl => "LND_GRPC_URL"@,
        }
    }

    pub fn name(self) -> (r: &'static str)
        ensures
            r@ == self.spec_name(),
    {
        match self {
            EnvVar::TlsCert => "LND_TLS_CERT",
            EnvVar::InvoiceMacaroon => "LND_INVOICE_MACAROON",
            EnvVar::ReadMacaroon => "LND_READ_MACAROON",
            EnvVar::GrpcUrl => "LND_GRPC_URL",
        }
    }
}

/// Every failure of the credential and RPC layer.  Each operation returns
/// exactly one of these; nothing is retried and nothing panics.
#[derive(Debug)]
pub enum LndError {
    /// A configuration variable is absent from the environment snapshot.
    MissingEnvVar(EnvVar),
    /// The TLS certificate file could not be read or parsed.
    CertificateError(String),
    /// A macaroon token file could not be read.
    CredentialFileError(String),
    /// The node address string is not a well-formed `host:port` address.
    AddressParseError,
    /// The TLS channel to the node could not be established.
    ConnectError(String),
    /// The macaroon required by the attempted call is absent.
    MissingToken,
    /// The transport or the server failed while performing a call.
    RpcError(String),
}

} // verus!
