//! The errors of the explorer's tasks and the messages they are shown with.
use vstd::prelude::*;

use crate::text::{push_str, push_string, string_from_chars};
use crate::wallet::WalletError;

verus! {

/// The errors of the explorer's tasks; the errors of other parts come as their
/// messages.
#[derive(Debug)]
pub enum BackendError {
    Parsing(String),
    Base58IdEncoding(String),
    SystemTime(String),
    Wallet(WalletError),
    SdkUnexpectedResult(String),
    SdkExplained(String, String),
    Sdk(String),
    IdentityRegistration(String),
    IdentityTopUp(String),
    IdentityWithdrawal(String),
    IdentityRefresh(String),
    Identity(String),
    DocumentSigning(String),
    Dpns(String),
}

impl BackendError {
    /// The message that the error is shown with.
    pub open spec fn spec_message(&self) -> Seq<char> {
        match self {
            BackendError::Parsing(m) => "error while parsing an identity: "@ + m@,
            BackendError::Base58IdEncoding(m) => "ID encoding error: "@ + m@,
            BackendError::SystemTime(m) => "System time error: "@ + m@,
            BackendError::Wallet(e) => "Wallet error: "@ + e.spec_message(),
            BackendError::SdkUnexpectedResult(m) => "SDK unexpected result: "@ + m@,
            BackendError::SdkExplained(m, e) => "SDK error: "@ + m@ + " "@ + e@,
            BackendError::Sdk(m) => "SDK error: "@ + m@,
            BackendError::IdentityRegistration(m) => "Identity registration error: "@ + m@,
            BackendError::IdentityTopUp(m) => "Identity top up error: "@ + m@,
            BackendError::IdentityWithdrawal(m) => "Identity withdrawal error: "@ + m@,
            BackendError::IdentityRefresh(m) => "Identity refresh error: "@ + m@,
            BackendError::Identity(m) => "Identity error: "@ + m@,
            BackendError::DocumentSigning(m) => "Document Signing error: "@ + m@,
            BackendError::Dpns(m) => "DPNS error: "@ + m@,
        }
    }

    /// The message that the error is shown with.
    pub fn message(&self) -> (r: String)
        ensures
            r@ == self.spec_message(),
    {
        let mut out: Vec<char> = Vec::new();
        match self {
            BackendError::Parsing(m) => {
                push_str(&mut out, "error while parsing an identity: ");
                push_string(&mut out, m);
            },
            BackendError::Base58IdEncoding(m) => {
                push_str(&mut out, "ID encoding error: ");
                push_string(&mut out, m);
            },
            BackendError::SystemTime(m) => {
                push_str(&mut out, "System time error: ");
                push_string(&mut out, m);
            },
            BackendError::Wallet(e) => {
                push_str(&mut out, "Wallet error: ");
                let inner = e.message();
                push_string(&mut out, &inner);
            },
            BackendError::SdkUnexpectedResult(m) => {
                push_str(&mut out, "SDK unexpected result: ");
                push_string(&mut out, m);
            },
            BackendError::SdkExplained(m, e) => {
                push_str(&mut out, "SDK error: ");
                push_string(&mut out, m);
                push_str(&mut out, " ");
                push_string(&mut out, e);
            },
            BackendError::Sdk(m) => {
                push_str(&mut out, "SDK error: ");
                push_string(&mut out, m);
            },
            BackendError::IdentityRegistration(m) => {
                push_str(&mut out, "Identity registration error: ");
                push_string(&mut out, m);
            },
            BackendError::IdentityTopUp(m) => {
                push_str(&mut out, "Identity top up error: ");
                push_string(&mut out, m);
            },
            BackendError::IdentityWithdrawal(m) => {
                push_str(&mut out, "Identity withdrawal error: ");
                push_string(&mut out, m);
            },
            BackendError::IdentityRefresh(m) => {
                push_str(&mut out, "Identity refresh error: ");
                push_string(&mut out, m);
            },
            BackendError::Identity(m) => {
                push_str(&mut out, "Identity error: ");
                push_string(&mut out, m);
            },
            BackendError::DocumentSigning(m) => {
                push_str(&mut out, "Document Signing error: ");
                push_string(&mut out, m);
            },
            BackendError::Dpns(m) => {
                push_str(&mut out, "DPNS error: ");
                push_string(&mut out, m);
            },
        }
        string_from_chars(&out)
    }
}

} // verus!
