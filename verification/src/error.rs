//! The error type shared by every component.

use vstd::prelude::*;
use vstd::string::StringExecFns;

verus! {

/// What can go wrong in the framework. Each variant carries a message that
/// names the precondition that failed.
#[derive(Debug)]
pub enum DreasError {
    /// The key service could not encrypt.
    KmsEncryption(String),
    /// The key service could not decrypt, malformed ciphertext included.
    KmsDecryption(String),
    /// The storage collaborator failed.
    Storage(String),
    /// A recovery or a login was not authorized.
    Authentication(String),
    /// The escrowed key that a recovery asked for has expired; a kind of
    /// authentication failure with a name of its own.
    Expired(String),
    /// A component was configured with values that can never work.
    Configuration(String),
    /// An agent was not found, or the command stream is closed.
    AgentCoordination(String),
    /// The ledger could not record an entry.
    AuditLogging(String),
    /// An input has the wrong shape or size.
    Validation(String),
    /// Anything else.
    Generic(String),
}

/// Result type of the framework's operations.
pub type DreasResult<T> = Result<T, DreasError>;

/// The mathematical value of a [`DreasError`]: its kind and its message as a
/// sequence of characters.
pub enum DreasErrorView {
    KmsEncryption(Seq<char>),
    KmsDecryption(Seq<char>),
    Storage(Seq<char>),
    Authentication(Seq<char>),
    Expired(Seq<char>),
    Configuration(Seq<char>),
    AgentCoordination(Seq<char>),
    AuditLogging(Seq<char>),
    Validation(Seq<char>),
    Generic(Seq<char>),
}

impl DreasErrorView {
    /// The message that the error carries.
    pub open spec fn detail(self) -> Seq<char> {
        match self {
            DreasErrorView::KmsEncryption(m) => m,
            DreasErrorView::KmsDecryption(m) => m,
            DreasErrorView::Storage(m) => m,
            DreasErrorView::Authentication(m) => m,
            DreasErrorView::Expired(m) => m,
            DreasErrorView::Configuration(m) => m,
            DreasErrorView::AgentCoordination(m) => m,
            DreasErrorView::AuditLogging(m) => m,
            DreasErrorView::Validation(m) => m,
            DreasErrorView::Generic(m) => m,
        }
    }

    /// The words that introduce the message when the error is shown.
    pub open spec fn heading(self) -> Seq<char> {
        match self {
            DreasErrorView::KmsEncryption(_) => "KMS encryption error: "@,
            DreasErrorView::KmsDecryption(_) => "KMS decryption error: "@,
            DreasErrorView::Storage(_) => "Storage error: "@,
            DreasErrorView::Authentication(_) => "Authentication error: "@,
            DreasErrorView::Expired(_) => "Expired error: "@,
            DreasErrorView::Configuration(_) => "Configuration error: "@,
            DreasErrorView::AgentCoordination(_) => "Agent coordination error: "@,
            DreasErrorView::AuditLogging(_) => "Audit logging error: "@,
            DreasErrorView::Validation(_) => "Validation error: "@,
            DreasErrorView::Generic(_) => "Generic error: "@,
        }
    }

    /// The error as one line of text: heading, then message.
    pub open spec fn shown(self) -> Seq<char> {
        self.heading() + self.detail()
    }
}

impl View for DreasError {
    type V = DreasErrorView;

    open spec fn view(&self) -> DreasErrorView {
        match self {
            DreasError::KmsEncryption(m) => DreasErrorView::KmsEncryption(m@),
            DreasError::KmsDecryption(m) => DreasErrorView::KmsDecryption(m@),
            DreasError::Storage(m) => DreasErrorView::Storage(m@),
            DreasError::Authentication(m) => DreasErrorView::Authentication(m@),
            DreasError::Expired(m) => DreasErrorView::Expired(m@),
            DreasError::Configuration(m) => DreasErrorView::Configuration(m@),
            DreasError::AgentCoordination(m) => DreasErrorView::AgentCoordination(m@),
            DreasError::AuditLogging(m) => DreasErrorView::AuditLogging(m@),
            DreasError::Validation(m) => DreasErrorView::Validation(m@),
            DreasError::Generic(m) => DreasErrorView::Generic(m@),
        }
    }
}

impl DreasError {
    /// The message that the error carries, without its heading.
    pub fn detail(&self) -> (m: &String)
        ensures
            m@ == self@.detail(),
    {
        match self {
            DreasError::KmsEncryption(m) => m,
            DreasError::KmsDecryption(m) => m,
            DreasError::Storage(m) => m,
            DreasError::Authentication(m) => m,
            DreasError::Expired(m) => m,
            DreasError::Configuration(m) => m,
            DreasError::AgentCoordination(m) => m,
            DreasError::AuditLogging(m) => m,
            DreasError::Validation(m) => m,
            DreasError::Generic(m) => m,
        }
    }

    /// The error as one line of text, for logs and operators.
    pub fn message(&self) -> (s: String)
        ensures
            s@ == self@.shown(),
    {
        let heading = match self {
            DreasError::KmsEncryption(_) => "KMS encryption error: ",
            DreasError::KmsDecryption(_) => "KMS decryption error: ",
            DreasError::Storage(_) => "Storage error: ",
            DreasError::Authentication(_) => "Authentication error: ",
            DreasError::Expired(_) => "Expired error: ",
            DreasError::Configuration(_) => "Configuration error: ",
            DreasError::AgentCoordination(_) => "Agent coordination error: ",
            DreasError::AuditLogging(_) => "Audit logging error: ",
            DreasError::Validation(_) => "Validation error: ",
            DreasError::Generic(_) => "Generic error: ",
        };
        let mut s = String::from_str(heading);
        s.append(self.detail().as_str());
        s
    }
}

} // verus!
