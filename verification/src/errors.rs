//! What can go wrong, and what the caller is told of it.
//!
//! No text for the caller holds the secret path, the token, the header that
//! carries it, or the address of the Vault server.

use vstd::prelude::*;
use vstd::string::*;

use crate::json::{put, Json, JsonView};

verus! {

/// The model of a result: that of its value, or that of its error.
pub open spec fn outcome<T: View, E: View>(result: Result<T, E>) -> Result<T::V, E::V> {
    match result {
        Ok(value) => Ok(value@),
        Err(err) => Err(err@),
    }
}

/// What the gateway reports in place of a result.
#[derive(Debug)]
pub enum KyttiError {
    /// No such secret, field or folder.
    NotFound,
    /// The token's policy does not allow the read.
    Forbidden,
    /// Vault is sealed.
    Sealed { will_retry: bool },
    /// The path was refused before anything was asked of Vault.
    BadPath,
    /// Vault could not be reached.
    Network(String),
    /// Anything else.
    Internal(String),
}

/// The model of an error.
pub enum ErrorView {
    NotFound,
    Forbidden,
    Sealed { will_retry: bool },
    BadPath,
    Network(Seq<char>),
    Internal(Seq<char>),
}

/// The error for a reply of Vault that does not have the shape it should have.
pub open spec fn malformed() -> ErrorView {
    ErrorView::Internal("vault response malformed"@)
}

impl ErrorView {
    /// The stable tag of the variant.
    pub open spec fn kind(self) -> Seq<char> {
        match self {
            ErrorView::NotFound => "NotFound"@,
            ErrorView::Forbidden => "Forbidden"@,
            ErrorView::Sealed { .. } => "Sealed"@,
            ErrorView::BadPath => "BadPath"@,
            ErrorView::Network(_) => "Network"@,
            ErrorView::Internal(_) => "Internal"@,
        }
    }

    /// The message for a reader.
    pub open spec fn message(self) -> Seq<char> {
        match self {
            ErrorView::NotFound => "vault returned NotFound"@,
            ErrorView::Forbidden => "vault returned Forbidden — check token policy"@,
            ErrorView::Sealed { .. } => "vault is sealed"@,
            ErrorView::BadPath => "path not allowed by policy"@,
            ErrorView::Network(detail) => "vault network error: "@ + detail,
            ErrorView::Internal(detail) => "vault internal error: "@ + detail,
        }
    }

    /// The data for a program: the tag, and for a sealed Vault whether waiting helps.
    pub open spec fn data(self) -> JsonView {
        let tagged = Map::<Seq<char>, JsonView>::empty().insert(
            "kind"@,
            JsonView::Text(self.kind()),
        );
        match self {
            ErrorView::Sealed { will_retry } => JsonView::Object(
                tagged.insert("will_retry"@, JsonView::Bool(will_retry)),
            ),
            _ => JsonView::Object(tagged),
        }
    }

    /// The category of the protocol's error.
    pub open spec fn category(self) -> ErrorCategory {
        match self {
            ErrorView::NotFound => ErrorCategory::ResourceNotFound,
            ErrorView::Forbidden => ErrorCategory::InvalidRequest,
            ErrorView::BadPath => ErrorCategory::InvalidParams,
            _ => ErrorCategory::InternalError,
        }
    }

    /// What the caller is told.
    pub open spec fn reply(self) -> ErrorReplyView {
        ErrorReplyView { category: self.category(), message: self.message(), data: self.data() }
    }
}

impl View for KyttiError {
    type V = ErrorView;

    open spec fn view(&self) -> ErrorView {
        match self {
            KyttiError::NotFound => ErrorView::NotFound,
            KyttiError::Forbidden => ErrorView::Forbidden,
            KyttiError::Sealed { will_retry } => ErrorView::Sealed { will_retry: *will_retry },
            KyttiError::BadPath => ErrorView::BadPath,
            KyttiError::Network(detail) => ErrorView::Network(detail@),
            KyttiError::Internal(detail) => ErrorView::Internal(detail@),
        }
    }
}

impl KyttiError {
    /// Stable tag of the variant, in the data of the error reply, so that clients
    /// can branch on it.
    pub fn kind(&self) -> (tag: &'static str)
        ensures
            tag@ == self@.kind(),
    {
        match self {
            KyttiError::NotFound => "NotFound",
            KyttiError::Forbidden => "Forbidden",
            KyttiError::Sealed { .. } => "Sealed",
            KyttiError::BadPath => "BadPath",
            KyttiError::Network(_) => "Network",
            KyttiError::Internal(_) => "Internal",
        }
    }

    /// The message for a reader.
    pub fn to_string(&self) -> (message: String)
        ensures
            message@ == self@.message(),
    {
        match self {
            KyttiError::NotFound => "vault returned NotFound".to_owned(),
            KyttiError::Forbidden => "vault returned Forbidden — check token policy".to_owned(),
            KyttiError::Sealed { .. } => "vault is sealed".to_owned(),
            KyttiError::BadPath => "path not allowed by policy".to_owned(),
            KyttiError::Network(detail) => "vault network error: ".to_owned().concat(
                detail.as_str(),
            ),
            KyttiError::Internal(detail) => "vault internal error: ".to_owned().concat(
                detail.as_str(),
            ),
        }
    }

    /// The error for a reply of Vault that does not have the shape it should have.
    pub fn malformed() -> (err: KyttiError)
        ensures
            err@ == malformed(),
    {
        KyttiError::Internal("vault response malformed".to_owned())
    }
}

/// How an HTTP exchange broke down: the properties by which the client library
/// tells its errors apart. More than one may hold.
#[derive(Clone, Copy, Debug)]
pub struct TransportFault {
    pub timeout: bool,
    pub connect: bool,
    pub decode: bool,
    pub request: bool,
}

impl TransportFault {
    /// The error that stands for the fault: a fixed text, and nothing of the
    /// address or the token.
    pub open spec fn error(self) -> ErrorView {
        if self.timeout {
            ErrorView::Network("timeout"@)
        } else if self.connect {
            ErrorView::Network("connect failed"@)
        } else if self.decode {
            malformed()
        } else if self.request {
            ErrorView::Network("request failed"@)
        } else {
            ErrorView::Network("transport error"@)
        }
    }
}

impl From<TransportFault> for KyttiError {
    fn from(fault: TransportFault) -> (err: KyttiError)
        ensures
            err@ == fault.error(),
    {
        if fault.timeout {
            KyttiError::Network("timeout".to_owned())
        } else if fault.connect {
            KyttiError::Network("connect failed".to_owned())
        } else if fault.decode {
            KyttiError::malformed()
        } else if fault.request {
            KyttiError::Network("request failed".to_owned())
        } else {
            KyttiError::Network("transport error".to_owned())
        }
    }
}

impl vstd::std_specs::convert::FromSpecImpl<TransportFault> for KyttiError {
    open spec fn obeys_from_spec() -> bool {
        false
    }

    open spec fn from_spec(fault: TransportFault) -> KyttiError {
        arbitrary()
    }
}

/// The categories of the protocol's errors that the gateway uses.
#[derive(Clone, Copy, Debug, PartialEq, Eq, Structural)]
pub enum ErrorCategory {
    ResourceNotFound,
    InvalidRequest,
    InvalidParams,
    InternalError,
}

/// An error as the caller gets it.
#[derive(Debug)]
pub struct ErrorReply {
    pub category: ErrorCategory,
    pub message: String,
    pub data: Json,
}

/// The model of an error reply.
pub struct ErrorReplyView {
    pub category: ErrorCategory,
    pub message: Seq<char>,
    pub data: JsonView,
}

impl View for ErrorReply {
    type V = ErrorReplyView;

    open spec fn view(&self) -> ErrorReplyView {
        ErrorReplyView { category: self.category, message: self.message@, data: self.data@ }
    }
}

impl From<KyttiError> for ErrorReply {
    fn from(err: KyttiError) -> (reply: ErrorReply)
        ensures
            reply@ == err@.reply(),
    {
        let mut data: Vec<(String, Json)> = Vec::new();
        put(&mut data, "kind", Json::String(err.kind().to_owned()));
        if let KyttiError::Sealed { will_retry } = &err {
            put(&mut data, "will_retry", Json::Bool(*will_retry));
        }
        let category = match &err {
            KyttiError::NotFound => ErrorCategory::ResourceNotFound,
            KyttiError::Forbidden => ErrorCategory::InvalidRequest,
            KyttiError::BadPath => ErrorCategory::InvalidParams,
            KyttiError::Sealed { .. } | KyttiError::Network(_) | KyttiError::Internal(
                _,
            ) => ErrorCategory::InternalError,
        };
        ErrorReply { category, message: err.to_string(), data: Json::Object(data) }
    }
}

impl vstd::std_specs::convert::FromSpecImpl<KyttiError> for ErrorReply {
    open spec fn obeys_from_spec() -> bool {
        false
    }

    open spec fn from_spec(err: KyttiError) -> ErrorReply {
        arbitrary()
    }
}

} // verus!
