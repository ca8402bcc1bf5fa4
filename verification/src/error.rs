//! Failures, and the HTTP status that reports each of them.
use actix_web::http::StatusCode;
use vstd::prelude::*;
use vstd::string::*;

verus! {

/// The ways in which a request to the cluster API fails.
#[derive(Clone, Debug, PartialEq, Eq)]
pub enum KubeErrorKind {
    /// The API server answered with an error response that carries this code.
    Api(u16),
    /// The HTTP connection failed.
    HyperError,
    /// The client's service stack failed.
    Service,
    /// The response was not UTF-8.
    FromUtf8,
    /// No line end was found within the longest line that is accepted.
    LinesCodecMaxLineLengthExceeded,
    /// The event stream could not be read.
    ReadEvents,
    /// The HTTP exchange was malformed.
    HttpError,
    /// The response could not be deserialized.
    SerdeError,
    /// The request could not be built.
    BuildRequest,
    /// The client's configuration could not be inferred.
    InferConfig,
    /// The API server's resources could not be discovered.
    Discovery,
    /// The TLS layer failed.
    OpensslTls,
    /// The client could not authenticate.
    Auth,
}

/// A failed request to the cluster API: what kind of failure, and its description.
#[derive(Clone, Debug, PartialEq, Eq)]
pub struct KubeError {
    pub kind: KubeErrorKind,
    pub message: String,
}

/// Why a request could not be answered.
#[derive(Clone, Debug, PartialEq, Eq)]
pub enum Error {
    /// The ingress controller's Service is missing, or has no address.
    IngressNotFound,
    /// The cluster API could not be queried.
    Kube(KubeError),
}

pub const NOT_FOUND: u16 = 404;

pub const UNAUTHORIZED: u16 = 401;

pub const INTERNAL_SERVER_ERROR: u16 = 500;

pub const BAD_GATEWAY: u16 = 502;

/// Whether `code` is a number that an HTTP status line can carry.
pub open spec fn is_status(code: u16) -> bool {
    100 <= code < 1000
}

/// `StatusCode::try_from(u16)`, with the accepted status read back by `StatusCode::as_u16`:
/// a number from 100 to 999 is accepted and comes back unchanged, any other is refused.
#[verifier::external_body]
fn checked_status(code: u16) -> (status: Option<u16>)
    ensures
        status == (if is_status(code) {
            Some(code)
        } else {
            None
        }),
{
    match StatusCode::try_from(code) {
        Ok(status) => Some(status.as_u16()),
        Err(_) => None,
    }
}

impl KubeErrorKind {
    /// The status that reports a failure of this kind: the API server's own code where it
    /// sent a usable one, 401 for a failed authentication, 502 where the API server could not
    /// be reached or found, and 500 for everything else.
    pub open spec fn status(self) -> u16 {
        match self {
            KubeErrorKind::Api(code) => if is_status(code) {
                code
            } else {
                INTERNAL_SERVER_ERROR
            },
            KubeErrorKind::HyperError => BAD_GATEWAY,
            KubeErrorKind::Service => BAD_GATEWAY,
            KubeErrorKind::FromUtf8 => INTERNAL_SERVER_ERROR,
            KubeErrorKind::LinesCodecMaxLineLengthExceeded => INTERNAL_SERVER_ERROR,
            KubeErrorKind::ReadEvents => INTERNAL_SERVER_ERROR,
            KubeErrorKind::HttpError => BAD_GATEWAY,
            KubeErrorKind::SerdeError => INTERNAL_SERVER_ERROR,
            KubeErrorKind::BuildRequest => INTERNAL_SERVER_ERROR,
            KubeErrorKind::InferConfig => BAD_GATEWAY,
            KubeErrorKind::Discovery => BAD_GATEWAY,
            KubeErrorKind::OpensslTls => INTERNAL_SERVER_ERROR,
            KubeErrorKind::Auth => UNAUTHORIZED,
        }
    }
}

impl Error {
    /// The status that reports this failure: 404 for a missing ingress controller, and the
    /// status of its kind for a failed request to the cluster API.
    pub open spec fn status(self) -> u16 {
        match self {
            Error::IngressNotFound => NOT_FOUND,
            Error::Kube(inner) => inner.kind.status(),
        }
    }

    /// The description of this failure.
    pub open spec fn description(self) -> Seq<char> {
        match self {
            Error::IngressNotFound => "Ingress not found"@,
            Error::Kube(inner) => "Kubernetes error:  "@ + inner.message@,
        }
    }

    /// The HTTP status that reports this failure.
    pub fn status_code(&self) -> (code: u16)
        ensures
            code == self.status(),
            is_status(code),
    {
        match self {
            Error::IngressNotFound => NOT_FOUND,
            Error::Kube(inner) => match &inner.kind {
                KubeErrorKind::Api(code) => match checked_status(*code) {
                    Some(v) => v,
                    None => INTERNAL_SERVER_ERROR,
                },
                KubeErrorKind::HyperError => BAD_GATEWAY,
                KubeErrorKind::Service => BAD_GATEWAY,
                KubeErrorKind::FromUtf8 => INTERNAL_SERVER_ERROR,
                KubeErrorKind::LinesCodecMaxLineLengthExceeded => INTERNAL_SERVER_ERROR,
                KubeErrorKind::ReadEvents => INTERNAL_SERVER_ERROR,
                KubeErrorKind::HttpError => BAD_GATEWAY,
                KubeErrorKind::SerdeError => INTERNAL_SERVER_ERROR,
                KubeErrorKind::BuildRequest => INTERNAL_SERVER_ERROR,
                KubeErrorKind::InferConfig => BAD_GATEWAY,
                KubeErrorKind::Discovery => BAD_GATEWAY,
                KubeErrorKind::OpensslTls => INTERNAL_SERVER_ERROR,
                KubeErrorKind::Auth => UNAUTHORIZED,
            },
        }
    }

    /// The text that describes this failure to the client.
    pub fn to_string(&self) -> (text: String)
        ensures
            text@ == self.description(),
    {
        match self {
            Error::IngressNotFound => String::from_str("Ingress not found"),
            Error::Kube(inner) => {
                let mut text = String::from_str("Kubernetes error:  ");
                text.append(inner.message.as_str());
                text
            },
        }
    }
}

} // verus!
