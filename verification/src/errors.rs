//! Status codes and the two error types of the server: `NetError`, a failure
//! that is answered with an HTTP status, and `DogError`, an internal fault
//! that is logged.

use crate::logger::{LogLevel, LogRecord, Logger};
use vstd::prelude::*;
use vstd::string::*;

verus! {

/// The HTTP status codes the server knows.
#[derive(Clone, Copy, Debug, PartialEq, Eq, Structural)]
pub enum HttpCode {
    OK,
    Created,
    Accepted,
    NoContent,
    MovedPermanently,
    Found,
    NotModified,
    TemporaryRedirect,
    PermanentRedirect,
    BadRequest,
    Unauthorized,
    PaymentRequired,
    Forbidden,
    NotFound,
    MethodNotAllowed,
    NotAcceptable,
    Conflict,
    Gone,
    LengthRequired,
    PreconditionFailed,
    PayloadTooLarge,
    UnsupportedMediaType,
    TooManyRequests,
    InternalError,
    NotImplemented,
    BadGateway,
    ServiceUnavailable,
    GatewayTimeout,
}

impl HttpCode {
    /// The number that stands for this status on the wire.
    pub open spec fn number(self) -> u16 {
        match self {
            HttpCode::OK => 200,
            HttpCode::Created => 201,
            HttpCode::Accepted => 202,
            HttpCode::NoContent => 204,
            HttpCode::MovedPermanently => 301,
            HttpCode::Found => 302,
            HttpCode::NotModified => 304,
            HttpCode::TemporaryRedirect => 307,
            HttpCode::PermanentRedirect => 308,
            HttpCode::BadRequest => 400,
            HttpCode::Unauthorized => 401,
            HttpCode::PaymentRequired => 402,
            HttpCode::Forbidden => 403,
            HttpCode::NotFound => 404,
            HttpCode::MethodNotAllowed => 405,
            HttpCode::NotAcceptable => 406,
            HttpCode::Conflict => 409,
            HttpCode::Gone => 410,
            HttpCode::LengthRequired => 411,
            HttpCode::PreconditionFailed => 412,
            HttpCode::PayloadTooLarge => 413,
            HttpCode::UnsupportedMediaType => 415,
            HttpCode::TooManyRequests => 429,
            HttpCode::InternalError => 500,
            HttpCode::NotImplemented => 501,
            HttpCode::BadGateway => 502,
            HttpCode::ServiceUnavailable => 503,
            HttpCode::GatewayTimeout => 504,
        }
    }

    /// Whether some status has the number `num`.
    pub open spec fn known(num: u16) -> bool {
        exists|c: HttpCode| c.number() == num
    }

    /// The number of the status.
    pub fn to_num(&self) -> (n: u16)
        ensures
            n == self.number(),
    {
        match self {
            HttpCode::OK => 200,
            HttpCode::Created => 201,
            HttpCode::Accepted => 202,
            HttpCode::NoContent => 204,
            HttpCode::MovedPermanently => 301,
            HttpCode::Found => 302,
            HttpCode::NotModified => 304,
            HttpCode::TemporaryRedirect => 307,
            HttpCode::PermanentRedirect => 308,
            HttpCode::BadRequest => 400,
            HttpCode::Unauthorized => 401,
            HttpCode::PaymentRequired => 402,
            HttpCode::Forbidden => 403,
            HttpCode::NotFound => 404,
            HttpCode::MethodNotAllowed => 405,
            HttpCode::NotAcceptable => 406,
            HttpCode::Conflict => 409,
            HttpCode::Gone => 410,
            HttpCode::LengthRequired => 411,
            HttpCode::PreconditionFailed => 412,
            HttpCode::PayloadTooLarge => 413,
            HttpCode::UnsupportedMediaType => 415,
            HttpCode::TooManyRequests => 429,
            HttpCode::InternalError => 500,
            HttpCode::NotImplemented => 501,
            HttpCode::BadGateway => 502,
            HttpCode::ServiceUnavailable => 503,
            HttpCode::GatewayTimeout => 504,
        }
    }

    /// The status with the number `num`, if the server knows one.
    pub fn from_num(num: u16) -> (r: Option<Self>)
        ensures
            match r {
                Some(c) => c.number() == num,
                None => !Self::known(num),
            },
    {
        match num {
            200 => Some(HttpCode::OK),
            201 => Some(HttpCode::Created),
            202 => Some(HttpCode::Accepted),
            204 => Some(HttpCode::NoContent),
            301 => Some(HttpCode::MovedPermanently),
            302 => Some(HttpCode::Found),
            304 => Some(HttpCode::NotModified),
            307 => Some(HttpCode::TemporaryRedirect),
            308 => Some(HttpCode::PermanentRedirect),
            400 => Some(HttpCode::BadRequest),
            401 => Some(HttpCode::Unauthorized),
            402 => Some(HttpCode::PaymentRequired),
            403 => Some(HttpCode::Forbidden),
            404 => Some(HttpCode::NotFound),
            405 => Some(HttpCode::MethodNotAllowed),
            406 => Some(HttpCode::NotAcceptable),
            409 => Some(HttpCode::Conflict),
            410 => Some(HttpCode::Gone),
            411 => Some(HttpCode::LengthRequired),
            412 => Some(HttpCode::PreconditionFailed),
            413 => Some(HttpCode::PayloadTooLarge),
            415 => Some(HttpCode::UnsupportedMediaType),
            429 => Some(HttpCode::TooManyRequests),
            500 => Some(HttpCode::InternalError),
            501 => Some(HttpCode::NotImplemented),
            502 => Some(HttpCode::BadGateway),
            503 => Some(HttpCode::ServiceUnavailable),
            504 => Some(HttpCode::GatewayTimeout),
            _ => None,
        }
    }

    /// No two statuses share a number, so a status is found again from its
    /// number.
    pub proof fn lemma_number_injective(a: HttpCode, b: HttpCode)
        requires
            a.number() == b.number(),
        ensures
            a == b,
    {
    }
}

/// A result whose failure is answered with an HTTP status.
pub type NetResult<T> = Result<T, NetError>;

/// A failure that is answered to the client with the status `erc`.
#[derive(Clone, Debug)]
pub struct NetError {
    pub erc: HttpCode,
    pub details: String,
}

impl View for NetError {
    type V = (HttpCode, Seq<char>);

    open spec fn view(&self) -> (HttpCode, Seq<char>) {
        (self.erc, self.details@)
    }
}

impl NetError {
    /// The text that stands in for missing details.
    pub open spec fn default_details() -> Seq<char> {
        "No details provided"@
    }

    /// A failure with the status `erc`; without details it says so.
    pub fn new(erc: HttpCode, details: Option<String>) -> (e: Self)
        ensures
            e.erc == erc,
            e.details@ == match details {
                Some(d) => d@,
                None => Self::default_details(),
            },
    {
        let details_x = match details {
            Some(d) => d,
            None => "No details provided".to_owned(),
        };
        Self { erc, details: details_x }
    }

    /// The details, as the error displays.
    pub fn message(&self) -> (s: String)
        ensures
            s@ == self.details@,
    {
        self.details.clone()
    }
}

/// A result whose failure is an internal fault.
pub type DogResult<T> = Result<T, DogError>;

/// An internal fault of the server, with the level at which it is logged.
#[derive(Clone, Debug)]
pub struct DogError {
    pub name: String,
    pub details: String,
    pub log_level: LogLevel,
}

impl View for DogError {
    type V = (Seq<char>, Seq<char>, LogLevel);

    open spec fn view(&self) -> (Seq<char>, Seq<char>, LogLevel) {
        (self.name@, self.details@, self.log_level)
    }
}

impl DogError {
    /// The line that describes a fault with this name and these details.
    pub open spec fn describe(name: Seq<char>, details: Seq<char>) -> Seq<char> {
        "NetPup Error -> "@ + name + ": "@ + details
    }

    /// The level at which this fault is logged.
    pub open spec fn level(&self) -> LogLevel {
        self.log_level
    }

    /// The line that describes the fault.
    pub fn __fmtx(&self) -> (s: String)
        ensures
            s@ == Self::describe(self.name@, self.details@),
    {
        let mut s = "NetPup Error -> ".to_owned();
        s.append(self.name.as_str());
        s.append(": ");
        s.append(self.details.as_str());
        s
    }

    /// A recoverable fault, logged at `ERROR`.
    pub fn new(name: String, details: String) -> (e: Self)
        ensures
            e.name@ == name@,
            e.details@ == details@,
            e.level() == LogLevel::ERROR,
            e@ == (name@, details@, LogLevel::ERROR),
    {
        Self { name, details, log_level: LogLevel::ERROR }
    }

    /// A fault after which the process ends, logged at `FATAL`.
    pub fn fatal(name: String, details: String) -> (e: Self)
        ensures
            e.name@ == name@,
            e.details@ == details@,
            e.level() == LogLevel::FATAL,
            e@ == (name@, details@, LogLevel::FATAL),
    {
        Self { name, details, log_level: LogLevel::FATAL }
    }

    /// Whether the process ends once this fault is logged.
    pub fn is_fatal(&self) -> (b: bool)
        ensures
            b == (self.level() == LogLevel::FATAL),
    {
        self.log_level == LogLevel::FATAL
    }

    /// The record that logging this fault to `logger` writes, or `None`
    /// where the logger is switched off.
    pub fn print(&self, logger: &Logger) -> (r: Option<LogRecord>)
        ensures
            logger.muted() <==> r is None,
            r matches Some(rec) ==> logger.wrote(
                rec,
                self.level(),
                Self::describe(self.name@, self.details@),
            ),
    {
        let line = self.__fmtx();
        logger.log(self.log_level, line.as_str())
    }
}

} // verus!
