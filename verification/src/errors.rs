//! What kind of fault an error is.

use crate::text::{contains, has_text};
use vstd::prelude::*;

verus! {

/// Where a fault lies.
#[derive(Clone, Copy, Debug, PartialEq, Eq, Structural)]
pub enum ErrorCategory {
    Network,
    Auth,
    RateLimit,
    Parse,
    Tool,
    Internal,
}

/// How grave a fault is.
#[derive(Clone, Copy, Debug, PartialEq, Eq, Structural)]
pub enum ErrorSeverity {
    Warning,
    Error,
    Fatal,
}

/// What kind of fault an error is.
#[derive(Clone, Copy, Debug, PartialEq, Eq, Structural)]
pub struct ErrorInfo {
    pub category: ErrorCategory,
    pub severity: ErrorSeverity,
    pub recoverable: bool,
}

impl ErrorCategory {
    /// The name of the category.
    pub open spec fn name(self) -> Seq<char> {
        match self {
            ErrorCategory::Network => "Network"@,
            ErrorCategory::Auth => "Auth"@,
            ErrorCategory::RateLimit => "RateLimit"@,
            ErrorCategory::Parse => "Parse"@,
            ErrorCategory::Tool => "Tool"@,
            ErrorCategory::Internal => "Internal"@,
        }
    }

    /// The name of the category.
    pub fn as_str(self) -> (r: &'static str)
        ensures
            r@ == self.name(),
    {
        match self {
            ErrorCategory::Network => "Network",
            ErrorCategory::Auth => "Auth",
            ErrorCategory::RateLimit => "RateLimit",
            ErrorCategory::Parse => "Parse",
            ErrorCategory::Tool => "Tool",
            ErrorCategory::Internal => "Internal",
        }
    }
}

impl ErrorSeverity {
    /// The name of the severity.
    pub open spec fn name(self) -> Seq<char> {
        match self {
            ErrorSeverity::Warning => "Warning"@,
            ErrorSeverity::Error => "Error"@,
            ErrorSeverity::Fatal => "Fatal"@,
        }
    }

    /// The name of the severity.
    pub fn as_str(self) -> (r: &'static str)
        ensures
            r@ == self.name(),
    {
        match self {
            ErrorSeverity::Warning => "Warning",
            ErrorSeverity::Error => "Error",
            ErrorSeverity::Fatal => "Fatal",
        }
    }
}

impl ErrorInfo {
    /// Puts the parts together.
    pub fn new(category: ErrorCategory, severity: ErrorSeverity, recoverable: bool) -> (r:
        ErrorInfo)
        ensures
            r == (ErrorInfo { category, severity, recoverable }),
    {
        ErrorInfo { category, severity, recoverable }
    }

    /// How the kind is written down.
    pub open spec fn written(self) -> Seq<char> {
        self.category.name() + "/"@ + self.severity.name() + "/recoverable="@ + if self.recoverable {
            "true"@
        } else {
            "false"@
        }
    }

    /// How the kind is written down.
    pub fn to_text(&self) -> (r: String)
        ensures
            r@ == self.written(),
    {
        let recoverable: &'static str = if self.recoverable {
            "true"
        } else {
            "false"
        };
        self.category.as_str().to_owned().concat("/").concat(self.severity.as_str()).concat(
            "/recoverable=",
        ).concat(recoverable)
    }
}

/// A fault that passes by itself.
pub open spec fn passing(category: ErrorCategory) -> ErrorInfo {
    ErrorInfo { category, severity: ErrorSeverity::Warning, recoverable: true }
}

/// A fault that stays.
pub open spec fn lasting(category: ErrorCategory) -> ErrorInfo {
    ErrorInfo { category, severity: ErrorSeverity::Error, recoverable: false }
}

/// What kind of fault a message in lower case tells of.
pub open spec fn kind_of_lowered(lower: Seq<char>) -> ErrorInfo {
    if has_text(lower, "safety policy"@) || has_text(lower, "tool execution failed"@) || has_text(
        lower,
        "command blocked"@,
    ) {
        passing(ErrorCategory::Tool)
    } else if has_text(lower, "tool not found"@) || has_text(lower, "unknown tool"@) || has_text(
        lower,
        "no tool"@,
    ) {
        lasting(ErrorCategory::Parse)
    } else if has_text(lower, "parse error"@) || has_text(lower, "json"@) || has_text(
        lower,
        "deserialize"@,
    ) {
        lasting(ErrorCategory::Parse)
    } else if has_text(lower, "stream"@) && (has_text(lower, "end of file"@) || has_text(
        lower,
        "connection"@,
    ) || has_text(lower, "timeout"@)) {
        passing(ErrorCategory::Network)
    } else if has_text(lower, "unauthorized"@) || has_text(lower, "forbidden"@) || has_text(
        lower,
        "auth"@,
    ) || has_text(lower, "api key"@) {
        lasting(ErrorCategory::Auth)
    } else if has_text(lower, "rate limit"@) || has_text(lower, "too many"@) {
        passing(ErrorCategory::RateLimit)
    } else {
        lasting(ErrorCategory::Internal)
    }
}

/// What kind of fault a message in lower case tells of.
pub fn classify_lowered(lower: &str) -> (r: ErrorInfo)
    ensures
        r == kind_of_lowered(lower@),
{
    if contains(lower, "safety policy") || contains(lower, "tool execution failed") || contains(
        lower,
        "command blocked",
    ) {
        return ErrorInfo::new(ErrorCategory::Tool, ErrorSeverity::Warning, true);
    }
    if contains(lower, "tool not found") || contains(lower, "unknown tool") || contains(
        lower,
        "no tool",
    ) {
        return ErrorInfo::new(ErrorCategory::Parse, ErrorSeverity::Error, false);
    }
    if contains(lower, "parse error") || contains(lower, "json") || contains(lower, "deserialize") {
        return ErrorInfo::new(ErrorCategory::Parse, ErrorSeverity::Error, false);
    }
    if contains(lower, "stream") && (contains(lower, "end of file") || contains(
        lower,
        "connection",
    ) || contains(lower, "timeout")) {
        return ErrorInfo::new(ErrorCategory::Network, ErrorSeverity::Warning, true);
    }
    if contains(lower, "unauthorized") || contains(lower, "forbidden") || contains(lower, "auth")
        || contains(lower, "api key") {
        return ErrorInfo::new(ErrorCategory::Auth, ErrorSeverity::Error, false);
    }
    if contains(lower, "rate limit") || contains(lower, "too many") {
        return ErrorInfo::new(ErrorCategory::RateLimit, ErrorSeverity::Warning, true);
    }
    ErrorInfo::new(ErrorCategory::Internal, ErrorSeverity::Error, false)
}

/// A text in lower case, as Unicode maps it.
pub uninterp spec fn lowercase_of(text: Seq<char>) -> Seq<char>;

/// Calls `str::to_lowercase`: each character is replaced by what the Unicode property `Lowercase`
/// maps it to. The result depends on the text alone.
#[verifier::external_body]
fn to_lowercase(text: &str) -> (r: String)
    ensures
        r@ == lowercase_of(text@),
{
    text.to_lowercase()
}

/// What kind of fault a message tells of.
pub fn classify_error_from_message(msg: &str) -> (r: ErrorInfo)
    ensures
        r == kind_of_lowered(lowercase_of(msg@)),
{
    let lower: String = to_lowercase(msg);
    classify_lowered(lower.as_str())
}

/// What is known of a failed request.
#[derive(Clone, Copy, Debug, PartialEq, Eq, Structural)]
pub struct RequestFault {
    /// The status that the service answered with.
    pub status: Option<u16>,
    /// Whether there was no connection.
    pub unconnected: bool,
    /// Whether there was no answer in time.
    pub timed_out: bool,
}

/// What kind of fault a status tells of.
pub open spec fn kind_of_status(status: u16) -> ErrorInfo {
    if 400 <= status <= 403 {
        lasting(ErrorCategory::Auth)
    } else if status == 404 || status == 422 {
        lasting(ErrorCategory::Parse)
    } else if status == 429 {
        passing(ErrorCategory::RateLimit)
    } else if 500 <= status <= 599 || status == 408 {
        passing(ErrorCategory::Network)
    } else {
        lasting(ErrorCategory::Internal)
    }
}

/// What kind of fault an error is, given the failed request that caused it, where one did, and
/// its message in lower case.
pub open spec fn kind_of_error(fault: Option<RequestFault>, lower: Seq<char>) -> ErrorInfo {
    match fault {
        Some(f) if f.status is Some => kind_of_status(f.status->Some_0),
        Some(f) if f.unconnected || f.timed_out => passing(ErrorCategory::Network),
        _ => kind_of_lowered(lower),
    }
}

fn classify_status(status: u16) -> (r: ErrorInfo)
    ensures
        r == kind_of_status(status),
{
    if 400 <= status && status <= 403 {
        ErrorInfo::new(ErrorCategory::Auth, ErrorSeverity::Error, false)
    } else if status == 404 || status == 422 {
        ErrorInfo::new(ErrorCategory::Parse, ErrorSeverity::Error, false)
    } else if status == 429 {
        ErrorInfo::new(ErrorCategory::RateLimit, ErrorSeverity::Warning, true)
    } else if 500 <= status && status <= 599 || status == 408 {
        ErrorInfo::new(ErrorCategory::Network, ErrorSeverity::Warning, true)
    } else {
        ErrorInfo::new(ErrorCategory::Internal, ErrorSeverity::Error, false)
    }
}

/// What kind of fault an error is, given the failed request that caused it, where one did, and
/// its message.
pub fn classify_error(fault: Option<RequestFault>, msg: &str) -> (r: ErrorInfo)
    ensures
        r == kind_of_error(fault, lowercase_of(msg@)),
{
    match fault {
        Some(f) => match f.status {
            Some(status) => {
                return classify_status(status);
            },
            None => {
                if f.unconnected || f.timed_out {
                    return ErrorInfo::new(ErrorCategory::Network, ErrorSeverity::Warning, true);
                }
            },
        },
        None => {},
    }
    classify_error_from_message(msg)
}

/// The error type of the crate `anyhow`.
#[verifier::external_type_specification]
#[verifier::external_body]
pub struct ExAnyhowError(anyhow::Error);

/// Formats an error with `{}`: the message of its outermost cause. Nothing is said of the text,
/// which may depend on more than the error: that of the operating system on the language of the
/// user.
#[verifier::external_body]
fn error_message(err: &anyhow::Error) -> (r: String) {
    format!("{}", err)
}

/// The failed request that is the root cause of an error, where that is one.
pub uninterp spec fn request_fault_of(err: &anyhow::Error) -> Option<RequestFault>;

/// Calls `anyhow::Error::root_cause` and, where that is a `reqwest::Error`, its `status`,
/// `is_connect` and `is_timeout`. The result depends on the error alone. An error is opaque here,
/// so which it is is left open.
#[verifier::external_body]
fn request_fault(err: &anyhow::Error) -> (r: Option<RequestFault>)
    ensures
        r == request_fault_of(err),
{
    let source = err.root_cause().downcast_ref::<reqwest::Error>()?;
    Some(
        RequestFault {
            status: source.status().map(|status| status.as_u16()),
            unconnected: source.is_connect(),
            timed_out: source.is_timeout(),
        },
    )
}

/// What kind of fault an error is: [`classify_error`] says which, given what caused the error and
/// its message. A failed request that has a status, or had no connection or no answer, decides
/// whatever the message is.
pub fn classify_anyhow(err: &anyhow::Error) -> (r: ErrorInfo)
    ensures
        exists|msg: Seq<char>|
            r == #[trigger] kind_of_error(request_fault_of(err), lowercase_of(msg)),
        request_fault_of(err) matches Some(f) && (f.status is Some || f.unconnected || f.timed_out)
            ==> r == kind_of_error(request_fault_of(err), seq![]),
{
    let fault: Option<RequestFault> = request_fault(err);
    let msg: String = error_message(err);
    classify_error(fault, msg.as_str())
}

/// A fault is held to pass by itself just where it is no more than a warning, and no fault is
/// held to be fatal.
pub proof fn recoverable_iff_warning(fault: Option<RequestFault>, lower: Seq<char>)
    ensures
        kind_of_error(fault, lower).recoverable == (kind_of_error(fault, lower).severity
            == ErrorSeverity::Warning),
        kind_of_error(fault, lower).severity != ErrorSeverity::Fatal,
{
}

/// What the service answered decides: a fault of the caller's name or right lasts, as does one
/// in what was asked; too many calls, a fault of the service and one of time pass. No message
/// changes that.
pub proof fn answer_decides(status: u16, unconnected: bool, timed_out: bool, lower: Seq<char>)
    ensures
        ({
            let fault = Some(RequestFault { status: Some(status), unconnected, timed_out });
            let kind = kind_of_error(fault, lower);
            &&& kind.category == ErrorCategory::Auth <==> 400 <= status <= 403
            &&& kind.category == ErrorCategory::Parse <==> status == 404 || status == 422
            &&& kind.category == ErrorCategory::RateLimit <==> status == 429
            &&& kind.category == ErrorCategory::Network <==> status == 408 || 500 <= status <= 599
            &&& kind.recoverable <==> status == 408 || status == 429 || 500 <= status <= 599
        }),
{
}

/// Without an answer, a fault of the connection or of time passes, whatever the message is.
pub proof fn broken_connection_passes(unconnected: bool, timed_out: bool, lower: Seq<char>)
    requires
        unconnected || timed_out,
    ensures
        ({
            let kind = kind_of_error(
                Some(RequestFault { status: None, unconnected, timed_out }),
                lower,
            );
            kind.category == ErrorCategory::Network && kind.recoverable
        }),
{
}

/// Where no request failed, the message decides: a fault passes only where its message speaks of
/// a tool that was kept from its work, of a stream, or of too many calls, and a message that
/// speaks of a tool kept from its work is a fault of that tool whatever else it says.
pub proof fn message_decides(lower: Seq<char>)
    ensures
        ({
            let kind = kind_of_error(None, lower);
            let kept = has_text(lower, "safety policy"@) || has_text(
                lower,
                "tool execution failed"@,
            ) || has_text(lower, "command blocked"@);
            &&& kind.category == ErrorCategory::Tool <==> kept
            &&& kept ==> kind.recoverable
            &&& kind.recoverable ==> kept || has_text(lower, "stream"@) || has_text(
                lower,
                "rate limit"@,
            ) || has_text(lower, "too many"@)
            &&& kind.category == ErrorCategory::Network ==> has_text(lower, "stream"@)
            &&& !kept && has_text(lower, "json"@) ==> kind.category == ErrorCategory::Parse
            &&& kind.category == ErrorCategory::Auth ==> has_text(lower, "unauthorized"@)
                || has_text(lower, "forbidden"@) || has_text(lower, "auth"@) || has_text(
                lower,
                "api key"@,
            )
            &&& kind.category == ErrorCategory::RateLimit ==> has_text(lower, "rate limit"@)
                || has_text(lower, "too many"@)
        }),
{
}

/// An error is written as its kind, its weight and whether it passes, with a slash between each.
pub proof fn written_error_tells_its_kind(info: ErrorInfo)
    ensures
        info.category.name().is_prefix_of(info.written()),
        info.recoverable ==> "/recoverable=true"@.is_suffix_of(info.written()),
        !info.recoverable ==> "/recoverable=false"@.is_suffix_of(info.written()),
        info.written().subrange(
            info.category.name().len() as int + 1,
            info.category.name().len() as int + 1 + info.severity.name().len(),
        ) == info.severity.name(),
{
    reveal_strlit("/");
    reveal_strlit("/recoverable=");
    reveal_strlit("true");
    reveal_strlit("false");
    reveal_strlit("/recoverable=true");
    reveal_strlit("/recoverable=false");
    assert("/recoverable="@ + "true"@ == "/recoverable=true"@);
    assert("/recoverable="@ + "false"@ == "/recoverable=false"@);
    let head = info.category.name() + "/"@ + info.severity.name();
    if info.recoverable {
        assert(info.written() == head + "/recoverable=true"@);
    } else {
        assert(info.written() == head + "/recoverable=false"@);
    }
    let at = info.category.name().len() as int + 1;
    assert(info.written().subrange(at, at + info.severity.name().len()) == info.severity.name());
}

} // verus!
