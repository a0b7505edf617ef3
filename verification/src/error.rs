//! What can go wrong, and how the user is told.

use crate::text::push_decimal;
use vstd::prelude::*;

verus! {

/// A failure of the client.
#[derive(Debug)]
pub enum Error {
    /// A request does not fit the 16-bit size field of its header.
    TooLarge,
    /// An event announces a size smaller than its own header.
    BadHeader,
    /// An event is too short for the arguments that its kind has.
    Malformed,
    /// The compositor closed the connection.
    Closed,
    /// The operating system refused; the caller holds its reason.
    Io,
    /// A relative display name, and no directory to resolve it against.
    NoRuntimeDir,
    /// No data-control manager was advertised.
    NoManager,
    /// No seat was advertised.
    NoSeat,
    /// The negotiated protocol has no primary selection.
    NoPrimary,
    /// The compositor reported a protocol error.
    Protocol { object: u32, code: u32, text: String },
    /// The selection does not offer the requested target.
    NoTarget(String),
    /// The selection offers no type at all.
    NoData,
}

/// The broad class of a failure.
#[derive(Clone, Copy, PartialEq, Eq, Structural, Debug)]
pub enum Kind {
    InvalidInput,
    InvalidData,
    UnexpectedEof,
    NotFound,
    Unsupported,
    Other,
}

/// What an [`Error`] holds.
pub enum ErrorView {
    TooLarge,
    BadHeader,
    Malformed,
    Closed,
    Io,
    NoRuntimeDir,
    NoManager,
    NoSeat,
    NoPrimary,
    Protocol { object: u32, code: u32, text: Seq<char> },
    NoTarget(Seq<char>),
    NoData,
}

impl View for Error {
    type V = ErrorView;

    open spec fn view(&self) -> ErrorView {
        match self {
            Error::TooLarge => ErrorView::TooLarge,
            Error::BadHeader => ErrorView::BadHeader,
            Error::Malformed => ErrorView::Malformed,
            Error::Closed => ErrorView::Closed,
            Error::Io => ErrorView::Io,
            Error::NoRuntimeDir => ErrorView::NoRuntimeDir,
            Error::NoManager => ErrorView::NoManager,
            Error::NoSeat => ErrorView::NoSeat,
            Error::NoPrimary => ErrorView::NoPrimary,
            Error::Protocol { object, code, text } => ErrorView::Protocol {
                object: *object,
                code: *code,
                text: text@,
            },
            Error::NoTarget(t) => ErrorView::NoTarget(t@),
            Error::NoData => ErrorView::NoData,
        }
    }
}

impl ErrorView {
    /// The line shown to the user.
    pub open spec fn message(self) -> Seq<char> {
        match self {
            ErrorView::TooLarge => "message too large"@,
            ErrorView::BadHeader => "malformed Wayland message header"@,
            ErrorView::Malformed => "malformed Wayland event"@,
            ErrorView::Closed => "the Wayland connection was closed by the compositor"@,
            ErrorView::Io => "input/output error"@,
            ErrorView::NoRuntimeDir => "XDG_RUNTIME_DIR is not set"@,
            ErrorView::NoManager =>
                "the compositor does not support the wlr-data-control or ext-data-control protocol"@,
            ErrorView::NoSeat => "the compositor exposes no wl_seat"@,
            ErrorView::NoPrimary => "the compositor does not support the primary selection"@,
            ErrorView::Protocol { object, code, text } => "Wayland protocol error from object "@
                + crate::text::decimal(object as nat) + " (code "@ + crate::text::decimal(code as nat) + "): "@ + text,
            ErrorView::NoTarget(t) => "the selection does not offer the target '"@ + t + "'"@,
            ErrorView::NoData => "the selection offers no data"@,
        }
    }

    /// The class of the failure.
    pub open spec fn kind(self) -> Kind {
        match self {
            ErrorView::TooLarge => Kind::InvalidInput,
            ErrorView::BadHeader | ErrorView::Malformed => Kind::InvalidData,
            ErrorView::Closed => Kind::UnexpectedEof,
            ErrorView::NoRuntimeDir => Kind::NotFound,
            ErrorView::NoManager | ErrorView::NoSeat => Kind::Unsupported,
            _ => Kind::Other,
        }
    }
}

impl Error {
    /// The line shown to the user.
    pub fn message(&self) -> (text: String)
        ensures
            text@ == self@.message(),
    {
        match self {
            Error::TooLarge => "message too large".to_owned(),
            Error::BadHeader => "malformed Wayland message header".to_owned(),
            Error::Malformed => "malformed Wayland event".to_owned(),
            Error::Closed => "the Wayland connection was closed by the compositor".to_owned(),
            Error::Io => "input/output error".to_owned(),
            Error::NoRuntimeDir => "XDG_RUNTIME_DIR is not set".to_owned(),
            Error::NoManager =>
                "the compositor does not support the wlr-data-control or ext-data-control protocol".to_owned(),
            Error::NoSeat => "the compositor exposes no wl_seat".to_owned(),
            Error::NoPrimary => "the compositor does not support the primary selection".to_owned(),
            Error::Protocol { object, code, text } => {
                let mut s: String = "Wayland protocol error from object ".to_owned();
                push_decimal(&mut s, *object);
                s.append(" (code ");
                push_decimal(&mut s, *code);
                s.append("): ");
                s.append(text.as_str());
                s
            },
            Error::NoTarget(t) => {
                let mut s: String = "the selection does not offer the target '".to_owned();
                s.append(t.as_str());
                s.append("'");
                s
            },
            Error::NoData => "the selection offers no data".to_owned(),
        }
    }

    /// The class of the failure.
    pub fn kind(&self) -> (kind: Kind)
        ensures
            kind == self@.kind(),
    {
        match self {
            Error::TooLarge => Kind::InvalidInput,
            Error::BadHeader | Error::Malformed => Kind::InvalidData,
            Error::Closed => Kind::UnexpectedEof,
            Error::NoRuntimeDir => Kind::NotFound,
            Error::NoManager | Error::NoSeat => Kind::Unsupported,
            _ => Kind::Other,
        }
    }
}

} // verus!
