use vstd::prelude::*;
use vstd::string::StringSliceAdditionalSpecFns;
use crate::sys;

verus! {

/// The kinds of error that the library itself raises.
#[derive(Copy, Clone, PartialEq, Eq, Debug, Structural)]
pub enum ErrorKind {
    Unknown,
    NotImplemented,
}

/// What an error is: a code from the operating system, or an error of
/// the library with its kind and its description.
pub enum ErrorView {
    Os(i32),
    Custom(ErrorKind, Seq<char>),
}

#[derive(Debug)]
enum Inner {
    Os(i32),
    Custom(ErrorKind, String),
}

/// An error of an operation: either the operating system's code, kept as
/// it came, or an error of the library.
#[derive(Debug)]
pub struct Error {
    inner: Inner,
}

impl View for Error {
    type V = ErrorView;

    closed spec fn view(&self) -> ErrorView {
        match self.inner {
            Inner::Os(code) => ErrorView::Os(code),
            Inner::Custom(kind, message) => ErrorView::Custom(kind, message@),
        }
    }
}

impl Error {
    /// An error of the library, of the given kind and description.
    pub fn new(kind: ErrorKind, error: String) -> (r: Error)
        ensures
            r@ == ErrorView::Custom(kind, error@),
    {
        Error { inner: Inner::Custom(kind, error) }
    }

    pub fn unknown() -> (r: Error)
        ensures
            r@ == ErrorView::Custom(ErrorKind::Unknown, "Unknown error"@),
    {
        Error::new(ErrorKind::Unknown, "Unknown error".to_owned())
    }

    pub fn not_implemented() -> (r: Error)
        ensures
            r@ == ErrorView::Custom(ErrorKind::NotImplemented, "Functionality not implemented"@),
    {
        Error::new(ErrorKind::NotImplemented, "Functionality not implemented".to_owned())
    }

    /// The operating system's code, if the error is one of its errors.
    pub fn os_error_code(&self) -> (r: Option<i32>)
        ensures
            r == (match self@ {
                ErrorView::Os(code) => Some(code),
                ErrorView::Custom(..) => None::<i32>,
            }),
    {
        match self.inner {
            Inner::Os(code) => Some(code),
            Inner::Custom(..) => None,
        }
    }

    pub fn from_os_error_code(code: i32) -> (r: Error)
        ensures
            r@ == ErrorView::Os(code),
    {
        Error { inner: Inner::Os(code) }
    }

    /// The error for the code that the operating system last reported to
    /// the calling thread, as the caller read it.
    pub fn os_error(last_error_code: i32) -> (r: Error)
        ensures
            r@ == ErrorView::Os(last_error_code),
    {
        Error::from_os_error_code(last_error_code)
    }

    /// The kind of the error, if it is an error of the library.
    pub fn kind(&self) -> (r: Option<ErrorKind>)
        ensures
            r == (match self@ {
                ErrorView::Os(..) => None::<ErrorKind>,
                ErrorView::Custom(kind, _) => Some(kind),
            }),
    {
        match &self.inner {
            Inner::Os(..) => None,
            Inner::Custom(kind, _) => Some(*kind),
        }
    }

    /// A short description: "os error" for one of the operating system,
    /// else the description that the error was made with.
    pub fn description(&self) -> (r: String)
        ensures
            r@ == (match self@ {
                ErrorView::Os(..) => "os error"@,
                ErrorView::Custom(_, message) => message,
            }),
    {
        match &self.inner {
            Inner::Os(..) => "os error".to_owned(),
            Inner::Custom(_, message) => message.clone(),
        }
    }
}

/// Room for the message of one error code.
pub const MESSAGE_BYTES: usize = 128;

/// The flags with which the system is asked for the message of an error
/// code: its own message table, no inserts, no line breaks.
pub fn message_flags() -> (r: u32)
    ensures
        r == 0x12FF,
{
    let r: u32 = sys::FORMAT_MESSAGE_FROM_SYSTEM | sys::FORMAT_MESSAGE_IGNORE_INSERTS
        | sys::FORMAT_MESSAGE_MAX_WIDTH_MASK;
    assert(0x00001000u32 | 0x00000200u32 | 0x000000FFu32 == 0x12FFu32) by (bit_vector);
    r
}

/// The text that stands for a message that did not fit.
pub open spec fn too_long() -> Seq<u8> {
    "[MESSAGE buffer not large enough]".spec_bytes()
}

/// The message of an error code, as bytes: the first `count` bytes of
/// `buffer`, into which the system wrote it; but where it wrote nothing
/// and said that the buffer was too small, a text that says so.
pub open spec fn spec_error_string(buffer: Seq<u8>, count: usize, last_error_code: i32) -> Seq<u8> {
    if count == 0 && last_error_code == sys::ERROR_INSUFFICIENT_BUFFER {
        too_long()
    } else {
        buffer.subrange(0, count as int)
    }
}

/// The message of an error code. The system was asked to write it into
/// `buffer`; `count` is the number of bytes that it wrote, and
/// `last_error_code` the error code after that call.
pub fn error_string(buffer: &[u8], count: usize, last_error_code: i32) -> (r: Vec<u8>)
    requires
        count <= buffer@.len(),
    ensures
        r@ == spec_error_string(buffer@, count, last_error_code),
{
    let source: &[u8] = if count == 0 && last_error_code == sys::ERROR_INSUFFICIENT_BUFFER {
        "[MESSAGE buffer not large enough]".as_bytes()
    } else {
        buffer
    };
    let n: usize = if count == 0 && last_error_code == sys::ERROR_INSUFFICIENT_BUFFER {
        source.len()
    } else {
        count
    };
    let mut message: Vec<u8> = Vec::new();
    let mut i: usize = 0;
    while i < n
        invariant
            0 <= i <= n <= source@.len(),
            message@ == source@.subrange(0, i as int),
        decreases n - i,
    {
        message.push(source[i]);
        assert(message@ =~= source@.subrange(0, i + 1));
        i = i + 1;
    }
    assert(source@.subrange(0, source@.len() as int) =~= source@);
    message
}

} // verus!
