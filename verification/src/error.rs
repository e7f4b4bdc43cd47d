//! The recoverable errors of the database.
use vstd::prelude::*;
use vstd::string::StringExecFns;
use crate::text::spec_decimal;
use crate::text::text_with_number;

verus! {

/// The recoverable errors of the database.
#[derive(Clone, Debug, PartialEq)]
pub enum Error {
    /// Invalid data, which typically includes decoding errors or unexpected internal values.
    InvalidData(String),
    /// Invalid user input, which typically includes parser or query errors.
    InvalidInput(String),
    /// An IO error has occurred.
    IO(String),
    /// A numerical error has occurred, such as an integer overflow.
    ArithmeticOverflow,
    /// An out-of-bounds access has occurred.
    OutOfBounds,
    /// A buffer pool error has occurred.
    BufferPoolError(String),
    /// The page cannot be deleted because it is still pinned.
    PagePinned(u32),
}

impl Error {
    /// The text that describes the error to a reader.
    pub open spec fn spec_text(self) -> Seq<char> {
        match self {
            Error::InvalidData(msg) => "Invalid data: "@ + msg@,
            Error::InvalidInput(msg) => "Invalid input: "@ + msg@,
            Error::IO(msg) => "IO error: "@ + msg@,
            Error::ArithmeticOverflow => "Arithmetic overflow"@,
            Error::OutOfBounds => "Out of bounds"@,
            Error::BufferPoolError(msg) => "Buffer error: "@ + msg@,
            Error::PagePinned(page_id) => "Cannot delete page "@ + spec_decimal(page_id as nat)
                + ": Page is still pinned"@,
        }
    }

    /// Describes the error to a reader.
    pub fn to_string(&self) -> (text: String)
        ensures
            text@ == self.spec_text(),
    {
        match self {
            Error::InvalidData(msg) => String::from_str("Invalid data: ").concat(msg.as_str()),
            Error::InvalidInput(msg) => String::from_str("Invalid input: ").concat(msg.as_str()),
            Error::IO(msg) => String::from_str("IO error: ").concat(msg.as_str()),
            Error::ArithmeticOverflow => String::from_str("Arithmetic overflow"),
            Error::OutOfBounds => String::from_str("Out of bounds"),
            Error::BufferPoolError(msg) => String::from_str("Buffer error: ").concat(
                msg.as_str(),
            ),
            Error::PagePinned(page_id) => text_with_number(
                "Cannot delete page ",
                *page_id as u64,
                ": Page is still pinned",
            ),
        }
    }
}

} // verus!
