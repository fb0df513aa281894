//! What can go wrong when the application starts in a browser.

use vstd::prelude::*;

verus! {

/// Why the application could not start in the browser.
#[derive(Clone, Copy, Debug, PartialEq, Eq, Structural)]
pub enum StartupError {
    NoWindow,
    NoProps,
    NoPathname,
    NoStonkksObject,
    PropsNotUTF8,
}

impl StartupError {
    /// The message that each error is reported with.
    pub open spec fn message(self) -> Seq<char> {
        match self {
            StartupError::NoWindow => "Unable to aquire the window object."@,
            StartupError::NoProps => "No props present in the Stonkks object."@,
            StartupError::NoPathname => "Unable to get the pathname."@,
            StartupError::NoStonkksObject => "No Stonkks object."@,
            StartupError::PropsNotUTF8 => "Props are not UTF8 encoded."@,
        }
    }

    /// The message that the error is reported with.
    pub fn error_msg(self) -> (msg: &'static str)
        ensures
            msg@ == self.message(),
    {
        match self {
            StartupError::NoWindow => "Unable to aquire the window object.",
            StartupError::NoProps => "No props present in the Stonkks object.",
            StartupError::NoPathname => "Unable to get the pathname.",
            StartupError::NoStonkksObject => "No Stonkks object.",
            StartupError::PropsNotUTF8 => "Props are not UTF8 encoded.",
        }
    }
}

} // verus!
