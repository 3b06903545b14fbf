use vstd::prelude::*;

verus! {

/// The error number that says that a file does not exist.
pub const FILE_NOT_FOUND: u32 = 2;

/// Why an operation was refused or could not be carried out.
///
/// `Invalid` carries the stable code of the rule that was broken. `Windows` carries the
/// operating-system call that failed together with its error number. `IdentityMismatch` says
/// that a process or file is not the one that was recorded. `Io` says that reading or writing a
/// file failed with this error number, `Malformed` that bytes are not the encoding of a record.
#[derive(Clone, Copy, Debug)]
pub enum Error {
    Invalid(&'static str),
    Windows { operation: &'static str, code: u32 },
    IdentityMismatch,
    Io { code: u32 },
    Malformed,
}

/// The outcome of an operation of this library.
pub type Result<T> = core::result::Result<T, Error>;

/// The refusal that carries `code`.
pub open spec fn invalid<T>(code: &'static str) -> Result<T> {
    Err(Error::Invalid(code))
}

/// Turn the status of an operating-system call into a result; zero is success.
pub fn check(code: u32, operation: &'static str) -> (result: Result<()>)
    ensures
        result == (if code == 0 {
            Ok(())
        } else {
            Err(Error::Windows { operation, code })
        }),
{
    if code == 0 {
        Ok(())
    } else {
        Err(Error::Windows { operation, code })
    }
}

} // verus!
