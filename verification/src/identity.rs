//! Turning what the operating system reports of processes, tokens and files into identities.
use vstd::prelude::*;
use vstd::string::*;
use crate::error::{Error, Result, invalid};
use crate::model::FileIdentity;
use crate::text;

verus! {

/// The error number that says that a process belongs to no package.
pub const APPMODEL_ERROR_NO_PACKAGE: u32 = 15700;

/// The error number that says that a buffer is too small.
pub const ERROR_INSUFFICIENT_BUFFER: u32 = 122;

/// The largest description of a token that is read, in bytes.
pub const TOKEN_LIMIT: u32 = 65536;

/// Two halves of a 64-bit number put together.
pub fn combine(high: u32, low: u32) -> (r: u64)
    ensures
        r == high * 0x1_0000_0000 + low,
{
    (high as u64) * 0x1_0000_0000 + low as u64
}

/// The identity of a file from the two halves of its index.
pub fn file_identity(volume_serial: u32, index_high: u32, index_low: u32) -> (r: FileIdentity)
    ensures
        r.volume_serial == volume_serial,
        r.file_index == index_high * 0x1_0000_0000 + index_low,
{
    FileIdentity { volume_serial, file_index: combine(index_high, index_low) }
}

/// Different index halves name different files.
pub proof fn combined_halves_are_distinct(high: u32, low: u32, other_high: u32, other_low: u32)
    requires
        high * 0x1_0000_0000 + low == other_high * 0x1_0000_0000 + other_low,
    ensures
        high == other_high,
        low == other_low,
{
}

/// A token that may be used where an elevated (or an ordinary) one is asked for. Restricted tokens
/// are never an ordinary launch context.
pub open spec fn elevation(token_elevated: bool, restricted: bool, elevated: bool) -> Result<()> {
    if token_elevated != elevated {
        invalid(
            if elevated {
                "ELEVATED_USER_REQUIRED"
            } else {
                "ORDINARY_USER_REQUIRED"
            },
        )
    } else if restricted {
        invalid("RESTRICTED_TOKEN_UNSUPPORTED")
    } else {
        Ok(())
    }
}

/// Check the elevation of a token; a number other than zero means elevated or restricted.
pub fn assert_elevation(token_elevated: u32, restricted: i32, elevated: bool) -> (r: Result<()>)
    ensures
        r == elevation(token_elevated != 0, restricted != 0, elevated),
{
    if (token_elevated != 0) != elevated {
        return Err(
            Error::Invalid(
                if elevated {
                    "ELEVATED_USER_REQUIRED"
                } else {
                    "ORDINARY_USER_REQUIRED"
                },
            ),
        );
    }
    if restricted != 0 {
        return Err(Error::Invalid("RESTRICTED_TOKEN_UNSUPPORTED"));
    }
    Ok(())
}

/// Check that a token is an ordinary user's.
pub fn assert_ordinary_user(token_elevated: u32, restricted: i32) -> (r: Result<()>)
    ensures
        r == elevation(token_elevated != 0, restricted != 0, false),
{
    assert_elevation(token_elevated, restricted, false)
}

/// Check that a token is elevated.
pub fn assert_elevated_user(token_elevated: u32, restricted: i32) -> (r: Result<()>)
    ensures
        r == elevation(token_elevated != 0, restricted != 0, true),
{
    assert_elevation(token_elevated, restricted, true)
}

/// Whether the call that asks for the length of a package name found a package: `Ok(false)` says
/// that there is none.
pub fn package_present(status: u32, operation: &'static str) -> (r: Result<bool>)
    ensures
        r == (if status == APPMODEL_ERROR_NO_PACKAGE {
            Ok(false)
        } else if status == ERROR_INSUFFICIENT_BUFFER {
            Ok(true)
        } else {
            Err(Error::Windows { operation, code: status })
        }),
{
    if status == APPMODEL_ERROR_NO_PACKAGE {
        return Ok(false);
    }
    if status != ERROR_INSUFFICIENT_BUFFER {
        return Err(Error::Windows { operation, code: status });
    }
    Ok(true)
}

/// The units of a name that was read into `buffer`: `length` counts a terminator that is no part of
/// the name.
pub open spec fn name_units(buffer: Seq<u16>, length: u32) -> Seq<u16> {
    let n = if length == 0 {
        0
    } else {
        length - 1
    };
    if n <= buffer.len() {
        buffer.take(n as int)
    } else {
        buffer
    }
}

/// The package name that the second call read.
pub fn package_name(status: u32, operation: &'static str, buffer: Vec<u16>, length: u32) -> (r:
    Result<String>)
    ensures
        if status != 0 {
            r == Err::<String, Error>(Error::Windows { operation, code: status })
        } else if text::is_utf16(name_units(buffer@, length)) {
            r matches Ok(name) && text::utf16(name@) == name_units(buffer@, length)
        } else {
            r == invalid::<String>("NON_UNICODE_PACKAGE")
        },
{
    if status != 0 {
        return Err(Error::Windows { operation, code: status });
    }
    let mut buffer = buffer;
    let n: usize = if length == 0 {
        0
    } else {
        (length - 1) as usize
    };
    let ghost units = buffer@;
    buffer.truncate(n);
    proof {
        assert(buffer@ =~= name_units(units, length));
    }
    match text::from_utf16(buffer.as_slice()) {
        Some(name) => {
            proof {
                assert(text::is_utf16(buffer@));
            }
            Ok(name)
        },
        None => Err(Error::Invalid("NON_UNICODE_PACKAGE")),
    }
}

/// Whether the reported size of a token's description may be read.
pub fn token_size_valid(bytes: u32) -> (r: bool)
    ensures
        r == (0 < bytes <= TOKEN_LIMIT),
{
    bytes != 0 && bytes <= TOKEN_LIMIT
}

/// The text of a security identifier from its units.
pub fn sid_text(units: &[u16]) -> (r: Result<String>)
    ensures
        if text::is_utf16(units@) {
            r matches Ok(sid) && text::utf16(sid@) == units@
        } else {
            r == invalid::<String>("INVALID_SID")
        },
{
    match text::from_utf16(units) {
        Some(sid) => {
            proof {
                assert(text::is_utf16(units@));
            }
            Ok(sid)
        },
        None => Err(Error::Invalid("INVALID_SID")),
    }
}

} // verus!
