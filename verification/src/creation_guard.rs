//! Guard against debuggers that others have configured for a program: an ordinary start must not
//! run a third party's debugger unnoticed. Nothing is created, changed or removed here.
use vstd::prelude::*;
use vstd::string::*;
use crate::error::{Error, Result, invalid};
use crate::path;
use crate::text;

verus! {

/// How many filters of one program are looked at.
pub const FILTER_LIMIT: usize = 512;

/// The status that says that a key or value does not exist.
pub const ERROR_FILE_NOT_FOUND: u32 = 2;

/// What looking for a debugger under a key found, by status.
pub open spec fn debugger_present(status: u32) -> Result<bool> {
    if status == 0 {
        Ok(true)
    } else if status == ERROR_FILE_NOT_FOUND {
        Ok(false)
    } else {
        Err(Error::Windows { operation: "ReadIfeoDebugger", code: status })
    }
}

fn debugger(status: u32) -> (r: Result<bool>)
    ensures
        r == debugger_present(status),
{
    if status == 0 {
        Ok(true)
    } else if status == ERROR_FILE_NOT_FOUND {
        Ok(false)
    } else {
        Err(Error::Windows { operation: "ReadIfeoDebugger", code: status })
    }
}

/// What is seen of a filter under a program's key: its name, the status of opening it, and the
/// status of looking for a debugger in it.
#[derive(Debug)]
pub struct FilterSeen {
    pub listed: u32,
    pub name: Vec<u16>,
    pub opened: u32,
    pub debugger: u32,
}

/// What is seen of a program's key: the status of opening it, the status of looking for a debugger
/// in it, and its filters in the order in which they are listed.
#[derive(Debug)]
pub struct KeySeen {
    pub opened: u32,
    pub debugger: u32,
    pub filters: Vec<FilterSeen>,
}

/// Why a filter stands in the way of a plain start.
pub open spec fn filter_verdict(filter: FilterSeen) -> Result<()> {
    if filter.listed != 0 {
        Err(Error::Windows { operation: "EnumerateIfeoFilters", code: filter.listed })
    } else if !text::is_utf16(filter.name@) {
        invalid("INVALID_IFEO_FILTER")
    } else if filter.opened == ERROR_FILE_NOT_FOUND {
        invalid("IFEO_REGISTRATION_CHANGED")
    } else if filter.opened != 0 {
        Err(Error::Windows { operation: "ReadIfeoRegistration", code: filter.opened })
    } else {
        match debugger_present(filter.debugger) {
            Err(e) => Err(e),
            Ok(true) => invalid("EXTERNAL_DEBUGGER_UNSUPPORTED"),
            Ok(false) => Ok(()),
        }
    }
}

/// The verdict of the filters from place `i` on: the first that stands in the way decides. A list
/// that reaches the limit is refused, as it may go on.
pub open spec fn filters_verdict(filters: Seq<FilterSeen>, i: int) -> Result<()>
    decreases FILTER_LIMIT - i,
{
    if i >= FILTER_LIMIT {
        invalid("IFEO_FILTER_LIMIT")
    } else if i >= filters.len() {
        Ok(())
    } else if filter_verdict(filters[i]) is Err {
        filter_verdict(filters[i])
    } else {
        filters_verdict(filters, i + 1)
    }
}

/// The verdict of a program's key.
pub open spec fn key_verdict(key: KeySeen) -> Result<()> {
    if key.opened == ERROR_FILE_NOT_FOUND {
        Ok(())
    } else if key.opened != 0 {
        Err(Error::Windows { operation: "ReadIfeoRegistration", code: key.opened })
    } else {
        match debugger_present(key.debugger) {
            Err(e) => Err(e),
            Ok(true) => invalid("EXTERNAL_DEBUGGER_UNSUPPORTED"),
            Ok(false) => filters_verdict(key.filters@, 0),
        }
    }
}

fn check_filter(filter: &FilterSeen) -> (r: Result<()>)
    ensures
        r == filter_verdict(*filter),
{
    if filter.listed != 0 {
        return Err(Error::Windows { operation: "EnumerateIfeoFilters", code: filter.listed });
    }
    match text::from_utf16(filter.name.as_slice()) {
        None => {
            return Err(Error::Invalid("INVALID_IFEO_FILTER"));
        },
        Some(_) => {
            proof {
                assert(text::is_utf16(filter.name@));
            }
        },
    }
    if filter.opened == ERROR_FILE_NOT_FOUND {
        return Err(Error::Invalid("IFEO_REGISTRATION_CHANGED"));
    }
    if filter.opened != 0 {
        return Err(Error::Windows { operation: "ReadIfeoRegistration", code: filter.opened });
    }
    if debugger(filter.debugger)? {
        return Err(Error::Invalid("EXTERNAL_DEBUGGER_UNSUPPORTED"));
    }
    Ok(())
}

/// Decide whether a program's key lets it be started plainly. Keys that only set mitigations are
/// allowed; a debugger of the program or of any filter is not, since this launcher does not follow
/// debuggers.
pub fn check(key: &KeySeen) -> (r: Result<()>)
    ensures
        r == key_verdict(*key),
{
    if key.opened == ERROR_FILE_NOT_FOUND {
        return Ok(());
    }
    if key.opened != 0 {
        return Err(Error::Windows { operation: "ReadIfeoRegistration", code: key.opened });
    }
    if debugger(key.debugger)? {
        return Err(Error::Invalid("EXTERNAL_DEBUGGER_UNSUPPORTED"));
    }
    let mut i: usize = 0;
    while i < FILTER_LIMIT && i < key.filters.len()
        invariant
            i <= FILTER_LIMIT,
            i <= key.filters.len(),
            filters_verdict(key.filters@, 0) == filters_verdict(key.filters@, i as int),
            key_verdict(*key) == filters_verdict(key.filters@, 0),
        decreases FILTER_LIMIT - i,
    {
        check_filter(&key.filters[i])?;
        i += 1;
    }
    if i >= FILTER_LIMIT {
        return Err(Error::Invalid("IFEO_FILTER_LIMIT"));
    }
    Ok(())
}

/// The registry key that may configure a debugger for an executable.
pub fn guarded_key(executable: &str) -> (r: Result<String>)
    ensures
        match path::last_component(executable@) {
            None => r == invalid::<String>("EXE_REQUIRED"),
            Some(name) => r matches Ok(key) && key@
                == "SOFTWARE\\Microsoft\\Windows NT\\CurrentVersion\\Image File Execution Options\\"@
                + name,
        },
{
    match path::file_name(executable) {
        None => Err(Error::Invalid("EXE_REQUIRED")),
        Some(name) => Ok(
            text::join(
                "SOFTWARE\\Microsoft\\Windows NT\\CurrentVersion\\Image File Execution Options\\",
                name.as_str(),
            ),
        ),
    }
}

/// Why an executable cannot be started plainly.
pub open spec fn creation_verdict(executable: Seq<char>, native: KeySeen, emulated: KeySeen) -> Result<()> {
    if path::last_component(executable) is None {
        invalid("EXE_REQUIRED")
    } else if key_verdict(native) is Err {
        key_verdict(native)
    } else {
        key_verdict(emulated)
    }
}

/// Refuse an executable that a debugger would be started for, in the native registry or in the one
/// that 32-bit programs see.
pub fn ensure_plain_creation(executable: &str, native: &KeySeen, emulated: &KeySeen) -> (r: Result<
    (),
>)
    ensures
        r == creation_verdict(executable@, *native, *emulated),
{
    guarded_key(executable)?;
    check(native)?;
    check(emulated)
}

/// No start is plain while any filter within reach has a debugger.
pub proof fn filtered_debuggers_are_refused(key: KeySeen, i: int)
    requires
        key.opened == 0,
        0 <= i < key.filters@.len(),
        i < FILTER_LIMIT,
        key.filters@[i].debugger == 0,
    ensures
        key_verdict(key) is Err,
{
    filters_before(key.filters@, 0, i);
}

proof fn filters_before(filters: Seq<FilterSeen>, from: int, i: int)
    requires
        0 <= from <= i < filters.len(),
        i < FILTER_LIMIT,
        filters[i].debugger == 0,
    ensures
        filters_verdict(filters, from) is Err,
    decreases i - from,
{
    if from < i {
        filters_before(filters, from + 1, i);
    }
}

} // verus!
