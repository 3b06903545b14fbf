//! Protected objects: who may own them and who may do what to them.
use vstd::prelude::*;
use vstd::string::*;
use crate::error::{Error, Result, invalid};
use crate::text;

verus! {

/// Every right to a file.
pub const FILE_ALL_ACCESS: u32 = 0x1f01ff;

/// The rights to read and run a file.
pub const READ_EXECUTE: u32 = 0x1200a9;

/// The generic rights to read and run.
pub const GENERIC_READ_EXECUTE: u32 = 0xa000_0000;

/// The rights that change a registry key.
pub const KEY_WRITES: u32 = 0x500d_0026;

/// Inheritance to files, to directories, inheritance that stops, and entries that only inherit.
pub const OBJECT_INHERIT_ACE: u8 = 1;

pub const CONTAINER_INHERIT_ACE: u8 = 2;

pub const NO_PROPAGATE_INHERIT_ACE: u8 = 4;

pub const INHERIT_ONLY_ACE: u8 = 8;

/// The attributes of directories and of links.
pub const FILE_ATTRIBUTE_DIRECTORY: u32 = 0x10;

pub const FILE_ATTRIBUTE_REPARSE_POINT: u32 = 0x400;

/// An entry of an access list: its kind (zero allows, one denies), its flags, its rights and the
/// account it concerns.
#[derive(Debug)]
pub struct Ace {
    pub kind: u8,
    pub flags: u8,
    pub mask: u32,
    pub sid: String,
}

/// The security of an object: its owner, its access list if it has one, and whether the list is
/// protected from inheritance.
#[derive(Debug)]
pub struct Descriptor {
    pub owner: Option<String>,
    pub dacl: Option<Vec<Ace>>,
    pub protected: bool,
}

/// The administrators, the system, the users, and the installer of the system.
pub open spec fn admin() -> Seq<char> {
    "S-1-5-32-544"@
}

pub open spec fn system() -> Seq<char> {
    "S-1-5-18"@
}

pub open spec fn users() -> Seq<char> {
    "S-1-5-32-545"@
}

pub open spec fn installer() -> Seq<char> {
    "S-1-5-80-956008885-3418522649-1831038044-1853292631-2271478464"@
}

/// The owner of the objects that an entry creates, as inheritance names it.
pub open spec fn creator() -> Seq<char> {
    "S-1-3-0"@
}

/// The rights that a guarded object gives to an account.
pub open spec fn guard_rights(sid: Seq<char>) -> Option<u32> {
    if sid == admin() || sid == system() {
        Some(FILE_ALL_ACCESS)
    } else if sid == users() {
        Some(READ_EXECUTE)
    } else {
        None
    }
}

/// An earlier entry concerns the same account.
pub open spec fn repeated(aces: Seq<Ace>, i: int) -> bool {
    exists|k: int| 0 <= k < i && (#[trigger] aces[k]).sid@ == aces[i].sid@
}

/// The flags of an entry of a guarded object: it takes effect here and, for a directory, on
/// everything below.
pub open spec fn guard_flags(flags: u8, directory: bool) -> bool {
    flags & 12 == 0 && (directory ==> flags & 3 == 3)
}

/// Why entry `i` of a guarded object's list is unsafe.
pub open spec fn guard_ace(aces: Seq<Ace>, i: int, directory: bool) -> Result<()> {
    if aces[i].kind != 0 || !guard_flags(aces[i].flags, directory) {
        invalid("GUARD_UNSAFE_ACE")
    } else {
        match guard_rights(aces[i].sid@) {
            None => invalid("GUARD_UNSAFE_TRUSTEE"),
            Some(rights) => if aces[i].mask != rights || repeated(aces, i) {
                invalid("GUARD_UNSAFE_RIGHTS")
            } else {
                Ok(())
            },
        }
    }
}

/// The first unsafe entry from place `i` on decides.
pub open spec fn guard_aces(aces: Seq<Ace>, i: int, directory: bool) -> Result<()>
    decreases aces.len() - i,
{
    if i < 0 || i >= aces.len() {
        Ok(())
    } else if guard_ace(aces, i, directory) is Err {
        guard_ace(aces, i, directory)
    } else {
        guard_aces(aces, i + 1, directory)
    }
}

/// An object that administrators own and whose list of three is its own.
pub open spec fn protected_object(descriptor: Descriptor) -> bool {
    (descriptor.owner matches Some(owner) && owner@ == admin()) && (descriptor.dacl matches Some(
        aces,
    ) && aces@.len() == 3) && descriptor.protected
}

/// Why an object is not guarded.
pub open spec fn guard_verdict(descriptor: Descriptor, directory: bool) -> Result<()> {
    if !protected_object(descriptor) {
        invalid("GUARD_UNPROTECTED_OBJECT")
    } else {
        guard_aces(descriptor.dacl->0@, 0, directory)
    }
}

fn is_sid(sid: &str, expected: &str) -> (r: bool)
    ensures
        r == (sid@ == expected@),
{
    text::same(sid, expected)
}

fn is_repeated(aces: &[Ace], i: usize) -> (r: bool)
    requires
        i < aces@.len(),
    ensures
        r == repeated(aces@, i as int),
{
    let mut k: usize = 0;
    while k < i
        invariant
            k <= i < aces@.len(),
            forall|m: int| 0 <= m < k ==> (#[trigger] aces@[m]).sid@ != aces@[i as int].sid@,
        decreases i - k,
    {
        if text::same(aces[k].sid.as_str(), aces[i].sid.as_str()) {
            return true;
        }
        k += 1;
    }
    false
}

fn owned_by_admin(descriptor: &Descriptor) -> (r: bool)
    ensures
        r == protected_object(*descriptor),
{
    let owner = match &descriptor.owner {
        Some(owner) => is_sid(owner.as_str(), "S-1-5-32-544"),
        None => false,
    };
    let three = match &descriptor.dacl {
        Some(aces) => aces.len() == 3,
        None => false,
    };
    owner && three && descriptor.protected
}

fn check_guard_ace(aces: &[Ace], i: usize, directory: bool) -> (r: Result<()>)
    requires
        i < aces@.len(),
    ensures
        r == guard_ace(aces@, i as int, directory),
{
    let ace = &aces[i];
    if ace.kind != 0 || ace.flags & 12 != 0 || (directory && ace.flags & 3 != 3) {
        return Err(Error::Invalid("GUARD_UNSAFE_ACE"));
    }
    let rights: u32 = if is_sid(ace.sid.as_str(), "S-1-5-32-544") || is_sid(
        ace.sid.as_str(),
        "S-1-5-18",
    ) {
        FILE_ALL_ACCESS
    } else if is_sid(ace.sid.as_str(), "S-1-5-32-545") {
        READ_EXECUTE
    } else {
        return Err(Error::Invalid("GUARD_UNSAFE_TRUSTEE"));
    };
    if ace.mask != rights || is_repeated(aces, i) {
        return Err(Error::Invalid("GUARD_UNSAFE_RIGHTS"));
    }
    Ok(())
}

/// Check that an object is guarded: administrators own it, its list is protected, administrators and
/// the system may do everything, users may read and run, and nobody else appears.
pub fn validate_descriptor(descriptor: &Descriptor, directory: bool) -> (r: Result<()>)
    ensures
        r == guard_verdict(*descriptor, directory),
{
    if !owned_by_admin(descriptor) {
        return Err(Error::Invalid("GUARD_UNPROTECTED_OBJECT"));
    }
    match &descriptor.dacl {
        Some(aces) => {
            let mut i: usize = 0;
            while i < aces.len()
                invariant
                    i <= aces.len(),
                    guard_aces(aces@, 0, directory) == guard_aces(aces@, i as int, directory),
                    guard_verdict(*descriptor, directory) == guard_aces(aces@, 0, directory),
                decreases aces.len() - i,
            {
                check_guard_ace(aces.as_slice(), i, directory)?;
                i += 1;
            }
            Ok(())
        },
        None => Err(Error::Invalid("GUARD_UNPROTECTED_OBJECT")),
    }
}

proof fn guard_aces_all(aces: Seq<Ace>, i: int, directory: bool)
    requires
        guard_aces(aces, i, directory) is Ok,
        0 <= i <= aces.len(),
    ensures
        forall|k: int| i <= k < aces.len() ==> (#[trigger] guard_ace(aces, k, directory)) is Ok,
    decreases aces.len() - i,
{
    if i < aces.len() {
        guard_aces_all(aces, i + 1, directory);
    }
}

/// Only administrators and the system can change a guarded object: every entry that gives more than
/// reading and running is theirs.
pub proof fn guarded_objects_are_read_only(descriptor: Descriptor, directory: bool, i: int)
    requires
        guard_verdict(descriptor, directory) is Ok,
        0 <= i < descriptor.dacl->0@.len(),
    ensures
        ({
            let ace = descriptor.dacl->0@[i];
            ace.kind == 0 && (ace.mask == READ_EXECUTE || ace.sid@ == admin() || ace.sid@
                == system())
        }),
{
    guard_aces_all(descriptor.dacl->0@, 0, directory);
    assert(guard_ace(descriptor.dacl->0@, i, directory) is Ok);
}

/// Why an object that was opened is not of the wanted kind.
pub open spec fn object_verdict(attributes: u32, links: u32, directory: bool) -> Result<()> {
    if (attributes & FILE_ATTRIBUTE_DIRECTORY != 0) == directory && attributes
        & FILE_ATTRIBUTE_REPARSE_POINT == 0 && (directory || links == 1) {
        Ok(())
    } else {
        invalid("GUARD_OBJECT_TYPE_MISMATCH")
    }
}

/// Check what kind of object was opened: a directory or a file with one name, and no link.
pub fn check_object(attributes: u32, links: u32, directory: bool) -> (r: Result<()>)
    ensures
        r == object_verdict(attributes, links, directory),
{
    if (attributes & FILE_ATTRIBUTE_DIRECTORY != 0) != directory || attributes
        & FILE_ATTRIBUTE_REPARSE_POINT != 0 || (!directory && links != 1) {
        return Err(Error::Invalid("GUARD_OBJECT_TYPE_MISMATCH"));
    }
    Ok(())
}

/// The security of an event task: administrators own it, the bound user may read and run it.
pub fn sddl(sid: &str) -> (r: String)
    ensures
        r@ == "O:BAG:BAD:P(A;;FA;;;SY)(A;;FA;;;BA)(A;;GRGX;;;"@ + sid@ + ")"@,
{
    text::join3("O:BAG:BAD:P(A;;FA;;;SY)(A;;FA;;;BA)(A;;GRGX;;;", sid, ")")
}

/// The rights that a task gives to an account.
pub open spec fn task_rights(mask: u32, trustee: Seq<char>, sid: Seq<char>) -> bool {
    if trustee == system() || trustee == admin() {
        mask == FILE_ALL_ACCESS
    } else {
        trustee == sid && (mask == GENERIC_READ_EXECUTE || mask == READ_EXECUTE)
    }
}

/// Why entry `i` of a task's list is unsafe.
pub open spec fn task_ace(aces: Seq<Ace>, i: int, sid: Seq<char>) -> Result<()> {
    if aces[i].kind != 0 || aces[i].flags != 0 {
        invalid("GUARD_TASK_UNSAFE_ACE")
    } else if !task_rights(aces[i].mask, aces[i].sid@, sid) || repeated(aces, i) {
        invalid("GUARD_TASK_UNSAFE_RIGHTS")
    } else {
        Ok(())
    }
}

/// The first unsafe entry from place `i` on decides.
pub open spec fn task_aces(aces: Seq<Ace>, i: int, sid: Seq<char>) -> Result<()>
    decreases aces.len() - i,
{
    if i < 0 || i >= aces.len() {
        Ok(())
    } else if task_ace(aces, i, sid) is Err {
        task_ace(aces, i, sid)
    } else {
        task_aces(aces, i + 1, sid)
    }
}

/// Why a task is not protected.
pub open spec fn task_verdict(length: nat, descriptor: Descriptor, sid: Seq<char>) -> Result<()> {
    if length > 65536 {
        invalid("GUARD_TASK_ACL_SIZE")
    } else if !protected_object(descriptor) {
        invalid("GUARD_TASK_UNPROTECTED")
    } else {
        task_aces(descriptor.dacl->0@, 0, sid)
    }
}

fn check_task_ace(aces: &[Ace], i: usize, sid: &str) -> (r: Result<()>)
    requires
        i < aces@.len(),
    ensures
        r == task_ace(aces@, i as int, sid@),
{
    let ace = &aces[i];
    if ace.kind != 0 || ace.flags != 0 {
        return Err(Error::Invalid("GUARD_TASK_UNSAFE_ACE"));
    }
    let allowed = if is_sid(ace.sid.as_str(), "S-1-5-18") || is_sid(
        ace.sid.as_str(),
        "S-1-5-32-544",
    ) {
        ace.mask == FILE_ALL_ACCESS
    } else {
        is_sid(ace.sid.as_str(), sid) && (ace.mask == GENERIC_READ_EXECUTE || ace.mask
            == READ_EXECUTE)
    };
    if !allowed || is_repeated(aces, i) {
        return Err(Error::Invalid("GUARD_TASK_UNSAFE_RIGHTS"));
    }
    Ok(())
}

/// Check the security of a task that was read as a text of this length: administrators and the system
/// may do everything, the bound user may read and run, and nobody else appears.
pub fn verify_task(length: usize, descriptor: &Descriptor, sid: &str) -> (r: Result<()>)
    ensures
        r == task_verdict(length as nat, *descriptor, sid@),
{
    if length > 65536 {
        return Err(Error::Invalid("GUARD_TASK_ACL_SIZE"));
    }
    if !owned_by_admin(descriptor) {
        return Err(Error::Invalid("GUARD_TASK_UNPROTECTED"));
    }
    match &descriptor.dacl {
        Some(aces) => {
            let mut i: usize = 0;
            while i < aces.len()
                invariant
                    i <= aces.len(),
                    task_aces(aces@, 0, sid@) == task_aces(aces@, i as int, sid@),
                    task_verdict(length as nat, *descriptor, sid@) == task_aces(aces@, 0, sid@),
                decreases aces.len() - i,
            {
                check_task_ace(aces.as_slice(), i, sid)?;
                i += 1;
            }
            Ok(())
        },
        None => Err(Error::Invalid("GUARD_TASK_UNPROTECTED")),
    }
}

/// The security of a login task: the user owns it and may do everything, as may administrators and the
/// system.
pub fn login_sddl(sid: &str) -> (r: String)
    ensures
        r@ == "O:"@ + sid@ + "D:P(A;;FA;;;SY)(A;;FA;;;BA)(A;;FA;;;"@ + sid@ + ")"@,
{
    let mut out = text::join3("O:", sid, "D:P(A;;FA;;;SY)(A;;FA;;;BA)(A;;FA;;;");
    out.append(sid);
    out.append(")");
    out
}

/// Why entry `i` of a login task's list is unsafe.
pub open spec fn login_ace(aces: Seq<Ace>, i: int, sid: Seq<char>) -> Result<()> {
    let trustee = aces[i].sid@;
    if aces[i].kind != 0 || aces[i].flags != 0 {
        invalid("GUARD_TASK_UNSAFE_ACE")
    } else if !(trustee == system() || trustee == admin() || trustee == sid) || aces[i].mask
        != FILE_ALL_ACCESS || repeated(aces, i) {
        invalid("GUARD_TASK_UNSAFE_RIGHTS")
    } else {
        Ok(())
    }
}

/// The first unsafe entry from place `i` on decides.
pub open spec fn login_aces(aces: Seq<Ace>, i: int, sid: Seq<char>) -> Result<()>
    decreases aces.len() - i,
{
    if i < 0 || i >= aces.len() {
        Ok(())
    } else if login_ace(aces, i, sid) is Err {
        login_ace(aces, i, sid)
    } else {
        login_aces(aces, i + 1, sid)
    }
}

/// Why a login task is not protected.
pub open spec fn login_verdict(length: nat, descriptor: Descriptor, sid: Seq<char>) -> Result<()> {
    if length > 65536 {
        invalid("GUARD_TASK_ACL_SIZE")
    } else if !((descriptor.owner matches Some(owner) && owner@ == sid) && (descriptor.dacl matches Some(
        aces,
    ) && aces@.len() == 3) && descriptor.protected) {
        invalid("GUARD_TASK_UNPROTECTED")
    } else {
        login_aces(descriptor.dacl->0@, 0, sid)
    }
}

fn check_login_ace(aces: &[Ace], i: usize, sid: &str) -> (r: Result<()>)
    requires
        i < aces@.len(),
    ensures
        r == login_ace(aces@, i as int, sid@),
{
    let ace = &aces[i];
    if ace.kind != 0 || ace.flags != 0 {
        return Err(Error::Invalid("GUARD_TASK_UNSAFE_ACE"));
    }
    let known = is_sid(ace.sid.as_str(), "S-1-5-18") || is_sid(ace.sid.as_str(), "S-1-5-32-544")
        || is_sid(ace.sid.as_str(), sid);
    if !known || ace.mask != FILE_ALL_ACCESS || is_repeated(aces, i) {
        return Err(Error::Invalid("GUARD_TASK_UNSAFE_RIGHTS"));
    }
    Ok(())
}

/// Check the security of a login task that was read as a text of this length.
pub fn verify_login(length: usize, descriptor: &Descriptor, sid: &str) -> (r: Result<()>)
    ensures
        r == login_verdict(length as nat, *descriptor, sid@),
{
    if length > 65536 {
        return Err(Error::Invalid("GUARD_TASK_ACL_SIZE"));
    }
    let owner = match &descriptor.owner {
        Some(owner) => is_sid(owner.as_str(), sid),
        None => false,
    };
    match &descriptor.dacl {
        Some(aces) => {
            if !owner || aces.len() != 3 || !descriptor.protected {
                return Err(Error::Invalid("GUARD_TASK_UNPROTECTED"));
            }
            let mut i: usize = 0;
            while i < aces.len()
                invariant
                    i <= aces.len(),
                    login_aces(aces@, 0, sid@) == login_aces(aces@, i as int, sid@),
                    login_verdict(length as nat, *descriptor, sid@) == login_aces(
                        aces@,
                        0,
                        sid@,
                    ),
                decreases aces.len() - i,
            {
                check_login_ace(aces.as_slice(), i, sid)?;
                i += 1;
            }
            Ok(())
        },
        None => Err(Error::Invalid("GUARD_TASK_UNPROTECTED")),
    }
}

/// No security is accepted both for an event task and for a login task of an ordinary user.
pub proof fn task_securities_differ(descriptor: Descriptor, length: nat, sid: Seq<char>)
    requires
        sid != admin(),
    ensures
        !(task_verdict(length, descriptor, sid) is Ok && login_verdict(length, descriptor, sid)
            is Ok),
{
}

/// Whether an account named in a task is the expected user: the same text, or an account that
/// resolves to the same identifier. `resolved` says whether the account resolves to a user, and to which
/// identifier.
pub open spec fn user_verdict(
    account: Seq<char>,
    expected: Seq<char>,
    resolved: Result<(bool, String)>,
) -> Result<bool> {
    if account == expected {
        Ok(true)
    } else {
        match resolved {
            Err(e) => Err(e),
            Ok((user, sid)) => Ok(user && sid@ == expected),
        }
    }
}

/// Whether an account named in a task is the expected user.
pub fn user_matches(account: &str, expected: &str, resolved: &Result<(bool, String)>) -> (r: Result<
    bool,
>)
    ensures
        r == user_verdict(account@, expected@, *resolved),
{
    if text::same(account, expected) {
        return Ok(true);
    }
    match resolved {
        Err(error) => Err(*error),
        Ok((user, sid)) => Ok(*user && text::same(sid.as_str(), expected)),
    }
}

/// Accounts that may own a system key.
pub open spec fn trusted(sid: Seq<char>) -> bool {
    sid == admin() || sid == system() || sid == installer()
}

fn is_trusted(sid: &str) -> (r: bool)
    ensures
        r == trusted(sid@),
{
    is_sid(sid, "S-1-5-32-544") || is_sid(sid, "S-1-5-18") || is_sid(
        sid,
        "S-1-5-80-956008885-3418522649-1831038044-1853292631-2271478464",
    )
}

/// Why an entry of a system key is refused: it lets an untrusted account change the key, or it is of
/// an unknown kind. The placeholder of the creator grants nothing by itself.
pub open spec fn system_ace(ace: Ace) -> Result<()> {
    if ace.kind == 0 {
        if ace.mask & KEY_WRITES != 0 && ace.flags & INHERIT_ONLY_ACE == 0 && !trusted(ace.sid@)
            && ace.sid@ != creator() {
            invalid("IFEO_WRITABLE_SYSTEM_KEY")
        } else {
            Ok(())
        }
    } else if ace.kind == 1 {
        Ok(())
    } else {
        invalid("IFEO_UNSUPPORTED_SECURITY")
    }
}

/// The first refused entry from place `i` on decides.
pub open spec fn system_aces(aces: Seq<Ace>, i: int) -> Result<()>
    decreases aces.len() - i,
{
    if i < 0 || i >= aces.len() {
        Ok(())
    } else if system_ace(aces[i]) is Err {
        system_ace(aces[i])
    } else {
        system_aces(aces, i + 1)
    }
}

/// Why a system key is not protected.
pub open spec fn system_verdict(descriptor: Descriptor) -> Result<()> {
    if !(descriptor.owner matches Some(owner) && trusted(owner@)) || descriptor.dacl is None {
        invalid("IFEO_WRITABLE_SYSTEM_KEY")
    } else {
        system_aces(descriptor.dacl->0@, 0)
    }
}

fn check_system_ace(ace: &Ace) -> (r: Result<()>)
    ensures
        r == system_ace(*ace),
{
    if ace.kind == 0 {
        if ace.mask & KEY_WRITES != 0 && ace.flags & INHERIT_ONLY_ACE == 0 && !is_trusted(
            ace.sid.as_str(),
        ) && !is_sid(ace.sid.as_str(), "S-1-3-0") {
            return Err(Error::Invalid("IFEO_WRITABLE_SYSTEM_KEY"));
        }
        Ok(())
    } else if ace.kind == 1 {
        Ok(())
    } else {
        Err(Error::Invalid("IFEO_UNSUPPORTED_SECURITY"))
    }
}

/// Check that only trusted accounts can change a system key.
pub fn system_key(descriptor: &Descriptor) -> (r: Result<()>)
    ensures
        r == system_verdict(*descriptor),
{
    let owner = match &descriptor.owner {
        Some(owner) => is_trusted(owner.as_str()),
        None => false,
    };
    if !owner {
        return Err(Error::Invalid("IFEO_WRITABLE_SYSTEM_KEY"));
    }
    match &descriptor.dacl {
        None => Err(Error::Invalid("IFEO_WRITABLE_SYSTEM_KEY")),
        Some(aces) => {
            let mut i: usize = 0;
            while i < aces.len()
                invariant
                    i <= aces.len(),
                    system_aces(aces@, 0) == system_aces(aces@, i as int),
                    system_verdict(*descriptor) == system_aces(aces@, 0),
                decreases aces.len() - i,
            {
                check_system_ace(&aces[i])?;
                i += 1;
            }
            Ok(())
        },
    }
}

/// The security of a registration's own keys, and that of the lock around their changes.
pub fn registration_sddl() -> (r: &'static str)
    ensures
        r@ == "O:BAG:BAD:P(A;CI;KA;;;SY)(A;CI;KA;;;BA)(A;CI;KR;;;BU)"@,
{
    "O:BAG:BAD:P(A;CI;KA;;;SY)(A;CI;KA;;;BA)(A;CI;KR;;;BU)"
}

pub fn mutex_sddl() -> (r: &'static str)
    ensures
        r@ == "O:BAG:BAD:P(A;;0x1f0001;;;SY)(A;;0x1f0001;;;BA)"@,
{
    "O:BAG:BAD:P(A;;0x1f0001;;;SY)(A;;0x1f0001;;;BA)"
}

/// Check that a key's security, as a text, is exactly the one that was given to it.
pub fn owned(actual: &str, expected: &str) -> (r: Result<()>)
    ensures
        r == (if actual@ == expected@ {
            Ok(())
        } else {
            invalid::<()>("IFEO_UNPROTECTED_RECORD")
        }),
{
    if !text::same(actual, expected) {
        return Err(Error::Invalid("IFEO_UNPROTECTED_RECORD"));
    }
    Ok(())
}

/// What waiting for the lock brought.
#[derive(Clone, Copy, Debug, PartialEq, Eq, Structural)]
pub enum Wait {
    Acquired,
    Abandoned,
    Timeout,
    Failed { code: u32 },
}

/// Whether the lock was taken: its security must be exactly the one that was given to it. A lock that
/// its last holder abandoned counts as taken.
pub fn lock_acquired(actual: &str, expected: &str, wait: Wait) -> (r: Result<()>)
    ensures
        lock_verdict(actual@, expected@, wait, r),
{
    if !text::same(actual, expected) {
        return Err(Error::Invalid("IFEO_UNPROTECTED_LOCK"));
    }
    match wait {
        Wait::Acquired | Wait::Abandoned => Ok(()),
        Wait::Timeout => Err(Error::Invalid("IFEO_INSTALL_BUSY")),
        Wait::Failed { code } => Err(
            Error::Windows { operation: "WaitIfeoMutationLock", code },
        ),
    }
}

/// Nobody but trusted accounts, and the owner, may change a system key that is accepted.
pub proof fn system_keys_are_closed(descriptor: Descriptor, i: int)
    requires
        system_verdict(descriptor) is Ok,
        0 <= i < descriptor.dacl->0@.len(),
        descriptor.dacl->0@[i].kind == 0,
        descriptor.dacl->0@[i].mask & KEY_WRITES != 0,
        descriptor.dacl->0@[i].flags & INHERIT_ONLY_ACE == 0,
    ensures
        descriptor.owner is Some && trusted(descriptor.owner->0@),
        trusted(descriptor.dacl->0@[i].sid@) || descriptor.dacl->0@[i].sid@ == "S-1-3-0"@,
{
    accepted_entries(descriptor.dacl->0@, 0, i);
}

proof fn accepted_entries(aces: Seq<Ace>, from: int, i: int)
    requires
        0 <= from <= i < aces.len(),
        system_aces(aces, from) is Ok,
    ensures
        system_ace(aces[i]) is Ok,
    decreases i - from,
{
    if from < i {
        accepted_entries(aces, from + 1, i);
    }
}

/// Whether the lock is held.
pub open spec fn lock_verdict(actual: Seq<char>, expected: Seq<char>, wait: Wait, r: Result<()>) -> bool {
    r == (if actual != expected {
        invalid("IFEO_UNPROTECTED_LOCK")
    } else {
        match wait {
            Wait::Acquired | Wait::Abandoned => Ok(()),
            Wait::Timeout => invalid("IFEO_INSTALL_BUSY"),
            Wait::Failed { code } => Err(
                Error::Windows { operation: "WaitIfeoMutationLock", code },
            ),
        }
    })
}

} // verus!
