//! Which installed program an application stands for.
use vstd::prelude::*;
use vstd::string::*;
use crate::error::{Error, Result, invalid};
use crate::ifeo_rules::names_exe;
use crate::model::{ApplicationLocator, FileIdentity};
use crate::path;
use crate::text;

verus! {

/// An installed package.
#[derive(Debug)]
pub struct Package {
    pub family_name: String,
    pub full_name: String,
    pub app_id: String,
    pub exe: String,
    pub isolated_storage: bool,
}

/// A file that was opened: whether it is a regular file, its final path, and which file it is.
#[derive(Debug)]
pub struct FileSeen {
    pub regular: bool,
    pub path: String,
    pub image: FileIdentity,
}

/// The program that an application stands for.
#[derive(Debug)]
pub struct ResolvedApplication {
    pub executable: String,
    pub image: FileIdentity,
    pub package: Option<Package>,
}

/// An absolute path to an executable, without a step upwards.
pub open spec fn executable(path: Seq<char>) -> bool {
    path::absolute(path) && !path::goes_up(path) && !path.contains('\0') && names_exe(path)
}

/// Check that a path is an absolute path to an executable.
pub fn executable_path(path: &str) -> (r: Result<()>)
    ensures
        r == (if executable(path@) {
            Ok(())
        } else {
            invalid::<()>("ABSOLUTE_EXE_REQUIRED")
        }),
{
    if is_executable(path) {
        Ok(())
    } else {
        Err(Error::Invalid("ABSOLUTE_EXE_REQUIRED"))
    }
}

fn is_executable(path: &str) -> (r: bool)
    ensures
        r == executable(path@),
{
    path::is_absolute(path) && !path::is_going_up(path) && !text::has_terminator(path)
        && crate::ifeo_rules::is_names_exe(path)
}

/// A package that is the one that was asked for.
pub open spec fn package_is(package: Package, family_name: Seq<char>, app_id: Seq<char>) -> bool {
    text::same_folded(package.family_name@, family_name) && text::same_folded(
        package.app_id@,
        app_id,
    ) && package.full_name@.len() > 0
}

/// The package and path that an application leads to.
pub open spec fn located(locator: ApplicationLocator, query: Result<Package>) -> Result<
    (Option<Package>, Seq<char>),
> {
    match locator {
        ApplicationLocator::Exe { path } => Ok((None, path@)),
        ApplicationLocator::Msix { family_name, app_id } => match query {
            Err(e) => Err(e),
            Ok(package) => if package_is(package, family_name@, app_id@) {
                Ok((Some(package), package.exe@))
            } else {
                invalid("PACKAGE_IDENTITY_MISMATCH")
            },
        },
    }
}

/// Why an application leads to no program.
pub open spec fn resolution(
    locator: ApplicationLocator,
    query: Result<Package>,
    file: Result<FileSeen>,
) -> Result<Option<Package>> {
    match located(locator, query) {
        Err(e) => Err(e),
        Ok((package, path)) => if !executable(path) {
            invalid("ABSOLUTE_EXE_REQUIRED")
        } else {
            match file {
                Err(e) => Err(e),
                Ok(found) => if !found.regular {
                    invalid("EXECUTABLE_FILE_REQUIRED")
                } else if !executable(found.path@) {
                    invalid("ABSOLUTE_EXE_REQUIRED")
                } else {
                    Ok(package)
                },
            }
        },
    }
}

/// The program that an application stands for. `query` is what asking for its package came to, which only a
/// packaged application needs, and `file` what opening its executable came to.
pub fn resolve_with(locator: &ApplicationLocator, query: Result<Package>, file: Result<FileSeen>) -> (r:
    Result<ResolvedApplication>)
    ensures
        match resolution(*locator, query, file) {
            Err(e) => r == Err::<ResolvedApplication, Error>(e),
            Ok(package) => r matches Ok(found) && found.package == package && found.image
                == file->Ok_0.image && found.executable == file->Ok_0.path,
        },
{
    let package = match locator {
        ApplicationLocator::Exe { path } => {
            executable_path(path.as_str())?;
            None
        },
        ApplicationLocator::Msix { family_name, app_id } => {
            let package = query?;
            if !text::eq_ignore_ascii_case(package.family_name.as_str(), family_name.as_str())
                || !text::eq_ignore_ascii_case(package.app_id.as_str(), app_id.as_str())
                || package.full_name.as_str().is_empty() {
                return Err(Error::Invalid("PACKAGE_IDENTITY_MISMATCH"));
            }
            executable_path(package.exe.as_str())?;
            Some(package)
        },
    };
    let file = file?;
    if !file.regular {
        return Err(Error::Invalid("EXECUTABLE_FILE_REQUIRED"));
    }
    executable_path(file.path.as_str())?;
    Ok(ResolvedApplication { executable: file.path, image: file.image, package })
}

/// Two programs of one installation: the same package and application, whatever their versions, or the
/// same file.
pub open spec fn one_installation(a: ResolvedApplication, b: ResolvedApplication) -> bool {
    match (a.package, b.package) {
        (Some(p), Some(q)) => text::same_folded(p.family_name@, q.family_name@)
            && text::same_folded(p.app_id@, q.app_id@),
        _ => a.image == b.image,
    }
}

/// The full name of a program's package.
pub open spec fn full_name(application: ResolvedApplication) -> Option<Seq<char>> {
    match application.package {
        Some(package) => Some(package.full_name@),
        None => None,
    }
}

/// Why a program that was resolved earlier is no longer what its application leads to.
pub open spec fn unchanged(earlier: ResolvedApplication, current: ResolvedApplication) -> Result<()> {
    if full_name(earlier) != full_name(current) {
        invalid("PACKAGE_CHANGED")
    } else if earlier.image != current.image || earlier.executable@ != current.executable@ {
        invalid("INSTALLATION_CHANGED")
    } else {
        Ok(())
    }
}

impl ResolvedApplication {
    /// The path of the executable.
    pub fn executable(&self) -> (r: &str)
        ensures
            r@ == self.executable@,
    {
        self.executable.as_str()
    }

    /// Which file the executable is.
    pub fn image(&self) -> (r: FileIdentity)
        ensures
            r == self.image,
    {
        self.image
    }

    /// The package that the program belongs to.
    pub fn package(&self) -> (r: Option<&Package>)
        ensures
            match (r, self.package) {
                (Some(found), Some(package)) => *found == package,
                (None, None) => true,
                _ => false,
            },
    {
        match &self.package {
            Some(package) => Some(package),
            None => None,
        }
    }

    /// Whether two programs are of one installation. Two names of one file are, two copies are not.
    pub fn same_installation(&self, other: &ResolvedApplication) -> (r: bool)
        ensures
            r == one_installation(*self, *other),
    {
        match (&self.package, &other.package) {
            (Some(a), Some(b)) => text::eq_ignore_ascii_case(
                a.family_name.as_str(),
                b.family_name.as_str(),
            ) && text::eq_ignore_ascii_case(a.app_id.as_str(), b.app_id.as_str()),
            _ => self.image == other.image,
        }
    }

    /// Check a program that was resolved earlier against what its application leads to now.
    pub fn verify_with(&self, current: &ResolvedApplication) -> (r: Result<()>)
        ensures
            r == unchanged(*self, *current),
    {
        let same_package = match (&self.package, &current.package) {
            (Some(a), Some(b)) => text::same(a.full_name.as_str(), b.full_name.as_str()),
            (None, None) => true,
            _ => false,
        };
        if !same_package {
            return Err(Error::Invalid("PACKAGE_CHANGED"));
        }
        if self.image != current.image || !text::same(
            self.executable.as_str(),
            current.executable.as_str(),
        ) {
            return Err(Error::Invalid("INSTALLATION_CHANGED"));
        }
        Ok(())
    }
}

/// An installation is the same as itself, and being the same does not depend on the order.
pub proof fn same_installation_is_symmetric(a: ResolvedApplication, b: ResolvedApplication)
    ensures
        one_installation(a, a),
        one_installation(a, b) == one_installation(b, a),
{
}

/// Check the length of the final path of an opened file.
pub fn final_path(length: u32, capacity: u32, code: u32) -> (r: Result<()>)
    ensures
        r == (if length == 0 {
            Err(
                Error::Windows { operation: "GetFinalPathNameByHandleW(installation)", code },
            )
        } else if length >= capacity {
            invalid("INSTALLATION_PATH_TOO_LONG")
        } else {
            Ok(())
        }),
{
    if length == 0 {
        return Err(
            Error::Windows { operation: "GetFinalPathNameByHandleW(installation)", code },
        );
    }
    if length >= capacity {
        return Err(Error::Invalid("INSTALLATION_PATH_TOO_LONG"));
    }
    Ok(())
}

} // verus!
