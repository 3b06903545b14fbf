//! Installations, instances, their data, their processes and the claims on them.
use app_proxy_windows::error::Error;
use app_proxy_windows::ids::Uuid;
use app_proxy_windows::installation::{
    FileSeen, Package, ResolvedApplication, executable_path, final_path, resolve_with,
};
use app_proxy_windows::instance_data::{
    ClaimStep, DataOwner, DataStep, access_instance_data, check_control_path, check_mark, claim,
    local_app_data, needs_local_folder, prepare_package_control, verify_package_control,
};
use app_proxy_windows::instance_process::{
    Candidate, DirectorySeen, InstanceRelation, InstanceTarget, Member, ProcessRole,
    ProxyArguments, ProxyValue, Template, check_endpoint, chromium_switches, classify,
    classify_family, directory_drive, directory_identity, directory_paths, drive_accepted, proxy_arguments,
    proxy_value, same_path, valid_parent,
};
use app_proxy_windows::instance_resource::{
    DataKey, GuardStopDispatch, Handover, InstallationKey, InstanceResource, LaunchAttempt, LaunchBinding,
    LaunchDispatch, LaunchPhase, LockSeen, Marker, NoProcessCreated, ObservedGuardStop, Reconciled,
    ResourceClaim, ResourceOwner, ResourcePhase, ResourceRegistry, ResourceReservation,
    TicketOutcome, handover, resource_key,
};
use app_proxy_windows::model::{
    Application, ApplicationLocator, Endpoint, FileIdentity, Host, Instance, InstanceData, Manifest,
    NetworkBinding, ProcessIdentity, StorageLocation,
};
use sha2::Digest;

const SID: &str = "S-1-5-21-8-8-8-1001";
const EXE: &str = "C:\\Apps\\fixture.exe";
const FAMILY: &str = "OpenAI.Codex_2p2nqsd0c76g0";

fn file(index: u64) -> FileIdentity {
    FileIdentity {
        volume_serial: 2,
        file_index: index,
    }
}

fn process() -> ProcessIdentity {
    ProcessIdentity {
        pid: 10,
        creation_time: 1000,
        user_sid: SID.to_owned(),
        session_id: 1,
        image_path: EXE.to_owned(),
        image_file: file(1),
    }
}

fn seen(path: &str, index: u64) -> Result<FileSeen, Error> {
    Ok(FileSeen {
        regular: true,
        path: path.to_owned(),
        image: file(index),
    })
}

fn exe(path: &str) -> ApplicationLocator {
    ApplicationLocator::Exe {
        path: path.to_owned(),
    }
}

fn no_package() -> Result<Package, Error> {
    Err(Error::Invalid("APP_NOT_INSTALLED"))
}

fn application() -> ResolvedApplication {
    resolve_with(&exe(EXE), no_package(), seen(EXE, 1)).unwrap()
}

fn package() -> Package {
    Package {
        family_name: FAMILY.to_owned(),
        full_name: "fixture-version".to_owned(),
        app_id: "App".to_owned(),
        exe: "C:\\fixture\\Codex.exe".to_owned(),
        isolated_storage: true,
    }
}

fn locator() -> ApplicationLocator {
    ApplicationLocator::Msix {
        family_name: FAMILY.to_owned(),
        app_id: "App".to_owned(),
    }
}

#[test]
fn links_share_an_installation_and_copies_do_not() {
    let first = application();
    let alias = resolve_with(&exe("C:\\Apps\\alias.exe"), no_package(), seen(EXE, 1)).unwrap();
    let copy = resolve_with(
        &exe("C:\\Apps\\copy.exe"),
        no_package(),
        seen("C:\\Apps\\copy.exe", 2),
    )
    .unwrap();
    assert!(first.same_installation(&alias));
    assert!(alias.same_installation(&first));
    assert!(!first.same_installation(&copy));
    assert!(!copy.same_installation(&first));
    assert_eq!(first.executable(), EXE);
    assert_eq!(first.image(), file(1));
    assert!(first.package().is_none());
    for invalid in ["relative.exe", "C:\\run.cmd", "C:\\run.bat", "C:\\a\\..\\b.exe"] {
        assert!(executable_path(invalid).is_err(), "{invalid}");
        assert!(resolve_with(&exe(invalid), no_package(), seen(invalid, 1)).is_err());
    }
    let directory = Ok(FileSeen {
        regular: false,
        path: "C:\\directory.exe".to_owned(),
        image: file(3),
    });
    assert!(resolve_with(&exe("C:\\directory.exe"), no_package(), directory).is_err());
    assert!(
        resolve_with(
            &exe("C:\\missing.exe"),
            no_package(),
            Err(Error::Io { code: 2 })
        )
        .is_err()
    );
    assert!(final_path(10, 20, 0).is_ok());
    assert!(final_path(0, 20, 5).is_err());
    assert!(final_path(20, 20, 0).is_err());
}

#[test]
fn a_package_stays_the_same_installation_and_an_old_plan_is_refused() {
    let version = |full_name: &str| Package {
        full_name: full_name.to_owned(),
        ..package()
    };
    let old = resolve_with(&locator(), Ok(version("1")), seen("C:\\fixture\\Codex.exe", 1)).unwrap();
    let new = resolve_with(&locator(), Ok(version("2")), seen("C:\\fixture\\Codex.exe", 2)).unwrap();
    assert!(old.same_installation(&new));
    assert_ne!(old.image(), new.image());
    assert!(matches!(
        old.verify_with(&new),
        Err(Error::Invalid("PACKAGE_CHANGED"))
    ));
    assert!(old.verify_with(&old).is_ok());
    assert!(matches!(
        resolve_with(&locator(), no_package(), seen("C:\\fixture\\Codex.exe", 1)),
        Err(Error::Invalid("APP_NOT_INSTALLED"))
    ));
    let wrong = Package {
        family_name: "Other_family".to_owned(),
        ..package()
    };
    assert!(resolve_with(&locator(), Ok(wrong), seen("C:\\fixture\\Codex.exe", 1)).is_err());
}

fn words(values: &[&str]) -> Vec<Option<String>> {
    std::iter::once("fixture.exe")
        .chain(values.iter().copied())
        .map(|word| Some(word.to_owned()))
        .collect()
}

/// Paths that this test's machine can resolve.
fn resolved(path: &str) -> Result<FileIdentity, Error> {
    match path {
        "C:\\data\\clone" | "\\\\?\\C:\\data\\clone" => Ok(file(50)),
        "C:\\data\\clone." | "C:\\data\\other" => Ok(file(51)),
        _ => Err(Error::Invalid("INSTANCE_DIRECTORY_UNRESOLVED")),
    }
}

fn named(arguments: &[Option<String>]) -> Result<FileIdentity, Error> {
    match chromium_switches(arguments).and_then(|s| s.user_data) {
        Some(path) => resolved(&path),
        None => Err(Error::Invalid("INSTANCE_DIRECTORY_UNRESOLVED")),
    }
}

fn judge(
    arguments: Option<&[Option<String>]>,
    data: Option<&str>,
) -> (ProcessRole, InstanceRelation) {
    let named = named(arguments.unwrap_or(&[]));
    let arguments = arguments.map(|words| words.to_vec());
    classify(&arguments, data.map(resolved), named).unwrap()
}

#[test]
fn chromium_prefixes_duplicates_terminator_and_unavailable_arguments_are_distinct() {
    let check = |args: &[&str]| judge(Some(&words(args)), None);
    assert_eq!(check(&[]), (ProcessRole::Main, InstanceRelation::Target));
    assert_eq!(
        judge(None, None),
        (ProcessRole::Unknown, InstanceRelation::Unknown)
    );
    assert_eq!(
        judge(Some(&[]), None),
        (ProcessRole::Unknown, InstanceRelation::Unknown)
    );
    for prefix in ["--", "-", "/"] {
        assert_eq!(
            check(&[&format!("  {prefix}TyPe=renderer  ")]),
            (ProcessRole::Auxiliary, InstanceRelation::Unknown)
        );
        assert_eq!(
            check(&[&format!("{prefix}USER-DATA-DIR=")]),
            (ProcessRole::Unknown, InstanceRelation::Unknown)
        );
    }
    for args in [
        vec!["--user-data-dir", "C:\\somewhere"],
        vec!["--user-data-dir=C:\\a", "--user-data-dir=C:\\a"],
        vec!["--type=renderer", "--type=utility"],
        vec!["--single-argument", "--type=renderer"],
    ] {
        assert_eq!(
            check(&args),
            (ProcessRole::Unknown, InstanceRelation::Unknown)
        );
    }
    assert_eq!(
        check(&["--", "--type=renderer", "--user-data-dir=C:\\x"]),
        (ProcessRole::Main, InstanceRelation::Target)
    );
    assert_eq!(
        check(&["--type=unexpected"]),
        (ProcessRole::Unknown, InstanceRelation::Unknown)
    );
    assert_eq!(
        check(&["\u{0085}/TyPe=renderer\u{3000}"]),
        (ProcessRole::Auxiliary, InstanceRelation::Unknown)
    );
    assert_eq!(
        check(&["--type="]),
        (ProcessRole::Unknown, InstanceRelation::Unknown)
    );
    assert_eq!(
        check(&["--user-data-dir=C:\\unknown"]),
        (ProcessRole::Main, InstanceRelation::Unknown)
    );
}

#[test]
fn clones_are_told_apart_by_their_directory() {
    let check = |path: &str, kind: Option<&str>| {
        let mut args = words(&[&format!("--user-data-dir={path}")]);
        if let Some(kind) = kind {
            args.push(Some(format!("--type={kind}")));
        }
        judge(Some(&args), Some("C:\\data\\clone"))
    };
    assert_eq!(
        judge(Some(&words(&[])), Some("C:\\data\\clone")),
        (ProcessRole::Main, InstanceRelation::Other)
    );
    assert_eq!(
        check("C:\\data\\clone", None),
        (ProcessRole::Main, InstanceRelation::Target)
    );
    assert_eq!(
        check("\\\\?\\C:\\data\\clone", Some("gpu-process")),
        (ProcessRole::Auxiliary, InstanceRelation::Target)
    );
    for path in ["C:\\data\\clone.", "C:\\data\\other"] {
        assert_eq!(
            check(path, None),
            (ProcessRole::Main, InstanceRelation::Other)
        );
    }
    for path in ["relative", "C:\\data\\missing"] {
        assert_eq!(
            check(path, None),
            (ProcessRole::Main, InstanceRelation::Unknown)
        );
    }
    let data = Some(resolved("C:\\data\\clone"));
    assert!(matches!(
        InstanceTarget::new(application(), data, Template::Environment),
        Err(Error::Invalid("ISOLATION_UNSUPPORTED"))
    ));
    assert!(InstanceTarget::new(application(), data, Template::Codex).is_ok());
}

#[test]
fn directories_are_resolved_step_by_step() {
    for path in [
        r"\\unreachable.invalid\share\data",
        r"\\?\UNC\unreachable.invalid\share\data",
        r"\\.\C:\data",
        r"C:relative",
        r"\rooted",
        r"relative",
        r"C:\one\..\two",
    ] {
        assert!(matches!(
            directory_paths(path, 3),
            Err(Error::Invalid("INSTANCE_DIRECTORY_UNRESOLVED"))
        ));
    }
    assert_eq!(
        directory_paths(r"c:\one\two", 3).unwrap(),
        ["C:\\", "C:\\one", "C:\\one\\two"]
    );
    assert_eq!(directory_drive(r"c:\one\two").unwrap(), "C:\\");
    assert!(directory_drive(r"\\server\share\data").is_err());
    assert!(directory_paths(r"C:\one\two", 4).is_err());
    let directory = |attributes: u32, index: u64| DirectorySeen {
        opened: 0,
        inspected: 0,
        attributes,
        identity: file(index),
    };
    assert_eq!(
        directory_identity(&[directory(0x10, 1), directory(0x10, 2)]).unwrap(),
        file(2)
    );
    assert!(matches!(
        directory_identity(&[directory(0x410, 1), directory(0x10, 2)]),
        Err(Error::Invalid("INSTANCE_DIRECTORY_REPARSE"))
    ));
    assert!(directory_identity(&[directory(0x20, 1)]).is_err());
    assert!(directory_identity(&[]).is_err());
    assert!(drive_accepted(3).is_ok());
    assert!(drive_accepted(4).is_err());
    assert!(same_path(r"C:\A\b.exe", r"\\?\c:\a\B.EXE"));
    assert!(!same_path(r"C:\A\b.exe", r"C:\A\c.exe"));
}

fn member(pid: u32, created: u64, args: &[&str]) -> Member {
    let arguments = words(args);
    Member {
        identity: ProcessIdentity {
            pid,
            creation_time: created,
            ..process()
        },
        named: named(&arguments),
        address: address(&arguments),
        arguments: Some(arguments),
    }
}

#[test]
fn auxiliary_processes_belong_where_their_parent_belongs() {
    let proxied = ["--proxy-server=127.0.0.1:29001"];
    let family = [
        member(3, 300, &["--type=renderer"]),
        member(2, 200, &proxied),
    ];
    assert_eq!(
        classify_family(&family, None).unwrap(),
        (ProcessRole::Auxiliary, InstanceRelation::Target)
    );
    // A parent that is younger than its child is another process.
    let reused = [member(3, 300, &["--type=renderer"]), member(2, 400, &[])];
    assert_eq!(
        classify_family(&reused, None).unwrap(),
        (ProcessRole::Auxiliary, InstanceRelation::Unknown)
    );
    assert!(valid_parent(&family[0].identity, &family[1].identity));
    assert!(!valid_parent(&reused[0].identity, &reused[1].identity));
    let target = InstanceTarget::new(application(), None, Template::Claude).unwrap();
    assert!(target.needs_parent(&family[..1]));
    assert!(!target.needs_parent(&family));
    assert!(!target.needs_parent(&[]));
    let here = endpoint(29001);
    let told = target
        .observe(&family[1].identity, &family[1..], Some(&here))
        .unwrap();
    assert_eq!(told.proxy, ProxyArguments::Matching);
    let told = target
        .observe(&family[1].identity, &family[1..], None)
        .unwrap();
    assert_eq!(told.proxy, ProxyArguments::Unknown);
    let told = target
        .observe(&family[0].identity, &family, Some(&here))
        .unwrap();
    assert_eq!(told.role, ProcessRole::Auxiliary);
    assert_eq!(told.proxy, ProxyArguments::Unknown);
    // A long line of helpers is not followed to its end.
    let mut line: Vec<Member> = (0..9)
        .map(|i| member(100 - i, 1000 - u64::from(i), &["--type=utility"]))
        .collect();
    assert!(!target.needs_parent(&line));
    line.push(member(2, 200, &[]));
    assert_eq!(
        classify_family(&line, None).unwrap(),
        (ProcessRole::Auxiliary, InstanceRelation::Unknown)
    );
    assert_eq!(
        classify_family(&line[1..], None).unwrap(),
        (ProcessRole::Auxiliary, InstanceRelation::Target)
    );
}

fn endpoint(port: u16) -> Endpoint {
    Endpoint {
        host: Host::V4 { bits: 0x7f00_0001 },
        port,
    }
}

/// The endpoint that a proxy switch names, as far as this test's machine reads it.
fn address(arguments: &[Option<String>]) -> Option<Endpoint> {
    match proxy_value(chromium_switches(arguments).as_ref()) {
        ProxyValue::Address { address, .. } => match address.as_str() {
            "127.0.0.1:29001" => Some(endpoint(29001)),
            _ => None,
        },
        ProxyValue::Decided(_) => None,
    }
}

fn proxy(args: &[&str], expected: Endpoint) -> ProxyArguments {
    let arguments = words(args);
    let value = proxy_value(chromium_switches(&arguments).as_ref());
    let told = proxy_arguments(&value, address(&arguments), expected);
    let target = InstanceTarget::new(application(), None, Template::Claude).unwrap();
    let pinned = target
        .inspect_pinned(Ok(()), &member(10, 1000, args), &expected)
        .unwrap();
    assert_eq!(told, pinned.proxy);
    told
}

#[test]
fn proxy_switches_are_compared_with_the_endpoint() {
    let here = endpoint(29001);
    assert_eq!(
        proxy(&["--proxy-server=http://127.0.0.1:29001"], here),
        ProxyArguments::Matching
    );
    assert_eq!(
        proxy(&["--proxy-server=127.0.0.1:29001"], here),
        ProxyArguments::Matching
    );
    assert_eq!(
        proxy(&["--proxy-server=127.0.0.1:29001"], endpoint(29002)),
        ProxyArguments::Mismatched
    );
    assert_eq!(
        proxy(&["--proxy-server=socks5://127.0.0.1:29001"], here),
        ProxyArguments::Mismatched
    );
    assert_eq!(proxy(&[], here), ProxyArguments::Mismatched);
    assert_eq!(
        proxy(&["--proxy-server=direct://"], here),
        ProxyArguments::Mismatched
    );
    assert_eq!(
        proxy(
            &["--proxy-server=http://127.0.0.1:29001", "--no-proxy-server"],
            here
        ),
        ProxyArguments::Mismatched
    );
    assert_eq!(
        proxy(&["--proxy-server=http=127.0.0.1:29001"], here),
        ProxyArguments::Unknown
    );
    assert_eq!(
        proxy(&["--proxy-server=quic://127.0.0.1:29001"], here),
        ProxyArguments::Unknown
    );
    assert!(check_endpoint(&here).is_ok());
    assert!(matches!(
        check_endpoint(&endpoint(0)),
        Err(Error::Invalid("INVALID_PROXY_ENDPOINT"))
    ));
    assert!(
        check_endpoint(&Endpoint {
            host: Host::V4 { bits: 0x0808_0808 },
            port: 80
        })
        .is_err()
    );
}

fn candidate(expected: ProcessIdentity, args: &[&str]) -> Candidate {
    let line = Ok(vec![member(expected.pid, expected.creation_time, args)]);
    Candidate {
        expected,
        running: Ok(true),
        line,
    }
}

#[test]
fn processes_are_inspected_only_while_they_are_what_they_were() {
    let target = InstanceTarget::new(application(), None, Template::Claude).unwrap();
    let unread = || Err(Error::Invalid("PROCESS_QUERY_BUSY"));
    assert!(
        target
            .inspect_identity(&process(), &process(), Ok(true))
            .unwrap()
            .is_none()
    );
    assert!(matches!(
        target.inspect(&process(), &process(), Ok(false), &unread()),
        Err(Error::Invalid("PROCESS_EXITED_DURING_INSPECTION"))
    ));
    assert!(matches!(
        target.inspect(&process(), &process(), Ok(true), &unread()),
        Err(Error::Invalid("PROCESS_QUERY_BUSY"))
    ));
    let mut stranger = process();
    stranger.session_id = 9;
    assert!(matches!(
        target.inspect(&stranger, &process(), Ok(true), &unread()),
        Err(Error::IdentityMismatch)
    ));
    let mut other = process();
    other.image_file = file(7);
    other.image_path = "C:\\Elsewhere\\other.exe".to_owned();
    let told = target
        .inspect(&other, &process(), Ok(true), &unread())
        .unwrap();
    assert_eq!(told.relation, InstanceRelation::Other);
    assert_eq!(told.identity.image_path, other.image_path);
    let mut replaced = process();
    replaced.image_file = file(7);
    let told = target
        .inspect(&replaced, &process(), Ok(true), &unread())
        .unwrap();
    assert_eq!(told.relation, InstanceRelation::Unknown);
    let here = endpoint(29001);
    let line = candidate(process(), &["--proxy-server=127.0.0.1:29001"]).line;
    let told = target
        .inspect_proxy(&process(), &process(), Ok(true), &line, &here)
        .unwrap();
    assert_eq!(told.relation, InstanceRelation::Target);
    assert_eq!(told.proxy, ProxyArguments::Matching);
    let told = target
        .inspect(&process(), &process(), Ok(true), &line)
        .unwrap();
    assert_eq!(told.proxy, ProxyArguments::Unknown);
    assert!(matches!(
        target.inspect_proxy(&process(), &process(), Ok(true), &line, &endpoint(0)),
        Err(Error::Invalid("INVALID_PROXY_ENDPOINT"))
    ));
    let pinned = member(10, 1000, &["--proxy-server=127.0.0.1:29001"]);
    let told = target.inspect_pinned(Ok(()), &pinned, &here).unwrap();
    assert_eq!(told.role, ProcessRole::Main);
    assert_eq!(told.proxy, ProxyArguments::Matching);
    assert!(matches!(
        target.inspect_pinned(Ok(()), &pinned, &endpoint(0)),
        Err(Error::IdentityMismatch)
    ));
    assert!(matches!(
        target.inspect_pinned(Err(Error::Invalid("PROCESS_EXITED")), &pinned, &here),
        Err(Error::Invalid("PROCESS_EXITED"))
    ));
}

#[test]
fn candidates_decided_by_their_image_come_first() {
    let target = InstanceTarget::new(application(), None, Template::Claude).unwrap();
    let mut other = process();
    other.image_file = file(7);
    other.image_path = "C:\\Elsewhere\\other.exe".to_owned();
    let proxied = ["--proxy-server=127.0.0.1:29001"];
    let mut candidates = vec![
        candidate(process(), &proxied),
        candidate(other, &[]),
        candidate(process(), &["--type=renderer"]),
    ];
    let here = endpoint(29001);
    let told = target
        .inspect_candidates(&candidates, &process(), Some(&here))
        .unwrap();
    let relations: Vec<InstanceRelation> = told.iter().map(|t| t.relation).collect();
    assert_eq!(
        relations,
        [
            InstanceRelation::Other,
            InstanceRelation::Target,
            InstanceRelation::Unknown
        ]
    );
    assert_eq!(told[1].proxy, ProxyArguments::Matching);
    // A process that cannot be read leaves all of them untold, and one that ended is told of first.
    candidates[0].line = Err(Error::Invalid("PROCESS_QUERY_BUSY"));
    assert!(matches!(
        target.inspect_candidates(&candidates, &process(), None),
        Err(Error::Invalid("PROCESS_QUERY_BUSY"))
    ));
    candidates[1].running = Ok(false);
    assert!(matches!(
        target.inspect_candidates(&candidates, &process(), None),
        Err(Error::Invalid("PROCESS_EXITED_DURING_INSPECTION"))
    ));
    assert!(matches!(
        target.inspect_candidates(&[], &process(), Some(&endpoint(0))),
        Err(Error::Invalid("INVALID_PROXY_ENDPOINT"))
    ));
}

fn populated(isolated: Option<StorageLocation>) -> (Manifest, Uuid) {
    let store_id = Uuid { bits: 0xabcd };
    let application = Uuid { bits: 40 };
    let id = Uuid { bits: 0x1111 };
    (
        Manifest {
            store_id,
            owner_sid: SID.to_owned(),
            revision: 2,
            profiles: vec![],
            applications: vec![Application {
                id: application,
                locator: locator(),
            }],
            instances: vec![Instance {
                id,
                application_id: application,
                data: match isolated {
                    Some(location) => InstanceData::Isolated { location },
                    None => InstanceData::Original,
                },
                network: NetworkBinding::Direct,
                guarded: false,
            }],
            login_task: None,
            rest: vec![],
            encoded: vec![],
            fault: None,
        },
        id,
    )
}

fn in_package() -> Option<StorageLocation> {
    Some(StorageLocation::PackageLocalState {
        family_name: FAMILY.to_owned(),
        namespace: Uuid { bits: 0xabcd }.to_text(),
        relative_path: format!("instances\\{}", Uuid { bits: 0x1111 }.to_text()),
    })
}

fn in_store() -> Option<StorageLocation> {
    Some(StorageLocation::Store {
        relative_path: format!("instances\\{}", Uuid { bits: 0x1111 }.to_text()),
    })
}

#[test]
fn package_mismatch_and_store_virtualization_fail_before_creating_data() {
    // An answer that would show if the local folder were asked for.
    let asked = || -> Result<&str, Error> { Err(Error::Invalid("LOCAL_FOLDER_ASKED_FOR")) };
    let (manifest, id) = populated(in_package());
    let mut wrong = package();
    wrong.app_id = "different".to_owned();
    for package in [Some(&wrong), None] {
        assert!(matches!(
            needs_local_folder(&manifest, id, package),
            Err(Error::Invalid("INSTANCE_PACKAGE_MISMATCH"))
        ));
        assert!(matches!(
            access_instance_data(&manifest, "C:\\store", id, package, asked()),
            Err(Error::Invalid("INSTANCE_PACKAGE_MISMATCH"))
        ));
    }
    assert!(needs_local_folder(&manifest, id, Some(&package())).unwrap());
    assert!(matches!(
        access_instance_data(&manifest, "C:\\store", id, Some(&package()), asked()),
        Err(Error::Invalid("LOCAL_FOLDER_ASKED_FOR"))
    ));
    let (manifest, id) = populated(in_store());
    assert!(matches!(
        needs_local_folder(&manifest, id, Some(&package())),
        Err(Error::Invalid("PACKAGE_STORAGE_MODE_CHANGED"))
    ));
    assert!(matches!(
        access_instance_data(&manifest, "C:\\store", id, Some(&package()), asked()),
        Err(Error::Invalid("PACKAGE_STORAGE_MODE_CHANGED"))
    ));
}

fn path_of(step: &DataStep) -> &str {
    match step {
        DataStep::Existing { path } | DataStep::Owned { path } => path,
        DataStep::Claim { path, .. } => path,
        DataStep::Plain { path } => path,
    }
}

#[test]
fn data_of_a_package_lies_in_a_marked_directory_of_its_store() {
    let (manifest, id) = populated(in_package());
    let plan = access_instance_data(&manifest, "C:\\store", id, Some(&package()), Ok("C:\\local"))
        .unwrap()
        .unwrap();
    let state = format!("C:\\local\\Packages\\{FAMILY}\\LocalState");
    let base = format!("{state}\\AppProxy\\{}", Uuid { bits: 0xabcd }.to_text());
    let root = format!("{base}\\instances\\{}", id.to_text());
    assert_eq!(plan.paths.root, root);
    assert_eq!(plan.paths.user_data, format!("{root}\\user-data"));
    assert_eq!(plan.paths.app_home, format!("{root}\\app-home"));
    let paths: Vec<&str> = plan.steps.iter().map(path_of).collect();
    assert_eq!(
        paths,
        [
            state.as_str(),
            &format!("{state}\\AppProxy"),
            &base,
            &format!("{base}\\instances"),
            &root,
            &format!("{root}\\user-data"),
            &format!("{root}\\app-home"),
        ]
    );
    assert!(matches!(plan.steps[0], DataStep::Existing { .. }));
    let DataStep::Claim { owner, .. } = &plan.steps[4] else {
        panic!()
    };
    assert_eq!(owner.store_id, Some(manifest.store_id));
    assert_eq!(owner.instance_id, Some(id));
    assert_eq!(owner.package_family.as_deref(), Some(FAMILY));
    let (original, id) = populated(None);
    assert!(
        access_instance_data(&original, "C:\\store", id, Some(&package()), Ok("C:\\local"))
            .unwrap()
            .is_none()
    );
    assert_eq!(claim(true, false), ClaimStep::Create);
    assert_eq!(claim(true, true), ClaimStep::Verify);
    assert_eq!(claim(false, false), ClaimStep::Verify);
    assert!(check_mark(owner, owner).is_ok());
}

#[test]
fn control_directories_are_marked_and_recognised() {
    let store = Uuid { bits: 0xabcd };
    let (steps, place) =
        prepare_package_control(SID, store, "C:\\store", Ok("C:\\local"), &package()).unwrap();
    assert!(place.starts_with("C:\\local\\Packages\\"));
    let marks: Vec<&DataOwner> = steps
        .iter()
        .filter_map(|step| match step {
            DataStep::Claim { owner, .. } => Some(owner),
            _ => None,
        })
        .collect();
    assert!(marks.len() >= 2);
    assert!(verify_package_control(marks[0], marks[1], store, SID, FAMILY).is_ok());
    assert!(verify_package_control(marks[0], marks[1], Uuid::new_v4(), SID, FAMILY).is_err());
    assert!(verify_package_control(marks[0], marks[1], store, "S-1-5-18", FAMILY).is_err());
    let (_, other) = prepare_package_control(
        SID,
        Uuid { bits: 0xabce },
        "C:\\store",
        Ok("C:\\local"),
        &package(),
    )
    .unwrap();
    assert_ne!(other, place);
    let mut odd = package();
    odd.family_name = "a\\b".to_owned();
    assert!(prepare_package_control(SID, store, "C:\\store", Ok("C:\\local"), &odd).is_err());
    let base = format!(
        "C:\\local\\Packages\\{FAMILY}\\LocalState\\AppProxy\\{}",
        store.to_text()
    );
    assert_eq!(
        check_control_path(&base, store, FAMILY).unwrap(),
        format!("C:\\local\\Packages\\{FAMILY}\\LocalState\\AppProxy")
    );
    assert!(check_control_path(&base, Uuid::new_v4(), FAMILY).is_err());
    let units: Vec<u16> = "C:\\local".encode_utf16().collect();
    assert_eq!(local_app_data(0, &units).unwrap(), "C:\\local");
    assert!(local_app_data(-1, &units).is_err());
}

fn registry() -> ResourceRegistry {
    let marker = Marker {
        format: "app-proxy-rust-resources".to_owned(),
        schema_version: 1,
        owner_sid: SID.to_owned(),
    };
    let root = ResourceRegistry::root_below("C:\\Users\\one");
    assert_eq!(root, "C:\\Users\\one\\AppProxy\\resources");
    ResourceRegistry::open_at(root, SID.to_owned(), &marker).unwrap()
}

fn resource() -> InstanceResource {
    InstanceResource::resolve(&application(), &process(), b"encoded key")
}

fn acquired() -> ResourceReservation {
    registry()
        .acquire(resource(), &process(), LockSeen::Taken, None)
        .unwrap()
}

fn owner() -> ResourceOwner {
    ResourceOwner {
        store_id: Uuid { bits: 1 },
        attempt_id: Uuid { bits: 2 },
        epoch: Uuid { bits: 3 },
    }
}

fn binding() -> LaunchBinding {
    LaunchBinding {
        resource_key: resource().digest().to_vec(),
        image: file(1),
        executable: EXE.to_owned(),
        session_id: 1,
    }
}

fn dispatch() -> LaunchDispatch {
    LaunchDispatch {
        owner: owner(),
        dispatch_id: Uuid { bits: 4 },
        binding: binding(),
    }
}

fn invalid(result: Result<(), Error>) -> &'static str {
    match result {
        Err(Error::Invalid(code)) => code,
        other => panic!("{other:?}"),
    }
}

#[test]
fn keys_name_the_installation_and_its_data() {
    let key = resource_key(&application(), &process(), None);
    assert!(matches!(key.installation, InstallationKey::Exe { image } if image == file(1)));
    assert_eq!(key.data, DataKey::Original);
    assert_eq!((key.version, key.session_id), (1, 1));
    let packaged = resolve_with(&locator(), Ok(package()), seen("C:\\fixture\\Codex.exe", 5)).unwrap();
    let key = resource_key(&packaged, &process(), Some(file(9)));
    let InstallationKey::Msix {
        family_name,
        app_id,
    } = key.installation
    else {
        panic!()
    };
    assert_eq!(family_name, "openai.codex_2p2nqsd0c76g0");
    assert_eq!(app_id, "app");
    assert_eq!(
        key.data,
        DataKey::Isolated {
            directory: file(9)
        }
    );
    let expected: Vec<u8> = sha2::Sha256::digest(b"encoded key").to_vec();
    assert_eq!(resource().digest(), expected);
    let text: String = expected.iter().map(|b| format!("{b:02x}")).collect();
    assert_eq!(
        resource().names(),
        (format!("{text}.lock"), format!("{text}.json"))
    );
    assert_eq!(resource().installation_image, Some(file(1)));
}

#[test]
fn registries_belong_to_one_user() {
    let marker = |sid: &str| Marker {
        format: "app-proxy-rust-resources".to_owned(),
        schema_version: 1,
        owner_sid: sid.to_owned(),
    };
    assert!(matches!(
        ResourceRegistry::open_at("C:\\r".to_owned(), SID.to_owned(), &marker("S-1-5-18")),
        Err(Error::Invalid("RESOURCE_REGISTRY_OWNER_MISMATCH"))
    ));
    for root in ["relative", "C:\\a\\..\\r"] {
        assert!(matches!(
            ResourceRegistry::open_at(root.to_owned(), SID.to_owned(), &marker(SID)),
            Err(Error::Invalid("ABSOLUTE_RESOURCE_ROOT_REQUIRED"))
        ));
    }
    assert!(matches!(
        registry().acquire(resource(), &process(), LockSeen::Busy, None),
        Err(Error::Invalid("INSTANCE_RESOURCE_BUSY"))
    ));
    assert!(matches!(
        registry().acquire(resource(), &process(), LockSeen::Failed { code: 5 }, None),
        Err(Error::Io { code: 5 })
    ));
    let mut elsewhere = process();
    elsewhere.session_id = 2;
    assert!(matches!(
        registry().acquire(resource(), &elsewhere, LockSeen::Taken, None),
        Err(Error::IdentityMismatch)
    ));
    assert!(
        registry()
            .check_acquire(&resource(), &elsewhere, true)
            .is_ok()
    );
}

#[test]
fn a_launch_goes_from_reservation_to_release() {
    let mut held = acquired();
    assert!(held.claim().is_none());
    assert_eq!(
        invalid(held.release_before_spawn(owner())),
        "INSTANCE_RESOURCE_OWNER_MISMATCH"
    );
    held.reserve(owner()).unwrap();
    assert_eq!(
        invalid(held.reserve(owner())),
        "INSTANCE_RESOURCE_RECOVERY_REQUIRED"
    );
    assert_eq!(
        invalid(held.confirm(owner(), process())),
        "INVALID_RESOURCE_TRANSITION"
    );
    let mut other = dispatch();
    other.binding.session_id = 2;
    let refused = held.authorize_spawn(other).unwrap_err();
    assert!(matches!(
        refused.error,
        Error::Invalid("RESOURCE_LAUNCH_BINDING_MISMATCH")
    ));
    held.authorize_spawn(dispatch()).unwrap();
    assert_eq!(
        invalid(held.release_before_spawn(owner())),
        "RESOURCE_SPAWN_RESULT_UNKNOWN"
    );
    assert_eq!(
        invalid(held.release_not_created(
            owner(),
            NoProcessCreated {
                owner: owner(),
                dispatch_id: Uuid { bits: 5 }
            }
        )),
        "LAUNCH_NO_CREATION_EVIDENCE_MISMATCH"
    );
    let mut foreign = process();
    foreign.image_file = file(8);
    assert_eq!(
        invalid(held.confirm(owner(), foreign)),
        "INVALID_RESOURCE_PROCESS"
    );
    held.confirm(owner(), process()).unwrap();
    assert_eq!(
        invalid(held.release_exited(owner(), Ok(false))),
        "INSTANCE_RESOURCE_RECOVERY_REQUIRED"
    );
    held.claim.as_mut().unwrap().local_confirmed = true;
    assert_eq!(
        invalid(held.release_exited(owner(), Ok(true))),
        "INSTANCE_STILL_RUNNING"
    );
    held.release_exited(owner(), Ok(false)).unwrap();
    assert!(matches!(
        held.claim().unwrap().phase,
        ResourcePhase::Released
    ));
    held.reserve(owner()).unwrap();
    held.release_before_spawn(owner()).unwrap();
    held.reserve(owner()).unwrap();
    held.authorize_spawn(dispatch()).unwrap();
    held.release_not_created(
        owner(),
        NoProcessCreated {
            owner: owner(),
            dispatch_id: Uuid { bits: 4 },
        },
    )
    .unwrap();
    held.changed = true;
    assert_eq!(
        invalid(held.reserve(owner())),
        "INSTANCE_RESOURCE_CLAIM_CHANGED"
    );
}

fn stop(nonce: u128) -> GuardStopDispatch {
    GuardStopDispatch {
        owner: owner(),
        target: process(),
        nonce: Uuid { bits: nonce },
    }
}

fn stop_at(held: &mut ResourceReservation, at: u64) -> Result<(), Error> {
    held.reserve(owner()).unwrap();
    let result = held.authorize_guard_stop(stop(at as u128), Some(at));
    held.release_before_spawn(owner()).unwrap();
    result.map(|_| ())
}

#[test]
fn stops_keep_their_distance_and_are_few() {
    let mut held = acquired();
    held.reserve(owner()).unwrap();
    assert!(matches!(
        held.authorize_guard_stop(stop(9), None),
        Err(Error::Invalid("CLOCK_BEFORE_EPOCH"))
    ));
    held.release_before_spawn(owner()).unwrap();
    stop_at(&mut held, 1000).unwrap();
    assert_eq!(invalid(stop_at(&mut held, 1004)), "GUARD_COOLDOWN");
    assert_eq!(invalid(stop_at(&mut held, 999)), "GUARD_CLOCK_ROLLBACK");
    stop_at(&mut held, 1005).unwrap();
    stop_at(&mut held, 1010).unwrap();
    assert_eq!(invalid(stop_at(&mut held, 1015)), "GUARD_RATE_LIMIT");
    stop_at(&mut held, 1060).unwrap();
    assert_eq!(held.claim().unwrap().guard_stops, [1005, 1010, 1060]);
    held.reserve(owner()).unwrap();
    held.record_observed_guard_stop(
        owner(),
        &ObservedGuardStop {
            target: process(),
            nonce: Uuid { bits: 77 },
            started_at: 2000,
        },
    )
    .unwrap();
    assert_eq!(held.claim().unwrap().guard_stops, [2000]);
    assert!(matches!(
        held.authorize_guard_stop(stop(1), Some(3000)),
        Err(Error::Invalid("GUARD_RESOURCE_MISMATCH"))
    ));
}

fn attempt(phase: LaunchPhase) -> LaunchAttempt {
    LaunchAttempt {
        id: Uuid { bits: 2 },
        epoch: Uuid { bits: 3 },
        dispatch_id: Some(Uuid { bits: 4 }),
        binding: Some(binding()),
        phase,
    }
}

fn failed() -> LaunchPhase {
    LaunchPhase::Failed {
        code: "APPLICATION_NOT_CREATED".to_owned(),
    }
}

const STORE: Uuid = Uuid { bits: 1 };

fn requested() -> ResourceReservation {
    let mut held = acquired();
    held.reserve(owner()).unwrap();
    held.authorize_spawn(dispatch()).unwrap();
    held
}

fn step(confirm: bool, fail_not_created: bool, finish: bool) -> Reconciled {
    Reconciled {
        confirm,
        fail_not_created,
        finish,
    }
}

fn agreed(
    held: &mut ResourceReservation,
    store: Uuid,
    launch: Option<&LaunchAttempt>,
    ticket: TicketOutcome,
) -> Reconciled {
    let (told, result) = held.reconcile(store, launch, ticket);
    result.unwrap();
    told
}

#[test]
fn claims_and_launches_are_brought_to_agreement() {
    // A launch whose result is unknown stays as it is.
    let mut held = requested();
    let unknown = attempt(LaunchPhase::Indeterminate);
    assert_eq!(
        agreed(&mut held, STORE, Some(&unknown), TicketOutcome::Unknown),
        step(false, false, false)
    );
    assert!(matches!(
        held.claim().unwrap().phase,
        ResourcePhase::SpawnRequested
    ));
    // A ticket that created a process confirms it, once.
    let created = || TicketOutcome::Created { process: process() };
    assert_eq!(
        agreed(&mut held, STORE, Some(&unknown), created()),
        step(true, false, true)
    );
    assert!(held.claim().unwrap().local_confirmed);
    let confirmed = attempt(LaunchPhase::Confirmed { process: process() });
    assert_eq!(
        agreed(&mut held, STORE, Some(&confirmed), created()),
        step(false, false, true)
    );
    // A ticket that created nothing gives the claim up.
    let mut held = requested();
    assert_eq!(
        agreed(&mut held, STORE, Some(&unknown), TicketOutcome::NotCreated),
        step(false, true, true)
    );
    assert!(matches!(
        held.claim().unwrap().phase,
        ResourcePhase::Released
    ));
    // So does a launch that is known to have created nothing.
    let mut held = requested();
    assert_eq!(
        agreed(&mut held, STORE, Some(&attempt(failed())), TicketOutcome::NoTicket),
        step(false, false, true)
    );
    // A launch that never asked for a process releases its reservation.
    let mut held = acquired();
    held.reserve(owner()).unwrap();
    let mut early = attempt(LaunchPhase::Failed {
        code: "CANCELLED".to_owned(),
    });
    early.dispatch_id = None;
    assert_eq!(
        agreed(&mut held, STORE, Some(&early), TicketOutcome::NoTicket),
        step(false, false, true)
    );
    // Another store's claim, and a launch that is gone, are left alone.
    let mut held = requested();
    for (store, launch) in [(Uuid { bits: 9 }, Some(&unknown)), (STORE, None)] {
        assert_eq!(
            agreed(&mut held, store, launch, created()),
            step(false, false, false)
        );
    }
    let mut other = attempt(LaunchPhase::Indeterminate);
    other.dispatch_id = Some(Uuid { bits: 5 });
    assert!(matches!(
        held.reconcile(STORE, Some(&other), TicketOutcome::Unknown).1,
        Err(Error::Invalid("RESOURCE_LAUNCH_BINDING_MISMATCH"))
    ));
    // What the journal has to do first is due though the claim was changed by another.
    let mut held = requested();
    held.changed = true;
    let (told, result) = held.reconcile(STORE, Some(&unknown), TicketOutcome::NotCreated);
    assert_eq!(told, step(false, true, false));
    assert!(matches!(
        result,
        Err(Error::Invalid("INSTANCE_RESOURCE_CLAIM_CHANGED"))
    ));
    assert!(matches!(
        held.claim().unwrap().phase,
        ResourcePhase::SpawnRequested
    ));
}

#[test]
fn earlier_launches_are_looked_up() {
    let look = |launch: Option<&LaunchAttempt>, found| {
        registry().reconcile_launch(
            STORE,
            SID,
            launch,
            &process(),
            LockSeen::Taken,
            found,
            TicketOutcome::NoTicket,
        )
    };
    assert!(matches!(
        look(None, None),
        Err(Error::Invalid("LAUNCH_ATTEMPT_NOT_FOUND"))
    ));
    let mut unbound = attempt(LaunchPhase::Early);
    unbound.binding = None;
    let (held, told, _) = look(Some(&unbound), None).unwrap();
    assert!(held.is_none());
    assert_eq!(told, step(false, false, false));
    let claim = requested().claim.unwrap();
    let (held, told, _) = look(Some(&attempt(failed())), Some(claim.copy())).unwrap();
    assert_eq!(told, step(false, false, true));
    assert!(matches!(
        held.unwrap().claim.unwrap().phase,
        ResourcePhase::Released
    ));
    // The resource has another owner by now.
    let mut taken = claim.copy();
    taken.owner.attempt_id = Uuid { bits: 99 };
    let (_, told, _) = look(Some(&attempt(failed())), Some(taken.copy())).unwrap();
    assert_eq!(told, step(false, false, true));
    let (_, told, _) = look(Some(&attempt(LaunchPhase::Indeterminate)), Some(taken)).unwrap();
    assert_eq!(told, step(false, false, false));
}

#[test]
fn damaged_claims_are_refused() {
    let read = |change: fn(&mut app_proxy_windows::instance_resource::ResourceClaim)| {
        let mut claim = requested().claim.unwrap();
        change(&mut claim);
        registry()
            .acquire(resource(), &process(), LockSeen::Taken, Some(claim))
            .map(|_| ())
    };
    assert!(read(|_| {}).is_ok());
    for result in [
        read(|c| c.schema_version = 2),
        read(|c| c.guard_stops = vec![5, 5]),
        read(|c| c.guard_stops = vec![0]),
        read(|c| c.guard_stops = vec![1, 2, 3, 4]),
        read(|c| c.guard_dispatch_id = Some(Uuid { bits: 1 })),
        read(|c| c.resource_key[0] ^= 1),
        read(|c| c.owner.epoch = Uuid { bits: 0 }),
        read(|c| c.image.file_index += 1),
        read(|c| c.executable = "relative.exe".to_owned()),
        read(|c| c.dispatch_id = None),
        read(|c| c.local_confirmed = true),
    ] {
        assert_eq!(invalid(result), "INVALID_RESOURCE_CLAIM");
    }
}

#[test]
fn claims_and_the_journal_are_written_in_order() {
    let names = |before: Option<&ResourceClaim>, after: Option<&ResourceClaim>, told: Reconciled| {
        let mut names = Vec::new();
        for due in handover(before, after, told) {
            names.push(match due {
                Handover::Claim(claim) => match claim.phase {
                    ResourcePhase::Confirmed { .. } if claim.local_confirmed => "agreed",
                    ResourcePhase::Confirmed { .. } => "process",
                    ResourcePhase::Released => "released",
                    _ => "other",
                },
                Handover::Confirm => "confirm",
                Handover::FailNotCreated => "fail",
                Handover::Finish => "finish",
            });
        }
        names
    };
    let unknown = attempt(LaunchPhase::Indeterminate);
    let mut held = requested();
    let before = held.claim().unwrap().copy();
    let created = TicketOutcome::Created { process: process() };
    let told = agreed(&mut held, STORE, Some(&unknown), created);
    assert_eq!(
        names(Some(&before), held.claim(), told),
        ["process", "confirm", "agreed", "finish"]
    );
    let mut held = requested();
    let told = agreed(&mut held, STORE, Some(&unknown), TicketOutcome::NotCreated);
    assert_eq!(
        names(Some(&before), held.claim(), told),
        ["fail", "released", "finish"]
    );
    assert!(names(Some(&before), Some(&before), step(false, false, false)).is_empty());
}

#[test]
fn prefixes_name_no_executable() {
    for invalid in [
        "\\\\server\\tool.exe",
        "\\\\.\\x.exe",
        "\\\\?\\x.exe",
        "\\\\?\\C:\\",
    ] {
        assert!(executable_path(invalid).is_err(), "{invalid}");
    }
    for valid in [
        "\\\\server\\share\\tool.exe",
        "\\\\?\\C:\\tool.exe",
        "C:\\tool.exe\\.",
    ] {
        assert!(executable_path(valid).is_ok(), "{valid}");
    }
}
