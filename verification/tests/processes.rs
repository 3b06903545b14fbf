//! The core's process: starting it, finding it again, its listeners; timing records; texts, paths and identifiers.
use std::sync::Arc;

use app_proxy_windows::core_process::{
    Listener, Probe, StopStep, TableStep, attach, confirm_spawned, listeners, listeners_verified,
    recover, stop, stopped, table_size, table_step,
};
use app_proxy_windows::core_requests::{CoreAction, CoreOutcome, CoreRequestPhase};
use app_proxy_windows::core_start::{
    COMMAND_LIMIT, Job, build_command, core_command, core_words, job_security, spawn_words, verify_process,
};
use app_proxy_windows::core_state::{Compiled, CoreState, validate_state};
use app_proxy_windows::diagnostic_timing::{
    Budget, Clocks, FILE_LIMIT, Span, dropped, mark, now, timestamp,
};
use app_proxy_windows::digest::{digest_text, hex_text};
use app_proxy_windows::error::Error;
use app_proxy_windows::ids::Uuid;
use app_proxy_windows::login_journal::LoginJournal;
use app_proxy_windows::model::{
    Endpoint, FileIdentity, Host, Manifest, ProcessIdentity, Profile, ProxySource, sorted,
};
use app_proxy_windows::path;
use app_proxy_windows::store::Store;
use app_proxy_windows::text;

const NOW: u64 = 1_800_000_000;
const SID: &str = "S-1-5-21-4-4-4-1001";
const EXE: &str = "C:\\core\\sing-box.exe";

fn file(index: u64) -> FileIdentity {
    FileIdentity {
        volume_serial: 4,
        file_index: index,
    }
}

fn creator() -> ProcessIdentity {
    ProcessIdentity {
        pid: 100,
        creation_time: 5000,
        user_sid: SID.to_owned(),
        session_id: 1,
        image_path: "C:\\app\\app-proxy.exe".to_owned(),
        image_file: file(1),
    }
}

fn child() -> ProcessIdentity {
    ProcessIdentity {
        pid: 200,
        creation_time: 6000,
        user_sid: SID.to_owned(),
        session_id: 1,
        image_path: EXE.to_owned(),
        image_file: file(2),
    }
}

fn loopback(port: u16) -> Endpoint {
    Endpoint {
        host: Host::V4 { bits: 0x7f00_0001 },
        port,
    }
}

fn config(profile: Uuid) -> Vec<u8> {
    format!(
        "{{\"inbounds\":[{{\"tag\":\"in-{}\",\"type\":\"http\",\"listen\":\"127.0.0.1\",\"listen_port\":29001}}]}}",
        profile.to_text()
    )
    .into_bytes()
}

fn configured() -> (Store, Uuid, Uuid) {
    let store_id = Uuid::new_v4();
    let profile = Uuid::new_v4();
    let mut store = Store {
        manifest: Arc::new(Manifest {
            store_id,
            owner_sid: SID.to_owned(),
            revision: 1,
            profiles: vec![Profile {
                id: profile,
                name: "fixture".to_owned(),
                revision: 1,
                endpoint: loopback(29001),
                selected_node_id: Uuid::new_v4(),
                source: ProxySource::Manual {
                    nodes: vec![vec![1]],
                },
                encoded: vec![1],
            }],
            applications: vec![],
            instances: vec![],
            login_task: None,
            rest: vec![],
            encoded: vec![7],
            fault: None,
        }),
        core: None,
        generations: vec![],
        update: None,
        core_requests: vec![],
        config_requests: vec![],
        start: None,
        login: LoginJournal {
            version: 1,
            store_id,
            entries: vec![],
        },
        user_sid: SID.to_owned(),
        secrets: vec![],
        other_ids: vec![],
        config_limit: 1 << 16,
    };
    let generation = store
        .prepare_core_generation(&[profile], config(profile), "C:\\store")
        .unwrap();
    (store, generation, profile)
}

fn job(total: u32, process: ProcessIdentity) -> Job {
    Job::Found {
        active: total,
        total,
        assigned: total,
        listed: total,
        first: 200,
        in_job: true,
        process,
    }
}

fn encoded(action: &CoreAction) -> Vec<u8> {
    format!("{action:?}").into_bytes()
}

#[test]
fn a_witness_finds_the_live_child_again() {
    let (mut store, generation, profile) = configured();
    let request = Uuid::new_v4();
    let action = || CoreAction::Start {
        profiles: vec![profile],
        required: profile,
    };
    store
        .begin_core_request(request, Uuid::new_v4(), &encoded(&action()), NOW)
        .unwrap();
    let nonce = store
        .prepare(generation, creator(), EXE.to_owned(), file(2))
        .unwrap();
    store
        .bind_request(request, action(), encoded(&action()))
        .unwrap();
    let witness = store.start.as_ref().unwrap();
    assert_eq!(
        witness.name(),
        format!(
            "Local\\AppProxyRust.Core.{}.{}",
            store.manifest.store_id.to_text(),
            nonce.to_text()
        )
    );
    let starting = CoreState::Starting { generation };
    let compiled = Compiled::Config(config(profile));
    store
        .transition_core_state(&CoreState::Stopped, starting.copy(), &compiled, NOW)
        .unwrap();
    assert!(matches!(
        store.prepare(generation, creator(), EXE.to_owned(), file(2)),
        Err(Error::Invalid("CORE_START_RESULT_UNKNOWN"))
    ));
    assert!(matches!(
        store.transition_core_state(&starting, starting.copy(), &compiled, NOW),
        Err(Error::Invalid("INVALID_CORE_STATE_TRANSITION"))
    ));
    let recovery = Uuid::new_v4();
    let unrelated = Uuid::new_v4();
    let recover_this = CoreAction::RecoverStart { generation };
    let recover_other = CoreAction::RecoverStart {
        generation: Uuid::new_v4(),
    };
    store
        .begin_core_request(recovery, Uuid::new_v4(), &encoded(&recover_this), NOW)
        .unwrap();
    store
        .begin_core_request(unrelated, Uuid::new_v4(), &encoded(&recover_other), NOW)
        .unwrap();
    let found = store
        .inspect_core_start(generation, &creator(), false, job(1, child()))
        .unwrap()
        .unwrap();
    assert!(found.same(&child()));
    store
        .transition_core_state(
            &starting,
            CoreState::Running {
                generation,
                process: child(),
            },
            &compiled,
            NOW,
        )
        .unwrap();
    store
        .resolve_core_start_request(generation, Some(child()), NOW)
        .unwrap();
    assert!(
        matches!(store.core_request_status(request).unwrap(), Some(CoreRequestPhase::Complete { outcome: CoreOutcome::Reconciled { process: Some(p), .. }, .. }) if p.same(&child()))
    );
    let outcome = CoreOutcome::Reconciled {
        generation,
        process: Some(child()),
    };
    store
        .resolve_core_start_recovery_receipts(
            &encoded(&recover_this),
            &outcome,
            Uuid::new_v4(),
            NOW,
        )
        .unwrap();
    assert!(matches!(
        store.core_request_status(recovery).unwrap(),
        Some(CoreRequestPhase::Complete {
            outcome: CoreOutcome::Reconciled { .. },
            ..
        })
    ));
    assert!(matches!(
        store.core_request_status(unrelated).unwrap(),
        Some(CoreRequestPhase::Pending { .. })
    ));
    assert!(
        store
            .inspect_core_start(generation, &creator(), false, Job::Missing)
            .unwrap()
            .is_none()
    );
}

#[test]
fn every_start_has_a_job_of_its_own() {
    let (mut store, generation, _) = configured();
    store
        .prepare(generation, creator(), EXE.to_owned(), file(2))
        .unwrap();
    let first = store.start.as_ref().unwrap().name();
    store
        .prepare(generation, creator(), EXE.to_owned(), file(2))
        .unwrap();
    assert_ne!(store.start.as_ref().unwrap().name(), first);
}

#[test]
fn no_start_and_changed_witnesses_adopt_nothing() {
    let (mut store, generation, _) = configured();
    assert!(matches!(
        store.inspect_core_start(generation, &creator(), false, Job::Missing),
        Err(Error::Invalid("CORE_START_WITNESS_MISSING"))
    ));
    store
        .prepare(generation, creator(), EXE.to_owned(), file(2))
        .unwrap();
    assert!(
        store
            .inspect_core_start(generation, &creator(), false, Job::Missing)
            .unwrap()
            .is_none()
    );
    assert!(matches!(
        store.inspect_core_start(generation, &creator(), false, Job::Failed { code: 5 }),
        Err(Error::Windows {
            operation: "OpenCoreJob",
            code: 5
        })
    ));
    assert!(matches!(
        store.inspect_core_start(generation, &creator(), false, job(2, child())),
        Err(Error::Invalid("CORE_JOB_MEMBERS_UNCONFIRMED"))
    ));
    let mut caller = creator();
    caller.pid = 101;
    assert!(matches!(
        store.inspect_core_start(generation, &caller, true, Job::Missing),
        Err(Error::Invalid("CORE_START_CREATOR_STILL_RUNNING"))
    ));
    store.start.as_mut().unwrap().image.file_index ^= 1;
    assert!(matches!(
        store.inspect_core_start(generation, &creator(), false, job(1, child())),
        Err(Error::Invalid("CORE_JOB_PROCESS_UNCONFIRMED"))
    ));
    assert!(verify_process(store.start.as_ref().unwrap(), &child()).is_err());
    store.start.as_mut().unwrap().nonce = Uuid { bits: 0 };
    assert!(matches!(
        store.inspect_core_start(generation, &creator(), false, Job::Missing),
        Err(Error::Invalid("CORE_START_WITNESS_MISMATCH"))
    ));
}

#[test]
fn command_lines_are_joined_and_bounded() {
    let units = |word: &str| -> Vec<u16> { word.encode_utf16().collect() };
    assert_eq!(
        build_command(&[units("one"), units("two")]).unwrap(),
        units("one two\0")
    );
    assert!(matches!(
        build_command(&[vec![b'a' as u16; COMMAND_LIMIT]]),
        Err(Error::Invalid("CORE_COMMAND_TOO_LONG"))
    ));
    assert!(build_command(&[vec![b'a' as u16; COMMAND_LIMIT - 1]]).is_ok());
    assert_eq!(
        core_words(EXE, "C:\\g\\config.json"),
        [EXE, "run", "-c", "C:\\g\\config.json"]
    );
    assert_eq!(job_security(SID), format!("D:P(A;;GA;;;SY)(A;;GA;;;{SID})"));
    let (mut store, generation, _) = configured();
    store
        .prepare(generation, creator(), EXE.to_owned(), file(2))
        .unwrap();
    let witness = store.start.as_ref().unwrap();
    assert!(spawn_words(witness, generation, EXE, file(2), "C:\\g\\config.json").is_ok());
    assert!(matches!(
        spawn_words(witness, Uuid::new_v4(), EXE, file(2), "C:\\g\\config.json"),
        Err(Error::Invalid("CORE_START_BINDING_MISMATCH"))
    ));
    assert!(matches!(
        spawn_words(witness, generation, EXE, file(3), "C:\\g\\config.json"),
        Err(Error::Invalid("CORE_START_IMAGE_CHANGED"))
    ));
    assert_eq!(
        core_command(witness, "C:\\g h\\config.json").unwrap(),
        units(&format!("\"{EXE}\" \"run\" \"-c\" \"C:\\g h\\config.json\"\0"))
    );
    assert!(matches!(
        core_command(witness, &"x".repeat(COMMAND_LIMIT)),
        Err(Error::Invalid("CORE_COMMAND_TOO_LONG"))
    ));
}

#[test]
fn processes_are_attached_by_their_whole_identity() {
    assert!(attach(&child(), &creator(), &child()).unwrap().same(&child()));
    let mut forged = child();
    forged.creation_time += 1;
    assert!(matches!(
        attach(&forged, &creator(), &child()),
        Err(Error::IdentityMismatch)
    ));
    assert!(confirm_spawned(&creator(), file(2), Some(child())).is_ok());
    assert!(matches!(
        confirm_spawned(&creator(), file(3), Some(child())),
        Err(Error::Invalid("CORE_PROCESS_IDENTITY_UNCONFIRMED"))
    ));
    assert!(confirm_spawned(&creator(), file(2), None).is_err());
    let probe = |probe: Probe| recover(&child(), &creator(), &probe);
    assert!(probe(Probe::Running { actual: child() }).unwrap());
    assert!(!probe(Probe::Ended).unwrap());
    assert!(
        !probe(Probe::OpenFailed {
            operation: "RecoverCore",
            code: 87
        })
        .unwrap()
    );
    assert!(
        probe(Probe::OpenFailed {
            operation: "RecoverCore",
            code: 5
        })
        .is_err()
    );
    assert!(probe(Probe::WaitFailed { code: 6 }).is_err());
    let mut later = child();
    later.creation_time += 1;
    assert!(!probe(Probe::Running { actual: later }).unwrap());
    let mut other = child();
    other.image_file = file(9);
    assert!(matches!(
        probe(Probe::Running { actual: other }),
        Err(Error::IdentityMismatch)
    ));
    assert!(matches!(
        stop(true, &child(), &child()).unwrap(),
        StopStep::Terminate
    ));
    assert!(matches!(
        stop(false, &child(), &child()).unwrap(),
        StopStep::Done
    ));
    assert!(stopped(true, 0, true).is_ok());
    assert!(matches!(
        stopped(true, 0, false),
        Err(Error::Invalid("CORE_STOP_UNCONFIRMED"))
    ));
    assert!(stopped(false, 5, false).is_err());
}

fn table4(rows: &[([u8; 4], u16, u32)]) -> Vec<u8> {
    let mut out = (rows.len() as u32).to_le_bytes().to_vec();
    for (address, port, pid) in rows {
        out.extend(2_u32.to_le_bytes());
        out.extend(address);
        out.extend(port.to_be_bytes());
        out.extend([0; 10]);
        out.extend(pid.to_le_bytes());
    }
    out
}

#[test]
fn listener_tables_are_read_strictly() {
    let bytes = table4(&[([127, 0, 0, 1], 29001, 200), ([0, 0, 0, 0], 80, 4)]);
    let rows = listeners(&bytes, false).unwrap();
    assert_eq!(rows.len(), 2);
    assert_eq!(rows[0].host, Host::V4 { bits: 0x7f00_0001 });
    assert_eq!((rows[0].port, rows[0].pid), (29001, 200));
    assert!(matches!(
        listeners(&bytes[..bytes.len() - 1], false),
        Err(Error::Invalid("CORE_TCP_TABLE_SIZE"))
    ));
    let mut six = 1_u32.to_le_bytes().to_vec();
    six.extend([0; 15]);
    six.push(1);
    six.extend([0; 4]);
    six.extend(29002_u16.to_be_bytes());
    six.extend([0; 26]);
    six.extend(2_u32.to_le_bytes());
    six.extend(200_u32.to_le_bytes());
    let rows = listeners(&six, true).unwrap();
    assert_eq!(rows[0].host, Host::V6 { bits: 1 });
    assert_eq!((rows[0].port, rows[0].pid), (29002, 200));
    assert_eq!(
        table_size(122, 100).unwrap(),
        TableStep::Read { capacity: 100 }
    );
    assert!(table_size(5, 100).is_err());
    assert_eq!(
        table_step(1, 100, 122, 200).unwrap(),
        TableStep::Read { capacity: 200 }
    );
    assert!(matches!(
        table_step(4, 100, 122, 200),
        Err(Error::Invalid("CORE_TCP_TABLE_CHANGED"))
    ));
    assert_eq!(
        table_step(1, 100, 0, 80).unwrap(),
        TableStep::Parse { length: 80 }
    );
}

#[test]
fn every_endpoint_is_served_by_the_core_alone() {
    let row = |port: u16, pid: u32| Listener {
        host: Host::V4 { bits: 0x7f00_0001 },
        port,
        pid,
    };
    let wanted = [loopback(29001), loopback(29002)];
    let check = |rows: &[Listener]| {
        listeners_verified(true, true, &wanted, rows, 200, true).unwrap()
    };
    assert!(check(&[row(29001, 200), row(29002, 200)]));
    assert!(!check(&[row(29001, 200)]));
    assert!(!check(&[row(29001, 200), row(29002, 201)]));
    assert!(!check(&[row(29001, 200), row(29002, 200), row(29002, 201)]));
    assert!(
        !listeners_verified(
            false,
            true,
            &wanted,
            &[row(29001, 200), row(29002, 200)],
            200,
            true
        )
        .unwrap()
    );
}

#[test]
fn core_states_are_checked() {
    let generation = Uuid::new_v4();
    assert!(validate_state(&CoreState::Stopped, SID).is_ok());
    assert!(validate_state(&CoreState::Starting { generation }, SID).is_ok());
    assert!(matches!(
        validate_state(
            &CoreState::Starting {
                generation: Uuid { bits: 0 }
            },
            SID
        ),
        Err(Error::Invalid("INVALID_CORE_GENERATION"))
    ));
    let mut stranger = child();
    stranger.user_sid = "S-1-5-18".to_owned();
    assert!(matches!(
        validate_state(
            &CoreState::Running {
                generation,
                process: stranger
            },
            SID
        ),
        Err(Error::Invalid("INVALID_CORE_PROCESS_IDENTITY"))
    ));
    let (mut store, generation, profile) = configured();
    let compiled = Compiled::Config(config(profile));
    assert!(matches!(
        store.transition_core_state(
            &CoreState::Stopped,
            CoreState::Down { generation },
            &compiled,
            NOW
        ),
        Err(Error::Invalid("INVALID_CORE_STATE_TRANSITION"))
    ));
    assert!(
        store
            .transition_core_state(
                &CoreState::Starting { generation },
                CoreState::Stopped,
                &compiled,
                NOW
            )
            .is_err()
    );
}

#[test]
fn times_are_recorded_within_a_budget() {
    assert_eq!(now(Some(5)).unwrap(), 5);
    assert!(matches!(
        now(None),
        Err(Error::Invalid("SYSTEM_CLOCK_INVALID"))
    ));
    assert_eq!(timestamp(None), 0);
    assert_eq!(timestamp(Some(0)), 116_444_736_000_000_000);
    assert_eq!(timestamp(Some(250)), 116_444_736_000_000_002);
    let record = Span::new("launch", "key".to_owned(), 10, 100).finish(7, 20, 350, 3);
    assert_eq!((record.start_filetime, record.end_filetime), (10, 20));
    assert_eq!((record.elapsed_us, record.dropped_total), (250, 3));
    let clocks = |wall: u64, steady_us: u64| Clocks { wall, steady_us };
    let record = mark("event", "key".to_owned(), 7, clocks(20, 100), clocks(23, 105), 0);
    assert_eq!((record.start_filetime, record.end_filetime), (20, 23));
    assert_eq!(record.elapsed_us, 5);
    assert_eq!(record.host_pid, 7);
    assert!(Budget::open(FILE_LIMIT).is_none());
    let mut budget = Budget::open(FILE_LIMIT - 11).unwrap();
    assert!(!budget.take(11));
    assert!(budget.take(10));
    assert!(!budget.take(0));
    assert_eq!(dropped(4, true), 4);
    assert_eq!(dropped(4, false), 5);
}

#[test]
fn texts_are_compared_folded_and_encoded() {
    assert!(text::same("abc", "abc"));
    assert!(!text::same("abc", "abd"));
    assert!(text::eq_ignore_ascii_case("ÄbC", "ÄBc"));
    assert!(!text::eq_ignore_ascii_case("Ä", "ä"));
    assert!(text::is_code("GUARD_COOLDOWN"));
    assert!(!text::is_code("not a code"));
    assert!(!text::is_code(""));
    assert!(text::is_lower_hex("09af"));
    assert!(!text::is_lower_hex("09AF"));
    assert_eq!(
        text::encode_utf16("a😀"),
        "a😀".encode_utf16().collect::<Vec<u16>>()
    );
    assert_eq!(text::wide("ab").unwrap(), [0x61, 0x62, 0]);
    assert!(matches!(
        text::wide("a\0b"),
        Err(Error::Invalid("EMBEDDED_NUL"))
    ));
    let mut out = String::new();
    text::push_number(&mut out, 0);
    text::push_number(&mut out, 18_446_744_073_709_551_615);
    assert_eq!(out, "018446744073709551615");
    assert_eq!(text::join3("a", "b", "c"), "abc");
}

#[test]
fn paths_are_told_apart() {
    assert!(path::is_absolute("C:\\a"));
    assert!(path::is_absolute("\\\\server\\share\\a"));
    assert!(path::is_absolute("\\\\?\\C:\\a"));
    assert!(!path::is_absolute("C:a"));
    assert!(!path::is_absolute("\\a"));
    assert_eq!(path::file_name("C:\\a\\b.exe").unwrap(), "b.exe");
    assert_eq!(path::parent("C:\\a\\b.exe").unwrap(), "C:\\a");
    // Only a drive's colon separates.
    assert_eq!(path::file_name("C:\\x\\a:b.exe").unwrap(), "a:b.exe");
    assert_eq!(path::file_name("C:b.exe").unwrap(), "b.exe");
    // The names of a prefix are no file names.
    for prefix in ["\\\\server\\tool.exe", "\\\\.\\x.exe", "\\\\?\\x.exe", "C:\\"] {
        assert_eq!(path::file_name(prefix), None);
    }
    // A slash separates but in a verbatim path, where a dot is a name, too.
    assert_eq!(path::file_name("C:\\a/b").unwrap(), "b");
    assert_eq!(path::file_name("\\\\?\\C:\\a/b").unwrap(), "a/b");
    assert_eq!(path::file_name("C:\\a\\b.exe\\.").unwrap(), "b.exe");
    assert_eq!(path::file_name("C:\\a\\.."), None);
    assert!(path::is_going_up("C:\\a\\..\\b"));
    assert!(!path::is_going_up("C:\\a\\..b"));
    // A separator is put in where none stands.
    assert_eq!(path::push("C:\\", "a"), "C:\\a");
    assert_eq!(path::push("C:\\a", "b"), "C:\\a\\b");
    assert_eq!(path::push("C:\\a\\", "b"), "C:\\a\\b");
    assert_eq!(path::push("C:\\a", "D:\\b"), "D:\\b");
    assert_eq!(path::push("\\\\?\\C:\\a", "b"), "\\\\?\\C:\\a\\b");
}

#[test]
fn identifiers_and_digests_have_their_usual_forms() {
    let id = Uuid {
        bits: 0x0011_2233_4455_6677_8899_aabb_ccdd_eeff,
    };
    assert_eq!(id.to_text(), "00112233-4455-6677-8899-aabbccddeeff");
    for spelling in [
        "00112233-4455-6677-8899-aabbccddeeff",
        "{00112233-4455-6677-8899-AABBCCDDEEFF}",
        "00112233445566778899aabbccddeeff",
    ] {
        assert_eq!(Uuid::parse_str(spelling), Some(id));
    }
    assert_eq!(Uuid::parse_str("nonsense"), None);
    assert_eq!(
        Uuid::canonical("00112233-4455-6677-8899-aabbccddeeff"),
        Some(id)
    );
    assert_eq!(Uuid::canonical("00112233445566778899aabbccddeeff"), None);
    let random = Uuid::new_v4();
    assert!(!random.is_nil());
    assert_ne!(random, Uuid::new_v4());
    assert_eq!(random.to_text().as_bytes()[14], b'4');
    assert_eq!(hex_text(&[0, 255, 16]), "00ff10");
    assert_eq!(
        digest_text("abc"),
        "ba7816bf8f01cfea414140de5dae2223b00361a396177a9cb410ff61f20015ad"
    );
    let two = [Uuid { bits: 9 }, Uuid { bits: 2 }, Uuid { bits: 9 }];
    assert_eq!(sorted(&two), [Uuid { bits: 2 }, Uuid { bits: 9 }]);
}
