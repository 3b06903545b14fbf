//! The guard: process events, their pipe, the listener's tasks, deployments and installations.
use app_proxy_windows::error::Error;
use app_proxy_windows::etw::{
    self, BATCH_LIMIT, ConsumerStart, ERROR_WMI_INSTANCE_NOT_FOUND, EventBatch,
    EVENT_TRACE_REAL_TIME_MODE, PROVIDER, ProcessStartHint, QUEUE_LIMIT, RecoveryStep, SessionSeen,
    SessionStep, State, consumer_closed, consumer_started, decode, event_wanted, hint,
    listener_stopped, property_size, recover_owned, session_query, session_started, session_stop,
    trace_name,
};
use app_proxy_windows::event_journal::{self, EventOwner, Recorded, inspect};
use app_proxy_windows::event_pipe::{
    Cursor, Frame, Policy, Stream, VERSION, address, authenticate, connect_failed, image_allowed,
    pipe_security, token_elevation, token_groups_size, token_logon,
};
use app_proxy_windows::guard_deployment::{
    Alive, Deployment, HostSeen, IMAGE_LIMIT, InstallStep, ListenerRecord, PROTOCOL, RECORD_LIMIT,
    Record, Source, SourceExpectation, Upgrade, UpgradeStep, check_install, check_intent,
    check_source, check_upgrade_source, copy_generation, diagnostic_name, diagnostic_size, hash,
    ids, install_listener, issuer_alive, listener_record, listener_stage, local_exe, location,
    missing, read_record, read_upgrade, stage, upgrade_begin, upgrade_listener, upgrade_next,
    validate_record, UpgradeAction,
    verify_issuer,
};
use app_proxy_windows::guard_install::{
    AuthorizeStep, ListenerSeen, TICKET_LIMIT, TaskSeen, Ticket, authorize_listener, check_ticket,
    decode as decode_ticket, encode as encode_ticket, install_arguments, installed, launched,
};
use app_proxy_windows::guard_listener::{
    AcceptStep, Accepted, Delivery, Pump, Wake, accept_step, check_image, finished,
};
use app_proxy_windows::guard_task::{
    Account, Definition, MISSING, RUNLEVEL_HIGHEST, RUNLEVEL_LUA, RegisterStep, Spec,
    TRIGGER_LOGON, Trigger, build, found, register, remove_idle, removed, run_receipt,
    run_receipt_text, run_session, task_text, verify, verify_definition, verify_registered,
    verify_trigger,
};
use app_proxy_windows::identity::{
    assert_elevated_user, assert_ordinary_user, combine, file_identity, package_name,
    package_present, sid_text, token_size_valid,
};
use app_proxy_windows::ids::Uuid;
use app_proxy_windows::model::{FileIdentity, ProcessIdentity};
use app_proxy_windows::security::{
    Ace, Descriptor, check_object, login_sddl, sddl, user_matches, validate_descriptor,
    verify_login, verify_task,
};
use sha2::Digest;

const SID: &str = "S-1-5-21-10-20-30-1001";
const NIL: Uuid = Uuid { bits: 0 };
const ERROR_CANCELLED: u32 = 1223;
const LOGIN_MARKER: &str = "app-proxy-rust:login-task:v1";
const DEPLOYMENT: &str =
    "O:BAG:BAD:P(A;OICI;FA;;;SY)(A;OICI;FA;;;BA)(A;OICI;0x1200a9;;;BU)";

fn file(index: u64) -> FileIdentity {
    FileIdentity {
        volume_serial: 7,
        file_index: index,
    }
}

fn current() -> ProcessIdentity {
    ProcessIdentity {
        pid: 4321,
        creation_time: 99,
        user_sid: SID.to_owned(),
        session_id: 2,
        image_path: "C:\\Program Files\\AppProxy\\app-proxy-host.exe".to_owned(),
        image_file: file(1),
    }
}

fn scope(sid: &str) -> String {
    let bytes = sha2::Sha256::digest(sid.as_bytes());
    let text: String = bytes.iter().map(|b| format!("{b:02x}")).collect();
    text[..16].to_owned()
}

fn image(value: &str) -> Vec<u8> {
    value
        .encode_utf16()
        .chain(Some(0))
        .flat_map(u16::to_le_bytes)
        .collect()
}

#[test]
fn hints_are_bounded_names_not_payload_or_identity() {
    let h = hint(123, 1, 456, &image(r"C:\private-path\应用.exe")).unwrap();
    assert_eq!(h.image_name, "应用.exe");
    assert_eq!(h.pid, 123);
    assert_eq!(h.creation_time, 1);
    assert_eq!(h.event_time, 456);
    for bytes in [
        vec![],
        vec![0],
        image(""),
        image("bad\0name"),
        image("bad\nname"),
        image(&"a".repeat(261)),
        vec![0; 4098],
        vec![0, 0xd8, 0, 0],
    ] {
        assert!(hint(123, 1, 456, &bytes).is_err());
    }
    assert!(hint(0, 1, 456, &image("app.exe")).is_err());
    assert!(hint(123, 1, 0, &image("app.exe")).is_err());
    assert!(hint(123, 0, 456, &image("app.exe")).is_err());
}

#[test]
fn bounded_queue_deduplicates_and_reports_overflow_decode_loss_and_end() {
    let mut state = State::new();
    let epoch = Uuid::new_v4();
    assert!(state.drain(epoch).unwrap().full_scan_required);
    for pid in 1..=QUEUE_LIMIT as u32 {
        state.push(hint(pid, 1, 1, &image("App.exe")).unwrap());
    }
    state.push(hint(1, 1, 2, &image("app.exe")).unwrap());
    state.push(hint(5000, 1, 2, &image("app.exe")).unwrap());
    state.failed_decode();
    state.lost(2, 1);
    let batch = state.drain(epoch).unwrap();
    assert_eq!(batch.sequence, 2);
    assert_eq!(batch.epoch, epoch);
    assert_eq!(batch.hints.len(), BATCH_LIMIT);
    assert_eq!(batch.hints[0].event_time, 2);
    assert_eq!(batch.dropped, 1);
    assert_eq!(batch.decode_failures, 1);
    assert_eq!(batch.etw_events_lost, 2);
    assert_eq!(batch.etw_buffers_lost, 1);
    assert!(batch.full_scan_required && batch.ended.is_none());
    let mut total = batch.hints.len();
    while total < QUEUE_LIMIT {
        let batch = state.drain(epoch).unwrap();
        assert!(batch.hints.len() <= BATCH_LIMIT);
        total += batch.hints.len();
    }
    assert_eq!(total, QUEUE_LIMIT);
    assert!(!state.drain(epoch).unwrap().full_scan_required);
    state.lost(0, 0); // Rollback/wrap is also uncertain.
    assert!(state.drain(epoch).unwrap().full_scan_required);
    state.ended = ERROR_CANCELLED;
    let end = state.drain(epoch).unwrap();
    assert!(end.full_scan_required);
    assert_eq!(end.ended, Some(ERROR_CANCELLED));
}

#[test]
fn ended_listener_delivers_every_queued_hint_in_bounded_batches_before_end() {
    let mut state = State::new();
    let epoch = Uuid::new_v4();
    for pid in 1..=QUEUE_LIMIT as u32 {
        state.push(hint(pid, 1, 1, &image("😀.exe")).unwrap());
    }
    state.ended = ERROR_CANCELLED;
    let mut pids = Vec::new();
    for index in 0..QUEUE_LIMIT / BATCH_LIMIT {
        let batch = state.drain(epoch).unwrap();
        assert_eq!(batch.sequence, index as u64 + 1);
        assert_eq!(batch.hints.len(), BATCH_LIMIT);
        assert!(batch.full_scan_required);
        assert_eq!(
            batch.ended,
            (index == QUEUE_LIMIT / BATCH_LIMIT - 1).then_some(ERROR_CANCELLED)
        );
        pids.extend(batch.hints.into_iter().map(|hint| hint.pid));
    }
    assert_eq!(pids, (1..=QUEUE_LIMIT as u32).collect::<Vec<_>>());
}

#[test]
fn native_tdh_decodes_named_properties_instead_of_header_pid_or_fixed_offsets() {
    let pid = 123_u32.to_le_bytes();
    let created = 456_u64.to_le_bytes();
    let name = image(r"C:\fixture\child.exe");
    assert!(event_wanted(false, PROVIDER, 1));
    let decoded = decode(&pid, &created, 1000, &name).unwrap();
    assert_eq!(decoded.pid, 123);
    assert_eq!(decoded.image_name, "child.exe");
    let mut state = State::new();
    state.receive(decode(&pid, &created, 1000, &name));
    assert_eq!(state.drain(Uuid::new_v4()).unwrap().hints.len(), 1);
    // With too little data there is no process property to read.
    state.receive(decode(&pid[..2], &created, 1000, &name));
    let bad = state.drain(Uuid::new_v4()).unwrap();
    assert_eq!(bad.decode_failures, 1);
    assert!(bad.full_scan_required);
}

#[test]
fn listener_drain_delivers_final_batch_on_missing_session_but_rejects_foreign_owner() {
    let mut state = State::new();
    state.ended = ERROR_CANCELLED;
    let epoch = Uuid::new_v4();
    let last = state
        .drain_after_query(
            epoch,
            Err(Error::Windows {
                operation: "QueryOwnedTrace",
                code: ERROR_WMI_INSTANCE_NOT_FOUND,
            }),
        )
        .unwrap();
    assert!(last.full_scan_required);
    assert_eq!(last.ended, Some(ERROR_CANCELLED));
    assert!(
        state
            .drain_after_query(epoch, Err(Error::Invalid("ETW_SESSION_OWNER_MISMATCH")))
            .is_err()
    );
}

#[test]
fn only_process_starts_of_the_fixed_provider_are_wanted() {
    assert!(!event_wanted(true, PROVIDER, 1));
    assert!(!event_wanted(false, PROVIDER ^ 1, 1));
    assert!(!event_wanted(false, PROVIDER, 2));
    assert!(property_size(4, 4).is_ok());
    assert!(property_size(0, 4).is_err());
    assert!(property_size(5, 4).is_err());
    assert_eq!(etw::read_units(&[0x41, 0, 0x42, 1]), [0x41, 0x142]);
}

fn seen(store: Uuid, epoch: Uuid) -> SessionSeen {
    let mut name = trace_name(SID, 2, store).unwrap();
    name.push(0);
    SessionSeen {
        status: 0,
        guid: epoch.bits,
        name,
        mode: EVENT_TRACE_REAL_TIME_MODE,
        file: 0,
        events_lost: 3,
        buffers_lost: 4,
        handle: 17,
    }
}

#[test]
fn trace_sessions_are_named_and_recognised() {
    let store = Uuid { bits: 0xabc };
    let epoch = Uuid { bits: 0xdef };
    let name = trace_name(SID, 2, store).unwrap();
    let text = format!(
        "AppProxy-Process-{}-00000000-0000-0000-0000-000000000abc-2",
        scope(SID)
    );
    let mut units: Vec<u16> = text.encode_utf16().collect();
    units.push(0);
    assert_eq!(name, units);
    let own = seen(store, epoch);
    assert_eq!(session_query(&own, epoch.bits, &name).unwrap(), (3, 4));
    assert!(matches!(
        session_query(&own, 1, &name),
        Err(Error::Invalid("ETW_SESSION_OWNER_MISMATCH"))
    ));
    let mut logged = seen(store, epoch);
    logged.file = 1;
    assert!(session_query(&logged, epoch.bits, &name).is_err());
    let mut gone = seen(store, epoch);
    gone.status = ERROR_WMI_INSTANCE_NOT_FOUND;
    assert_eq!(
        session_stop(false, &gone, epoch.bits, &name).unwrap(),
        SessionStep::Gone
    );
    assert_eq!(
        session_stop(false, &own, epoch.bits, &name).unwrap(),
        SessionStep::Stop
    );
    assert!(matches!(
        session_started(store, epoch, etw::ERROR_ALREADY_EXISTS),
        Err(Error::Invalid("ETW_SESSION_CONFLICT"))
    ));
    assert!(session_started(store, epoch, 0).is_ok());
    assert!(session_started(NIL, epoch, 0).is_err());
}

#[test]
fn recovery_stops_only_the_recorded_session() {
    let store = Uuid::new_v4();
    let epoch = Uuid::new_v4();
    assert_eq!(
        recover_owned(store, epoch, &seen(store, epoch)).unwrap(),
        RecoveryStep::StopHandle { handle: 17 }
    );
    let mut gone = seen(store, epoch);
    gone.status = ERROR_WMI_INSTANCE_NOT_FOUND;
    assert_eq!(
        recover_owned(store, epoch, &gone).unwrap(),
        RecoveryStep::Nothing
    );
    assert!(recover_owned(store, epoch, &seen(store, Uuid::new_v4())).is_err());
    assert!(recover_owned(NIL, epoch, &gone).is_err());
}

#[test]
fn consumers_start_and_stop_with_an_answer() {
    assert!(consumer_started(ConsumerStart::Opened).is_ok());
    assert!(matches!(
        consumer_started(ConsumerStart::Failed { code: 5 }),
        Err(Error::Windows {
            operation: "OpenProcessTrace",
            code: 5
        })
    ));
    assert!(matches!(
        consumer_started(ConsumerStart::Silent),
        Err(Error::Invalid("ETW_CONSUMER_START_TIMEOUT"))
    ));
    assert!(consumer_closed(0).is_ok());
    assert!(consumer_closed(etw::ERROR_CTX_CLOSE_PENDING).is_ok());
    assert!(consumer_closed(5).is_err());
    assert!(listener_stopped(true, false, Ok(()), Ok(())).is_ok());
    assert!(listener_stopped(false, false, Ok(()), Ok(())).is_err());
    assert!(listener_stopped(true, true, Ok(()), Ok(())).is_err());
}

fn batch(epoch: Uuid, sequence: u64) -> EventBatch {
    EventBatch {
        epoch,
        sequence,
        hints: vec![],
        full_scan_required: false,
        dropped: 0,
        decode_failures: 0,
        etw_events_lost: 0,
        etw_buffers_lost: 0,
        ended: None,
    }
}

#[test]
fn stream_requires_rescan_on_gaps_reconnect_loss_and_end_and_rejects_replay() {
    let epoch = Uuid::new_v4();
    let mut cursor = Cursor::default();
    let mut first = batch(epoch, 12);
    cursor.observe(&mut first).unwrap();
    assert!(first.full_scan_required);
    let mut next = batch(epoch, 13);
    cursor.observe(&mut next).unwrap();
    assert!(!next.full_scan_required);
    assert!(cursor.observe(&mut batch(epoch, 13)).is_err());
    assert!(cursor.observe(&mut batch(Uuid::new_v4(), 14)).is_err());
    let mut gap = batch(epoch, 15);
    cursor.observe(&mut gap).unwrap();
    assert!(gap.full_scan_required);
    let mut lost = batch(epoch, 16);
    lost.decode_failures = 1;
    cursor.observe(&mut lost).unwrap();
    assert!(lost.full_scan_required);
    let mut rollback = batch(epoch, 17);
    cursor.observe(&mut rollback).unwrap();
    assert!(rollback.full_scan_required);
    let mut end = batch(epoch, 18);
    end.ended = Some(5);
    cursor.observe(&mut end).unwrap();
    assert!(end.full_scan_required);
    assert!(cursor.observe(&mut batch(epoch, 19)).is_err());
    let mut reconnect = batch(epoch, 19);
    Cursor::default().observe(&mut reconnect).unwrap();
    assert!(reconnect.full_scan_required);
}

fn largest() -> EventBatch {
    let mut valid = batch(Uuid::new_v4(), u64::MAX);
    valid.dropped = u64::MAX;
    valid.decode_failures = u64::MAX;
    valid.etw_events_lost = u32::MAX;
    valid.etw_buffers_lost = u32::MAX;
    valid.hints = (1..=BATCH_LIMIT)
        .map(|pid| ProcessStartHint {
            pid: pid as u32,
            image_name: "😀".repeat(260),
            creation_time: 1,
            event_time: i64::MAX,
        })
        .collect();
    valid
}

fn frame_json(frame: &Frame) -> serde_json::Value {
    let batch = &frame.batch;
    let hints: Vec<serde_json::Value> = batch
        .hints
        .iter()
        .map(|hint| {
            object(vec![
                ("pid", hint.pid.into()),
                ("creation_time", hint.creation_time.into()),
                ("image_name", hint.image_name.clone().into()),
                ("event_time", hint.event_time.into()),
            ])
        })
        .collect();
    object(vec![
        ("version", frame.version.into()),
        ("store_id", frame.store_id.to_text().into()),
        (
            "batch",
            object(vec![
                ("epoch", batch.epoch.to_text().into()),
                ("sequence", batch.sequence.into()),
                ("hints", serde_json::Value::Array(hints)),
                ("full_scan_required", batch.full_scan_required.into()),
                ("dropped", batch.dropped.into()),
                ("decode_failures", batch.decode_failures.into()),
                ("etw_events_lost", batch.etw_events_lost.into()),
                ("etw_buffers_lost", batch.etw_buffers_lost.into()),
                (
                    "ended",
                    match batch.ended {
                        Some(code) => code.into(),
                        None => serde_json::Value::Null,
                    },
                ),
            ]),
        ),
    ])
}

fn hint_of(value: &serde_json::Value) -> Option<ProcessStartHint> {
    if value.as_object()?.len() != 4 {
        return None;
    }
    Some(ProcessStartHint {
        pid: value.get("pid")?.as_u64()? as u32,
        creation_time: value.get("creation_time")?.as_u64()?,
        image_name: value.get("image_name")?.as_str()?.to_owned(),
        event_time: value.get("event_time")?.as_i64()?,
    })
}

fn frame_of(value: &serde_json::Value) -> Option<Frame> {
    let batch = value.get("batch")?;
    if value.as_object()?.len() != 3 || batch.as_object()?.len() != 9 {
        return None;
    }
    let hints: Option<Vec<ProcessStartHint>> =
        batch.get("hints")?.as_array()?.iter().map(hint_of).collect();
    Some(Frame {
        version: value.get("version")?.as_u64()? as u32,
        store_id: id_of(value.get("store_id")?)?,
        batch: EventBatch {
            epoch: id_of(batch.get("epoch")?)?,
            sequence: batch.get("sequence")?.as_u64()?,
            hints: hints?,
            full_scan_required: batch.get("full_scan_required")?.as_bool()?,
            dropped: batch.get("dropped")?.as_u64()?,
            decode_failures: batch.get("decode_failures")?.as_u64()?,
            etw_events_lost: batch.get("etw_events_lost")?.as_u64()? as u32,
            etw_buffers_lost: batch.get("etw_buffers_lost")?.as_u64()? as u32,
            ended: batch.get("ended")?.as_u64().map(|code| code as u32),
        },
    })
}

#[test]
fn event_schema_rejects_commands_and_max_unicode_batch_fits_frame_budget() {
    let mut valid = largest();
    Cursor::default().observe(&mut valid).unwrap();
    let mut json = frame_json(&Frame {
        version: VERSION,
        store_id: Uuid::new_v4(),
        batch: valid,
    });
    assert!(serde_json::to_vec(&json).unwrap().len() < 1 << 20);
    let map = json.as_object_mut().unwrap();
    map.insert("command".to_owned(), "stop".into());
    assert!(frame_of(&json).is_none());
    json.as_object_mut().unwrap().remove("command");
    json["batch"]["hints"][0]["pid"] = 0.into();
    let mut bad = frame_of(&json).unwrap();
    assert!(Cursor::default().observe(&mut bad.batch).is_err());
    json["batch"]["hints"][0]["pid"] = 1.into();
    json["batch"]["hints"][0]["image_name"] = "C:\\private\\app.exe".into();
    let mut bad = frame_of(&json).unwrap();
    assert!(Cursor::default().observe(&mut bad.batch).is_err());
}

#[test]
fn batches_are_bounded_and_hints_are_names() {
    Cursor::default().observe(&mut largest()).unwrap();
    let mut bad = largest();
    bad.hints[0].pid = 0;
    assert!(Cursor::default().observe(&mut bad).is_err());
    let mut bad = largest();
    bad.hints[0].image_name = "C:\\private\\app.exe".to_owned();
    assert!(Cursor::default().observe(&mut bad).is_err());
    let mut bad = largest();
    bad.hints.push(ProcessStartHint {
        pid: 9000,
        image_name: "one.exe".to_owned(),
        creation_time: 1,
        event_time: 1,
    });
    assert!(Cursor::default().observe(&mut bad).is_err());
}

#[test]
fn a_stream_that_failed_stays_failed() {
    let store = Uuid::new_v4();
    let epoch = Uuid::new_v4();
    let mut sender = Stream::new(store);
    let frame = sender.send(batch(epoch, 1)).unwrap();
    assert_eq!(frame.version, VERSION);
    assert_eq!(frame.store_id, store);
    assert!(frame.batch.full_scan_required);
    sender.sent(Ok(())).unwrap();
    let mut receiver = Stream::new(store);
    receiver.receive().unwrap();
    assert!(receiver.received(Ok(frame)).unwrap().full_scan_required);
    receiver.receive().unwrap();
    let foreign = Frame {
        version: VERSION,
        store_id: Uuid::new_v4(),
        batch: batch(epoch, 2),
    };
    assert!(receiver.received(Ok(foreign)).is_err());
    assert!(receiver.receive().is_err());
    sender.send(batch(epoch, 2)).unwrap();
    assert!(sender.sent(Err(Error::Invalid("gone"))).is_err());
    assert!(sender.send(batch(epoch, 3)).is_err());
}

#[test]
fn peers_are_told_apart_by_image_session_user_and_logon() {
    let policy = Policy::current(vec![file(1)], &current(), "S-1-5-5-0-9".to_owned(), true).unwrap();
    assert!(!policy.elevated_peer);
    assert!(authenticate(&policy, &current(), "S-1-5-5-0-9").is_ok());
    assert!(authenticate(&policy, &current(), "S-1-5-5-0-8").is_err());
    let mut peer = current();
    peer.session_id = 3;
    assert!(authenticate(&policy, &peer, "S-1-5-5-0-9").is_err());
    let mut peer = current();
    peer.user_sid = "S-1-5-18".to_owned();
    assert!(authenticate(&policy, &peer, "S-1-5-5-0-9").is_err());
    let mut peer = current();
    peer.image_file = file(2);
    assert!(authenticate(&policy, &peer, "S-1-5-5-0-9").is_err());
    assert!(image_allowed(&[file(4), file(5)], file(5)));
    assert!(!image_allowed(&[file(4), file(5)], file(6)));
    let other = Uuid::new_v4();
    assert_ne!(
        address(other, &policy).unwrap(),
        address(Uuid::new_v4(), &policy).unwrap()
    );
    assert!(matches!(
        address(NIL, &policy),
        Err(Error::Invalid("INVALID_IPC_SCOPE"))
    ));
    assert_eq!(
        pipe_security("S-1-5-5-0-9"),
        "D:P(A;;GA;;;SY)(A;;GA;;;BA)(A;;GR;;;S-1-5-5-0-9)"
    );
    assert!(token_elevation(1, 0, true).is_ok());
    assert!(matches!(
        token_elevation(0, 0, true),
        Err(Error::Invalid("EVENT_ELEVATION_MISMATCH"))
    ));
    assert!(matches!(
        token_elevation(1, 1, true),
        Err(Error::Invalid("RESTRICTED_TOKEN_UNSUPPORTED"))
    ));
    assert!(token_groups_size(23).is_err());
    assert!(token_groups_size(24).is_ok());
    assert!(token_groups_size(65537).is_err());
    assert_eq!(
        token_logon(1, 0xc000_0007, "S-1-5-5-0-9".to_owned()).unwrap(),
        "S-1-5-5-0-9"
    );
    assert!(token_logon(2, 0xc000_0007, "S-1-5-5-0-9".to_owned()).is_err());
    assert!(token_logon(1, 0x4000_0000, "S-1-5-5-0-9".to_owned()).is_err());
    assert!(connect_failed(2, true).is_err());
}

/// A journal file: what it holds, and how long it is.
struct Journal {
    recorded: Recorded,
    length: u64,
}

fn prepare(
    journal: &mut Journal,
    store: Uuid,
    recover: impl FnOnce(Uuid, Uuid) -> Result<(), Error>,
) -> Result<Uuid, Error> {
    let recovered = match inspect(store, &current(), journal.length, &journal.recorded)? {
        Some(epoch) => recover(store, epoch),
        None => Ok(()),
    };
    let owner = event_journal::prepare(
        store,
        &current(),
        journal.length,
        &journal.recorded,
        recovered,
    )?;
    let epoch = owner.epoch;
    journal.recorded = Recorded::Owner(owner);
    journal.length = 200;
    Ok(epoch)
}

#[test]
fn epoch_is_durable_before_start_and_failed_recovery_preserves_ownership() {
    let mut journal = Journal {
        recorded: Recorded::Nothing,
        length: 0,
    };
    let store = Uuid::new_v4();
    let epoch = prepare(&mut journal, store, |_, _| panic!("new journal")).unwrap();
    let saved = format!("{:?}", journal.recorded);
    let Recorded::Owner(record) = &journal.recorded else {
        panic!()
    };
    assert_eq!(record.epoch, epoch);
    assert_eq!(record.store, store);
    assert!(matches!(
        prepare(&mut journal, store, |s, e| {
            assert_eq!((s, e), (store, epoch));
            Err(Error::Invalid("fixture conflict"))
        }),
        Err(Error::Invalid("fixture conflict"))
    ));
    assert_eq!(format!("{:?}", journal.recorded), saved);
    let next = prepare(&mut journal, store, |s, e| {
        assert_eq!((s, e), (store, epoch));
        Ok(())
    })
    .unwrap();
    assert_ne!(next, epoch);
    let Recorded::Owner(record) = &journal.recorded else {
        panic!()
    };
    assert_eq!(record.epoch, next);
}

#[test]
fn malformed_or_wrong_scope_record_never_authorizes_recovery_or_replacement() {
    let store = Uuid::new_v4();
    let valid = || EventOwner {
        format: "app-proxy-rust-event-owner-v1".to_owned(),
        store,
        sid: SID.to_owned(),
        session: 2,
        epoch: Uuid::new_v4(),
    };
    let changed = |change: fn(&mut EventOwner)| {
        let mut owner = valid();
        change(&mut owner);
        Journal {
            recorded: Recorded::Owner(owner),
            length: 200,
        }
    };
    let cases = [
        Journal {
            recorded: Recorded::Malformed,
            length: 1,
        },
        Journal {
            recorded: Recorded::Malformed,
            length: event_journal::LIMIT + 1,
        },
        Journal {
            recorded: Recorded::Owner(valid()),
            length: event_journal::LIMIT + 1,
        },
        changed(|owner| owner.format = "old-format".to_owned()),
        changed(|owner| owner.sid = "S-1-5-18".to_owned()),
        changed(|owner| owner.store = Uuid::new_v4()),
        changed(|owner| owner.session += 1),
        changed(|owner| owner.epoch = NIL),
    ];
    for mut case in cases {
        let before = format!("{:?}", case.recorded);
        let mut called = false;
        assert!(
            prepare(&mut case, store, |_, _| {
                called = true;
                Ok(())
            })
            .is_err()
        );
        assert!(!called);
        assert_eq!(format!("{:?}", case.recorded), before);
    }
}

fn ticket() -> Ticket {
    Ticket {
        version: 1,
        request: Uuid::new_v4(),
        upgrade_from: None,
        store: Uuid::new_v4(),
        issuer: current(),
        source: SourceExpectation {
            image: FileIdentity {
                volume_serial: 1,
                file_index: 2,
            },
            size: 123,
            sha256: "a".repeat(64),
        },
    }
}

fn object(fields: Vec<(&str, serde_json::Value)>) -> serde_json::Value {
    let mut map = serde_json::Map::new();
    for (name, value) in fields {
        map.insert(name.to_owned(), value);
    }
    serde_json::Value::Object(map)
}

fn file_json(file: FileIdentity) -> serde_json::Value {
    object(vec![
        ("volume_serial", file.volume_serial.into()),
        ("file_index", file.file_index.into()),
    ])
}

fn ticket_json(ticket: &Ticket) -> serde_json::Value {
    object(vec![
        ("version", ticket.version.into()),
        ("request", ticket.request.to_text().into()),
        (
            "upgrade_from",
            match ticket.upgrade_from {
                Some(id) => id.to_text().into(),
                None => serde_json::Value::Null,
            },
        ),
        ("store", ticket.store.to_text().into()),
        (
            "issuer",
            object(vec![
                ("pid", ticket.issuer.pid.into()),
                ("creation_time", ticket.issuer.creation_time.into()),
                ("user_sid", ticket.issuer.user_sid.clone().into()),
                ("session_id", ticket.issuer.session_id.into()),
                ("image_path", ticket.issuer.image_path.clone().into()),
                ("image_file", file_json(ticket.issuer.image_file)),
            ]),
        ),
        (
            "source",
            object(vec![
                ("image", file_json(ticket.source.image)),
                ("size", ticket.source.size.into()),
                ("sha256", ticket.source.sha256.clone().into()),
            ]),
        ),
    ])
}

fn id_of(value: &serde_json::Value) -> Option<Uuid> {
    Uuid::parse_str(value.as_str()?)
}

fn file_of(value: &serde_json::Value) -> Option<FileIdentity> {
    Some(FileIdentity {
        volume_serial: value.get("volume_serial")?.as_u64()? as u32,
        file_index: value.get("file_index")?.as_u64()?,
    })
}

fn ticket_of(bytes: &[u8]) -> Option<Ticket> {
    let value: serde_json::Value = serde_json::from_slice(bytes).ok()?;
    let map = value.as_object()?;
    if map.len() != 6 {
        return None;
    }
    let issuer = map.get("issuer")?;
    let source = map.get("source")?;
    Some(Ticket {
        version: map.get("version")?.as_u64()? as u32,
        request: id_of(map.get("request")?)?,
        upgrade_from: match map.get("upgrade_from")? {
            serde_json::Value::Null => None,
            other => Some(id_of(other)?),
        },
        store: id_of(map.get("store")?)?,
        issuer: ProcessIdentity {
            pid: issuer.get("pid")?.as_u64()? as u32,
            creation_time: issuer.get("creation_time")?.as_u64()?,
            user_sid: issuer.get("user_sid")?.as_str()?.to_owned(),
            session_id: issuer.get("session_id")?.as_u64()? as u32,
            image_path: issuer.get("image_path")?.as_str()?.to_owned(),
            image_file: file_of(issuer.get("image_file")?)?,
        },
        source: SourceExpectation {
            image: file_of(source.get("image")?)?,
            size: source.get("size")?.as_u64()?,
            sha256: source.get("sha256")?.as_str()?.to_owned(),
        },
    })
}

fn encode(ticket: &Ticket) -> Result<String, Error> {
    encode_ticket(&serde_json::to_vec(&ticket_json(ticket)).unwrap())
}

fn decode_text(encoded: &str) -> Result<Ticket, Error> {
    check_ticket(ticket_of(&decode_ticket(encoded)?))
}

#[test]
fn immutable_install_ticket_is_bounded_strict_and_safe_as_one_argument() {
    let mut ticket = ticket();
    ticket.issuer.image_path = r#"C:\夹具 $()%\引号"与空格\host.exe"#.to_owned();
    let encoded = encode(&ticket).unwrap();
    assert!(
        encoded
            .bytes()
            .all(|b| b.is_ascii_digit() || (b'a'..=b'f').contains(&b))
    );
    let decoded = decode_text(&encoded).unwrap();
    assert!(decoded.issuer.same(&ticket.issuer));
    assert_eq!(decoded.store, ticket.store);
    for invalid in [
        String::new(),
        "ab0".to_owned(),
        "zz".to_owned(),
        "AB".to_owned(),
        "00".repeat(TICKET_LIMIT),
    ] {
        assert!(decode_text(&invalid).is_err());
    }
    for field in ["version", "store", "issuer", "source", "command"] {
        let mut changed = ticket_json(&ticket);
        changed
            .as_object_mut()
            .unwrap()
            .insert(field.to_owned(), "wrong".into());
        let bytes = serde_json::to_vec(&changed).unwrap();
        let encoded = bytes.iter().map(|b| format!("{b:02x}")).collect::<String>();
        assert!(decode_text(&encoded).is_err());
    }
    ticket.version = 2;
    assert!(decode_text(&encode(&ticket).unwrap()).is_err());
    ticket.version = 1;
    ticket.store = NIL;
    assert!(decode_text(&encode(&ticket).unwrap()).is_err());
    ticket.issuer.image_path = "x".repeat(TICKET_LIMIT);
    assert!(encode(&ticket).is_err());
}

#[test]
fn ordinary_install_entry_rejects_before_decoding_or_machine_writes() {
    assert_ordinary_user(0, 0).unwrap();
    assert!(matches!(
        assert_elevated_user(0, 0),
        Err(Error::Invalid("ELEVATED_USER_REQUIRED"))
    ));
    assert!(authorize_listener(NIL, ListenerSeen::Missing).is_err());
}

#[test]
fn upgrade_ticket_binds_exact_previous_generation() {
    let mut value = ticket();
    let generation = Uuid::new_v4();
    value.upgrade_from = Some(generation);
    assert_eq!(
        decode_text(&encode(&value).unwrap()).unwrap().upgrade_from,
        Some(generation)
    );
    value.upgrade_from = Some(NIL);
    assert!(decode_text(&encode(&value).unwrap()).is_err());
}

#[test]
fn tickets_are_hexadecimal() {
    assert_eq!(encode_ticket(&[0, 0x5a, 0xff]).unwrap(), "005aff");
    assert_eq!(decode_ticket("005aff").unwrap(), [0, 0x5a, 0xff]);
    assert_eq!(install_arguments("005aff"), "guard-install --ticket 005aff");
}

#[test]
fn an_installation_is_believed_only_when_it_is_seen() {
    let store = Uuid::new_v4();
    let generation = Uuid::new_v4();
    let seen = |release_matches, task| ListenerSeen::Found {
        release_matches,
        generation,
        task,
    };
    assert_eq!(
        authorize_listener(store, seen(true, TaskSeen::Verified)).unwrap(),
        AuthorizeStep::Done { generation }
    );
    assert_eq!(
        authorize_listener(store, seen(true, TaskSeen::Missing)).unwrap(),
        AuthorizeStep::Elevate
    );
    assert_eq!(
        authorize_listener(store, ListenerSeen::Missing).unwrap(),
        AuthorizeStep::Elevate
    );
    assert!(matches!(
        installed(None, seen(true, TaskSeen::Verified)),
        Err(Error::Invalid("GUARD_INSTALL_RESULT_UNKNOWN"))
    ));
    assert!(matches!(
        installed(Some(0), ListenerSeen::Missing),
        Err(Error::Invalid("GUARD_INSTALL_NOT_CONFIRMED"))
    ));
    assert!(matches!(
        installed(Some(0), seen(false, TaskSeen::Verified)),
        Err(Error::Invalid("GUARD_LISTENER_RELEASE_CONFLICT"))
    ));
    assert_eq!(
        installed(Some(9), seen(true, TaskSeen::Verified)).unwrap(),
        generation
    );
    assert!(launched(true, 0, true).is_ok());
    assert!(matches!(
        launched(false, ERROR_CANCELLED, false),
        Err(Error::Invalid("GUARD_INSTALL_CANCELLED"))
    ));
    assert!(matches!(
        launched(false, 5, false),
        Err(Error::Windows {
            operation: "AuthorizeGuardListener",
            code: 5
        })
    ));
    assert!(matches!(
        launched(true, 0, false),
        Err(Error::Invalid("GUARD_INSTALL_RESULT_UNKNOWN"))
    ));
}

const HOST: &str = r"C:\Program Files\AppProxy\Guard\测试\app-proxy-host.exe";

fn spec() -> Spec {
    Spec::new(SID, Uuid::new_v4(), Uuid::new_v4(), HOST).unwrap()
}

#[test]
fn fixed_task_scope_excludes_substitutions_and_other_stores() {
    let first = spec();
    let second = spec();
    assert_ne!(first.name, second.name);
    assert!(first.args.starts_with("event-listen --store "));
    assert!(first.args.contains(" --generation "));
    assert!(!first.args.contains("$("));
    assert!(!first.name.contains(['\\', '/']));
    assert!(Spec::new(&first.sid, Uuid::new_v4(), NIL, &first.path).is_err());
    for path in [
        r"C:\%ROOT%\host.exe",
        r"C:\$(Arg0)\host.exe",
        r#"C:\bad"\host.exe"#,
        "relative.exe",
    ] {
        assert!(Spec::new(&first.sid, Uuid::new_v4(), Uuid::new_v4(), path).is_err());
    }
}

#[test]
fn event_tasks_are_named_by_user_and_store() {
    let store = Uuid { bits: 5 };
    let spec = Spec::new(SID, store, Uuid { bits: 6 }, HOST).unwrap();
    assert_eq!(
        spec.name,
        format!(
            "AppProxyRust-Event-{}-00000000-0000-0000-0000-000000000005",
            scope(SID)
        )
    );
    assert_eq!(
        spec.args,
        "event-listen --store 00000000-0000-0000-0000-000000000005 --generation 00000000-0000-0000-0000-000000000006"
    );
    assert_eq!(spec.path, HOST);
    assert_eq!(spec.cwd, r"C:\Program Files\AppProxy\Guard\测试");
}

#[test]
fn native_unregistered_definition_roundtrips_and_rejects_changed_actions_or_principal() {
    let spec = spec();
    let mut task = build(&spec);
    verify_definition(&task, &spec).unwrap();
    assert_eq!(task.user.name, SID);
    assert!(!found(MISSING).unwrap());
    task.actions[0].args = "event-listen --store $(Arg0)".to_owned();
    assert!(verify_definition(&task, &spec).is_err());
    task.actions[0].args = spec.args.clone();
    task.actions[0].path = r"C:\user-writable\other.exe".to_owned();
    assert!(verify_definition(&task, &spec).is_err());
    task.actions[0].path = spec.path.clone();
    verify_definition(&task, &spec).unwrap();
    task.level = RUNLEVEL_LUA;
    assert!(verify_definition(&task, &spec).is_err());
    task.level = RUNLEVEL_HIGHEST;
    task.user = Account {
        name: "S-1-5-18".to_owned(),
        resolved: Ok((true, "S-1-5-18".to_owned())),
    };
    assert!(verify_definition(&task, &spec).is_err());
}

#[test]
fn native_event_definition_rejects_wrong_uri_generation_or_role_marker() {
    let spec = spec();
    assert_eq!(spec.uri, format!("\\{}", spec.name));
    for change in 0..3 {
        let mut task = build(&spec);
        verify_definition(&task, &spec).unwrap();
        match change {
            0 => task.uri = "\\foreign".to_owned(),
            1 => task.actions[0].args = format!("{}-changed", spec.args),
            _ => task.data = LOGIN_MARKER.to_owned(),
        }
        assert!(verify_definition(&task, &spec).is_err());
    }
}

fn registration_trigger() -> Trigger {
    Trigger {
        kind: 7,
        id: String::new(),
        user: Account {
            name: String::new(),
            resolved: Ok((false, String::new())),
        },
        delay: String::new(),
        start: String::new(),
        end: String::new(),
        limit: String::new(),
        enabled: true,
        interval: String::new(),
        duration: String::new(),
        stop_at_end: false,
    }
}

#[test]
fn native_definition_rejects_auto_triggers_extra_actions_and_changed_lifecycle() {
    let spec = spec();
    let mut task = build(&spec);
    task.triggers.push(registration_trigger());
    assert!(verify_definition(&task, &spec).is_err());
    let mut task = build(&spec);
    let extra = build(&spec).actions.remove(0);
    task.actions.push(extra);
    assert!(verify_definition(&task, &spec).is_err());
    // Automatic maintenance is no trigger. Adding it raises the compatibility.
    let mut task = build(&spec);
    task.compatibility = 5;
    assert_eq!(task.triggers.len(), 0);
    assert!(verify_definition(&task, &spec).is_err());
    for which in 0..8 {
        let mut task = build(&spec);
        verify_definition(&task, &spec).unwrap();
        match which {
            0 => task.switches.allow_hard_terminate = true,
            1 => task.instances = 0,
            2 => task.restarts = 3,
            3 => task.limit = "PT1H".to_owned(),
            4 => task.switches.enabled = false,
            5 => task.switches.disallow_start_on_batteries = true,
            6 => task.compatibility = 1,
            _ => task.context = "foreign".to_owned(),
        }
        assert!(verify_definition(&task, &spec).is_err());
    }
}

#[test]
fn registered_tasks_are_verified_before_use() {
    let spec = spec();
    let task: Definition = build(&spec);
    let place = format!("\\{}", spec.name);
    let event = sddl(SID);
    let check = |place: &str, text: &str| verify(place, text.len(), &descriptor(text), &task, &spec);
    assert!(check(&place, &event).is_ok());
    assert!(matches!(
        check("\\other", &event),
        Err(Error::Invalid("GUARD_TASK_CONFLICT"))
    ));
    // The security of a login task does not fit an event task.
    assert!(matches!(
        check(&place, &login_sddl(SID)),
        Err(Error::Invalid("GUARD_TASK_UNPROTECTED"))
    ));
    assert!(matches!(
        verify(&place, 65537, &descriptor(&event), &task, &spec),
        Err(Error::Invalid("GUARD_TASK_ACL_SIZE"))
    ));
    assert_eq!(register(None).unwrap(), RegisterStep::Create);
    assert_eq!(register(Some(Ok(()))).unwrap(), RegisterStep::Keep);
    assert!(register(Some(Err(Error::IdentityMismatch))).is_err());
    assert!(matches!(
        verify_registered(None),
        Err(Error::Invalid("GUARD_TASK_MISSING"))
    ));
    assert_eq!(run_session(file(1), file(1), Some(Ok(())), 2).unwrap(), 2);
    assert!(run_session(file(1), file(2), Some(Ok(())), 2).is_err());
    assert!(run_session(file(1), file(1), None, 2).is_err());
    let instance = Uuid { bits: 0x77 };
    let name = spec.name.clone();
    let receipt =
        run_receipt_text(spec, "{00000000-0000-0000-0000-000000000077}").unwrap();
    assert_eq!(receipt.task_name, name);
    assert_eq!(receipt.task_instance, instance);
    assert!(matches!(
        run_receipt_text(self::spec(), "nonsense"),
        Err(Error::Invalid("GUARD_TASK_INSTANCE_UNKNOWN"))
    ));
    assert!(run_receipt(self::spec(), None).is_err());
    assert!(remove_idle(Some(Ok(())), 0, false).unwrap());
    assert!(!remove_idle(None, 0, false).unwrap());
    assert!(remove_idle(Some(Ok(())), 1, false).is_err());
    assert!(removed(false, false).is_ok());
    assert!(removed(true, false).is_err());
    assert!(found(0).unwrap());
    assert!(found(5).is_err());
    assert_eq!(task_text(&[0x61, 0x62]).unwrap(), "ab");
    assert!(task_text(&[0xd800]).is_err());
}

#[test]
fn logon_triggers_are_for_one_user() {
    let mut trigger = registration_trigger();
    trigger.kind = TRIGGER_LOGON;
    assert!(verify_trigger(&[], SID).is_err());
    assert!(verify_trigger(&[trigger], SID).is_err());
    let mut unknown = registration_trigger();
    unknown.kind = TRIGGER_LOGON;
    unknown.id = "AppProxyLogon".to_owned();
    unknown.user.name = "HOST\\someone".to_owned();
    unknown.user.resolved = Err(Error::Windows {
        operation: "ResolveGuardTaskUser",
        code: 1332,
    });
    assert!(matches!(
        verify_trigger(&[unknown], SID),
        Err(Error::Windows {
            operation: "ResolveGuardTaskUser",
            code: 1332
        })
    ));
}

fn sid_of(text: &str) -> String {
    match text {
        "BA" => "S-1-5-32-544".to_owned(),
        "SY" => "S-1-5-18".to_owned(),
        "BU" => "S-1-5-32-545".to_owned(),
        "WD" => "S-1-1-0".to_owned(),
        other => other.to_owned(),
    }
}

fn mask_of(text: &str) -> u32 {
    match text {
        "FA" => 0x1f01ff,
        "GA" => 0x1000_0000,
        "GRGX" => 0xa000_0000,
        "GRGWGX" => 0xe000_0000,
        "FR" => 0x120089,
        "FRFX" => 0x1200a9,
        "0x1200a9" => 0x1200a9,
        other => panic!("{other}"),
    }
}

/// The descriptor that a text in the security descriptor definition language describes.
fn descriptor(text: &str) -> Descriptor {
    let rest = text.strip_prefix("O:").unwrap();
    let end = rest.find("G:").or_else(|| rest.find("D:")).unwrap();
    let owner = sid_of(&rest[..end]);
    let dacl = &rest[rest.find("D:").unwrap() + 2..];
    let protected = dacl.starts_with('P');
    let mut aces = vec![];
    for entry in dacl.split('(').skip(1) {
        let parts: Vec<&str> = entry.trim_end_matches(')').split(';').collect();
        let mut flags = 0;
        for pair in parts[1].as_bytes().chunks(2) {
            flags |= match pair {
                b"OI" => 1,
                b"CI" => 2,
                b"NP" => 4,
                b"IO" => 8,
                other => panic!("{other:?}"),
            };
        }
        aces.push(Ace {
            kind: 0,
            flags,
            mask: mask_of(parts[2]),
            sid: sid_of(parts[5]),
        });
    }
    Descriptor {
        owner: Some(owner),
        dacl: Some(aces),
        protected,
    }
}

#[test]
fn admin_descriptor_requires_exact_read_only_user_rights_and_inheritance() {
    validate_descriptor(&descriptor(DEPLOYMENT), true).unwrap();
    validate_descriptor(&descriptor(DEPLOYMENT), false).unwrap();
    for text in [
        DEPLOYMENT.replace("O:BA", "O:BU"),
        DEPLOYMENT.replace("D:P", "D:"),
        DEPLOYMENT.replace("0x1200a9", "FA"),
        DEPLOYMENT.replace(";;;BU", ";;;WD"),
        DEPLOYMENT.replace("OICI;", "OI;"),
        DEPLOYMENT.replace("OICI;", "OICIIO;"),
        DEPLOYMENT.replace("OICI;", "OICINP;"),
        DEPLOYMENT.replace("(A;OICI;FA;;;BA)", ""),
        format!("{DEPLOYMENT}(A;OICI;FA;;;BA)"),
    ] {
        assert!(
            validate_descriptor(&descriptor(&text), true).is_err(),
            "{text}"
        );
    }
}

#[test]
fn task_descriptor_allows_only_admin_write_and_bound_user_read_run() {
    let good = sddl(SID);
    let verify = |text: &str| verify_task(text.len(), &descriptor(text), SID);
    verify(&good).unwrap();
    verify(&good.replace("GRGX", "FRFX")).unwrap();
    for text in [
        good.replace("GRGX", "GA"),
        good.replace("GRGX", "GRGWGX"),
        good.replace("O:BA", &format!("O:{SID}")),
        good.replace("D:P", "D:"),
        good.replace(SID, "WD"),
        good.replace("(A;;FA;;;BA)", ""),
        format!("{good}(A;;FA;;;BA)"),
        good.replace("(A;;", "(A;OI;"),
    ] {
        assert!(verify(&text).is_err(), "{text}");
    }
}

#[test]
fn login_acl_and_elevated_event_acl_are_not_interchangeable() {
    let login = login_sddl(SID);
    let event = sddl(SID);
    verify_login(login.len(), &descriptor(&login), SID).unwrap();
    verify_task(event.len(), &descriptor(&event), SID).unwrap();
    assert!(verify_task(login.len(), &descriptor(&login), SID).is_err());
    assert!(verify_login(event.len(), &descriptor(&event), SID).is_err());
    for bad in [
        login.replace("D:P", "D:"),
        login.replace(SID, "WD"),
        format!("{login}(A;;FR;;;WD)"),
        login.replace("(A;;FA;;;BA)", ""),
    ] {
        assert!(verify_login(bad.len(), &descriptor(&bad), SID).is_err());
    }
}

#[test]
fn objects_and_accounts_are_checked() {
    assert!(check_object(0x10, 1, true).is_ok());
    assert!(check_object(0, 1, true).is_err());
    assert!(check_object(0x20, 1, false).is_ok());
    assert!(check_object(0x20, 2, false).is_err());
    assert!(check_object(0x410, 1, true).is_err());
    assert!(user_matches(SID, SID, &Err(Error::Malformed)).unwrap());
    assert!(user_matches("HOST\\user", SID, &Ok((true, SID.to_owned()))).unwrap());
    assert!(!user_matches("HOST\\user", SID, &Ok((true, "S-1-5-18".to_owned()))).unwrap());
}

#[test]
fn first_upgrade_has_no_pending_record() {
    assert!(read_upgrade(Err(Error::Io { code: 2 })).unwrap().is_none());
    assert!(read_upgrade(Err(Error::Io { code: 5 })).is_err());
}

#[test]
fn listener_intent_binds_scope_and_generation_and_rejects_partial_records() {
    let store = Uuid::new_v4();
    let generation = Uuid::new_v4();
    let valid = || listener_record(store, SID, generation);
    assert_eq!(
        read_record(100, Some(valid()), store, SID).unwrap(),
        generation
    );
    let changed = |change: fn(&mut ListenerRecord)| {
        let mut record = valid();
        change(&mut record);
        record
    };
    for record in [
        changed(|r| r.format = "wrong".to_owned()),
        changed(|r| r.store = Uuid::new_v4()),
        changed(|r| r.owner_sid = "S-1-5-18".to_owned()),
        changed(|r| r.generation = NIL),
    ] {
        assert!(read_record(100, Some(record), store, SID).is_err());
    }
    // What does not decode: an unknown field, nothing, a part.
    for length in [0, 1, 120] {
        assert!(read_record(length, None, store, SID).is_err());
    }
    assert!(read_record(RECORD_LIMIT + 1, Some(valid()), store, SID).is_err());
}

#[test]
fn only_missing_installation_objects_are_classified_as_absent() {
    for code in [2, 3] {
        assert!(matches!(
            missing(Error::Io { code }),
            Error::Invalid("GUARD_LISTENER_MISSING")
        ));
    }
    assert!(matches!(missing(Error::Io { code: 5 }), Error::Io { code: 5 }));
    assert!(matches!(
        missing(Error::Windows {
            operation: "fixture",
            code: 2
        }),
        Error::Invalid("GUARD_LISTENER_MISSING")
    ));
    assert!(matches!(
        missing(Error::Windows {
            operation: "fixture",
            code: 5
        }),
        Error::Windows { code: 5, .. }
    ));
    assert!(matches!(
        location("C:\\Users\\one", SID, NIL, true),
        Err(Error::Invalid("GUARD_DEPLOYMENT_ID_REQUIRED"))
    ));
}

fn record() -> Record {
    Record {
        format: "app-proxy-rust-guard-deployment".to_owned(),
        protocol: PROTOCOL,
        store_id: Uuid::new_v4(),
        generation: Uuid::new_v4(),
        owner_sid: SID.to_owned(),
        coordinator_path: r"C:\fixture\app-proxy-host.exe".to_owned(),
        coordinator_image: FileIdentity {
            volume_serial: 1,
            file_index: 2,
        },
        host_image: FileIdentity {
            volume_serial: 1,
            file_index: 3,
        },
        image_size: 10,
        image_sha256: "a".repeat(64),
    }
}

#[test]
fn deployment_record_is_strict_and_bound_to_user_store_generation_and_protocol() {
    let mut record = record();
    let store = record.store_id;
    let generation = record.generation;
    validate_record(&record, SID, store, generation).unwrap();
    assert!(validate_record(&record, "S-1-5-18", store, generation).is_err());
    assert!(validate_record(&record, SID, Uuid::new_v4(), generation).is_err());
    assert!(validate_record(&record, SID, store, Uuid::new_v4()).is_err());
    assert!(validate_record(&record, SID, NIL, generation).is_err());
    record.protocol += 1;
    assert!(validate_record(&record, SID, store, generation).is_err());
    record.protocol = PROTOCOL;
    for hash in ["A".repeat(64), "g".repeat(64), "0".repeat(63)] {
        record.image_sha256 = hash;
        assert!(validate_record(&record, SID, store, generation).is_err());
    }
    record.image_sha256 = "a".repeat(64);
    for path in [
        r"relative.exe",
        r"\\server\share\host.exe",
        r"C:\a\..\host.exe",
        r"C:\host.cmd",
    ] {
        record.coordinator_path = path.to_owned();
        assert!(validate_record(&record, SID, store, generation).is_err());
    }
    assert!(local_exe(r"C:\host.exe").is_ok());
    assert!(ids(store, NIL).is_err());
}

#[test]
fn sparse_or_empty_images_are_bounded_before_read_and_ordinary_stage_does_not_write() {
    for size in [0, IMAGE_LIMIT + 1] {
        assert!(matches!(
            hash(size, &[]),
            Err(Error::Invalid("GUARD_IMAGE_SIZE"))
        ));
    }
    assert!(matches!(
        assert_elevated_user(0, 0),
        Err(Error::Invalid("ELEVATED_USER_REQUIRED"))
    ));
    let store = Uuid::new_v4();
    let host = HostSeen {
        image: file(9),
        size: 1,
        hash: "0".repeat(64),
    };
    let open = |generation: Uuid| {
        let path = "C:\\guard\\app-proxy-host.exe".to_owned();
        Deployment::open_at(0, None, &host, path, SID, store, generation)
    };
    assert!(open(NIL).is_err());
    // Asking for a missing deployment makes none of the directories that lead to it.
    assert!(open(Uuid::new_v4()).is_err());
    assert!(
        location("C:\\Users\\one", SID, store, false)
            .unwrap()
            .iter()
            .all(|place| !place.create)
    );
}

#[test]
fn images_are_bounded_and_hashed_in_pieces() {
    assert!(matches!(
        hash(0, &[]),
        Err(Error::Invalid("GUARD_IMAGE_SIZE"))
    ));
    assert!(matches!(
        hash(IMAGE_LIMIT + 1, &[]),
        Err(Error::Invalid("GUARD_IMAGE_SIZE"))
    ));
    let whole: String = sha2::Sha256::digest(b"abc")
        .iter()
        .map(|b| format!("{b:02x}"))
        .collect();
    assert_eq!(
        whole,
        "ba7816bf8f01cfea414140de5dae2223b00361a396177a9cb410ff61f20015ad"
    );
    assert_eq!(hash(3, &[b"a".to_vec(), b"bc".to_vec()]).unwrap(), whole);
    assert!(hash(4, &[b"abc".to_vec()]).is_err());
}

fn source() -> Source {
    Source {
        path: r"C:\fixture\app-proxy-host.exe".to_owned(),
        image: file(8),
        hash: "b".repeat(64),
        size: 10,
    }
}

#[test]
fn a_copied_generation_opens_and_others_do_not() {
    let store = Uuid::new_v4();
    let (generation, place) = stage("C:\\guard");
    assert_eq!(place, format!("C:\\guard\\{}", generation.to_text()));
    let (id, place) = listener_stage("C:\\guard");
    assert_eq!(
        place,
        format!("C:\\guard\\listener-{}.tmp", id.to_text())
    );
    let copy = |copied: u64, hash: &str| {
        copy_generation(source(), copied, hash, file(9), SID, store, generation)
    };
    assert!(matches!(
        copy(9, &"b".repeat(64)),
        Err(Error::Invalid("GUARD_SOURCE_CHANGED"))
    ));
    assert!(matches!(
        copy(10, &"c".repeat(64)),
        Err(Error::Invalid("GUARD_COPY_MISMATCH"))
    ));
    let open = |hash: &str, index: u64| {
        Deployment::open_at(
            300,
            Some(copy(10, &"b".repeat(64)).unwrap()),
            &HostSeen {
                image: file(index),
                size: 10,
                hash: hash.to_owned(),
            },
            "C:\\guard\\app-proxy-host.exe".to_owned(),
            SID,
            store,
            generation,
        )
    };
    let opened = open(&"b".repeat(64), 9).unwrap();
    assert_eq!(opened.generation(), generation);
    assert_eq!(opened.store_id(), store);
    assert_eq!(opened.host_path(), "C:\\guard\\app-proxy-host.exe");
    assert_eq!(opened.host_image(), file(9));
    assert!(opened.matches_source(&source()));
    assert!(opened.coordinator(source()).is_ok());
    let mut moved = source();
    moved.hash = "d".repeat(64);
    assert!(opened.coordinator(moved).is_err());
    assert!(open(&"e".repeat(64), 9).is_err());
    assert!(open(&"b".repeat(64), 10).is_err());
    let expectation = source().expectation();
    assert!(source().expected(&expectation).is_ok());
    let mut other = source();
    other.size = 11;
    assert!(other.expected(&expectation).is_err());
    assert_eq!(
        install_listener(None, &source(), None).unwrap(),
        InstallStep::Stage
    );
    assert_eq!(
        install_listener(Some(&opened), &source(), None).unwrap(),
        InstallStep::Keep
    );
    let mut newer = source();
    newer.hash = "f".repeat(64);
    assert!(matches!(
        install_listener(Some(&opened), &newer, None),
        Err(Error::Invalid("GUARD_LISTENER_RELEASE_CONFLICT"))
    ));
    assert_eq!(
        install_listener(Some(&opened), &newer, Some(generation)).unwrap(),
        InstallStep::Upgrade
    );
    assert!(check_upgrade_source(&opened, &source()).is_ok());
    assert!(check_upgrade_source(&opened, &newer).is_err());
    newer.path = r"C:\elsewhere\app-proxy-host.exe".to_owned();
    assert!(matches!(
        install_listener(Some(&opened), &newer, Some(generation)),
        Err(Error::Invalid("GUARD_UPDATE_DIRECTORY_CHANGED"))
    ));
}

#[test]
fn an_interrupted_upgrade_goes_on() {
    let from = Uuid::new_v4();
    let to = Uuid::new_v4();
    let pending = Upgrade {
        version: 1,
        from,
        to,
    };
    assert_eq!(upgrade_listener(None, from).unwrap(), UpgradeStep::Stage);
    assert_eq!(
        upgrade_listener(Some(pending), from).unwrap(),
        UpgradeStep::Resume { to }
    );
    assert_eq!(
        upgrade_listener(Some(pending), to).unwrap(),
        UpgradeStep::Forget
    );
    assert!(upgrade_listener(Some(pending), Uuid::new_v4()).is_err());
    assert!(check_intent(to, to).is_ok());
    assert!(matches!(
        check_intent(from, to),
        Err(Error::Invalid("GUARD_LISTENER_INTENT_CHANGED"))
    ));
    assert_eq!(
        diagnostic_name(from, Uuid { bits: 1 }).unwrap(),
        "install-result-00000000-0000-0000-0000-000000000001.json"
    );
    assert!(diagnostic_size(RECORD_LIMIT * 1000).is_err());
}

#[test]
fn deployments_lie_in_a_directory_of_their_user_and_store() {
    let store = Uuid { bits: 3 };
    let places = |profile: &str, create: bool| -> Vec<(String, bool)> {
        location(profile, SID, store, create)
            .unwrap()
            .into_iter()
            .map(|place| (place.path, place.create))
            .collect()
    };
    let base = "C:\\Users\\one\\AppProxy\\guard".to_owned();
    let own = format!("{base}\\{}", scope(SID));
    assert_eq!(
        places("C:\\Users\\one", true),
        [
            ("C:\\Users\\one".to_owned(), false),
            ("C:\\Users\\one\\AppProxy".to_owned(), true),
            (base, true),
            (own.clone(), true),
            (format!("{own}\\00000000-0000-0000-0000-000000000003"), true),
        ]
    );
    assert!(places("C:\\", false).iter().all(|(_, create)| !create));
    assert_eq!(places("C:\\", false)[1].0, "C:\\AppProxy");
}

#[test]
fn issuers_are_the_same_user_in_the_same_session_and_alive() {
    verify_issuer(&current(), &current(), &current()).unwrap();
    let mut wrong = current();
    wrong.creation_time ^= 1;
    assert!(matches!(
        verify_issuer(&current(), &wrong, &current()),
        Err(Error::IdentityMismatch)
    ));
    let mut wrong = current();
    wrong.session_id = wrong.session_id.wrapping_add(1);
    assert!(matches!(
        verify_issuer(&current(), &wrong, &wrong),
        Err(Error::Invalid("GUARD_INSTALL_CONTEXT_MISMATCH"))
    ));
    let mut wrong = current();
    wrong.user_sid.push_str("-1");
    assert!(verify_issuer(&current(), &wrong, &wrong).is_err());
    assert!(issuer_alive(Alive::Running).is_ok());
    assert!(matches!(
        issuer_alive(Alive::Exited),
        Err(Error::Invalid("GUARD_INSTALL_ISSUER_EXITED"))
    ));
    assert!(issuer_alive(Alive::Failed { code: 6 }).is_err());
    let store = Uuid::new_v4();
    assert!(check_install(store, Ok(()), "C:\\a\\App-Proxy-Host.exe").is_ok());
    assert!(matches!(
        check_install(store, Ok(()), "C:\\x\\a:app-proxy-host.exe"),
        Err(Error::Invalid("GUARD_HOST_EXECUTABLE_REQUIRED"))
    ));
    assert!(matches!(
        check_install(store, Ok(()), "C:\\a\\other.exe"),
        Err(Error::Invalid("GUARD_HOST_EXECUTABLE_REQUIRED"))
    ));
    assert!(check_source(r"C:\a\host.exe", r"C:\a\host.exe", true, file(1), file(1)).is_ok());
    assert!(check_source(r"C:\a\host.exe", r"C:\a\host.exe", true, file(1), file(2)).is_err());
}

#[test]
fn strangers_are_waited_out_and_failures_end_the_listener() {
    assert_eq!(accept_step(Accepted::Peer).unwrap(), AcceptStep::Serve);
    assert_eq!(
        accept_step(Accepted::Stranger).unwrap(),
        AcceptStep::WaitAgain
    );
    assert!(matches!(
        accept_step(Accepted::Late),
        Err(Error::Invalid("EVENT_COORDINATOR_TIMEOUT"))
    ));
    assert!(matches!(
        accept_step(Accepted::Failed(Error::Invalid("fixture bind error"))),
        Err(Error::Invalid("fixture bind error"))
    ));
    assert!(check_image(file(1), file(1)).is_ok());
    assert!(check_image(file(1), file(2)).is_err());
}

#[test]
fn the_pump_delivers_its_backlog_and_stops_at_the_end() {
    let mut pump = Pump::new();
    assert_eq!(pump.wake(false, false), None);
    assert_eq!(pump.wake(true, true), Some(Wake::Timer));
    assert_eq!(pump.wake(false, true), Some(Wake::Ready));
    assert!(Pump::flushes(Wake::Timer));
    assert!(!Pump::flushes(Wake::Ready));
    let mut full = largest();
    pump.taken(&full);
    assert_eq!(pump.wake(false, false), Some(Wake::Backlog));
    full.hints.pop();
    pump.taken(&full);
    assert_eq!(pump.wake(false, false), None);
    assert!(matches!(
        Pump::delivered(None, Ok(())),
        Delivery::Continue
    ));
    assert!(matches!(
        Pump::delivered(Some(5), Ok(())),
        Delivery::Ended(Err(Error::Windows {
            operation: "ProcessTraceEnded",
            code: 5
        }))
    ));
    assert!(matches!(
        Pump::delivered(Some(0), Ok(())),
        Delivery::Ended(Ok(()))
    ));
    assert!(matches!(
        Pump::delivered(None, Err(Error::Invalid("fixture disconnected"))),
        Delivery::Ended(Err(Error::Invalid("fixture disconnected")))
    ));
    assert!(finished(Ok(()), Ok(())).is_ok());
    assert!(finished(Ok(()), Err(Error::Malformed)).is_err());
}

#[test]
fn tokens_and_packages_are_read_strictly() {
    assert_eq!(combine(1, 2), 0x1_0000_0002);
    assert_ne!(combine(2, 1), combine(1, 2));
    assert_eq!(
        file_identity(7, 1, 2),
        FileIdentity {
            volume_serial: 7,
            file_index: 0x1_0000_0002
        }
    );
    assert!(assert_ordinary_user(1, 0).is_err());
    assert!(assert_ordinary_user(0, 1).is_err());
    assert!(assert_elevated_user(1, 0).is_ok());
    assert!(!package_present(15700, "PackageFamilyName").unwrap());
    assert!(package_present(122, "PackageFamilyName").unwrap());
    assert!(package_present(5, "PackageFamilyName").is_err());
    let units: Vec<u16> = "Family_1".encode_utf16().chain(Some(0)).collect();
    assert_eq!(
        package_name(0, "PackageFamilyName", units, 9).unwrap(),
        "Family_1"
    );
    assert!(token_size_valid(65536));
    assert!(!token_size_valid(65537));
    let units: Vec<u16> = SID.encode_utf16().collect();
    assert_eq!(sid_text(&units).unwrap(), SID);
    assert!(sid_text(&[0xdc00]).is_err());
}

#[test]
fn upgrades_are_carried_out_in_order_and_stop_at_a_failure() {
    let order = [
        UpgradeAction::WritePlan,
        UpgradeAction::AskIssuer,
        UpgradeAction::Retire,
        UpgradeAction::AskIssuerAgain,
        UpgradeAction::ReplaceRecord,
        UpgradeAction::Register,
        UpgradeAction::Verify,
        UpgradeAction::RemovePlan,
        UpgradeAction::Finished,
    ];
    let mut action = upgrade_begin(false);
    for expected in order {
        assert_eq!(action, expected);
        assert!(matches!(
            upgrade_next(action, Err(Error::Malformed)),
            Err(Error::Malformed)
        ));
        action = upgrade_next(action, Ok(())).unwrap();
    }
    assert_eq!(upgrade_begin(true), UpgradeAction::AskIssuer);
}
