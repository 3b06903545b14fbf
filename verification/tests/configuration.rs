//! Edits of the configuration, requests to the core and updates of a running core.
use std::sync::Arc;

use app_proxy_windows::config_transaction::{
    Applied, ConfigAction, ConfigOutcome, ConfigPhase, ConfigReceipt, ConfigRecord, ConfigRequest,
    ConfigRequestStatus, FileName, Preflight, RETENTION, request_file_id,
};
use app_proxy_windows::core_plan::{self, Draft, Preparation};
use app_proxy_windows::core_requests::{
    CoreAction, CoreOutcome, CoreRequestPhase, UpdateImpact, Version, request_file_ids,
    validate_outcome,
};
use app_proxy_windows::core_state::{Compiled, CoreState};
use app_proxy_windows::core_update::{CoreUpdate, UpdateChange, UpdatePhase};
use app_proxy_windows::error::Error;
use app_proxy_windows::ids::Uuid;
use app_proxy_windows::login_journal::LoginJournal;
use app_proxy_windows::model::{
    Application, ApplicationLocator, Endpoint, FileIdentity, Host, Instance, InstanceData, Manifest,
    NetworkBinding, ProcessIdentity, Profile, ProxySource,
};
use app_proxy_windows::store::{Secret, Store};
use sha2::Digest;

const NOW: u64 = 1_800_000_000;
const OWNER: &str = "S-1-5-21-1-2-3-1001";
fn digest(bytes: &[u8]) -> Vec<u8> {
    sha2::Sha256::digest(bytes).to_vec()
}

const ROOT: &str = "C:\\store";

#[derive(Clone, Debug)]
struct Route {
    id: Uuid,
    name: String,
    revision: u64,
    port: u16,
    node: u16,
    node_id: Uuid,
}

#[derive(Clone, Debug)]
struct Plain {
    store: Uuid,
    revision: u64,
    test_url: String,
    routes: Vec<Route>,
    applications: Vec<Uuid>,
    instances: Vec<(Uuid, Uuid)>,
}

fn manifest(plain: &Plain) -> Arc<Manifest> {
    let rest = format!(
        "{:?}{}{:?}{:?}",
        plain.store, plain.test_url, plain.applications, plain.instances
    );
    Arc::new(Manifest {
        store_id: plain.store,
        owner_sid: OWNER.to_owned(),
        revision: plain.revision,
        profiles: plain
            .routes
            .iter()
            .map(|route| Profile {
                id: route.id,
                name: route.name.clone(),
                revision: route.revision,
                endpoint: Endpoint {
                    host: Host::V4 { bits: 0x7f00_0001 },
                    port: route.port,
                },
                selected_node_id: route.node_id,
                source: ProxySource::Manual {
                    nodes: vec![route.node.to_be_bytes().to_vec()],
                },
                encoded: format!("{route:?}").into_bytes(),
            })
            .collect(),
        applications: plain
            .applications
            .iter()
            .map(|id| Application {
                id: *id,
                locator: ApplicationLocator::Exe {
                    path: format!("C:\\fixture\\{}.exe", id.to_text()),
                },
            })
            .collect(),
        instances: plain
            .instances
            .iter()
            .map(|(id, application_id)| Instance {
                id: *id,
                application_id: *application_id,
                data: InstanceData::Original,
                network: NetworkBinding::Direct,
                guarded: false,
            })
            .collect(),
        login_task: None,
        rest: rest.into_bytes(),
        encoded: format!("{plain:?}").into_bytes(),
        fault: None,
    })
}

fn node(route: &Profile) -> u16 {
    match &route.source {
        ProxySource::Manual { nodes } => u16::from_be_bytes([nodes[0][0], nodes[0][1]]),
        ProxySource::Subscription { .. } => unreachable!(),
    }
}

fn plain(manifest: &Manifest) -> Plain {
    Plain {
        store: manifest.store_id,
        revision: manifest.revision,
        test_url: "https://example.com".to_owned(),
        routes: manifest
            .profiles
            .iter()
            .map(|profile| Route {
                id: profile.id,
                name: profile.name.clone(),
                revision: profile.revision,
                port: profile.endpoint.port,
                node: node(profile),
                node_id: profile.selected_node_id,
            })
            .collect(),
        applications: manifest.applications.iter().map(|a| a.id).collect(),
        instances: manifest
            .instances
            .iter()
            .map(|i| (i.id, i.application_id))
            .collect(),
    }
}

fn create() -> Store {
    let plain = Plain {
        store: Uuid::new_v4(),
        revision: 1,
        test_url: "https://example.com".to_owned(),
        routes: vec![],
        applications: vec![],
        instances: vec![],
    };
    Store {
        manifest: manifest(&plain),
        core: None,
        generations: vec![],
        update: None,
        core_requests: vec![],
        config_requests: vec![],
        start: None,
        login: LoginJournal {
            version: 1,
            store_id: plain.store,
            entries: vec![],
        },
        user_sid: OWNER.to_owned(),
        secrets: vec![],
        other_ids: vec![],
        config_limit: 1 << 20,
    }
}

/// What opening a store again does: interrupted edits are finished.
fn reopen(store: &mut Store) {
    store.recover_config_requests(NOW).unwrap();
}

#[derive(Clone, Debug)]
enum Edit {
    AddApplication(Uuid),
    CreateInstance(Uuid, Uuid),
    RemoveInstance(Uuid),
    CreateProfile(Uuid, u16, u16),
    UpdateProfile(Uuid, u16),
    RenameProfile(Uuid, String),
    RemoveProfile(Uuid),
    EditSecrets(Uuid, Vec<(Uuid, String)>),
}

const PASSWORD: &str = "private-password-fixture";

#[derive(Clone, Debug)]
struct Wanted {
    id: Uuid,
    revision: u64,
    edit: Edit,
}

fn wanted(revision: u64, edit: Edit) -> Wanted {
    Wanted {
        id: Uuid::new_v4(),
        revision,
        edit,
    }
}

fn add(revision: u64) -> Wanted {
    wanted(revision, Edit::AddApplication(Uuid::new_v4()))
}

fn add_proxy() -> Wanted {
    wanted(1, Edit::CreateProfile(Uuid::new_v4(), 29123, 8080))
}

fn request(wanted: &Wanted) -> ConfigRequest {
    ConfigRequest {
        request_id: wanted.id,
        expected_revision: wanted.revision,
        action: match &wanted.edit {
            Edit::CreateProfile(..) => ConfigAction::CreateManualProfile {
                password: Some(PASSWORD.to_owned()),
            },
            Edit::UpdateProfile(profile_id, _) => ConfigAction::UpdateManualProfile {
                profile_id: *profile_id,
                password: Some(PASSWORD.to_owned()),
            },
            Edit::RemoveProfile(profile_id) => ConfigAction::RemoveProfile {
                profile_id: *profile_id,
            },
            Edit::EditSecrets(_, secrets) => ConfigAction::EditInstance {
                secrets: secrets
                    .iter()
                    .map(|(id, value)| Secret {
                        id: *id,
                        value: value.clone(),
                    })
                    .collect(),
            },
            _ => ConfigAction::Other,
        },
        encoded: format!("{wanted:?}").into_bytes(),
    }
}

/// What applying an edit to a snapshot gives.
fn applied_to(base: &Manifest, wanted: &Wanted) -> Applied {
    let mut next = plain(base);
    if wanted.revision != next.revision {
        return Applied::Refused("STALE_MANIFEST_REVISION");
    }
    next.revision += 1;
    let entity_id = match &wanted.edit {
        Edit::AddApplication(id) => {
            next.applications.push(*id);
            *id
        }
        Edit::CreateInstance(id, application) => {
            next.instances.push((*id, *application));
            *id
        }
        Edit::RemoveInstance(id) => {
            next.instances.retain(|(found, _)| found != id);
            *id
        }
        Edit::CreateProfile(id, port, node) => {
            next.routes.push(Route {
                id: *id,
                name: "proxy".to_owned(),
                revision: 1,
                port: *port,
                node: *node,
                node_id: Uuid::new_v4(),
            });
            *id
        }
        Edit::UpdateProfile(id, node) => {
            for route in next.routes.iter_mut().filter(|r| r.id == *id) {
                route.node = *node;
                route.revision += 1;
            }
            *id
        }
        Edit::RenameProfile(id, name) => {
            for route in next.routes.iter_mut().filter(|r| r.id == *id) {
                route.name = name.clone();
                route.revision += 1;
            }
            *id
        }
        Edit::RemoveProfile(id) => {
            next.routes.retain(|r| r.id != *id);
            *id
        }
        Edit::EditSecrets(id, _) => *id,
    };
    Applied::Accepted {
        target: manifest(&next),
        entity_id,
    }
}

fn ids_of(manifest: &Manifest) -> Vec<Uuid> {
    let mut ids: Vec<Uuid> = manifest.profiles.iter().map(|p| p.id).collect();
    ids.sort_by_key(|id| id.bits);
    ids
}

/// The configuration that a snapshot compiles to for some profiles.
fn config(manifest: &Manifest, ids: &[Uuid]) -> Vec<u8> {
    let mut inbounds = vec![];
    let mut outbounds = vec![];
    for id in ids {
        let profile = manifest.profiles.iter().find(|p| p.id == *id).unwrap();
        inbounds.push(format!(
            "{{\"tag\":\"in-{}\",\"type\":\"http\",\"listen\":\"127.0.0.1\",\"listen_port\":{}}}",
            id.to_text(),
            profile.endpoint.port
        ));
        outbounds.push(format!("{}", node(profile)));
    }
    format!(
        "{{\"inbounds\":[{}],\"outbounds\":[{}]}}",
        inbounds.join(","),
        outbounds.join(",")
    )
    .into_bytes()
}

fn compiled(store: &Store, ids: &[Uuid]) -> Compiled {
    let known: Vec<Uuid> = ids_of(&store.manifest);
    if ids.iter().any(|id| !known.contains(id)) {
        return Compiled::Refused("PROFILE_NOT_FOUND");
    }
    Compiled::Config(config(&store.manifest, ids))
}

/// What the configuration compiles to for the profiles of a generation.
fn compiled_for(store: &Store, generation: Uuid) -> Compiled {
    match store.open_core_generation(generation) {
        Ok(found) => compiled(store, &found.profile_ids()),
        Err(_) => Compiled::Refused("CORE_GENERATION_MISSING"),
    }
}

fn apply(store: &mut Store, wanted: &Wanted) -> Result<ConfigOutcome, Error> {
    let applied = applied_to(&store.manifest, wanted);
    store.apply_config(
        &request(wanted),
        applied,
        None,
        Compiled::Config(vec![]),
        NOW,
    )
}

fn applied(outcome: ConfigOutcome, revision: u64) -> Uuid {
    let ConfigOutcome::Applied { receipt } = outcome else {
        panic!("expected applied")
    };
    assert_eq!(receipt.revision, revision);
    receipt.entity_id
}

/// The durable state between accepting an edit and committing it.
fn stage(store: &mut Store, wanted: &Wanted) {
    let outcome = store
        .stage_config(
            &request(wanted),
            Preflight {
                rejection: None,
                applied: applied_to(&store.manifest, wanted),
                shortcut: None,
                compiled: Compiled::Config(vec![]),
            },
            NOW,
        )
        .unwrap();
    assert!(outcome.is_none());
}

fn record(store: &mut Store, id: Uuid) -> &mut ConfigRecord {
    store
        .config_requests
        .iter_mut()
        .find(|r| r.request_id == id)
        .unwrap()
}

fn process() -> ProcessIdentity {
    ProcessIdentity {
        pid: 4242,
        creation_time: 77,
        user_sid: OWNER.to_owned(),
        session_id: 1,
        image_path: "C:\\core\\sing-box.exe".to_owned(),
        image_file: FileIdentity {
            volume_serial: 5,
            file_index: 6,
        },
    }
}

fn generation(store: &mut Store, ids: &[Uuid]) -> Uuid {
    let bytes = config(&store.manifest, ids);
    store.prepare_core_generation(ids, bytes, ROOT).unwrap()
}

fn transition(store: &mut Store, expected: &CoreState, next: CoreState) -> Result<(), Error> {
    let compiled = match next.generation() {
        Some(id) => compiled_for(store, id),
        None => Compiled::Config(vec![]),
    };
    store.transition_core_state(expected, next, &compiled, NOW)
}

fn encoded(action: &CoreAction) -> Vec<u8> {
    format!("{action:?}").into_bytes()
}

fn begin_request(
    store: &mut Store,
    id: Uuid,
    epoch: Uuid,
    mut action: CoreAction,
) -> Result<(CoreRequestPhase, bool), Error> {
    action.normalize()?;
    store.begin_core_request(id, epoch, &encoded(&action), NOW)
}

#[test]
fn deduplicates_across_reopen_and_later_edits() {
    let mut store = create();
    let first = add(1);
    let outcome = apply(&mut store, &first).unwrap();
    let id = applied(outcome, 2);
    applied(apply(&mut store, &add(2)).unwrap(), 3);
    reopen(&mut store);
    assert_eq!(applied(apply(&mut store, &first).unwrap(), 2), id);
    assert_eq!(store.manifest.revision, 3);
    assert_eq!(store.manifest.applications.len(), 2);
    let mut changed = add(3);
    changed.id = first.id;
    assert!(matches!(
        apply(&mut store, &changed),
        Err(Error::Invalid("REQUEST_ID_CONFLICT"))
    ));
    assert!(matches!(
        store.config_request_status(first.id).unwrap(),
        Some(ConfigRequestStatus::Complete { .. })
    ));
    assert!(
        store
            .config_request_status(Uuid::new_v4())
            .unwrap()
            .is_none()
    );
}

#[test]
fn stale_rejection_remains_the_same_after_configuration_changes() {
    let mut store = create();
    let stale = add(99);
    for iteration in 0..2 {
        let ConfigOutcome::Rejected {
            code,
            current_revision,
        } = apply(&mut store, &stale).unwrap()
        else {
            panic!()
        };
        assert_eq!(code, "STALE_MANIFEST_REVISION");
        assert_eq!(current_revision, 1);
        if iteration == 0 {
            applied(apply(&mut store, &add(1)).unwrap(), 2);
        }
    }
    assert_eq!(store.manifest.revision, 2);
}

#[test]
fn retention_removes_only_old_complete_records_and_recovers_old_pending() {
    let mut store = create();
    let first = add(1);
    applied(apply(&mut store, &first).unwrap(), 2);
    let ConfigPhase::Complete { completed_at, .. } = &mut record(&mut store, first.id).phase else {
        panic!()
    };
    *completed_at = NOW - RETENTION - 1;
    let pending = add(2);
    stage(&mut store, &pending);
    record(&mut store, pending.id).accepted_at = 1;
    reopen(&mut store);
    assert!(store.config_request_status(first.id).unwrap().is_none());
    applied(apply(&mut store, &pending).unwrap(), 3);
    assert_eq!(store.manifest.applications.len(), 2);
}

#[test]
fn a_record_at_the_end_of_its_retention_is_kept() {
    let mut store = create();
    let first = add(1);
    applied(apply(&mut store, &first).unwrap(), 2);
    let ConfigPhase::Complete { completed_at, .. } = &mut record(&mut store, first.id).phase else {
        panic!()
    };
    *completed_at = NOW - RETENTION;
    reopen(&mut store);
    assert!(store.config_request_status(first.id).unwrap().is_some());
}

#[test]
fn rejected_proxy_edits_never_stage_passwords_or_change_active_generation() {
    let mut store = create();
    let mut stale = add_proxy();
    stale.revision = 99;
    assert!(matches!(
        apply(&mut store, &stale).unwrap(),
        ConfigOutcome::Rejected { .. }
    ));
    assert!(store.read_secret(stale.id).is_none());
    let first = add_proxy();
    let profile_id = applied(apply(&mut store, &first).unwrap(), 2);
    let active = generation(&mut store, &[profile_id]);
    let starting = CoreState::Starting { generation: active };
    transition(&mut store, &CoreState::Stopped, starting.copy()).unwrap();
    let update = wanted(2, Edit::UpdateProfile(profile_id, 8080));
    assert!(
        matches!(apply(&mut store, &update).unwrap(), ConfigOutcome::Rejected { code, .. } if code == "CORE_RECONFIGURATION_REQUIRED")
    );
    assert!(store.read_secret(update.id).is_none());
    assert!(store.core_state().unwrap().same(&starting));
    let rename = wanted(2, Edit::RenameProfile(profile_id, "new display".to_owned()));
    applied(apply(&mut store, &rename).unwrap(), 3);
    let current = compiled_for(&store, active);
    let opened = store.open_core_generation(active).unwrap();
    assert!(store.core_generation_is_current(opened, &current).unwrap());
    let remove = wanted(3, Edit::RemoveProfile(profile_id));
    assert!(
        matches!(apply(&mut store, &remove).unwrap(), ConfigOutcome::Rejected { code, .. } if code == "CORE_RECONFIGURATION_REQUIRED")
    );
    transition(&mut store, &starting, CoreState::Stopped).unwrap();
    let remove = Wanted {
        id: Uuid::new_v4(),
        ..remove
    };
    applied(apply(&mut store, &remove).unwrap(), 4);
    assert!(store.manifest.profiles.is_empty());
    assert_eq!(store.read_secret(first.id).unwrap(), PASSWORD);
}

#[test]
fn an_interrupted_proxy_edit_prevents_starting_an_old_generation() {
    let mut store = create();
    let first = add_proxy();
    let profile_id = applied(apply(&mut store, &first).unwrap(), 2);
    let old = generation(&mut store, &[profile_id]);
    let update = wanted(2, Edit::UpdateProfile(profile_id, 8081));
    stage(&mut store, &update);
    let mut edited = plain(&store.manifest);
    edited.routes[0].node = 8081;
    let fresh = Compiled::Config(config(&manifest(&edited), &[profile_id]));
    assert!(matches!(
        store.transition_core_state(
            &CoreState::Stopped,
            CoreState::Starting { generation: old },
            &fresh,
            NOW
        ),
        Err(Error::Invalid("CORE_CONFIG_CHANGED"))
    ));
    assert!(store.core_state().unwrap().same(&CoreState::Stopped));
    applied(apply(&mut store, &update).unwrap(), 3);
    let current = generation(&mut store, &[profile_id]);
    transition(
        &mut store,
        &CoreState::Stopped,
        CoreState::Starting {
            generation: current,
        },
    )
    .unwrap();
}

#[test]
fn recovers_both_sides_of_manifest_commit_without_double_application() {
    for committed in [false, true] {
        let mut store = create();
        let edit = add(1);
        stage(&mut store, &edit);
        if committed {
            let ConfigPhase::Pending { target, .. } = &record(&mut store, edit.id).phase else {
                panic!()
            };
            store.manifest = target.clone();
        }
        reopen(&mut store);
        assert!(matches!(
            store.config_request_status(edit.id).unwrap(),
            Some(ConfigRequestStatus::Complete { .. })
        ));
        applied(apply(&mut store, &edit).unwrap(), 2);
        assert_eq!(store.manifest.revision, 2);
        assert_eq!(store.manifest.applications.len(), 1);
    }
}

#[test]
fn a_foreign_snapshot_keeps_the_pending_edit() {
    let mut store = create();
    let edit = add(1);
    stage(&mut store, &edit);
    let mut foreign = plain(&store.manifest);
    foreign.applications.push(Uuid::new_v4());
    store.manifest = manifest(&foreign);
    assert!(matches!(
        store.recover_config_requests(NOW),
        Err(Error::Invalid("CONFIG_TRANSACTION_CONFLICT"))
    ));
    assert!(matches!(
        store.config_request_status(edit.id).unwrap(),
        Some(ConfigRequestStatus::Pending)
    ));
}

#[test]
fn damaged_edit_records_are_refused() {
    let mut store = create();
    let edit = add(1);
    applied(apply(&mut store, &edit).unwrap(), 2);
    record(&mut store, edit.id).schema_version = 2;
    assert!(matches!(
        store.config_request_status(edit.id),
        Err(Error::Invalid("INVALID_CONFIG_REQUEST_RECORD"))
    ));
    record(&mut store, edit.id).schema_version = 1;
    record(&mut store, edit.id).phase = ConfigPhase::Complete {
        outcome: ConfigOutcome::Applied {
            receipt: ConfigReceipt {
                entity_id: Uuid::new_v4(),
                revision: 3,
            },
        },
        completed_at: NOW,
    };
    assert!(matches!(
        store.config_request_status(edit.id),
        Err(Error::Invalid("INVALID_CONFIG_REQUEST_RECORD"))
    ));
    assert!(matches!(
        store.config_request_status(Uuid { bits: 0 }),
        Err(Error::Invalid("INVALID_REQUEST_ID"))
    ));
}

#[test]
fn preflight_decides_before_anything_is_staged() {
    let mut store = create();
    let edit = add_proxy();
    let preflight = |store: &Store, rejection, shortcut| Preflight {
        rejection,
        applied: applied_to(&store.manifest, &edit),
        shortcut,
        compiled: Compiled::Config(vec![]),
    };
    let bad = preflight(&store, Some("not a code"), None);
    assert!(matches!(
        store.apply_config_checked(&request(&edit), bad, NOW),
        Err(Error::Invalid("INVALID_REJECTION_CODE"))
    ));
    let refused = preflight(&store, None, Some("SHORTCUT_EXISTS"));
    let outcome = store
        .apply_config_checked(&request(&edit), refused, NOW)
        .unwrap();
    assert!(
        matches!(outcome, ConfigOutcome::Rejected { code, current_revision: 1 } if code == "SHORTCUT_EXISTS")
    );
    assert!(store.read_secret(edit.id).is_none());
    let mut nil = request(&edit);
    nil.request_id = Uuid { bits: 0 };
    let plain = preflight(&store, None, None);
    assert!(matches!(
        store.apply_config_checked(&nil, plain, NOW),
        Err(Error::Invalid("INVALID_REQUEST_ID"))
    ));
}

#[test]
fn a_snapshot_that_does_not_validate_is_rejected() {
    let mut store = create();
    let edit = add(1);
    let Applied::Accepted { target, entity_id } = applied_to(&store.manifest, &edit) else {
        panic!()
    };
    let mut target = Arc::try_unwrap(target).unwrap();
    target.fault = Some("DUPLICATE_ID");
    let outcome = store
        .apply_config(
            &request(&edit),
            Applied::Accepted {
                target: Arc::new(target),
                entity_id,
            },
            None,
            Compiled::Config(vec![]),
            NOW,
        )
        .unwrap();
    assert!(
        matches!(outcome, ConfigOutcome::Rejected { code, .. } if code == "INVALID_CONFIG_DEPENDENCY")
    );
    assert_eq!(store.manifest.revision, 1);
}

#[test]
fn secrets_are_set_once() {
    let mut store = create();
    let id = Uuid::new_v4();
    store.put_secret_once(id, "first").unwrap();
    store.put_secret_once(id, "first").unwrap();
    assert!(matches!(
        store.put_secret_once(id, "second"),
        Err(Error::Invalid("SECRET_ID_CONFLICT"))
    ));
    assert_eq!(store.read_secret(id).unwrap(), "first");
}

#[test]
fn advanced_edits_stage_their_secrets_once() {
    let mut store = create();
    let app = applied(apply(&mut store, &add(1)).unwrap(), 2);
    let instance = Uuid::new_v4();
    let made = wanted(2, Edit::CreateInstance(instance, app));
    applied(apply(&mut store, &made).unwrap(), 3);
    let secret = Uuid::new_v4();
    let value = "private-settings-secret".to_owned();
    let edit = wanted(3, Edit::EditSecrets(instance, vec![(secret, value.clone())]));
    applied(apply(&mut store, &edit).unwrap(), 4);
    assert_eq!(store.read_secret(secret).unwrap(), value);
    applied(apply(&mut store, &edit).unwrap(), 4);
    let other = wanted(
        4,
        Edit::EditSecrets(instance, vec![(secret, "other-private-value".to_owned())]),
    );
    assert!(apply(&mut store, &other).is_err());
    assert_eq!(store.read_secret(secret).unwrap(), value);
    let removal = wanted(4, Edit::RemoveInstance(instance));
    applied(apply(&mut store, &removal).unwrap(), 5);
    assert!(store.manifest.instances.is_empty());
}

#[test]
fn request_file_names_are_told_apart() {
    let id = Uuid {
        bits: 0x0123_4567_89ab_cdef_0123_4567_89ab_cdef,
    };
    let name = "01234567-89ab-cdef-0123-456789abcdef.json";
    assert_eq!(request_file_id(name), FileName::Record(id));
    assert_eq!(
        request_file_id("01234567-89AB-CDEF-0123-456789ABCDEF.json"),
        FileName::Unknown
    );
    assert_eq!(request_file_id("notes.txt"), FileName::Unknown);
}

#[test]
fn pending_survives_reopen_and_canonical_payloads_deduplicate() {
    let mut store = create();
    let id = Uuid::new_v4();
    let epoch = Uuid::new_v4();
    let first = Uuid::new_v4();
    let second = Uuid::new_v4();
    let action = CoreAction::Start {
        profiles: vec![first, second, first],
        required: first,
    };
    assert!(begin_request(&mut store, id, epoch, action).unwrap().1);
    reopen(&mut store);
    let same = || CoreAction::Start {
        profiles: vec![second, first],
        required: first,
    };
    assert!(
        !begin_request(&mut store, id, Uuid::new_v4(), same())
            .unwrap()
            .1
    );
    assert!(matches!(
        begin_request(&mut store, id, epoch, CoreAction::Stop),
        Err(Error::Invalid("REQUEST_ID_CONFLICT"))
    ));
    assert!(matches!(
        store.finish_core_request(id, Uuid::new_v4(), CoreOutcome::Stopped, NOW),
        Err(Error::Invalid("CORE_REQUEST_OWNER_CHANGED"))
    ));
    assert!(store.has_unresolved_core_requests().unwrap());
    store
        .finish_core_request(
            id,
            epoch,
            CoreOutcome::Failed {
                code: "CORE_BINARY_MISSING".to_owned(),
            },
            NOW,
        )
        .unwrap();
    assert!(!store.has_unresolved_core_requests().unwrap());
    assert!(!begin_request(&mut store, id, epoch, same()).unwrap().1);
}

#[test]
fn clock_rollback_keeps_receipts_readable_and_does_not_block_new_requests() {
    let mut store = create();
    let id = Uuid::new_v4();
    let epoch = Uuid::new_v4();
    begin_request(&mut store, id, epoch, CoreAction::Stop).unwrap();
    let ahead = NOW + 3600;
    store.core_requests[0].accepted_at = ahead;
    store
        .finish_core_request(id, epoch, CoreOutcome::Stopped, NOW)
        .unwrap();
    assert!(
        matches!(store.core_request_status(id).unwrap(), Some(CoreRequestPhase::Complete { completed_at, .. }) if completed_at == ahead)
    );
    assert!(
        begin_request(&mut store, Uuid::new_v4(), epoch, CoreAction::Stop)
            .unwrap()
            .1
    );
}

#[test]
fn request_ids_cannot_cross_operation_namespaces() {
    let mut store = create();
    let id = Uuid::new_v4();
    let epoch = Uuid::new_v4();
    begin_request(&mut store, id, epoch, CoreAction::Stop).unwrap();
    let mut taken = add(1);
    taken.id = id;
    assert!(matches!(
        apply(&mut store, &taken),
        Err(Error::Invalid("REQUEST_ID_CONFLICT"))
    ));
    let other = add(1);
    apply(&mut store, &other).unwrap();
    assert!(matches!(
        begin_request(&mut store, other.id, epoch, CoreAction::Stop),
        Err(Error::Invalid("REQUEST_ID_CONFLICT"))
    ));
}

#[test]
fn retention_preserves_unresolved_requests_and_rejects_corruption() {
    let mut store = create();
    let epoch = Uuid::new_v4();
    let mut ids = Vec::new();
    for terminal in [
        None,
        Some(CoreOutcome::Stopped),
        Some(CoreOutcome::Indeterminate {
            code: "CORE_OPERATION_RESULT_UNKNOWN".to_owned(),
        }),
    ] {
        let id = Uuid::new_v4();
        begin_request(&mut store, id, epoch, CoreAction::Stop).unwrap();
        let record = store.core_requests.last_mut().unwrap();
        assert_eq!(record.request_id, id);
        record.accepted_at = NOW - app_proxy_windows::core_requests::RETENTION - 10;
        if let Some(outcome) = terminal {
            record.phase = CoreRequestPhase::Complete {
                outcome,
                completed_at: record.accepted_at,
            };
        }
        ids.push(id);
    }
    store.prune_core_requests(NOW).unwrap();
    assert!(store.core_request_status(ids[0]).unwrap().is_some());
    assert!(store.core_request_status(ids[1]).unwrap().is_none());
    assert!(store.core_request_status(ids[2]).unwrap().is_some());
    store
        .core_requests
        .iter_mut()
        .find(|r| r.request_id == ids[0])
        .unwrap()
        .store_id = Uuid::new_v4();
    assert!(store.core_request_status(ids[0]).is_err());
    assert!(begin_request(&mut store, Uuid::new_v4(), epoch, CoreAction::Stop).is_err());
}

#[test]
fn core_outcomes_are_checked() {
    let failed = |code: &str| CoreOutcome::Failed {
        code: code.to_owned(),
    };
    assert!(validate_outcome(&failed("CORE_BINARY_MISSING"), OWNER).is_ok());
    assert!(matches!(
        validate_outcome(&failed("private words"), OWNER),
        Err(Error::Invalid("INVALID_CORE_REQUEST_OUTCOME"))
    ));
    assert!(
        validate_outcome(
            &CoreOutcome::Installed {
                version: Version {
                    text: "1.2.3".to_owned(),
                    valid: false
                }
            },
            OWNER
        )
        .is_err()
    );
    let mut foreign = process();
    foreign.user_sid = "S-1-5-18".to_owned();
    assert!(
        validate_outcome(
            &CoreOutcome::Ready {
                generation: Uuid::new_v4(),
                process: foreign
            },
            OWNER
        )
        .is_err()
    );
}

#[test]
fn request_directories_hold_records_and_temporary_files_only() {
    let id = Uuid::new_v4();
    let names = vec![format!("{}.json", id.to_text())];
    assert_eq!(
        request_file_ids(&names, "INVALID_CORE_REQUEST_FILE").unwrap(),
        [id]
    );
    let names = vec!["stray.txt".to_owned()];
    assert!(matches!(
        request_file_ids(&names, "INVALID_CORE_REQUEST_FILE"),
        Err(Error::Invalid("INVALID_CORE_REQUEST_FILE"))
    ));
}

fn setup() -> (Store, Uuid) {
    let mut store = create();
    let profile = Uuid::new_v4();
    let made = wanted(1, Edit::CreateProfile(profile, 29001, 8080));
    apply(&mut store, &made).unwrap();
    let active = generation(&mut store, &[profile]);
    let starting = CoreState::Starting { generation: active };
    transition(&mut store, &CoreState::Stopped, starting.copy()).unwrap();
    transition(
        &mut store,
        &starting,
        CoreState::Running {
            generation: active,
            process: process(),
        },
    )
    .unwrap();
    (store, profile)
}

/// Make the candidate of a draft.
fn complete(store: &mut Store, draft: Draft, replay: Option<Vec<u8>>) -> CoreUpdate {
    let before_ids = store
        .open_core_generation(draft.generation)
        .unwrap()
        .profile_ids();
    let before_config = Compiled::Config(config(&draft.before, &before_ids));
    let after = draft.after.clone();
    let profiles = draft.profiles.clone();
    let (candidate, after_config) = if profiles.is_empty() {
        (draft.generation, Compiled::Config(vec![]))
    } else {
        let bytes = config(&after, &profiles);
        let candidate = store
            .prepare_core_generation_for(&after, &profiles, bytes.clone(), ROOT)
            .unwrap();
        (candidate, Compiled::Config(bytes))
    };
    draft.complete(candidate, before_config, after_config, replay)
}

fn plan_edit(store: &mut Store, wanted: &Wanted) -> CoreUpdate {
    let applied = applied_to(&store.manifest, wanted);
    let replay = match &applied {
        Applied::Accepted { target, .. } => Some(target.encoded.clone()),
        Applied::Refused(_) => None,
    };
    let current = match store.core_state().unwrap().generation() {
        Some(id) => compiled_for(store, id),
        None => Compiled::Refused("CORE_UPDATE_REQUIRES_RUNNING"),
    };
    let draft = store
        .prepare_core_update(&request(wanted), applied, &current, NOW)
        .unwrap();
    complete(store, draft, replay)
}

fn expansion(
    store: &mut Store,
    id: Uuid,
    revision: u64,
    profiles: &[Uuid],
    required: Uuid,
) -> Result<CoreUpdate, Error> {
    let active = store.core_state().unwrap().generation().unwrap();
    let current = compiled_for(store, active);
    let draft = store.prepare_core_expansion(id, revision, profiles, required, &current, NOW)?;
    Ok(complete(store, draft, None))
}

fn publish(store: &mut Store, plan: CoreUpdate) -> Result<UpdateImpact, Error> {
    store.publish_core_update(plan, b"{}", b"", b"", NOW)
}

fn prepare(store: &mut Store, profile: Uuid) -> UpdateImpact {
    let edit = wanted(store.manifest.revision, Edit::UpdateProfile(profile, 8081));
    let plan = plan_edit(store, &edit);
    publish(store, plan).unwrap()
}

fn apply_action(plan_id: Uuid) -> Vec<u8> {
    encoded(&CoreAction::ApplyUpdate { plan_id })
}

fn begin(store: &mut Store, id: Uuid) {
    let request = Uuid::new_v4();
    begin_request(
        store,
        request,
        Uuid::new_v4(),
        CoreAction::ApplyUpdate { plan_id: id },
    )
    .unwrap();
    let told = store
        .start_core_update(id, request, &apply_action(id), Ok(()), NOW)
        .unwrap();
    assert_eq!(told.execution_request, Some(request));
}

fn switch(store: &mut Store, id: Uuid, expected: &CoreState, next: CoreState) -> Result<(), Error> {
    let compiled = match (store.require_core_update(id), next.generation()) {
        (Ok(plan), Some(generation)) => {
            let ids = store
                .open_core_generation(generation)
                .unwrap()
                .profile_ids();
            let source = if generation == plan.candidate && !plan.removes_last() {
                &plan.after
            } else {
                &plan.before
            };
            Compiled::Config(config(source, &ids))
        }
        _ => Compiled::Config(vec![]),
    };
    store.transition_core_update(id, expected, next, &compiled)
}

struct Known {
    previous: CoreState,
    old: Uuid,
    candidate: Uuid,
    before_revision: u64,
    before: Arc<Manifest>,
    after: Arc<Manifest>,
}

fn known(store: &Store, id: Uuid) -> Known {
    let plan = store.require_core_update(id).unwrap();
    Known {
        previous: plan.previous.copy(),
        old: plan.old_generation().unwrap(),
        candidate: plan.candidate,
        before_revision: plan.before.revision,
        before: plan.before.clone(),
        after: plan.after.clone(),
    }
}

fn candidate_running(store: &mut Store, id: Uuid) {
    let plan = known(store, id);
    let down = CoreState::Down {
        generation: plan.old,
    };
    switch(store, id, &plan.previous, down.copy()).unwrap();
    let starting = CoreState::Starting {
        generation: plan.candidate,
    };
    switch(store, id, &down, starting.copy()).unwrap();
    switch(
        store,
        id,
        &starting,
        CoreState::Running {
            generation: plan.candidate,
            process: process(),
        },
    )
    .unwrap();
}

fn add_route(store: &mut Store) -> Uuid {
    let added = Uuid::new_v4();
    let edit = wanted(
        store.manifest.revision,
        Edit::CreateProfile(added, 29002, 8082),
    );
    apply(store, &edit).unwrap();
    added
}

#[test]
fn expansion_preserves_old_routes_and_manifest_across_commit_recovery() {
    let (mut store, old) = setup();
    let added = add_route(&mut store);
    let before = store.manifest.clone();
    let revision = before.revision;
    assert!(matches!(
        expansion(&mut store, Uuid::new_v4(), revision - 1, &[added], added),
        Err(Error::Invalid("STALE_MANIFEST_REVISION"))
    ));
    assert!(matches!(
        expansion(&mut store, Uuid::new_v4(), revision, &[old], old),
        Err(Error::Invalid("CORE_PROFILE_SET_UNCHANGED"))
    ));
    assert!(expansion(&mut store, Uuid::new_v4(), revision, &[added], old).is_err());
    let id = Uuid::new_v4();
    let mut action = CoreAction::PrepareExpand {
        expected_revision: revision,
        profiles: vec![added, added],
        required: added,
    };
    action.normalize().unwrap();
    let preparation = encoded(&action);
    begin_request(&mut store, id, Uuid::new_v4(), action).unwrap();
    let plan = expansion(&mut store, id, revision, &[added, added], added).unwrap();
    let previous = plan.previous.copy();
    let impact = publish(&mut store, plan).unwrap();
    assert_eq!(impact.affected_profiles, [old]);
    assert_eq!(impact.added_profiles, [added]);
    assert_eq!(impact.changed_profile, added);
    assert!(matches!(
        core_plan::preparation(store.require_core_update(id).unwrap()).unwrap(),
        Preparation::Expand { expected_revision, profiles, required }
            if expected_revision == revision && profiles == [added] && required == added
    ));
    assert!(store.core_state().unwrap().same(&previous));
    assert!(store.manifest.same(&before));
    let carried_out = apply_action(id);
    store
        .resolve_core_update_request(id, None, &preparation, &carried_out, NOW)
        .unwrap();
    assert!(!store.has_unresolved_core_requests().unwrap());
    begin(&mut store, id);
    candidate_running(&mut store, id);
    store.begin_core_commit(id).unwrap();
    assert!(matches!(
        store.require_core_update(id).unwrap().phase,
        UpdatePhase::Committing
    ));
    reopen(&mut store);
    assert_eq!(store.commit_core_update(id).unwrap(), revision);
    assert!(store.manifest.same(&before));
    store
        .resolve_core_update_request(id, None, &preparation, &carried_out, NOW)
        .unwrap();
    assert!(!store.has_unresolved_core_requests().unwrap());
    let candidate = store.require_core_update(id).unwrap().candidate;
    assert_eq!(
        store
            .open_core_generation(candidate)
            .unwrap()
            .profiles()
            .len(),
        2
    );
}

#[test]
fn expansion_rejects_snapshot_mutation_and_removal_from_candidate() {
    let (mut store, old) = setup();
    let added = add_route(&mut store);
    let revision = store.manifest.revision;
    let mut plan = expansion(&mut store, Uuid::new_v4(), revision, &[added], added).unwrap();
    let mut altered = plain(&plan.after);
    altered.test_url = "https://altered.example".to_owned();
    plan.after = manifest(&altered);
    assert!(publish(&mut store, plan).is_err());
    let mut plan = expansion(&mut store, Uuid::new_v4(), revision, &[added], added).unwrap();
    plan.candidate = generation(&mut store, &[added]);
    assert!(publish(&mut store, plan).is_err());
    let mut plan = expansion(&mut store, Uuid::new_v4(), revision, &[added], added).unwrap();
    plan.change = UpdateChange::Expand {
        profiles: vec![old],
    };
    assert!(publish(&mut store, plan).is_err());
    assert!(store.core_update().unwrap().is_none());
    assert_eq!(store.manifest.revision, revision);
}

#[test]
fn a_plan_of_another_revision_or_name_is_not_started() {
    let (mut store, profile) = setup();
    let before = store.manifest.clone();
    let impact = prepare(&mut store, profile);
    assert!(store.manifest.same(&before));
    assert_eq!(impact.affected_profiles, [profile]);
    assert!(matches!(
        core_plan::preparation(store.require_core_update(impact.plan_id).unwrap()).unwrap(),
        Preparation::Update { profile_id, node, .. }
            if profile_id == profile && node == 8081_u16.to_be_bytes()
    ));
    assert!(matches!(
        store.require_core_update(Uuid::new_v4()),
        Err(Error::Invalid("CORE_UPDATE_PLAN_CHANGED"))
    ));
    let rename = wanted(
        before.revision,
        Edit::RenameProfile(profile, "changed while reviewing".to_owned()),
    );
    apply(&mut store, &rename).unwrap();
    let execution = Uuid::new_v4();
    begin_request(
        &mut store,
        execution,
        Uuid::new_v4(),
        CoreAction::ApplyUpdate {
            plan_id: impact.plan_id,
        },
    )
    .unwrap();
    assert!(matches!(
        store.start_core_update(
            impact.plan_id,
            execution,
            &apply_action(impact.plan_id),
            Ok(()),
            NOW
        ),
        Err(Error::Invalid("CORE_UPDATE_PLAN_STALE"))
    ));
    assert!(matches!(
        store.core_update().unwrap().unwrap().phase,
        UpdatePhase::Prepared
    ));
}

#[test]
fn last_profile_removal_requires_stop_and_recovers_commit_on_both_sides() {
    for after_manifest_write in [false, true] {
        let (mut store, profile) = setup();
        let revision = store.manifest.revision;
        let plan = plan_edit(&mut store, &wanted(revision, Edit::RemoveProfile(profile)));
        assert!(plan.removes_last());
        let impact = publish(&mut store, plan).unwrap();
        assert_eq!(impact.removed_profiles, [profile]);
        assert_eq!(store.manifest.profiles.len(), 1);
        let id = impact.plan_id;
        begin(&mut store, id);
        assert!(store.commit_core_update(id).is_err());
        let plan = known(&store, id);
        let down = CoreState::Down {
            generation: plan.old,
        };
        switch(&mut store, id, &plan.previous, down.copy()).unwrap();
        switch(&mut store, id, &down, CoreState::Stopped).unwrap();
        store.begin_core_commit(id).unwrap();
        if after_manifest_write {
            store.manifest = plan.after.clone();
        }
        reopen(&mut store);
        assert_eq!(store.commit_core_update(id).unwrap(), revision + 1);
        assert!(store.manifest.profiles.is_empty());
        assert!(store.core_state().unwrap().same(&CoreState::Stopped));
        assert!(
            matches!(store.require_core_update(id).unwrap().result, Some(CoreOutcome::ProfileRemoved { profile_id, revision: r }) if profile_id == profile && r == revision + 1)
        );
    }
}

#[test]
fn removal_rejects_stale_confirmation_and_changed_target_snapshot() {
    let (mut store, profile) = setup();
    let revision = store.manifest.revision;
    let mut plan = plan_edit(&mut store, &wanted(revision, Edit::RemoveProfile(profile)));
    let mut altered = plain(&plan.after);
    altered.test_url = "https://different.invalid/".to_owned();
    plan.after = manifest(&altered);
    assert!(publish(&mut store, plan).is_err());
    let plan = plan_edit(&mut store, &wanted(revision, Edit::RemoveProfile(profile)));
    let impact = publish(&mut store, plan).unwrap();
    let mut renamed = plain(&store.manifest);
    renamed.routes[0].name = "renamed".to_owned();
    renamed.revision += 1;
    store.manifest = manifest(&renamed);
    let id = Uuid::new_v4();
    begin_request(
        &mut store,
        id,
        Uuid::new_v4(),
        CoreAction::ApplyUpdate {
            plan_id: impact.plan_id,
        },
    )
    .unwrap();
    assert!(
        store
            .start_core_update(
                impact.plan_id,
                id,
                &apply_action(impact.plan_id),
                Ok(()),
                NOW
            )
            .is_err()
    );
    assert!(matches!(
        store.core_state().unwrap(),
        CoreState::Running { .. }
    ));
}

#[test]
fn switching_blocks_other_writes_and_commit_is_recoverable_on_both_sides() {
    for after_manifest in [false, true] {
        let (mut store, profile) = setup();
        let impact = prepare(&mut store, profile);
        let id = impact.plan_id;
        begin(&mut store, id);
        let plan = known(&store, id);
        assert!(store.ensure_core_update_idle().is_err());
        let rename = wanted(
            plan.before_revision,
            Edit::RenameProfile(profile, "blocked".to_owned()),
        );
        assert!(apply(&mut store, &rename).is_err());
        assert!(transition(&mut store, &plan.previous, CoreState::Stopped).is_err());
        candidate_running(&mut store, id);
        store.begin_core_commit(id).unwrap();
        if after_manifest {
            store.manifest = plan.after.clone();
        }
        assert!(store.ensure_core_update_idle().is_err());
        assert_eq!(
            store.commit_core_update(id).unwrap(),
            plan.before_revision + 1
        );
        store
            .resolve_core_update_request(id, None, b"", &apply_action(id), NOW)
            .unwrap();
        assert!(!store.has_unresolved_core_requests().unwrap());
        assert!(store.ensure_core_update_idle().is_ok());
        assert!(matches!(
            store.core_update().unwrap().unwrap().result,
            Some(CoreOutcome::Reconfigured { .. })
        ));
        assert_eq!(store.manifest.revision, plan.before_revision + 1);
    }
}

#[test]
fn failed_restore_retains_old_generation_and_unknown_start_cannot_claim_completion() {
    let (mut store, profile) = setup();
    let impact = prepare(&mut store, profile);
    let id = impact.plan_id;
    begin(&mut store, id);
    let plan = known(&store, id);
    let down = CoreState::Down {
        generation: plan.old,
    };
    switch(&mut store, id, &plan.previous, down.copy()).unwrap();
    let starting = CoreState::Starting {
        generation: plan.candidate,
    };
    switch(&mut store, id, &down, starting.copy()).unwrap();
    let told = store.begin_core_restore(id).unwrap();
    assert!(matches!(told.phase, UpdatePhase::Restoring));
    assert!(store.finish_core_restore(id, true).is_err());
    assert!(store.mark_core_restore_down(id).is_err());
    // The caller has now confirmed that this start never happened.
    switch(
        &mut store,
        id,
        &starting,
        CoreState::Down {
            generation: plan.candidate,
        },
    )
    .unwrap();
    store.mark_core_restore_down(id).unwrap();
    store.finish_core_restore(id, true).unwrap();
    assert!(store.manifest.same(&plan.before));
    assert!(store.core_state().unwrap().same(&down));
    store
        .resolve_core_update_request(id, None, b"", &apply_action(id), NOW)
        .unwrap();
    assert!(!store.has_unresolved_core_requests().unwrap());
}

#[test]
fn a_damaged_plan_is_refused_and_left_alone() {
    let (mut store, profile) = setup();
    let impact = prepare(&mut store, profile);
    let before = known(&store, impact.plan_id).before;
    let plan = store.update.as_mut().unwrap();
    let mut altered = plain(&plan.after);
    altered.test_url = "https://changed.example".to_owned();
    plan.after = manifest(&altered);
    assert!(store.core_update().is_err());
    assert!(store.update.is_some());
    assert!(store.manifest.same(&before));
}

#[test]
fn update_receipts_answer_only_the_action_they_are_of() {
    let (mut store, profile) = setup();
    let impact = prepare(&mut store, profile);
    let id = impact.plan_id;
    let unrelated = Uuid::new_v4();
    begin_request(&mut store, unrelated, Uuid::new_v4(), CoreAction::Stop).unwrap();
    assert!(matches!(
        store.start_core_update(
            id,
            unrelated,
            &apply_action(id),
            Err(Error::Invalid("CORE_LAUNCH_PENDING")),
            NOW
        ),
        Err(Error::Invalid("CORE_LAUNCH_PENDING"))
    ));
    assert!(matches!(
        store.start_core_update(id, unrelated, &apply_action(id), Ok(()), NOW),
        Err(Error::Invalid("CORE_UPDATE_REQUEST_MISMATCH"))
    ));
    begin(&mut store, id);
    candidate_running(&mut store, id);
    store.commit_core_update(id).unwrap();
    store.update.as_mut().unwrap().execution_request = Some(unrelated);
    let before = format!("{:?}", store.core_requests);
    assert!(matches!(
        store.resolve_core_update_request(id, None, b"", &apply_action(id), NOW),
        Err(Error::Invalid("CORE_UPDATE_REQUEST_MISMATCH"))
    ));
    assert_eq!(before, format!("{:?}", store.core_requests));
}

#[test]
fn generations_are_checked_when_they_are_opened() {
    let (mut store, profile) = setup();
    let active = generation(&mut store, &[profile]);
    let opened = store.open_core_generation(active).unwrap();
    assert_eq!(opened.profile_ids(), [profile]);
    assert_eq!(opened.id(), active);
    assert_eq!(
        opened.config_path(),
        format!(
            "{ROOT}\\state/core/generations/{}\\config.json",
            active.to_text()
        )
    );
    assert_eq!(opened.header.digest, digest(&opened.config));
    assert!(matches!(
        store.open_core_generation(Uuid { bits: 0 }),
        Err(Error::Invalid("INVALID_CORE_GENERATION"))
    ));
    let last = store.generations.len() - 1;
    store.generations[last].config.push(b' ');
    assert!(matches!(
        store.open_core_generation(active),
        Err(Error::Invalid("CORE_CONFIG_DIGEST_MISMATCH"))
    ));
    store.generations[last].config = b"{\"inbounds\":[]}".to_vec();
    store.generations[last].header.digest = digest(b"{\"inbounds\":[]}");
    assert!(matches!(
        store.open_core_generation(active),
        Err(Error::Invalid("CORE_PROFILE_MAPPING_MISMATCH"))
    ));
    store.generations[last].config = b"{}".to_vec();
    store.generations[last].header.digest = digest(b"{}");
    assert!(matches!(
        store.open_core_generation(active),
        Err(Error::Invalid("CORE_PROFILE_MAPPING_MISMATCH"))
    ));
    store.generations[last].config = b"broken".to_vec();
    store.generations[last].header.digest = digest(b"broken");
    assert!(matches!(
        store.open_core_generation(active),
        Err(Error::Malformed)
    ));
    store.generations[last].header.profiles.clear();
    assert!(matches!(
        store.open_core_generation(active),
        Err(Error::Invalid("CORE_GENERATION_HEADER_MISMATCH"))
    ));
}

#[test]
fn answers_outlive_the_removal_of_other_receipts() {
    let mut store = create();
    let old = add(1);
    applied(apply(&mut store, &old).unwrap(), 2);
    let kept = add(2);
    let id = applied(apply(&mut store, &kept).unwrap(), 3);
    let later = NOW + RETENTION;
    if let ConfigPhase::Complete { completed_at, .. } = &mut record(&mut store, old.id).phase {
        *completed_at = NOW - 1;
    }
    let outcome = store
        .apply_config(
            &request(&kept),
            Applied::Refused("NOT_LOOKED_AT"),
            None,
            Compiled::Config(vec![]),
            later,
        )
        .unwrap();
    assert_eq!(applied(outcome, 3), id);
    assert_eq!(store.manifest.revision, 3);
    assert!(store.read_record(old.id).unwrap().is_none());
    assert_eq!(store.read_record(kept.id).unwrap().unwrap().request_id, kept.id);
    let mut other = add(7);
    other.id = kept.id;
    assert!(matches!(
        store.apply_config(
            &request(&other),
            Applied::Refused("NOT_LOOKED_AT"),
            None,
            Compiled::Config(vec![]),
            later,
        ),
        Err(Error::Invalid("REQUEST_ID_CONFLICT"))
    ));
    assert_eq!(store.manifest.revision, 3);
}

#[test]
fn shortcut_rules_reject_an_edit_without_a_preflight() {
    let mut store = create();
    let edit = add(1);
    let applied = applied_to(&store.manifest, &edit);
    let outcome = store
        .apply_config(
            &request(&edit),
            applied,
            Some("SHORTCUT_IN_USE"),
            Compiled::Config(vec![]),
            NOW,
        )
        .unwrap();
    assert!(matches!(outcome, ConfigOutcome::Rejected { code, .. } if code == "SHORTCUT_IN_USE"));
    assert_eq!(store.manifest.revision, 1);
}

#[test]
fn published_impacts_are_bounded() {
    let (mut store, profile) = setup();
    let edit = wanted(store.manifest.revision, Edit::UpdateProfile(profile, 8081));
    let plan = plan_edit(&mut store, &edit);
    let long = vec![b'x'; core_plan::IMPACT_LIMIT + 1];
    assert!(matches!(
        store.publish_core_update(plan, &long, b"", b"", NOW),
        Err(Error::Invalid("CORE_UPDATE_IMPACT_SIZE"))
    ));
    assert!(store.core_update().unwrap().is_none());
    let edit = wanted(store.manifest.revision, Edit::UpdateProfile(profile, 8082));
    let plan = plan_edit(&mut store, &edit);
    assert!(
        store
            .publish_core_update(plan, &long[1..], b"", b"", NOW)
            .is_ok()
    );
}

#[test]
fn expansions_keep_the_revision() {
    let (mut store, _) = setup();
    let added = Uuid::new_v4();
    let edit = wanted(
        store.manifest.revision,
        Edit::CreateProfile(added, 29002, 8085),
    );
    apply(&mut store, &edit).unwrap();
    let revision = store.manifest.revision;
    let mut plan = expansion(&mut store, Uuid::new_v4(), revision, &[added], added).unwrap();
    let mut after = plain(&plan.after);
    after.revision += 1;
    let mut moved = Arc::try_unwrap(manifest(&after)).unwrap();
    moved.encoded = plan.before.encoded.clone();
    plan.after = Arc::new(moved);
    assert!(matches!(
        publish(&mut store, plan),
        Err(Error::Invalid("INVALID_CORE_UPDATE_RECORD"))
    ));
    let plan = expansion(&mut store, Uuid::new_v4(), revision, &[added], added).unwrap();
    publish(&mut store, plan).unwrap();
}

#[test]
fn the_core_moves_along_the_allowed_steps_only() {
    let (mut store, _) = setup();
    let running = store.core_state().unwrap();
    let generation = running.generation().unwrap();
    let starting = CoreState::Starting { generation };
    let down = CoreState::Down { generation };
    assert!(matches!(
        transition(&mut store, &starting, down.copy()),
        Err(Error::Invalid("CORE_STATE_CHANGED"))
    ));
    assert!(matches!(
        transition(&mut store, &running, starting.copy()),
        Err(Error::Invalid("INVALID_CORE_STATE_TRANSITION"))
    ));
    assert!(store.core_state().unwrap().same(&running));
    transition(&mut store, &running, down.copy()).unwrap();
    transition(&mut store, &down, starting.copy()).unwrap();
    transition(&mut store, &starting, CoreState::Stopped).unwrap();
    assert!(store.core_state().unwrap().same(&CoreState::Stopped));
}

#[test]
fn pending_edits_end_as_the_configuration_decides() {
    // Neither side of the edit is a conflict, and nothing changes.
    let mut store = create();
    let edit = add(1);
    stage(&mut store, &edit);
    let own = store.manifest.clone();
    let mut foreign = plain(&store.manifest);
    foreign.applications.push(Uuid::new_v4());
    store.manifest = manifest(&foreign);
    let before = format!("{:?}", store.config_requests);
    assert!(matches!(
        store.finish(0, NOW),
        Err(Error::Invalid("CONFIG_TRANSACTION_CONFLICT"))
    ));
    assert_eq!(format!("{:?}", store.config_requests), before);
    assert_eq!(store.manifest.encoded, manifest(&foreign).encoded);
    // The configuration that it started from is replaced, once.
    store.manifest = own;
    let id = applied(store.finish(0, NOW).unwrap(), 2);
    assert_eq!(store.manifest.revision, 2);
    assert_eq!(applied(store.finish(0, NOW + 1).unwrap(), 2), id);
    assert_eq!(store.manifest.revision, 2);
}
