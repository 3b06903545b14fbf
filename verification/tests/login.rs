//! The login task: what it is, and the journal of requests for it.
use std::sync::Arc;

use app_proxy_windows::config_transaction::{
    Applied, ConfigAction, ConfigRequest, Preflight,
};
use app_proxy_windows::core_requests::RETENTION;
use app_proxy_windows::core_state::Compiled;
use app_proxy_windows::error::Error;
use app_proxy_windows::guard_task::{Account, Trigger, build, verify_definition};
use app_proxy_windows::ids::Uuid;
use app_proxy_windows::login::{
    Registration, StoreDescriptor, authorized, quote_windows_word, task_path,
};
use app_proxy_windows::login_journal::{
    Action, Completion, ENTRIES, Entry, JOURNAL_LIMIT, Job, LoginJournal, LoginPlan, Measured, Preparation, Request, Status, Step,
    reserve_capacity, valid_request, validate,
};
use app_proxy_windows::model::{
    Application, ApplicationLocator, Encoding, Instance, InstanceData, LoginTask, Manifest,
    NetworkBinding,
};
use app_proxy_windows::security::{Ace, Descriptor, login_sddl, verify_login};
use app_proxy_windows::store::Store;

const NOW: u64 = 1_800_000_000;
const SID: &str = "S-1-5-21-1-2-3-1001";
const NIL: Uuid = Uuid { bits: 0 };
const MARKER: &str = "app-proxy-rust:event-task:v1";

fn manifest(
    store_id: Uuid,
    revision: u64,
    names: &str,
    guarded: bool,
    login_task: Option<LoginTask>,
) -> Arc<Manifest> {
    let application = Uuid { bits: 11 };
    let encoded = format!("{store_id:?}{revision}{names}{guarded}{login_task:?}").into_bytes();
    Arc::new(Manifest {
        store_id,
        owner_sid: SID.to_owned(),
        revision,
        profiles: vec![],
        applications: vec![Application {
            id: application,
            locator: ApplicationLocator::Exe {
                path: "C:\\missing fixture.exe".to_owned(),
            },
        }],
        instances: vec![Instance {
            id: Uuid { bits: 12 },
            application_id: application,
            data: InstanceData::Original,
            network: NetworkBinding::Direct,
            guarded,
        }],
        login_task,
        rest: names.as_bytes().to_vec(),
        encoded,
        fault: None,
    })
}

struct Fixture {
    store: Store,
    registration: Registration,
}

impl Fixture {
    fn new() -> Self {
        let store_id = Uuid::new_v4();
        let store = Store {
            manifest: manifest(store_id, 2, "fixture", true, None),
            core: None,
            generations: vec![],
            update: None,
            core_requests: vec![],
            config_requests: vec![],
            start: None,
            login: LoginJournal {
                version: 1,
                store_id,
                entries: vec![],
            },
            user_sid: SID.to_owned(),
            secrets: vec![],
            other_ids: vec![],
            config_limit: 1 << 20,
        };
        let registration = Registration {
            store_id,
            owner_sid: SID.to_owned(),
            home: "C:\\fixture\\store".to_owned(),
            host: "C:\\missing release\\app-proxy-host.exe".to_owned(),
        };
        Self {
            store,
            registration,
        }
    }

    fn plan(&self, request: &Request, at: u64) -> Option<LoginPlan> {
        Some(LoginPlan {
            registration: self.registration.copy(),
            home: Ok("C:\\fixture\\store".to_owned()),
            root: Ok("C:\\fixture\\store".to_owned()),
            measured: Measured {
                journal: self.store.login_capacity(request, &self.registration, at),
                size: 1024,
            },
        })
    }

    fn create(&self) -> Request {
        Request {
            id: Uuid::new_v4(),
            expected_revision: self.store.manifest.revision,
            action: Action::Create,
            expected_creation: None,
        }
    }

    fn remove(&self, create: &Request) -> Request {
        Request {
            id: Uuid::new_v4(),
            expected_revision: self.store.manifest.revision,
            action: Action::Remove,
            expected_creation: Some(create.id),
        }
    }

    fn begin(&mut self, create: &Request) -> Job {
        let plan = self.plan(create, NOW);
        job(self.store.begin_login(create, plan, Ok(()), NOW).unwrap())
    }

    fn begin_removal(&mut self, remove: &Request) -> Job {
        job(self.store.begin_login(remove, None, Ok(()), NOW).unwrap())
    }

    fn resume(&mut self, id: Uuid) -> Job {
        job(self.store.resume_login(id, Ok(()), NOW).unwrap())
    }

    /// The configuration with the login task recorded or taken out.
    fn next(&self, completion: &Completion) -> Arc<Manifest> {
        let base = &self.store.manifest;
        let task = match completion.job().request.action {
            Action::Create => Some(completion.job().registration.metadata(SID).unwrap()),
            Action::Remove => None,
        };
        manifest(
            base.store_id,
            base.revision + 1,
            std::str::from_utf8(&base.rest).unwrap(),
            base.instances[0].guarded,
            task,
        )
    }

    fn complete(&mut self, completion: Completion) -> Result<Status, Error> {
        let next = self.next(&completion);
        let written = Ok(Encoding {
            rest: next.rest.clone(),
            encoded: next.encoded.clone(),
        });
        let status = self.store.complete_login(completion, written, NOW);
        if status.is_ok() && self.store.manifest.revision == next.revision {
            assert_eq!(
                format!("{:?}", self.store.manifest),
                format!("{next:?}")
            );
        }
        status
    }

    /// The configuration is committed, and then the program ends.
    fn interrupt(&mut self, completion: Completion) {
        let present = self.store.manifest.login_task.is_some();
        let create = matches!(completion.job().request.action, Action::Create);
        if create != present {
            self.store.manifest = self.next(&completion);
        }
    }

    fn rename(&mut self, names: &str, guarded: bool) {
        let base = &self.store.manifest;
        self.store.manifest = manifest(
            base.store_id,
            base.revision + 1,
            names,
            guarded,
            base.login_task.as_ref().map(|task| LoginTask {
                name: task.name.clone(),
                target: task.target.clone(),
                args: task.args.clone(),
            }),
        );
    }
}

fn job(preparation: Preparation) -> Job {
    match preparation {
        Preparation::Pending(job) => job,
        _ => panic!("expected pending"),
    }
}

fn execute(job: Job, present: &mut bool, creates: &mut usize) -> Completion {
    let mut found = None;
    loop {
        match job.due(found) {
            Step::Exists => {
                assert!(found.is_none());
                found = Some(*present);
            }
            Step::Register => {
                assert_eq!(found, Some(false));
                *creates += 1;
                *present = true;
                break;
            }
            Step::Remove => {
                *present = false;
                break;
            }
            Step::Finished => break,
            Step::NotNeeded => panic!("expected a task"),
        }
    }
    let exists = found.ok_or(Error::Malformed);
    job.execute(exists, Ok(()), Ok(())).unwrap()
}

#[test]
fn login_intent_native_and_manifest_boundaries_recover_without_recreating_after_removal() {
    let mut fixture = Fixture::new();
    let create = fixture.create();
    drop(fixture.begin(&create));
    assert!(matches!(
        fixture.store.login_request_status(create.id).unwrap(),
        Some(Status::Pending {
            action: Action::Create
        })
    ));
    let mut present = false;
    let mut creates = 0;
    // The task was registered, but the program ended before the configuration was written.
    let work = fixture.resume(create.id);
    drop(execute(work, &mut present, &mut creates));
    let work = fixture.resume(create.id);
    let completion = execute(work, &mut present, &mut creates);
    fixture.interrupt(completion);
    let work = fixture.resume(create.id);
    let completion = execute(work, &mut present, &mut creates);
    assert!(matches!(
        fixture.complete(completion).unwrap(),
        Status::Created { revision: 3 }
    ));
    assert_eq!(creates, 1);
    let remove = fixture.remove(&create);
    let work = fixture.begin_removal(&remove);
    let completion = execute(work, &mut present, &mut creates);
    fixture.interrupt(completion);
    assert!(!present);
    let work = fixture.resume(remove.id);
    let completion = execute(work, &mut present, &mut creates);
    assert!(matches!(
        fixture.complete(completion).unwrap(),
        Status::Removed { revision: 4 }
    ));
    assert!(matches!(
        fixture
            .store
            .begin_login(&create, None, Ok(()), NOW)
            .unwrap(),
        Preparation::Complete(Status::Created { .. })
    ));
    assert_eq!(creates, 1);
    assert!(fixture.store.manifest.login_task.is_none());
    assert!(fixture.store.login_registration().unwrap().is_none());
}

#[test]
fn login_completion_holds_operation_and_owner_leases_and_merges_unrelated_edits() {
    let busy = || Err(Error::Invalid("GUARD_LOGIN_BUSY"));
    let mut fixture = Fixture::new();
    let create = fixture.create();
    let work = fixture.begin(&create);
    let remove = fixture.remove(&create);
    assert!(matches!(
        fixture.store.begin_login(&remove, None, busy(), NOW),
        Err(Error::Invalid("GUARD_LOGIN_BUSY"))
    ));
    drop(execute(work, &mut false, &mut 0));
    assert!(matches!(
        fixture.store.resume_login(create.id, busy(), NOW),
        Err(Error::Invalid("GUARD_LOGIN_BUSY"))
    ));
    fixture.rename("unrelated edit", true);
    let work = fixture.resume(create.id);
    let completion = execute(work, &mut true, &mut 0);
    assert!(matches!(
        fixture.complete(completion).unwrap(),
        Status::Created { revision: 4 }
    ));
    assert_eq!(fixture.store.manifest.rest, b"unrelated edit");
}

#[test]
fn cancelled_login_create_cannot_cross_a_new_registration_at_the_same_revision() {
    let mut fixture = Fixture::new();
    let create = fixture.create();
    drop(fixture.begin(&create));
    let remove = fixture.remove(&create);
    let work = fixture.begin_removal(&remove);
    let completion = execute(work, &mut false, &mut 0);
    fixture.complete(completion).unwrap();
    assert!(matches!(
        fixture.store.resume_login(create.id, Ok(()), NOW).unwrap(),
        Preparation::Complete(Status::Cancelled)
    ));
    let next = fixture.create();
    assert_eq!(next.expected_revision, remove.expected_revision);
    drop(fixture.begin(&next));
    let mut stale = remove;
    stale.id = Uuid::new_v4();
    assert!(matches!(
        fixture.store.begin_login(&stale, None, Ok(()), NOW),
        Err(Error::Invalid("GUARD_LOGIN_REGISTRATION_CHANGED"))
    ));
    assert_eq!(
        fixture.store.login_registration().unwrap().unwrap().0.id,
        next.id
    );
}

#[test]
fn disabled_guard_refuses_missing_task_recreation_but_allows_existing_task_accounting() {
    let mut fixture = Fixture::new();
    let create = fixture.create();
    drop(fixture.begin(&create));
    fixture.rename("fixture", false);
    let work = fixture.resume(create.id);
    assert_eq!(work.due(None), Step::Exists);
    assert_eq!(work.due(Some(false)), Step::NotNeeded);
    assert_eq!(work.due(Some(true)), Step::Finished);
    assert!(matches!(
        work.execute(Ok(false), Err(Error::Malformed), Err(Error::Malformed)),
        Err(Error::Invalid("GUARD_LOGIN_NOT_NEEDED"))
    ));
    let work = fixture.resume(create.id);
    let completion = work
        .execute(Ok(true), Err(Error::Malformed), Err(Error::Malformed))
        .unwrap();
    fixture.complete(completion).unwrap();
    assert!(fixture.store.manifest.instances.iter().all(|i| !i.guarded));
}

#[test]
fn login_native_success_survives_manifest_and_receipt_write_failures() {
    for remove in [false, true] {
        for manifest_written in [false, true] {
            let mut fixture = Fixture::new();
            let create = fixture.create();
            let mut present = false;
            let mut creates = 0;
            let work = fixture.begin(&create);
            let (work, id) = if remove {
                let completion = execute(work, &mut present, &mut creates);
                fixture.complete(completion).unwrap();
                let remove = fixture.remove(&create);
                (fixture.begin_removal(&remove), remove.id)
            } else {
                (work, create.id)
            };
            let completion = execute(work, &mut present, &mut creates);
            assert_eq!(present, !remove);
            if manifest_written {
                fixture.interrupt(completion);
            } else {
                assert!(matches!(
                    fixture.store.complete_login(
                        completion,
                        Err(Error::Windows {
                            operation: "ReplaceManifest",
                            code: 32
                        }),
                        NOW
                    ),
                    Err(Error::Windows { code: 32, .. })
                ));
            }
            assert!(matches!(
                fixture.store.login_request_status(id).unwrap(),
                Some(Status::Pending { .. })
            ));
            let work = fixture.resume(id);
            let completion = execute(work, &mut present, &mut creates);
            fixture.complete(completion).unwrap();
            assert_eq!(creates, 1);
            assert_eq!(fixture.store.manifest.login_task.is_some(), !remove);
        }
    }
}

fn pending_edit(fixture: &mut Fixture, names: &str) {
    let base = &fixture.store.manifest;
    let target = manifest(base.store_id, base.revision + 1, names, true, None);
    let request = ConfigRequest {
        request_id: Uuid::new_v4(),
        expected_revision: base.revision,
        action: ConfigAction::Other,
        encoded: names.as_bytes().to_vec(),
    };
    let outcome = fixture
        .store
        .stage_config(
            &request,
            Preflight {
                rejection: None,
                applied: Applied::Accepted {
                    target,
                    entity_id: Uuid { bits: 12 },
                },
                shortcut: None,
                compiled: Compiled::Config(vec![]),
            },
            NOW,
        )
        .unwrap();
    assert!(outcome.is_none());
}

#[test]
fn accepted_configuration_is_recovered_before_login_admission() {
    let mut fixture = Fixture::new();
    let stale = fixture.create();
    pending_edit(&mut fixture, "recovered first");
    let plan = fixture.plan(&stale, NOW);
    assert!(matches!(
        fixture.store.begin_login(&stale, plan, Ok(()), NOW),
        Err(Error::Invalid("STALE_MANIFEST_REVISION"))
    ));
    assert_eq!(fixture.store.manifest.rest, b"recovered first");
    assert!(
        fixture
            .store
            .login_request_status(stale.id)
            .unwrap()
            .is_none()
    );
}

#[test]
fn a_completed_request_is_told_while_other_work_is_pending() {
    let mut fixture = Fixture::new();
    let create = fixture.create();
    let work = fixture.begin(&create);
    let completion = execute(work, &mut false, &mut 0);
    fixture.complete(completion).unwrap();
    let remove = fixture.remove(&create);
    let _work = fixture.begin_removal(&remove);
    let before = fixture.store.manifest.encoded.clone();
    for _ in 0..2 {
        let busy = || Err(Error::Invalid("GUARD_LOGIN_BUSY"));
        assert!(matches!(
            fixture
                .store
                .begin_login(&create, None, busy(), NOW)
                .unwrap(),
            Preparation::Complete(Status::Created { revision: 3 })
        ));
        assert!(matches!(
            fixture.store.resume_login(create.id, busy(), NOW).unwrap(),
            Preparation::Complete(Status::Created { revision: 3 })
        ));
        assert_eq!(fixture.store.manifest.encoded, before);
    }
    let mut conflict = create;
    conflict.expected_revision += 1;
    assert!(matches!(
        fixture.store.begin_login(&conflict, None, Ok(()), NOW),
        Err(Error::Invalid("REQUEST_ID_CONFLICT"))
    ));
}

#[test]
fn full_login_history_reserves_completion_space_and_does_not_block_existing_removal() {
    let mut fixture = Fixture::new();
    let first = fixture.create();
    let work = fixture.begin(&first);
    let completion = execute(work, &mut false, &mut 0);
    fixture.complete(completion).unwrap();
    let remove = fixture.remove(&first);
    let work = fixture.begin_removal(&remove);
    let completion = execute(work, &mut true, &mut 0);
    fixture.complete(completion).unwrap();
    let template = fixture.store.login.entries.remove(0);
    for _ in 0..ENTRIES - 1 {
        let create = Request {
            id: Uuid::new_v4(),
            ..template.create
        };
        fixture.store.login.entries.push(Entry {
            create,
            registration: Registration {
                host: "C:\\app-proxy-host.exe".to_owned(),
                ..template.registration.copy()
            },
            created_revision: template.created_revision,
            removal: Some(Request {
                id: Uuid::new_v4(),
                expected_creation: Some(create.id),
                ..template.removal.unwrap()
            }),
            removed_revision: template.removed_revision,
            removed_at: template.removed_at,
        });
    }
    let current = fixture.create();
    fixture.store.login.entries.push(Entry {
        create: current,
        registration: fixture.registration.copy(),
        created_revision: None,
        removal: None,
        removed_revision: None,
        removed_at: None,
    });
    let reserved = reserve_capacity(&fixture.store.login);
    assert_eq!(reserved.entries.len(), ENTRIES);
    assert!(reserved.entries.iter().all(|entry| entry.removal.is_some()));
    let work = fixture.resume(current.id);
    let completion = execute(work, &mut false, &mut 0);
    fixture.complete(completion).unwrap();
    let remove = fixture.remove(&current);
    let work = fixture.begin_removal(&remove);
    let completion = execute(work, &mut true, &mut 0);
    fixture.complete(completion).unwrap();
    let next = fixture.create();
    let plan = fixture.plan(&next, NOW);
    assert!(matches!(
        fixture.store.begin_login(&next, plan, Ok(()), NOW),
        Err(Error::Invalid("GUARD_LOGIN_RECORD_LIMIT"))
    ));
    assert!(fixture.store.manifest.login_task.is_none());
    // Old entries that are done make room again.
    let plan = fixture.plan(&next, NOW + RETENTION + 1);
    assert!(matches!(
        fixture
            .store
            .begin_login(&next, plan, Ok(()), NOW + RETENTION + 1)
            .unwrap(),
        Preparation::Pending(_)
    ));
}

#[test]
fn requests_and_journals_are_checked() {
    let fixture = Fixture::new();
    let create = fixture.create();
    assert!(valid_request(&create).is_ok());
    assert!(
        valid_request(&Request {
            expected_creation: Some(Uuid::new_v4()),
            ..create
        })
        .is_err()
    );
    assert!(valid_request(&Request { id: NIL, ..create }).is_err());
    assert!(
        valid_request(&Request {
            action: Action::Remove,
            ..create
        })
        .is_err()
    );
    let store = fixture.store.manifest.store_id;
    assert!(validate(&fixture.store.login, store, 2, SID).is_ok());
    assert!(validate(&fixture.store.login, Uuid::new_v4(), 2, SID).is_err());
    let entry = |revision| LoginJournal {
        version: 1,
        store_id: store,
        entries: vec![Entry {
            create,
            registration: fixture.registration.copy(),
            created_revision: Some(revision),
            removal: None,
            removed_revision: None,
            removed_at: None,
        }],
    };
    assert!(validate(&entry(3), store, 3, SID).is_ok());
    assert!(validate(&entry(3), store, 2, SID).is_err());
    assert!(matches!(
        fixture.store.login_request_status(NIL),
        Err(Error::Invalid("INVALID_REQUEST_ID"))
    ));
}

#[test]
fn login_request_ids_belong_to_one_journal() {
    let mut fixture = Fixture::new();
    let create = fixture.create();
    fixture
        .store
        .begin_core_request(create.id, Uuid::new_v4(), b"stop", NOW)
        .unwrap();
    let plan = fixture.plan(&create, NOW);
    assert!(matches!(
        fixture.store.begin_login(&create, plan, Ok(()), NOW),
        Err(Error::Invalid("REQUEST_ID_CONFLICT"))
    ));
    let other = fixture.create();
    drop(fixture.begin(&other));
    assert!(matches!(
        fixture
            .store
            .begin_core_request(other.id, Uuid::new_v4(), b"stop", NOW),
        Err(Error::Invalid("REQUEST_ID_CONFLICT"))
    ));
}

#[test]
fn elevated_work_needs_the_registration_that_was_prepared() {
    let mut fixture = Fixture::new();
    let create = fixture.create();
    let work = fixture.begin(&create);
    assert!(work.authorize(Some(&fixture.registration)).is_ok());
    let mut other = fixture.registration.copy();
    other.home = "C:\\elsewhere".to_owned();
    assert!(work.authorize(Some(&other)).is_err());
    assert!(work.authorize(None).is_err());
}

fn registration() -> Registration {
    Registration {
        store_id: Uuid { bits: 0x1234 },
        owner_sid: SID.to_owned(),
        home: "C:\\fixture 空格\\store\\".to_owned(),
        host: "C:\\fixture 空格\\release\\app-proxy-host.exe".to_owned(),
    }
}

#[test]
fn login_scope_quotes_store_and_rejects_substitutions_or_other_users() {
    let original = registration();
    let spec = original.spec(SID).unwrap();
    assert!(spec.login);
    assert!(spec.name.starts_with("AppProxy-Login-"));
    assert_eq!(spec.uri, format!("\\{}", spec.name));
    assert!(spec.args.contains(&original.store_id.to_text()));
    assert!(spec.args.contains(r#""C:\fixture 空格\store\\""#));
    for bad in [r"C:\%STORE%", r"C:\$(Arg0)", "relative", r"C:\a\..\b"] {
        let mut changed = original.copy();
        changed.home = bad.to_owned();
        assert!(changed.spec(SID).is_err());
        changed = original.copy();
        changed.host = bad.to_owned();
        assert!(changed.spec(SID).is_err());
    }
    let mut changed = original.copy();
    changed.owner_sid = "S-1-5-18".to_owned();
    assert!(changed.spec(SID).is_err());
    changed = original.copy();
    changed.store_id = NIL;
    assert!(changed.spec(SID).is_err());
    changed = original;
    changed.host = r"C:\fixture\arbitrary.exe".to_owned();
    assert!(changed.spec(SID).is_err());
}

#[test]
fn native_login_definition_requires_exact_user_trigger_and_ordinary_principal() {
    let spec = registration().spec(SID).unwrap();
    let task = build(&spec);
    verify_definition(&task, &spec).unwrap();
    for change in 0..13 {
        let mut task = build(&spec);
        let account = |name: &str| Account {
            name: name.to_owned(),
            resolved: Ok((!name.is_empty(), name.to_owned())),
        };
        match change {
            0 => task.triggers[0].user = account(""),
            1 => task.triggers[0].user = account("S-1-5-18"),
            2 => task.triggers[0].enabled = false,
            3 => task.triggers[0].delay = "PT1M".to_owned(),
            4 => task.triggers[0].start = "2030-01-01T00:00:00".to_owned(),
            5 => task.triggers[0].end = "2031-01-01T00:00:00".to_owned(),
            6 => task.triggers[0].interval = "PT1M".to_owned(),
            7 => task.triggers[0].limit = "PT1M".to_owned(),
            8 => task.level = 1,
            9 => task.logon = 2,
            10 => {
                task.triggers.push(Trigger {
                    kind: 7,
                    id: String::new(),
                    user: account(""),
                    delay: String::new(),
                    start: String::new(),
                    end: String::new(),
                    limit: String::new(),
                    enabled: true,
                    interval: String::new(),
                    duration: String::new(),
                    stop_at_end: false,
                });
            }
            11 => task.actions[0].args = "serve --home C:\\other".to_owned(),
            _ => task.data = MARKER.to_owned(),
        }
        assert!(verify_definition(&task, &spec).is_err(), "change {change}");
    }
}

#[test]
fn words_are_quoted_so_that_windows_reads_them_back() {
    assert_eq!(quote_windows_word("plain"), "\"plain\"");
    assert_eq!(quote_windows_word("two words"), "\"two words\"");
    assert_eq!(quote_windows_word("end\\"), "\"end\\\\\"");
    assert_eq!(quote_windows_word("a\\b"), "\"a\\b\"");
    assert_eq!(quote_windows_word("say \"it\""), "\"say \\\"it\\\"\"");
    assert_eq!(quote_windows_word("tail\\\""), "\"tail\\\\\\\"\"");
    assert_eq!(task_path("C:\\store").unwrap(), "C:\\store");
    assert!(task_path("C:\\%STORE%").is_err());
}

#[test]
fn metadata_is_what_the_task_runs() {
    let registration = registration();
    let spec = registration.spec(SID).unwrap();
    let task = registration.metadata(SID).unwrap();
    assert_eq!(task.name, spec.name);
    assert!(registration.matches_metadata(&task, SID).unwrap());
    let other = LoginTask {
        name: task.name.clone(),
        target: task.target.clone(),
        args: vec![],
    };
    assert!(!registration.matches_metadata(&other, SID).unwrap());
}

#[test]
fn readiness_needs_the_store_where_it_was() {
    let registration = registration();
    let here = StoreDescriptor {
        store_id: registration.store_id,
        owner_sid: SID.to_owned(),
    };
    let host = registration.host.clone();
    assert!(
        registration
            .ready(&here, true, Ok(true), &host, Ok(()))
            .unwrap()
    );
    assert!(
        !registration
            .ready(&here, true, Ok(false), &host, Ok(()))
            .unwrap()
    );
    assert!(
        registration
            .ready(&here, false, Ok(true), &host, Ok(()))
            .is_err()
    );
    let replaced = StoreDescriptor {
        store_id: Uuid::new_v4(),
        owner_sid: SID.to_owned(),
    };
    assert!(
        registration
            .ready(&replaced, true, Ok(true), &host, Ok(()))
            .is_err()
    );
    let made = authorized(
        here,
        registration.store_id,
        Ok(()),
        true,
        registration.home.clone(),
        registration.host.clone(),
        SID,
    )
    .unwrap();
    assert!(made.same(&registration));
    let here = StoreDescriptor {
        store_id: registration.store_id,
        owner_sid: SID.to_owned(),
    };
    assert!(
        authorized(
            here,
            registration.store_id,
            Ok(()),
            false,
            registration.home.clone(),
            registration.host.clone(),
            SID,
        )
        .is_err()
    );
}

#[test]
fn login_descriptors_admit_no_further_account() {
    let ace = |sid: &str, mask: u32| Ace {
        kind: 0,
        flags: 0,
        mask,
        sid: sid.to_owned(),
    };
    let good = || vec![
        ace("S-1-5-18", 0x1f01ff),
        ace("S-1-5-32-544", 0x1f01ff),
        ace(SID, 0x1f01ff),
    ];
    let check = |dacl: Vec<Ace>, protected: bool| {
        let descriptor = Descriptor {
            owner: Some(SID.to_owned()),
            dacl: Some(dacl),
            protected,
        };
        verify_login(login_sddl(SID).len(), &descriptor, SID)
    };
    assert!(check(good(), true).is_ok());
    assert!(check(good(), false).is_err());
    let mut shared = good();
    shared.push(ace("S-1-1-0", 0x120089));
    assert!(check(shared, true).is_err());
    let mut fewer = good();
    fewer.remove(1);
    assert!(check(fewer, true).is_err());
}

#[test]
fn login_plans_belong_to_this_store_and_fit_its_journal() {
    let home = |path: &str| -> Result<String, Error> { Ok(path.to_owned()) };
    let cases = [
        (home("C:\\fixture\\store"), home("C:\\other"), 1, "GUARD_LOGIN_STORE_MISMATCH"),
        (
            Err(Error::Invalid("HOME")),
            Err(Error::Invalid("ROOT")),
            1,
            "HOME",
        ),
        (home("C:\\fixture\\store"), Err(Error::Invalid("ROOT")), 1, "ROOT"),
        (
            home("C:\\fixture\\store"),
            home("C:\\fixture\\store"),
            JOURNAL_LIMIT + 1,
            "GUARD_LOGIN_RECORD_LIMIT",
        ),
    ];
    for (home, root, size, code) in cases {
        let mut fixture = Fixture::new();
        let create = fixture.create();
        let plan = Some(LoginPlan {
            registration: fixture.registration.copy(),
            home,
            root,
            measured: Measured {
                journal: fixture.store.login_capacity(&create, &fixture.registration, NOW),
                size,
            },
        });
        match fixture.store.begin_login(&create, plan, Ok(()), NOW) {
            Err(Error::Invalid(told)) => assert_eq!(told, code),
            _ => panic!("expected {code}"),
        }
        assert!(fixture.store.login_request_status(create.id).unwrap().is_none());
    }
    let mut fixture = Fixture::new();
    let create = fixture.create();
    // A measure of another journal shows no room.
    let mut plan = fixture.plan(&create, NOW).unwrap();
    plan.measured.journal.entries.clear();
    assert!(matches!(
        fixture.store.begin_login(&create, Some(plan), Ok(()), NOW),
        Err(Error::Invalid("GUARD_LOGIN_RECORD_LIMIT"))
    ));
    let mut plan = fixture.plan(&create, NOW).unwrap();
    plan.measured.size = JOURNAL_LIMIT;
    let full = &plan.measured.journal.entries[0];
    assert_eq!(full.create, create);
    assert_eq!((full.created_revision, full.removed_at), (Some(u64::MAX), Some(u64::MAX)));
    assert!(fixture.store.begin_login(&create, Some(plan), Ok(()), NOW).is_ok());
}

#[test]
fn only_the_operations_that_are_due_count() {
    let mut fixture = Fixture::new();
    let create = fixture.create();
    let work = fixture.begin(&create);
    assert_eq!(work.due(None), Step::Exists);
    assert_eq!(work.due(Some(false)), Step::Register);
    assert!(
        work.execute(Ok(false), Err(Error::Invalid("REGISTER")), Ok(()))
            .is_err()
    );
    let completion = fixture
        .resume(create.id)
        .execute(Ok(true), Err(Error::Malformed), Err(Error::Malformed))
        .unwrap();
    fixture.complete(completion).unwrap();
    let remove = fixture.remove(&create);
    let work = fixture.begin_removal(&remove);
    for found in [None, Some(false), Some(true)] {
        assert_eq!(work.due(found), Step::Remove);
    }
    assert!(
        work.execute(Err(Error::Malformed), Err(Error::Malformed), Ok(()))
            .is_ok()
    );
}
