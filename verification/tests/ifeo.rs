//! Registrations under Image File Execution Options: what they are, how they are written and taken back, and
//! the entries that Windows starts for them.
use app_proxy_windows::creation_guard::{
    FilterSeen, KeySeen, check, ensure_plain_creation, guarded_key,
};
use app_proxy_windows::error::Error;
use app_proxy_windows::ids::Uuid;
use app_proxy_windows::ifeo_entry::{
    COMMAND_LIMIT, Envelope, Invocation, LabelSeen, check_target, check_unchanged, command_units,
    invocation, is_words_absolute, open_envelope, ordinary_entry, supported,
};
use app_proxy_windows::ifeo_journal::{
    Entry, Filter, Hive, Interruption, Journal, Machine, Parent, Phase, RECORD_LIMIT, Roots, Security,
    StoredBackup,
};
use app_proxy_windows::ifeo_registry::{
    ERROR_NO_MORE_ITEMS, Listed, REG_BINARY, REG_DWORD, REG_SZ, Value, decode, encode, key_name,
    list_names, read_value, same_value,
};
use app_proxy_windows::ifeo_rules::{
    EntryPath, Host, Registration, Target, check_owner, check_registrable, dos_path,
    registration_for, verify_registered,
};
use app_proxy_windows::ifeo_steps::{InstallStep, RemoveStep};
use app_proxy_windows::model::{
    Application, ApplicationLocator, FileIdentity, Instance, InstanceData, Manifest, NetworkBinding,
    ProcessIdentity,
};
use app_proxy_windows::security::{
    Ace, Descriptor, Wait, lock_acquired, mutex_sddl, owned, registration_sddl, system_key,
};

const SID: &str = "S-1-5-21-5-6-7-1001";
const NIL: Uuid = Uuid { bits: 0 };
const HOST: &str = r"C:\Protected 中文\app-proxy-host.exe";
const TARGET: &str = r"C:\Fixture\中文 space\target.exe";

fn file(index: u64) -> FileIdentity {
    FileIdentity {
        volume_serial: 3,
        file_index: index,
    }
}

/// A path as names are compared: its DOS form, folded.
fn key(path: &str) -> String {
    path.strip_prefix(r"\\?\").unwrap_or(path).to_lowercase()
}

fn record() -> Registration {
    Registration {
        format: "app-proxy-rust-ifeo-v1".to_owned(),
        id: Uuid::new_v4(),
        store_id: Uuid::new_v4(),
        owner_sid: SID.to_owned(),
        application_id: Uuid::new_v4(),
        instance_id: Uuid::new_v4(),
        deployment_generation: Uuid::new_v4(),
        target: TARGET.to_owned(),
        target_key: key(TARGET),
        target_image: file(10),
        package_full_name: None,
        host: HOST.to_owned(),
        host_key: key(HOST),
        host_image: file(10),
    }
}

fn aimed(path: &str, index: u64) -> Registration {
    Registration {
        target: path.to_owned(),
        target_key: key(path),
        target_image: file(index),
        ..record()
    }
}

fn parent() -> Parent {
    Parent {
        debugger: None,
        use_filter: None,
        filters: vec![],
        rest: vec![],
        fault: None,
    }
}

fn machine() -> Machine {
    Machine {
        index: false,
        index_fault: None,
        records: false,
        stray: false,
        entries: vec![],
        backup: StoredBackup::Missing,
        root: true,
        root_fault: None,
        parent: Some(parent()),
    }
}

fn foreign(name: &str, path: &str) -> Filter {
    Filter {
        name: name.to_owned(),
        owner: None,
        path: Some(Value::string(path).unwrap()),
        debugger: None,
        extra: 0,
        children: 0,
        path_key: key(path),
        fault: None,
    }
}

fn at(machine: &mut Machine) -> &mut Parent {
    machine.parent.as_mut().unwrap()
}

fn install(machine: &mut Machine, record: &Registration) -> Result<(), Error> {
    Roots::machine().install(machine, record, b"{}".to_vec(), &mut Interruption::none())
}

fn install_until(machine: &mut Machine, record: &Registration, step: usize) -> Result<(), Error> {
    let mut interruption = Interruption::none();
    interruption.interrupt_after(step);
    Roots::machine().install(machine, record, b"{}".to_vec(), &mut interruption)
}

fn remove(machine: &mut Machine, record: &Registration) -> Result<(), Error> {
    Roots::machine().remove(machine, record, &mut Interruption::none())
}

fn remove_until(machine: &mut Machine, record: &Registration, step: usize) -> Result<(), Error> {
    let mut interruption = Interruption::none();
    interruption.interrupt_after(step);
    Roots::machine().remove(machine, record, &mut interruption)
}

fn one() -> Option<Value> {
    Some(Value::dword(1))
}

fn names(machine: &mut Machine) -> Vec<String> {
    at(machine).filters.iter().map(|f| f.name.clone()).collect()
}

#[test]
fn installation_and_removal_preserve_mitigations_and_original_parent_value() {
    for original in [None, Some(Value::dword(0)), Some(Value::dword(1))] {
        let mut machine = machine();
        let record = record();
        at(&mut machine).rest = vec![1, 2, 3, 4];
        at(&mut machine).use_filter = original.as_ref().map(Value::copy);
        install(&mut machine, &record).unwrap();
        machine.verify(&record).unwrap();
        install(&mut machine, &record).unwrap();
        assert_eq!(names(&mut machine), vec![record.filter()]);
        let read = machine.read(record.id).unwrap();
        assert_eq!(read.instance_id, record.instance_id);
        remove(&mut machine, &record).unwrap();
        assert!(matches!(
            machine.read(record.id),
            Err(Error::Invalid("IFEO_NOT_REGISTERED"))
        ));
        assert!(same_value(&at(&mut machine).use_filter, &original));
        assert_eq!(at(&mut machine).rest, [1, 2, 3, 4]);
        assert!(at(&mut machine).filters.is_empty());
    }
}

#[test]
fn foreign_debuggers_inactive_filters_and_changed_owned_values_are_preserved() {
    for conflict in 0..3 {
        let mut machine = machine();
        let record = record();
        let parent = at(&mut machine);
        match conflict {
            0 => parent.debugger = Some(Value::string("foreign.exe").unwrap()),
            1 => parent
                .filters
                .push(foreign("Foreign", r"C:\Other\app.exe")),
            _ => parent.use_filter = Some(Value::string("wrong type").unwrap()),
        }
        let before = format!("{parent:?}");
        assert!(install(&mut machine, &record).is_err());
        assert_eq!(format!("{:?}", at(&mut machine)), before);
        assert!(machine.read(record.id).is_err());
    }
    let mut machine = machine();
    let record = record();
    install(&mut machine, &record).unwrap();
    at(&mut machine).filters[0].debugger =
        Some(Value::string("third-party-change.exe").unwrap());
    assert!(remove(&mut machine, &record).is_err());
    assert!(machine.read(record.id).is_ok());
    let kept = at(&mut machine).filters[0].debugger.as_ref().unwrap();
    assert_eq!(kept.text().unwrap(), "third-party-change.exe");
}

#[test]
fn registration_records_paths_and_registry_strings_are_strict() {
    let record = record();
    for path in [
        r"C:relative.exe",
        r"\\server\share\app.exe",
        r"C:\x\..\target.exe",
        r"C:\x \target.exe",
        r"C:\%TEMP%\target.exe",
    ] {
        assert!(dos_path(path).is_err(), "{path}");
    }
    assert_eq!(
        dos_path(r"\\?\C:\x\target.exe").unwrap(),
        r"C:\x\target.exe"
    );
    for value in [
        Value {
            kind: REG_SZ,
            bytes: vec![0],
        },
        Value {
            kind: REG_SZ,
            bytes: vec![b'a', 0],
        },
        Value {
            kind: REG_SZ,
            bytes: vec![0, 0, 0, 0],
        },
        Value::dword(1),
    ] {
        assert!(value.text().is_err());
    }
    assert!(
        record
            .debugger()
            .unwrap()
            .ends_with(&format!(" --registration {} --", record.id.to_text()))
    );
}

#[test]
fn interrupted_install_and_remove_resume_from_durable_checkpoints() {
    for step in 1..=7 {
        let mut machine = machine();
        let record = record();
        assert!(
            install_until(&mut machine, &record, step).is_err(),
            "install checkpoint {step}"
        );
        let armed = at(&mut machine)
            .filters
            .iter()
            .any(|f| f.name == record.filter() && f.debugger.is_some());
        if armed {
            assert_eq!(machine.read_for_removal(record.id).unwrap().id, record.id);
        }
        install(&mut machine, &record).unwrap();
        machine.verify(&record).unwrap();
        remove(&mut machine, &record).unwrap();
        assert!(at(&mut machine).use_filter.is_none());
    }
    for step in 1..=5 {
        let mut machine = machine();
        let record = record();
        install(&mut machine, &record).unwrap();
        assert!(
            remove_until(&mut machine, &record, step).is_err(),
            "remove checkpoint {step}"
        );
        remove(&mut machine, &record).unwrap();
        remove(&mut machine, &record).unwrap();
        assert!(at(&mut machine).filters.is_empty());
        assert!(at(&mut machine).use_filter.is_none());
    }
}

#[test]
fn shared_unicode_parent_restores_only_after_last_participant() {
    let mut machine = machine();
    let mut first = aimed(r"C:\First\Äpp.exe", 10);
    let second = aimed(r"C:\Second\äpp.exe", 11);
    install(&mut machine, &first).unwrap();
    install(&mut machine, &second).unwrap();
    remove(&mut machine, &first).unwrap();
    machine.verify(&second).unwrap();
    assert!(same_value(&at(&mut machine).use_filter, &one()));
    remove(&mut machine, &second).unwrap();
    assert!(at(&mut machine).use_filter.is_none());
    // Completed history does not restore the previous round's setting.
    at(&mut machine).use_filter = one();
    first.id = Uuid::new_v4();
    install(&mut machine, &first).unwrap();
    remove(&mut machine, &first).unwrap();
    assert!(same_value(&at(&mut machine).use_filter, &one()));
}

#[test]
fn interrupted_first_intent_does_not_poison_other_registrations() {
    let mut machine = machine();
    let first = record();
    let mut interruption = Interruption::none();
    interruption.interrupt_before_intent();
    assert!(matches!(
        Roots::machine().install(&mut machine, &first, b"{}".to_vec(), &mut interruption),
        Err(Error::Invalid("IFEO_FIXTURE_INTERRUPTION"))
    ));
    assert!(machine.read_for_removal(first.id).is_err());
    assert!(at(&mut machine).filters.is_empty());
    let second = aimed(r"C:\Other\target.exe", 11);
    install(&mut machine, &second).unwrap();
    install(&mut machine, &first).unwrap();
    remove(&mut machine, &first).unwrap();
    machine.verify(&second).unwrap();
    remove(&mut machine, &second).unwrap();
    assert!(at(&mut machine).use_filter.is_none());
}

#[test]
fn unowned_filter_and_missing_parent_are_not_created_or_adopted() {
    let mut machine = machine();
    let record = record();
    at(&mut machine).filters.push(Filter {
        path: None,
        path_key: String::new(),
        ..foreign(&record.filter(), TARGET)
    });
    assert!(matches!(
        install(&mut machine, &record),
        Err(Error::Invalid("IFEO_OWNER_CONFLICT"))
    ));
    let unknown = &at(&mut machine).filters[0];
    assert!(unknown.owner.is_none() && unknown.path.is_none() && unknown.debugger.is_none());
    assert!(at(&mut machine).use_filter.is_none());
    assert!(machine.read_for_removal(record.id).is_err());
    at(&mut machine).filters.clear();
    install(&mut machine, &record).unwrap();
    remove(&mut machine, &record).unwrap();
    machine.parent = None;
    assert!(remove(&mut machine, &record).is_err());
    assert!(machine.parent.is_none());
}

#[test]
fn incomplete_participants_retain_shared_parent_backup() {
    for removing in [false, true] {
        let mut machine = machine();
        let first = record();
        let second = aimed(r"C:\Second\target.exe", 11);
        if removing {
            install(&mut machine, &first).unwrap();
            assert!(remove_until(&mut machine, &first, 3).is_err());
        } else {
            assert!(install_until(&mut machine, &first, 5).is_err());
        }
        install(&mut machine, &second).unwrap();
        remove(&mut machine, &second).unwrap();
        assert!(same_value(&at(&mut machine).use_filter, &one()));
        if !removing {
            install(&mut machine, &first).unwrap();
        }
        remove(&mut machine, &first).unwrap();
        assert!(at(&mut machine).use_filter.is_none());
    }
}

#[test]
fn record_capacity_rejects_new_install_but_keeps_existing_removal_available() {
    let mut machine = machine();
    let first = record();
    install(&mut machine, &first).unwrap();
    for _ in 1..RECORD_LIMIT {
        let mut retired = first.copy();
        retired.id = Uuid::new_v4();
        machine.entries.push(Entry {
            name: retired.id.to_text(),
            journal: Some(Journal {
                record: retired,
                phase: Phase::Removed,
            }),
        });
    }
    assert_eq!(machine.entries.len(), 512);
    assert!(matches!(
        install(&mut machine, &record()),
        Err(Error::Invalid("IFEO_RECORD_LIMIT"))
    ));
    install(&mut machine, &first).unwrap();
    remove(&mut machine, &first).unwrap();
    assert!(at(&mut machine).use_filter.is_none());
}

#[test]
fn filter_capacity_rejects_activation_before_publishing_intent() {
    let mut machine = machine();
    let record = record();
    at(&mut machine).use_filter = one();
    for index in 0..512 {
        at(&mut machine).filters.push(foreign(
            &format!("Foreign-{index}"),
            &format!(r"C:\Foreign{index}\target.exe"),
        ));
    }
    assert!(matches!(
        install(&mut machine, &record),
        Err(Error::Invalid("IFEO_KEY_LIMIT"))
    ));
    assert!(machine.read_for_removal(record.id).is_err());
    assert!(!names(&mut machine).contains(&record.filter()));
    assert_eq!(at(&mut machine).filters.len(), 512);
    at(&mut machine).filters.remove(0);
    install(&mut machine, &record).unwrap();
    machine.verify(&record).unwrap();
    remove(&mut machine, &record).unwrap();
    assert_eq!(at(&mut machine).filters.len(), 511);
    assert!(same_value(&at(&mut machine).use_filter, &one()));
}

#[test]
fn foreign_addition_blocks_shared_parent_restore_and_image_alias_conflicts() {
    let mut machine = machine();
    let first = record();
    let alias = aimed(r"C:\Alias\other.exe", 10);
    install(&mut machine, &first).unwrap();
    assert!(matches!(
        install(&mut machine, &alias),
        Err(Error::Invalid("IFEO_OWNER_CONFLICT"))
    ));
    at(&mut machine)
        .filters
        .push(foreign("Foreign", r"C:\Foreign\app.exe"));
    assert!(matches!(
        remove(&mut machine, &first),
        Err(Error::Invalid("IFEO_FOREIGN_FILTERS_ADDED"))
    ));
    assert!(same_value(&at(&mut machine).use_filter, &one()));
    let kept = at(&mut machine)
        .filters
        .iter()
        .find(|f| f.name == "Foreign")
        .unwrap();
    assert!(kept.path.is_some());
    // A later retry can complete once that foreign participant is gone.
    at(&mut machine).filters.retain(|f| f.name != "Foreign");
    remove(&mut machine, &first).unwrap();
}

#[test]
fn actual_machine_ifeo_root_is_read_only_and_protected_and_records_are_bounded() {
    let ace = |sid: &str, mask: u32| Ace {
        kind: 0,
        flags: 2,
        mask,
        sid: sid.to_owned(),
    };
    let root = |users: u32| Descriptor {
        owner: Some("S-1-5-18".to_owned()),
        dacl: Some(vec![
            ace("S-1-5-32-545", users),
            ace("S-1-5-32-544", 0xf003f),
            ace("S-1-5-18", 0xf003f),
        ]),
        protected: true,
    };
    system_key(&root(0x20019)).unwrap();
    assert!(system_key(&root(0xf003f)).is_err());
    assert!(matches!(
        encode(vec![b'x'; 65537]),
        Err(Error::Invalid("IFEO_RECORD_SIZE"))
    ));
    let kept = encode(vec![b'x'; 65536]).unwrap();
    assert_eq!(decode(kept).unwrap().len(), 65536);
    assert!(matches!(
        decode(Value::dword(1)),
        Err(Error::Invalid("IFEO_INVALID_RECORD"))
    ));
    let roots = Roots::machine();
    assert!(roots.lock());
    assert_eq!(roots.hive, Hive::LocalMachine);
    assert_eq!(roots.security, Security::Protected);
    let mut machine = machine();
    let record = record();
    assert!(matches!(
        roots.install(&mut machine, &record, vec![b'x'; 65537], &mut Interruption::none()),
        Err(Error::Invalid("IFEO_RECORD_SIZE"))
    ));
    assert!(at(&mut machine).filters.is_empty());
    assert!(machine.read_for_removal(record.id).is_err());
    roots
        .install(&mut machine, &record, vec![b'x'; 65536], &mut Interruption::none())
        .unwrap();
    assert!(lock_acquired(mutex_sddl(), mutex_sddl(), Wait::Failed { code: 5 }).is_err());
    assert!(lock_acquired("D:", mutex_sddl(), Wait::Acquired).is_err());
    assert!(lock_acquired(mutex_sddl(), mutex_sddl(), Wait::Acquired).is_ok());
}

#[test]
fn owned_descriptor_distinguishes_owner_write_and_inheritance_changes() {
    let expected = registration_sddl();
    assert!(expected.contains("O:BA"));
    for value in [
        expected.replace("O:BA", "O:BU"),
        expected.replace("D:P", "D:"),
        expected.replace("KR;;;BU", "KA;;;BU"),
        expected.replace("CI;", ";"),
    ] {
        assert_ne!(value, expected);
        assert!(owned(&value, expected).is_err());
    }
    assert!(owned(expected, expected).is_ok());
}

#[test]
fn values_hold_numbers_and_texts() {
    let number = Value::dword(0x0102_0304);
    assert_eq!(number.kind, REG_DWORD);
    assert_eq!(number.bytes, [4, 3, 2, 1]);
    let text = Value::string("Aä").unwrap();
    assert_eq!(text.kind, REG_SZ);
    assert_eq!(text.bytes, [0x41, 0, 0xe4, 0, 0, 0]);
    assert_eq!(text.text().unwrap(), "Aä");
    assert!(Value::string("a\0b").is_err());
    assert!(key_name("Name").is_ok());
    assert!(key_name("a\\b").is_err());
    let value = read_value(4, REG_BINARY, vec![1, 2, 3, 4], 3).unwrap();
    assert_eq!(value.bytes, [1, 2, 3]);
    assert!(matches!(
        read_value(65537, REG_BINARY, vec![], 0),
        Err(Error::Invalid("IFEO_VALUE_SIZE"))
    ));
    assert!(matches!(
        read_value(2, REG_BINARY, vec![1, 2], 3),
        Err(Error::Invalid("IFEO_VALUE_CHANGED"))
    ));
    let listed = |status: u32, name: &str| Listed {
        status,
        name: name.encode_utf16().collect(),
    };
    let list = [
        listed(0, "one"),
        listed(0, "two"),
        listed(ERROR_NO_MORE_ITEMS, ""),
    ];
    assert_eq!(
        list_names(&list, "List", "TOO_MANY", "NOT_TEXT").unwrap(),
        ["one", "two"]
    );
    assert!(matches!(
        list_names(&[listed(5, "")], "List", "TOO_MANY", "NOT_TEXT"),
        Err(Error::Windows {
            operation: "List",
            code: 5
        })
    ));
}

fn manifest(guarded: bool, store_id: Uuid, instance: Uuid) -> Manifest {
    let application = Uuid { bits: 21 };
    Manifest {
        store_id,
        owner_sid: SID.to_owned(),
        revision: 1,
        profiles: vec![],
        applications: vec![Application {
            id: application,
            locator: ApplicationLocator::Exe {
                path: TARGET.to_owned(),
            },
        }],
        instances: vec![Instance {
            id: instance,
            application_id: application,
            data: InstanceData::Original,
            network: NetworkBinding::Profile {
                profile_id: Uuid { bits: 22 },
            },
            guarded,
        }],
        login_task: None,
        rest: vec![],
        encoded: vec![],
        fault: None,
    }
}

#[test]
fn registrations_are_made_for_their_instance() {
    let store = Uuid::new_v4();
    let instance = Uuid::new_v4();
    let manifest = manifest(true, store, instance);
    let place = check_registrable(&manifest, SID, store, instance).unwrap();
    assert_eq!(place, 0);
    assert!(check_registrable(&manifest, "S-1-5-18", store, instance).is_err());
    assert!(check_registrable(&manifest, SID, Uuid::new_v4(), instance).is_err());
    assert!(check_registrable(&manifest, SID, store, Uuid::new_v4()).is_err());
    assert!(matches!(
        check_registrable(&self::manifest(false, store, instance), SID, store, instance),
        Err(Error::Invalid("IFEO_MANAGED_ORIGINAL_REQUIRED"))
    ));
    let id = Uuid::new_v4();
    let generation = Uuid::new_v4();
    let host = || Host {
        store_id: store,
        generation,
        path: HOST.to_owned(),
        key: key(HOST),
        image: file(30),
    };
    let made = registration_for(
        &manifest,
        &manifest.instances[place],
        id,
        Target {
            path: TARGET.to_owned(),
            key: key(TARGET),
            image: file(31),
            package_full_name: None,
        },
        host(),
    )
    .unwrap();
    assert_eq!(made.id, id);
    assert_eq!(made.instance_id, instance);
    assert_eq!(made.deployment_generation, generation);
    assert_eq!(made.target_image, file(31));
    assert_eq!(made.basename().unwrap(), "target.exe");
    assert_eq!(made.filter(), format!("AppProxyRust-{}", id.to_text()));
    assert_eq!(
        made.debugger().unwrap(),
        format!(
            "\"{HOST}\" ifeo-entry --registration {} --",
            id.to_text()
        )
    );
    assert!(made.validate().is_ok());
    assert!(check_owner(&made, SID).is_ok());
    assert!(check_owner(&made, "S-1-5-18").is_err());
    assert!(verify_registered(&made, &host(), file(31)).is_ok());
    assert!(verify_registered(&made, &host(), file(32)).is_err());
    let mut broken = made.copy();
    broken.format = "other".to_owned();
    assert!(broken.validate().is_err());
    assert!(check_target(file(31), &made).is_ok());
    assert!(check_target(file(32), &made).is_err());
    assert!(check_unchanged(&made, &made.copy()).is_ok());
    assert!(check_unchanged(&made, &broken).is_err());
}

fn command(id: Uuid, target: &str) -> Vec<u16> {
    format!(
        r#""{HOST}" ifeo-entry --registration {} -- {target}"#,
        id.to_text()
    )
    .encode_utf16()
    .collect()
}

/// The words of a command line, as Windows reads them.
fn words(line: &[u16]) -> Option<Vec<Vec<u16>>> {
    let quote = b'"' as u16;
    let back = b'\\' as u16;
    let space = |c: u16| c == b' ' as u16 || c == b'\t' as u16;
    let mut out: Vec<Vec<u16>> = vec![];
    let mut i = 0;
    // The program's own word has no escapes.
    let mut first = vec![];
    if line.first() == Some(&quote) {
        i = 1;
        while i < line.len() && line[i] != quote {
            first.push(line[i]);
            i += 1;
        }
        i += 1;
    } else {
        while i < line.len() && !space(line[i]) {
            first.push(line[i]);
            i += 1;
        }
    }
    out.push(first);
    while i < line.len() {
        while i < line.len() && space(line[i]) {
            i += 1;
        }
        if i >= line.len() {
            break;
        }
        let mut word = vec![];
        let mut quoted = false;
        while i < line.len() && (quoted || !space(line[i])) {
            let mut count = 0;
            while i < line.len() && line[i] == back {
                count += 1;
                i += 1;
            }
            if i < line.len() && line[i] == quote {
                word.extend(std::iter::repeat_n(back, count / 2));
                if count % 2 == 1 {
                    word.push(quote);
                } else {
                    quoted = !quoted;
                }
                i += 1;
            } else {
                word.extend(std::iter::repeat_n(back, count));
                if i < line.len() && (quoted || !space(line[i])) {
                    word.push(line[i]);
                    i += 1;
                }
            }
        }
        out.push(word);
    }
    Some(out)
}

fn parse(line: &[u16]) -> Result<Invocation, Error> {
    let envelope: Envelope = open_envelope(line)?;
    let words = words(&envelope.raw_target);
    invocation(envelope, words)
}

fn units(text: &str) -> Vec<u16> {
    text.encode_utf16().collect()
}

#[test]
fn native_target_parser_preserves_wide_command_and_windows_escaping() {
    let id = Uuid::new_v4();
    let target =
        r#""C:\Target 中文\target.exe" "" "a b" "quoted\"word" "C:\tail\\" -- --registration fake"#;
    let invocation = parse(&command(id, target)).unwrap();
    assert_eq!(invocation.registration_id(), id);
    assert_eq!(invocation.raw_target_command_line(), units(target));
    assert_eq!(invocation.target, units(r"C:\Target 中文\target.exe"));
    assert_eq!(
        invocation.arguments(),
        [
            "",
            "a b",
            "quoted\"word",
            "C:\\tail\\",
            "--",
            "--registration",
            "fake"
        ]
        .map(units)
    );
    let mut wide = command(id, r#""C:\Target 中文\target.exe" "#);
    wide.extend([0xd800, b'x' as u16]);
    let invocation = parse(&wide).unwrap();
    assert_eq!(invocation.arguments()[0], [0xd800, b'x' as u16]);
    assert!(invocation.raw_target_command_line().contains(&0xd800));
}

#[test]
fn envelope_does_not_accept_external_launcher_options_or_search_later_delimiters() {
    let id = Uuid::new_v4();
    let normal = String::from_utf16(&command(id, r#""C:\Target 中文\target.exe""#)).unwrap();
    assert!(parse(&units(&normal)).is_ok());
    for value in [
        normal.replacen("ifeo-entry", "serve", 1),
        normal.replacen(" -- ", " --home C:\\Other -- ", 1),
        normal.replacen(" -- ", " ", 1),
        normal.replacen("--registration", "--registration-extra", 1),
        normal.replacen(&id.to_text(), &NIL.to_text(), 1),
        normal.replacen(&id.to_text(), "not-a-uuid", 1),
        format!(" {normal}"),
        normal.replacen(
            "\"C:\\Protected 中文\\app-proxy-host.exe\"",
            "app-proxy-host.exe",
            1,
        ),
        normal.replacen(" -- ", " --  ", 1),
        normal.replacen("\"C:\\Target 中文\\target.exe\"", "target.exe", 1),
        normal.replacen("\"C:\\Target 中文\\target.exe\"", "\"\"", 1),
    ] {
        assert!(parse(&units(&value)).is_err(), "{value}");
    }
    let mut nul = command(id, r"C:\target.exe");
    nul.push(0);
    assert!(parse(&nul).is_err());
    assert!(parse(&vec![b'a' as u16; COMMAND_LIMIT + 1]).is_err());
    assert!(parse(&command(id, "")).is_err());
}

fn current() -> ProcessIdentity {
    ProcessIdentity {
        pid: 8,
        creation_time: 9,
        user_sid: SID.to_owned(),
        session_id: 1,
        image_path: HOST.to_owned(),
        image_file: file(10),
    }
}

fn entry(path: &str) -> EntryPath {
    EntryPath {
        path: path.to_owned(),
        key: key(path),
    }
}

fn matches(
    invocation: &Invocation,
    record: &Registration,
    current: &ProcessIdentity,
) -> Result<(), Error> {
    invocation.matches_record(
        record,
        current,
        &entry(&String::from_utf16(&invocation.host).unwrap()),
        &entry(&String::from_utf16(&invocation.target).unwrap()),
        &entry(&current.image_path),
    )
}

#[test]
fn routing_requires_registered_paths_and_actual_host_identity() {
    let record = aimed(r"C:\Target 中文\target.exe", 10);
    let invocation = parse(&command(record.id, r#""C:\Target 中文\target.exe""#)).unwrap();
    matches(&invocation, &record, &current()).unwrap();
    let case_alias = parse(&command(record.id, r#""\\?\c:\target 中文\TARGET.EXE""#)).unwrap();
    matches(&case_alias, &record, &current()).unwrap();
    for target in [
        r"C:\Other\target.exe",
        r"C:\Target\..\target.exe",
        r"C:\Target.\target.exe",
        r"C:\Target 中文\target.exe:stream",
        r"\\server\share\target.exe",
        r"C:\Target",
    ] {
        let value = parse(&command(record.id, &format!("\"{target}\""))).unwrap();
        assert!(matches(&value, &record, &current()).is_err());
    }
    let mut changed = current();
    changed.image_file.file_index += 1;
    assert!(matches!(
        matches(&invocation, &record, &changed),
        Err(Error::Invalid("IFEO_ENTRY_IMAGE_MISMATCH"))
    ));
    changed = current();
    changed.image_path = r"C:\Portable\app-proxy-host.exe".to_owned();
    assert!(matches(&invocation, &record, &changed).is_err());
    changed = current();
    changed.user_sid.push_str("-1000");
    assert!(matches!(
        matches(&invocation, &record, &changed),
        Err(Error::Invalid("IFEO_OWNER_MISMATCH"))
    ));
    let wrong_id = parse(&command(
        Uuid::new_v4(),
        r#""C:\Target 中文\target.exe""#,
    ))
    .unwrap();
    assert!(matches(&wrong_id, &record, &changed).is_err());
}

#[test]
fn only_interactive_medium_non_sandbox_context_is_supported() {
    assert!(supported(1, 0x2000, 0, 0));
    for (session, integrity, ui, container) in [
        (0, 0x2000, 0, 0),
        (1, 0x1000, 0, 0),
        (1, 0x3000, 0, 0),
        (1, 0x2000, 1, 0),
        (1, 0x2000, 0, 1),
    ] {
        assert!(!supported(session, integrity, ui, container));
    }
    let label = |valid: bool| LabelSeen {
        written: 28,
        minimum: 16,
        capacity: 64,
        valid,
        parts: 1,
        integrity: 0x2000,
    };
    ordinary_entry(1, label(true), 0, 0).unwrap();
    assert!(ordinary_entry(1, label(false), 0, 0).is_err());
}

#[test]
fn command_lines_are_bounded() {
    assert_eq!(command_units(&units("abc\0d")).unwrap(), units("abc"));
    assert!(command_units(&units("abc")).is_err());
    assert!(command_units(&vec![b'a' as u16; COMMAND_LIMIT + 1]).is_err());
}

fn seen(opened: u32, debugger: u32) -> KeySeen {
    KeySeen {
        opened,
        debugger,
        filters: vec![],
    }
}

#[test]
fn creation_is_plain_without_any_debugger() {
    assert!(check(&seen(2, 0)).is_ok());
    assert!(check(&seen(0, 2)).is_ok());
    assert!(check(&seen(0, 0)).is_err());
    let filtered = |debugger: u32| KeySeen {
        opened: 0,
        debugger: 2,
        filters: vec![FilterSeen {
            listed: 0,
            name: units("Filter"),
            opened: 0,
            debugger,
        }],
    };
    assert!(check(&filtered(2)).is_ok());
    assert!(check(&filtered(0)).is_err());
    assert!(ensure_plain_creation(HOST, &seen(2, 0), &seen(2, 0)).is_ok());
    assert!(ensure_plain_creation(HOST, &seen(2, 0), &seen(0, 0)).is_err());
    assert!(guarded_key(HOST).unwrap().ends_with("app-proxy-host.exe"));
}

#[test]
fn steps_taken_one_by_one_install_and_remove() {
    let mut stepped = machine();
    let mut whole = machine();
    let record = record();
    let mut step = InstallStep::Begin { size: 2 };
    let mut steps = 0;
    while !matches!(step, InstallStep::Done) {
        step = stepped.install_step(&record, step).unwrap();
        steps += 1;
    }
    assert_eq!(steps, 9);
    install(&mut whole, &record).unwrap();
    assert_eq!(format!("{stepped:?}"), format!("{whole:?}"));
    let mut step = RemoveStep::Begin;
    while !matches!(step, RemoveStep::Done) {
        step = stepped.remove_step(&record, step).unwrap();
    }
    remove(&mut whole, &record).unwrap();
    assert_eq!(format!("{stepped:?}"), format!("{whole:?}"));
    assert!(matches!(
        machine().install_step(&record, InstallStep::Begin { size: 65537 }),
        Err(Error::Invalid("IFEO_RECORD_SIZE"))
    ));
}

#[test]
fn changes_between_two_steps_are_seen() {
    let mut machine = machine();
    let record = record();
    let mut step = InstallStep::Begin { size: 2 };
    while !matches!(step, InstallStep::Setting { .. }) {
        step = machine.install_step(&record, step).unwrap();
    }
    at(&mut machine).debugger = Some(Value::string("other.exe").unwrap());
    assert!(matches!(
        machine.install_step(&record, step),
        Err(Error::Invalid("IFEO_FOREIGN_DEBUGGER"))
    ));
}

#[test]
fn non_ascii_servers_are_no_verbatim_prefixes() {
    let units = |path: &str| -> Vec<u16> { path.encode_utf16().collect() };
    assert!(!is_words_absolute(&units("\\\\é\\")));
    assert!(is_words_absolute(&units("\\\\?\\C:\\x")));
    assert!(is_words_absolute(&units("\\\\é\\ö\\x")));
    assert!(is_words_absolute(&units("C:\\é")));
    assert!(!is_words_absolute(&units("é:\\x")));
}
