//! The journal of image registrations. A protected record precedes every activation and removal, so
//! that an interrupted change can be completed and the program's own settings come back.
//!
//! `Machine` is the part of the registry that concerns one program name. The functions named `check_`
//! decide one durable step each from what is found there; `install` and `remove` string them
//! together, and `ifeo_steps` takes them one by one.
use vstd::prelude::*;
use vstd::string::*;
use crate::error::{Error, Result, invalid};
use crate::ids::Uuid;
use crate::ifeo_registry::{VALUE_LIMIT, Value, ValueView, copy_value, dword_view, encode, holds_text, same_value, string_view, value_view};
use crate::ifeo_rules::{Registration, RegistrationView, debugger_command, dos, dos_path, filter_name, registration_validity};
use crate::path;
use crate::path::last_component;
use crate::seqs::{first_where, first_where_is, first_where_none};
use crate::text;

verus! {

/// How many registrations the journal holds at most, and how many filters a program has at most.
pub const RECORD_LIMIT: usize = 512;

/// How far a registration has come.
#[derive(Clone, Copy, Debug, PartialEq, Eq, Structural)]
pub enum Phase {
    Installing,
    Active,
    Removing,
    Removed,
}

/// A registration and how far it has come.
#[derive(Clone, Debug)]
pub struct Journal {
    pub record: Registration,
    pub phase: Phase,
}

/// The contents of a journal.
pub struct JournalView {
    pub record: RegistrationView,
    pub phase: Phase,
}

/// A value of the journal's key: its name, and what it decodes to.
#[derive(Clone, Debug)]
pub struct Entry {
    pub name: String,
    pub journal: Option<Journal>,
}

/// The contents of an entry.
pub struct EntryView {
    pub name: Seq<char>,
    pub journal: Option<JournalView>,
}

impl View for Entry {
    type V = EntryView;

    open spec fn view(&self) -> EntryView {
        EntryView {
            name: self.name@,
            journal: match self.journal {
                Some(journal) => Some(
                    JournalView { record: journal.record@, phase: journal.phase },
                ),
                None => None,
            },
        }
    }
}

/// What a program's own setting was before its first registration. `basename_key` is the program's
/// name as names are compared.
#[derive(Clone, Debug)]
pub struct Backup {
    pub format: String,
    pub basename_key: String,
    pub original: Option<Value>,
}

/// The contents of a backup.
pub struct BackupView {
    pub format: Seq<char>,
    pub basename_key: Seq<char>,
    pub original: Option<ValueView>,
}

/// The backup of a program: none, something that is no backup, or a backup.
#[derive(Clone, Debug)]
pub enum StoredBackup {
    Missing,
    Malformed,
    Stored(Backup),
}

/// The contents of a stored backup.
pub enum StoredView {
    Missing,
    Malformed,
    Stored(BackupView),
}

impl View for StoredBackup {
    type V = StoredView;

    open spec fn view(&self) -> StoredView {
        match self {
            StoredBackup::Missing => StoredView::Missing,
            StoredBackup::Malformed => StoredView::Malformed,
            StoredBackup::Stored(backup) => StoredView::Stored(
                BackupView {
                    format: backup.format@,
                    basename_key: backup.basename_key@,
                    original: value_view(backup.original),
                },
            ),
        }
    }
}

/// A filter of a program. `extra` counts the values other than the three, `path_key` is the DOS form of
/// the path that the filter names, as names are compared, and `fault` is the code with which the
/// filter's own protection is refused.
#[derive(Clone, Debug)]
pub struct Filter {
    pub name: String,
    pub owner: Option<Value>,
    pub path: Option<Value>,
    pub debugger: Option<Value>,
    pub extra: u32,
    pub children: u32,
    pub path_key: String,
    pub fault: Option<&'static str>,
}

/// The contents of a filter.
pub struct FilterView {
    pub name: Seq<char>,
    pub owner: Option<ValueView>,
    pub path: Option<ValueView>,
    pub debugger: Option<ValueView>,
    pub extra: u32,
    pub children: u32,
    pub path_key: Seq<char>,
    pub fault: Option<&'static str>,
}

impl View for Filter {
    type V = FilterView;

    open spec fn view(&self) -> FilterView {
        FilterView {
            name: self.name@,
            owner: value_view(self.owner),
            path: value_view(self.path),
            debugger: value_view(self.debugger),
            extra: self.extra,
            children: self.children,
            path_key: self.path_key@,
            fault: self.fault,
        }
    }
}

/// The key of a program. `rest` stands for every other value of the key, such as mitigations.
#[derive(Clone, Debug)]
pub struct Parent {
    pub debugger: Option<Value>,
    pub use_filter: Option<Value>,
    pub filters: Vec<Filter>,
    pub rest: Vec<u8>,
    pub fault: Option<&'static str>,
}

/// The contents of a program's key.
pub struct ParentView {
    pub debugger: Option<ValueView>,
    pub use_filter: Option<ValueView>,
    pub filters: Seq<FilterView>,
    pub rest: Seq<u8>,
    pub fault: Option<&'static str>,
}

/// The contents of filters, in order.
pub open spec fn filter_views(filters: Seq<Filter>) -> Seq<FilterView> {
    filters.map_values(|filter: Filter| filter@)
}

/// The contents of entries, in order.
pub open spec fn entry_views(entries: Seq<Entry>) -> Seq<EntryView> {
    entries.map_values(|entry: Entry| entry@)
}

impl View for Parent {
    type V = ParentView;

    open spec fn view(&self) -> ParentView {
        ParentView {
            debugger: value_view(self.debugger),
            use_filter: value_view(self.use_filter),
            filters: filter_views(self.filters@),
            rest: self.rest@,
            fault: self.fault,
        }
    }
}

/// The part of the registry that concerns one program name. `index` and `records` say that the
/// journal's keys exist, `stray` that unknown keys lie in them, `root` that the key of all programs
/// exists; a fault is the code with which the protection of a key is refused.
#[derive(Clone, Debug)]
pub struct Machine {
    pub index: bool,
    pub index_fault: Option<&'static str>,
    pub records: bool,
    pub stray: bool,
    pub entries: Vec<Entry>,
    pub backup: StoredBackup,
    pub root: bool,
    pub root_fault: Option<&'static str>,
    pub parent: Option<Parent>,
}

/// The contents of that part of the registry.
pub struct MachineView {
    pub index: bool,
    pub index_fault: Option<&'static str>,
    pub records: bool,
    pub stray: bool,
    pub entries: Seq<EntryView>,
    pub backup: StoredView,
    pub root: bool,
    pub root_fault: Option<&'static str>,
    pub parent: Option<ParentView>,
}

impl View for Machine {
    type V = MachineView;

    open spec fn view(&self) -> MachineView {
        MachineView {
            index: self.index,
            index_fault: self.index_fault,
            records: self.records,
            stray: self.stray,
            entries: entry_views(self.entries@),
            backup: self.backup@,
            root: self.root,
            root_fault: self.root_fault,
            parent: match self.parent {
                Some(parent) => Some(parent@),
                None => None,
            },
        }
    }
}

/// Why an entry of the journal may not be used: its name is no identifier, its contents are no
/// registration, or it is the registration of another identifier.
pub open spec fn entry_validity(entry: EntryView) -> Result<()> {
    if !exists|id: Uuid| entry.name == #[trigger] id.text() {
        invalid("IFEO_INVALID_INDEX")
    } else {
        match entry.journal {
            None => invalid("IFEO_INVALID_RECORD"),
            Some(journal) => match registration_validity(journal.record) {
                Err(e) => Err(e),
                Ok(_) => if entry.name == journal.record.id.text() {
                    Ok(())
                } else {
                    invalid("IFEO_RECORD_CHANGED")
                },
            },
        }
    }
}

/// The first entry from place `i` on that may not be used decides.
pub open spec fn entries_validity(entries: Seq<EntryView>, i: int) -> Result<()>
    decreases entries.len() - i,
{
    if i < 0 || i >= entries.len() {
        Ok(())
    } else if entry_validity(entries[i]) is Err {
        entry_validity(entries[i])
    } else {
        entries_validity(entries, i + 1)
    }
}

/// Entries of this name.
pub open spec fn entry_named(name: Seq<char>) -> spec_fn(EntryView) -> bool {
    |entry: EntryView| entry.name == name
}

/// The place of a registration's entry.
pub open spec fn entry_at(entries: Seq<EntryView>, id: Uuid) -> Option<int> {
    first_where(entries, entry_named(id.text()))
}

/// The program's name as names are compared.
pub open spec fn base_key(record: RegistrationView) -> Seq<char> {
    match last_component(record.target_key) {
        Some(name) => name,
        None => Seq::empty(),
    }
}

/// An entry that another registration must not collide with: it is not removed, and it has the same
/// target file or the same target path.
pub open spec fn collides(entry: EntryView, record: RegistrationView) -> bool {
    entry.journal matches Some(journal) && journal.phase != Phase::Removed && journal.record.id
        != record.id && (journal.record.target_image == record.target_image
        || journal.record.target_key == record.target_key)
}

/// An entry that takes part in the registrations of the program.
pub open spec fn participates(entry: EntryView, record: RegistrationView) -> bool {
    entry.journal matches Some(journal) && journal.phase != Phase::Removed && base_key(
        journal.record,
    ) == base_key(record)
}

/// Another registration of the program is not removed yet.
pub open spec fn others_remain(entries: Seq<EntryView>, record: RegistrationView) -> bool {
    exists|i: int|
        0 <= i < entries.len() && #[trigger] participates(entries[i], record)
            && entries[i].journal->0.record.id != record.id
}

/// A setting that the program's key may have.
pub open spec fn setting_valid(value: Option<ValueView>) -> bool {
    value is None || value == Some(dword_view(0)) || value == Some(dword_view(1))
}

/// The filter of a registration.
pub open spec fn own(id: Uuid) -> spec_fn(FilterView) -> bool {
    |filter: FilterView| text::same_folded(filter.name, filter_name(id))
}

/// The three values of a complete filter.
pub open spec fn owner_value(record: RegistrationView) -> ValueView {
    string_view(record.id.text())
}

pub open spec fn path_value(record: RegistrationView) -> ValueView {
    string_view(dos(record.target)->Ok_0)
}

pub open spec fn debugger_value(record: RegistrationView) -> ValueView {
    string_view(debugger_command(dos(record.host)->Ok_0, record.id))
}

/// A value that is as expected, or absent where that is allowed.
pub open spec fn fits(value: Option<ValueView>, expected: ValueView, partial: bool) -> bool {
    value == Some(expected) || (partial && value is None)
}

/// A filter holds what its registration wrote and nothing else.
pub open spec fn filter_fits(filter: FilterView, record: RegistrationView, partial: bool) -> bool {
    fits(filter.owner, owner_value(record), partial) && fits(
        filter.path,
        path_value(record),
        partial,
    ) && fits(filter.debugger, debugger_value(record), partial) && filter.extra == 0
        && filter.children == 0
}

/// The place of a registration's filter. `partial` allows a filter that is missing or incomplete.
pub open spec fn filter_state(parent: ParentView, record: RegistrationView, partial: bool) -> Result<
    Option<int>,
> {
    match first_where(parent.filters, own(record.id)) {
        None => if partial {
            Ok(None)
        } else {
            invalid("IFEO_REGISTRATION_CHANGED")
        },
        Some(at) => match parent.filters[at].fault {
            Some(code) => invalid(code),
            None => if filter_fits(parent.filters[at], record, partial) {
                Ok(Some(at))
            } else {
                invalid("IFEO_REGISTRATION_CHANGED")
            },
        },
    }
}

/// Why a filter of someone else stands in the way of a registration.
pub open spec fn foreign_filter(
    filter: FilterView,
    record: RegistrationView,
    setting: Option<ValueView>,
) -> Result<()> {
    if text::same_folded(filter.name, filter_name(record.id)) {
        Ok(())
    } else if setting != Some(dword_view(1)) {
        invalid("IFEO_INACTIVE_FOREIGN_FILTERS")
    } else {
        match filter.path {
            None => invalid("IFEO_UNKNOWN_FILTER"),
            Some(value) => if !exists|t: Seq<char>| #[trigger] holds_text(value, t) {
                invalid("IFEO_INVALID_STRING")
            } else {
                match dos(choose|t: Seq<char>| #[trigger] holds_text(value, t)) {
                    Err(e) => Err(e),
                    Ok(_) => if filter.path_key == record.target_key {
                        invalid("IFEO_FILTER_CONFLICT")
                    } else {
                        Ok(())
                    },
                }
            },
        }
    }
}

/// The first filter from place `i` on that stands in the way decides.
pub open spec fn foreign_filters(
    filters: Seq<FilterView>,
    record: RegistrationView,
    setting: Option<ValueView>,
    i: int,
) -> Result<()>
    decreases filters.len() - i,
{
    if i < 0 || i >= filters.len() {
        Ok(())
    } else if foreign_filter(filters[i], record, setting) is Err {
        foreign_filter(filters[i], record, setting)
    } else {
        foreign_filters(filters, record, setting, i + 1)
    }
}

/// What belongs to others does not stand in the way of a registration.
pub open spec fn foreign(
    parent: ParentView,
    record: RegistrationView,
    setting: Option<ValueView>,
) -> Result<()> {
    if parent.debugger is Some {
        invalid("IFEO_FOREIGN_DEBUGGER")
    } else {
        foreign_filters(parent.filters, record, setting, 0)
    }
}

/// A registration is in force exactly as it was recorded.
pub open spec fn exact(parent: ParentView, record: RegistrationView) -> Result<()> {
    if parent.debugger is Some || parent.use_filter != Some(dword_view(1)) {
        invalid("IFEO_REGISTRATION_CHANGED")
    } else {
        match filter_state(parent, record, false) {
            Err(e) => Err(e),
            Ok(_) => foreign(parent, record, Some(dword_view(1))),
        }
    }
}

/// The program's key, if it is there and protected.
pub open spec fn parent_of(machine: MachineView) -> Result<ParentView> {
    if !machine.root {
        invalid("IFEO_ROOT_MISSING")
    } else {
        match machine.root_fault {
            Some(code) => invalid(code),
            None => match machine.parent {
                None => invalid("IFEO_REGISTRATION_CHANGED"),
                Some(parent) => match parent.fault {
                    Some(code) => invalid(code),
                    None => Ok(parent),
                },
            },
        }
    }
}

/// The recorded backup of the program.
pub open spec fn backup_of(machine: MachineView, record: RegistrationView) -> Result<
    Option<ValueView>,
> {
    match machine.backup {
        StoredView::Missing => invalid("IFEO_BACKUP_MISSING"),
        StoredView::Malformed => invalid("IFEO_INVALID_RECORD"),
        StoredView::Stored(backup) => if backup.format != "app-proxy-rust-ifeo-parent-v1"@
            || backup.basename_key != base_key(record) {
            invalid("IFEO_INVALID_BACKUP")
        } else if !setting_valid(backup.original) {
            invalid("IFEO_INVALID_USE_FILTER")
        } else {
            Ok(backup.original)
        },
    }
}

/// The journal of registration `id`.
pub open spec fn journal_of(machine: MachineView, id: Uuid) -> Result<JournalView> {
    if !machine.index {
        invalid("IFEO_NOT_REGISTERED")
    } else if machine.index_fault is Some {
        invalid(machine.index_fault->0)
    } else if !machine.records {
        invalid("IFEO_NOT_REGISTERED")
    } else if machine.stray {
        invalid("IFEO_RECORD_CHANGED")
    } else {
        match entry_at(machine.entries, id) {
            None => invalid("IFEO_NOT_REGISTERED"),
            Some(at) => match entry_validity(machine.entries[at]) {
                Err(e) => Err(e),
                Ok(_) => Ok(machine.entries[at].journal->0),
            },
        }
    }
}

/// The registration of this identifier, if it is in force.
pub open spec fn read_of(machine: MachineView, id: Uuid) -> Result<RegistrationView> {
    match journal_of(machine, id) {
        Err(e) => Err(e),
        Ok(journal) => if journal.phase == Phase::Active {
            Ok(journal.record)
        } else if journal.phase == Phase::Removed {
            invalid("IFEO_NOT_REGISTERED")
        } else {
            invalid("IFEO_OPERATION_INCOMPLETE")
        },
    }
}

/// How an installation begins.
pub enum Beginning {
    /// The registration is in force already, or was found changed.
    Settled(Result<()>),
    /// It has to be written. `fresh` says that no intent is recorded yet, `backup` that the program's
    /// setting has to be saved first; `original` is that setting.
    Proceed { fresh: bool, backup: bool, original: Option<ValueView> },
}

/// An empty key.
pub open spec fn empty_parent() -> ParentView {
    ParentView {
        debugger: None,
        use_filter: None,
        filters: Seq::empty(),
        rest: Seq::empty(),
        fault: None,
    }
}

/// The keys that an installation makes sure of before it decides.
pub open spec fn with_keys(machine: MachineView) -> MachineView {
    MachineView {
        parent: if machine.parent is None {
            Some(empty_parent())
        } else {
            machine.parent
        },
        ..machine
    }
}

/// Whether the journal lets a registration be installed: `Ok(Some(fresh))` says that it does.
pub open spec fn admissible(machine: MachineView, record: RegistrationView) -> Result<Option<bool>> {
    if registration_validity(record) is Err {
        Err(registration_validity(record)->Err_0)
    } else if machine.index_fault is Some {
        invalid(machine.index_fault->0)
    } else if machine.records && machine.stray {
        invalid("IFEO_RECORD_CHANGED")
    } else if entries_validity(machine.entries, 0) is Err {
        Err(entries_validity(machine.entries, 0)->Err_0)
    } else {
        match entry_at(machine.entries, record.id) {
            None => if machine.entries.len() >= RECORD_LIMIT {
                invalid("IFEO_RECORD_LIMIT")
            } else {
                Ok(Some(true))
            },
            Some(at) => {
                let journal = machine.entries[at].journal->0;
                if journal.record != record {
                    invalid("IFEO_OWNER_CONFLICT")
                } else if journal.phase == Phase::Active {
                    Ok(None)
                } else if journal.phase == Phase::Installing {
                    Ok(Some(false))
                } else {
                    invalid("IFEO_REGISTRATION_RETIRED")
                }
            },
        }
    }
}

/// Some entry collides with a registration.
pub open spec fn collision(entries: Seq<EntryView>, record: RegistrationView) -> bool {
    exists|i: int| 0 <= i < entries.len() && #[trigger] collides(entries[i], record)
}

/// Some entry takes part in the registrations of the program.
pub open spec fn participation(entries: Seq<EntryView>, record: RegistrationView) -> bool {
    exists|i: int| 0 <= i < entries.len() && #[trigger] participates(entries[i], record)
}

/// What an installation begins with, on a machine whose keys were made sure of.
pub open spec fn beginning(machine: MachineView, record: RegistrationView) -> Result<Beginning> {
    match admissible(machine, record) {
        Err(e) => Err(e),
        Ok(None) => Ok(
            Beginning::Settled(
                match parent_of(machine) {
                    Err(e) => Err(e),
                    Ok(parent) => exact(parent, record),
                },
            ),
        ),
        Ok(Some(fresh)) => if collision(machine.entries, record) {
            invalid("IFEO_OWNER_CONFLICT")
        } else {
            match parent_of(with_keys(machine)) {
                Err(e) => Err(e),
                Ok(parent) => {
                    let filter = first_where(parent.filters, own(record.id));
                    let shared = participation(machine.entries, record);
                    if fresh && filter is Some {
                        invalid("IFEO_OWNER_CONFLICT")
                    } else if filter is None && parent.filters.len() >= RECORD_LIMIT {
                        invalid("IFEO_KEY_LIMIT")
                    } else if !setting_valid(parent.use_filter) {
                        invalid("IFEO_INVALID_USE_FILTER")
                    } else if !shared && foreign(parent, record, parent.use_filter) is Err {
                        Err(foreign(parent, record, parent.use_filter)->Err_0)
                    } else if shared && backup_of(machine, record) is Err {
                        Err(backup_of(machine, record)->Err_0)
                    } else {
                        Ok(
                            Beginning::Proceed {
                                fresh,
                                backup: !shared,
                                original: if shared {
                                    backup_of(machine, record)->Ok_0
                                } else {
                                    parent.use_filter
                                },
                            },
                        )
                    }
                },
            }
        },
    }
}

/// The program's setting is the saved one or the one that registrations need.
pub open spec fn setting_known(parent: ParentView, original: Option<ValueView>) -> bool {
    parent.use_filter == original || parent.use_filter == Some(dword_view(1))
}

/// Whether the next step of an installation may be taken: nothing that belongs to others, and no
/// setting that nobody recorded, stands in the way.
pub open spec fn undisturbed(
    machine: MachineView,
    record: RegistrationView,
    original: Option<ValueView>,
) -> Result<()> {
    match parent_of(machine) {
        Err(e) => Err(e),
        Ok(parent) => if !setting_known(parent, original) {
            invalid("IFEO_PARENT_CHANGED")
        } else {
            foreign(parent, record, parent.use_filter)
        },
    }
}

/// One of the three values of a filter.
#[derive(Clone, Copy, Debug, PartialEq, Eq, Structural)]
pub enum Part {
    Owner,
    Path,
    Debugger,
}

/// A value of a filter.
pub open spec fn part_of(filter: FilterView, part: Part) -> Option<ValueView> {
    match part {
        Part::Owner => filter.owner,
        Part::Path => filter.path,
        Part::Debugger => filter.debugger,
    }
}

/// What a value of a registration's filter has to be.
pub open spec fn part_value(record: RegistrationView, part: Part) -> ValueView {
    match part {
        Part::Owner => owner_value(record),
        Part::Path => path_value(record),
        Part::Debugger => debugger_value(record),
    }
}

/// Whether a value of the filter has to be written; one that differs is not ours to change.
pub open spec fn part_missing(machine: MachineView, record: RegistrationView, part: Part) -> Result<
    bool,
> {
    match parent_of(machine) {
        Err(e) => Err(e),
        Ok(parent) => match first_where(parent.filters, own(record.id)) {
            None => Ok(true),
            Some(at) => match part_of(parent.filters[at], part) {
                None => Ok(true),
                Some(value) => if value == part_value(record, part) {
                    Ok(false)
                } else {
                    invalid("IFEO_REGISTRATION_CHANGED")
                },
            },
        },
    }
}

/// Whether what is there of the filter is its registration's.
pub open spec fn filter_partial(machine: MachineView, record: RegistrationView) -> Result<()> {
    match parent_of(machine) {
        Err(e) => Err(e),
        Ok(parent) => match filter_state(parent, record, true) {
            Err(e) => Err(e),
            Ok(_) => Ok(()),
        },
    }
}

/// Whether a registration is in force exactly as it was recorded.
pub open spec fn verified(machine: MachineView, record: RegistrationView) -> Result<()> {
    match parent_of(machine) {
        Err(e) => Err(e),
        Ok(parent) => exact(parent, record),
    }
}

/// A filter without values.
pub open spec fn empty_filter(record: RegistrationView) -> FilterView {
    FilterView {
        name: filter_name(record.id),
        owner: None,
        path: None,
        debugger: None,
        extra: 0,
        children: 0,
        path_key: record.target_key,
        fault: None,
    }
}

/// A filter with one value set.
pub open spec fn with_part(filter: FilterView, part: Part, value: Option<ValueView>) -> FilterView {
    match part {
        Part::Owner => FilterView { owner: value, ..filter },
        Part::Path => FilterView { path: value, ..filter },
        Part::Debugger => FilterView { debugger: value, ..filter },
    }
}

/// The machine once a value of the filter is written, in a filter that is made if there is none.
pub open spec fn part_written(machine: MachineView, record: RegistrationView, part: Part) -> MachineView {
    let parent = machine.parent->0;
    let filters = match first_where(parent.filters, own(record.id)) {
        Some(at) => parent.filters.update(
            at,
            with_part(parent.filters[at], part, Some(part_value(record, part))),
        ),
        None => parent.filters.push(
            with_part(empty_filter(record), part, Some(part_value(record, part))),
        ),
    };
    MachineView { parent: Some(ParentView { filters, ..parent }), ..machine }
}

/// The machine once a phase is recorded.
pub open spec fn phase_written(
    machine: MachineView,
    record: RegistrationView,
    phase: Phase,
) -> MachineView {
    let entry = EntryView {
        name: record.id.text(),
        journal: Some(JournalView { record, phase }),
    };
    MachineView {
        index: true,
        records: true,
        entries: match entry_at(machine.entries, record.id) {
            Some(at) => machine.entries.update(at, entry),
            None => machine.entries.push(entry),
        },
        ..machine
    }
}

/// The machine once the program's setting is saved.
pub open spec fn backup_written(
    machine: MachineView,
    record: RegistrationView,
    original: Option<ValueView>,
) -> MachineView {
    MachineView {
        index: true,
        backup: StoredView::Stored(
            BackupView {
                format: "app-proxy-rust-ifeo-parent-v1"@,
                basename_key: base_key(record),
                original,
            },
        ),
        ..machine
    }
}

/// The machine once the program's setting is written.
pub open spec fn setting_written(machine: MachineView, value: Option<ValueView>) -> MachineView {
    MachineView {
        parent: Some(ParentView { use_filter: value, ..machine.parent->0 }),
        ..machine
    }
}

/// When an operation is to be interrupted: after this many durable writes, or before the intent.
#[derive(Clone, Copy, Debug, PartialEq, Eq, Structural)]
pub struct Interruption {
    pub after: Option<usize>,
    pub before_intent: bool,
}

/// An operation under way: the machine, the interruption that is still to come, and how it stands.
pub struct Run {
    pub machine: MachineView,
    pub interruption: Interruption,
    pub result: Result<()>,
}

/// A durable write was made.
pub open spec fn checkpointed(run: Run) -> Run {
    match run.interruption.after {
        None => run,
        Some(n) => if n <= 1 {
            Run {
                interruption: Interruption { after: None, ..run.interruption },
                result: invalid("IFEO_FIXTURE_INTERRUPTION"),
                ..run
            }
        } else {
            Run {
                interruption: Interruption { after: Some((n - 1) as usize), ..run.interruption },
                ..run
            }
        },
    }
}

/// The next step: nothing once the operation has failed, a failure, no write, or a write.
pub open spec fn stepped(run: Run, decision: Result<bool>, written: MachineView) -> Run {
    if run.result is Err {
        run
    } else {
        match decision {
            Err(e) => Run { result: Err(e), ..run },
            Ok(false) => run,
            Ok(true) => checkpointed(Run { machine: written, ..run }),
        }
    }
}

/// A step that only checks.
pub open spec fn checked_step(run: Run, decision: Result<()>) -> Run {
    if run.result is Err {
        run
    } else {
        Run { result: decision, ..run }
    }
}

/// `Ok(write)` unless a check refuses.
pub open spec fn gated(decision: Result<()>, write: bool) -> Result<bool> {
    match decision {
        Err(e) => Err(e),
        Ok(_) => Ok(write),
    }
}

/// The part of an installation before the filter is touched: the setting is saved, then the intent is
/// recorded.
pub open spec fn intended(
    start: Run,
    record: RegistrationView,
    fresh: bool,
    backup: bool,
    original: Option<ValueView>,
) -> Run {
    let saved = stepped(start, Ok(backup), backup_written(start.machine, record, original));
    let clear = checked_step(saved, undisturbed(saved.machine, record, original));
    let ready = if clear.result is Ok && fresh && clear.interruption.before_intent {
        Run {
            interruption: Interruption { before_intent: false, ..clear.interruption },
            result: invalid("IFEO_FIXTURE_INTERRUPTION"),
            ..clear
        }
    } else {
        clear
    };
    stepped(ready, Ok(fresh), phase_written(ready.machine, record, Phase::Installing))
}

/// The part of an installation that fills the filter. The debugger, which puts the registration into
/// force, comes last.
pub open spec fn filled(start: Run, record: RegistrationView, original: Option<ValueView>) -> Run {
    let partial = checked_step(start, filter_partial(start.machine, record));
    let owned = stepped(
        partial,
        part_missing(partial.machine, record, Part::Owner),
        part_written(partial.machine, record, Part::Owner),
    );
    let named = stepped(
        owned,
        part_missing(owned.machine, record, Part::Path),
        part_written(owned.machine, record, Part::Path),
    );
    let enabled = stepped(
        named,
        gated(undisturbed(named.machine, record, original), true),
        setting_written(named.machine, Some(dword_view(1))),
    );
    stepped(
        enabled,
        part_missing(enabled.machine, record, Part::Debugger),
        part_written(enabled.machine, record, Part::Debugger),
    )
}

/// The machine with the keys that an installation makes before it decides.
pub open spec fn touched(machine: MachineView, record: RegistrationView) -> MachineView {
    if registration_validity(record) is Err || machine.index_fault is Some {
        machine
    } else if admissible(machine, record) is Err || admissible(machine, record)->Ok_0 is None
        || collision(machine.entries, record) || !machine.root || machine.root_fault is Some {
        MachineView { index: true, ..machine }
    } else {
        MachineView { index: true, ..with_keys(machine) }
    }
}

/// An installation from its beginning to its end. `size` is that of the intent as it is recorded.
pub open spec fn install_run(
    machine: MachineView,
    record: RegistrationView,
    size: nat,
    interruption: Interruption,
) -> Run {
    if registration_validity(record) is Ok && size > VALUE_LIMIT {
        Run { machine, interruption, result: invalid("IFEO_RECORD_SIZE") }
    } else {
        admitted_run(machine, record, interruption)
    }
}

/// An installation whose intent can be recorded.
pub open spec fn admitted_run(
    machine: MachineView,
    record: RegistrationView,
    interruption: Interruption,
) -> Run {
    match beginning(machine, record) {
        Err(e) => Run { machine: touched(machine, record), interruption, result: Err(e) },
        Ok(Beginning::Settled(result)) => Run {
            machine: touched(machine, record),
            interruption,
            result,
        },
        Ok(Beginning::Proceed { fresh, backup, original }) => {
            let start = Run { machine: touched(machine, record), interruption, result: Ok(()) };
            let done = filled(
                intended(start, record, fresh, backup, original),
                record,
                original,
            );
            let active = stepped(
                done,
                gated(verified(done.machine, record), true),
                phase_written(done.machine, record, Phase::Active),
            );
            checked_step(active, verified(active.machine, record))
        },
    }
}

/// An identifier's text holds no terminator.
proof fn id_text_plain(id: Uuid)
    ensures
        !id.text().contains('\0'),
{
    assert forall|i: int| 0 <= i < id.text().len() implies id.text()[i] != '\0' by {
        let k = crate::ids::digits_before(i);
        let s = (4 * (31 - k)) as u128;
        let b = id.bits;
        assert((b >> s) & 0xf < 16) by (bit_vector);
        let n = crate::ids::nibble(id.bits, k);
        assert(0 <= n < 16);
        assert(crate::digest::digit_value(crate::digest::hex_digit(n)) == Some(n));
    }
}

proof fn joined_plain(a: Seq<char>, b: Seq<char>)
    requires
        !a.contains('\0'),
        !b.contains('\0'),
    ensures
        !(a + b).contains('\0'),
{
    if (a + b).contains('\0') {
        let k = choose|k: int| 0 <= k < (a + b).len() && (a + b)[k] == '\0';
        if k < a.len() {
            assert(a[k] == '\0');
        } else {
            assert(b[k - a.len()] == '\0');
        }
    }
}

proof fn dos_plain(path: Seq<char>)
    requires
        dos(path) is Ok,
    ensures
        !dos(path)->Ok_0.contains('\0'),
{
    let t = crate::ifeo_rules::plain(path);
    let d = dos(path)->Ok_0;
    if d.contains('\0') {
        let k = choose|k: int| 0 <= k < d.len() && d[k] == '\0';
        assert(t[k] == '\0');
        assert(t.contains('\0'));
    }
}

proof fn command_plain(host: Seq<char>, id: Uuid)
    requires
        !host.contains('\0'),
    ensures
        !debugger_command(host, id).contains('\0'),
{
    reveal_strlit("\"");
    reveal_strlit("\" ifeo-entry --registration ");
    reveal_strlit(" --");
    id_text_plain(id);
    joined_plain("\""@, host);
    joined_plain("\""@ + host, "\" ifeo-entry --registration "@);
    joined_plain("\""@ + host + "\" ifeo-entry --registration "@, id.text());
    joined_plain("\""@ + host + "\" ifeo-entry --registration "@ + id.text(), " --"@);
}

/// The value that a registration writes into its filter.
fn expected(record: &Registration, part: Part) -> (r: Value)
    requires
        registration_validity(record@) is Ok,
    ensures
        r@ == part_value(record@, part),
{
    let made = match part {
        Part::Owner => {
            proof {
                id_text_plain(record.id);
                text::utf16_without_terminator(record.id.text());
            }
            Value::string(record.id.to_text().as_str())
        },
        Part::Path => {
            proof {
                dos_plain(record.target@);
                text::utf16_without_terminator(dos(record.target@)->Ok_0);
            }
            match dos_path(record.target.as_str()) {
                Ok(path) => Value::string(path.as_str()),
                Err(e) => Err(e),
            }
        },
        Part::Debugger => {
            proof {
                dos_plain(record.host@);
                command_plain(dos(record.host@)->Ok_0, record.id);
                text::utf16_without_terminator(
                    debugger_command(dos(record.host@)->Ok_0, record.id),
                );
            }
            match record.debugger() {
                Ok(command) => Value::string(command.as_str()),
                Err(e) => Err(e),
            }
        },
    };
    match made {
        Ok(value) => value,
        Err(_) => {
            proof {
                assert(false);
            }
            Value::dword(0)
        },
    }
}

fn check_entry(entry: &Entry) -> (r: Result<()>)
    ensures
        r == entry_validity(entry@),
{
    match Uuid::canonical(entry.name.as_str()) {
        None => {
            return Err(Error::Invalid("IFEO_INVALID_INDEX"));
        },
        Some(_) => {},
    }
    match &entry.journal {
        None => Err(Error::Invalid("IFEO_INVALID_RECORD")),
        Some(journal) => {
            journal.record.validate()?;
            if !text::same(entry.name.as_str(), journal.record.id.to_text().as_str()) {
                return Err(Error::Invalid("IFEO_RECORD_CHANGED"));
            }
            Ok(())
        },
    }
}

fn check_entries(entries: &[Entry]) -> (r: Result<()>)
    ensures
        r == entries_validity(entry_views(entries@), 0),
        r is Ok ==> forall|k: int|
            0 <= k < entries@.len() ==> entry_validity((#[trigger] entries@[k])@) is Ok,
{
    let ghost views = entry_views(entries@);
    let mut i: usize = 0;
    while i < entries.len()
        invariant
            i <= entries.len(),
            views == entry_views(entries@),
            entries_validity(views, 0) == entries_validity(views, i as int),
            forall|k: int| 0 <= k < i ==> entry_validity((#[trigger] entries@[k])@) is Ok,
        decreases entries.len() - i,
    {
        proof {
            assert(views[i as int] == entries@[i as int]@);
        }
        check_entry(&entries[i])?;
        i += 1;
    }
    Ok(())
}

fn find_entry(entries: &[Entry], id: Uuid) -> (r: Option<usize>)
    ensures
        match (r, entry_at(entry_views(entries@), id)) {
            (Some(at), Some(place)) => at == place && at < entries.len(),
            (None, None) => true,
            _ => false,
        },
{
    let ghost views = entry_views(entries@);
    let name = id.to_text();
    let mut i: usize = 0;
    while i < entries.len()
        invariant
            i <= entries.len(),
            views == entry_views(entries@),
            name@ == id.text(),
            forall|k: int| 0 <= k < i ==> !entry_named(id.text())(#[trigger] views[k]),
        decreases entries.len() - i,
    {
        proof {
            assert(views[i as int] == entries@[i as int]@);
        }
        if text::same(entries[i].name.as_str(), name.as_str()) {
            proof {
                first_where_is(views, entry_named(id.text()), i as int);
            }
            return Some(i);
        }
        i += 1;
    }
    proof {
        first_where_none(views, entry_named(id.text()));
    }
    None
}

fn base_of(record: &Registration) -> (r: String)
    ensures
        r@ == base_key(record@),
{
    match path::file_name(record.target_key.as_str()) {
        Some(name) => name,
        None => String::new(),
    }
}

fn has_collision(entries: &[Entry], record: &Registration) -> (r: bool)
    ensures
        r == collision(entry_views(entries@), record@),
{
    let ghost views = entry_views(entries@);
    let mut i: usize = 0;
    while i < entries.len()
        invariant
            i <= entries.len(),
            views == entry_views(entries@),
            forall|k: int| 0 <= k < i ==> !(#[trigger] collides(views[k], record@)),
        decreases entries.len() - i,
    {
        proof {
            assert(views[i as int] == entries@[i as int]@);
        }
        match &entries[i].journal {
            Some(journal) => {
                if !matches!(journal.phase, Phase::Removed) && journal.record.id != record.id && (
                journal.record.target_image == record.target_image || text::same(
                    journal.record.target_key.as_str(),
                    record.target_key.as_str(),
                )) {
                    proof {
                        assert(collides(views[i as int], record@));
                    }
                    return true;
                }
            },
            None => {},
        }
        i += 1;
    }
    false
}

/// Whether any entry (`own` included or not) takes part in the registrations of the program.
fn has_participants(entries: &[Entry], record: &Registration, own: bool) -> (r: bool)
    ensures
        r == (if own {
            participation(entry_views(entries@), record@)
        } else {
            others_remain(entry_views(entries@), record@)
        }),
{
    let ghost views = entry_views(entries@);
    let base = base_of(record);
    let mut i: usize = 0;
    while i < entries.len()
        invariant
            i <= entries.len(),
            views == entry_views(entries@),
            base@ == base_key(record@),
            forall|k: int|
                0 <= k < i ==> !((#[trigger] participates(views[k], record@)) && (own
                    || views[k].journal->0.record.id != record.id)),
        decreases entries.len() - i,
    {
        proof {
            assert(views[i as int] == entries@[i as int]@);
        }
        match &entries[i].journal {
            Some(journal) => {
                if !matches!(journal.phase, Phase::Removed) && text::same(
                    base_of(&journal.record).as_str(),
                    base.as_str(),
                ) && (own || journal.record.id != record.id) {
                    proof {
                        assert(participates(views[i as int], record@));
                    }
                    return true;
                }
            },
            None => {},
        }
        i += 1;
    }
    false
}

fn is_setting_valid(value: &Option<Value>) -> (r: bool)
    ensures
        r == setting_valid(value_view(*value)),
{
    match value {
        None => true,
        Some(v) => v.same(&Value::dword(0)) || v.same(&Value::dword(1)),
    }
}

fn is_one(value: &Option<Value>) -> (r: bool)
    ensures
        r == (value_view(*value) == Some(dword_view(1))),
{
    match value {
        None => false,
        Some(v) => v.same(&Value::dword(1)),
    }
}

impl Parent {
    fn find_filter(&self, record: &Registration) -> (r: Option<usize>)
        ensures
            match (r, first_where(self@.filters, own(record.id))) {
                (Some(at), Some(place)) => at == place && at < self.filters.len(),
                (None, None) => true,
                _ => false,
            },
    {
        let ghost views = self@.filters;
        let name = record.filter();
        let mut i: usize = 0;
        while i < self.filters.len()
            invariant
                i <= self.filters.len(),
                views == filter_views(self.filters@),
                name@ == filter_name(record.id),
                forall|k: int| 0 <= k < i ==> !own(record.id)(#[trigger] views[k]),
            decreases self.filters.len() - i,
        {
            proof {
                assert(views[i as int] == self.filters@[i as int]@);
            }
            if text::eq_ignore_ascii_case(self.filters[i].name.as_str(), name.as_str()) {
                proof {
                    first_where_is(views, own(record.id), i as int);
                }
                return Some(i);
            }
            i += 1;
        }
        proof {
            first_where_none(views, own(record.id));
        }
        None
    }

    fn check_filter(&self, record: &Registration, partial: bool) -> (r: Result<Option<usize>>)
        requires
            registration_validity(record@) is Ok,
        ensures
            match (r, filter_state(self@, record@, partial)) {
                (Ok(Some(at)), Ok(Some(place))) => at == place && at < self.filters.len(),
                (Ok(None), Ok(None)) => true,
                (Err(e), Err(f)) => e == f,
                _ => false,
            },
    {
        match self.find_filter(record) {
            None => if partial {
                Ok(None)
            } else {
                Err(Error::Invalid("IFEO_REGISTRATION_CHANGED"))
            },
            Some(at) => {
                let filter = &self.filters[at];
                proof {
                    assert(self@.filters[at as int] == filter@);
                }
                match filter.fault {
                    Some(code) => {
                        return Err(Error::Invalid(code));
                    },
                    None => {},
                }
                if value_fits(&filter.owner, &expected(record, Part::Owner), partial) && value_fits(
                    &filter.path,
                    &expected(record, Part::Path),
                    partial,
                ) && value_fits(&filter.debugger, &expected(record, Part::Debugger), partial)
                    && filter.extra == 0 && filter.children == 0 {
                    Ok(Some(at))
                } else {
                    Err(Error::Invalid("IFEO_REGISTRATION_CHANGED"))
                }
            },
        }
    }

    fn check_foreign(&self, record: &Registration, setting: &Option<Value>) -> (r: Result<()>)
        ensures
            r == foreign(self@, record@, value_view(*setting)),
    {
        if self.debugger.is_some() {
            return Err(Error::Invalid("IFEO_FOREIGN_DEBUGGER"));
        }
        let ghost views = self@.filters;
        let active = is_one(setting);
        let name = record.filter();
        let mut i: usize = 0;
        while i < self.filters.len()
            invariant
                i <= self.filters.len(),
                self.debugger is None,
                views == filter_views(self.filters@),
                views == self@.filters,
                name@ == filter_name(record.id),
                active == (value_view(*setting) == Some(dword_view(1))),
                foreign_filters(views, record@, value_view(*setting), 0) == foreign_filters(
                    views,
                    record@,
                    value_view(*setting),
                    i as int,
                ),
            decreases self.filters.len() - i,
        {
            let filter = &self.filters[i];
            proof {
                assert(views[i as int] == filter@);
            }
            if !text::eq_ignore_ascii_case(filter.name.as_str(), name.as_str()) {
                if !active {
                    return Err(Error::Invalid("IFEO_INACTIVE_FOREIGN_FILTERS"));
                }
                match &filter.path {
                    None => {
                        return Err(Error::Invalid("IFEO_UNKNOWN_FILTER"));
                    },
                    Some(value) => {
                        let found = value.text()?;
                        proof {
                            let t = choose|t: Seq<char>| #[trigger] holds_text(value@, t);
                            assert(holds_text(value@, found@));
                            assert(text::utf16(t) =~= text::utf16(t).push(0).drop_last());
                            assert(text::utf16(found@) =~= text::utf16(found@).push(0).drop_last());
                            text::utf16_injective(t, found@);
                        }
                        dos_path(found.as_str())?;
                        if text::same(filter.path_key.as_str(), record.target_key.as_str()) {
                            return Err(Error::Invalid("IFEO_FILTER_CONFLICT"));
                        }
                    },
                }
            }
            i += 1;
        }
        Ok(())
    }

    fn check_exact(&self, record: &Registration) -> (r: Result<()>)
        requires
            registration_validity(record@) is Ok,
        ensures
            r == exact(self@, record@),
    {
        if self.debugger.is_some() || !is_one(&self.use_filter) {
            return Err(Error::Invalid("IFEO_REGISTRATION_CHANGED"));
        }
        self.check_filter(record, false)?;
        self.check_foreign(record, &Some(Value::dword(1)))
    }
}

fn value_fits(value: &Option<Value>, expected: &Value, partial: bool) -> (r: bool)
    ensures
        r == fits(value_view(*value), expected@, partial),
{
    match value {
        Some(v) => v.same(expected),
        None => partial,
    }
}


/// Whether the filter's debugger has to be taken away first.
pub open spec fn armed(machine: MachineView, record: RegistrationView) -> Result<bool> {
    match parent_of(machine) {
        Err(e) => Err(e),
        Ok(parent) => match filter_state(parent, record, true) {
            Err(e) => Err(e),
            Ok(None) => Ok(false),
            Ok(Some(at)) => Ok(parent.filters[at].debugger is Some),
        },
    }
}

/// Whether there is a filter to delete.
pub open spec fn filter_present(machine: MachineView, record: RegistrationView) -> Result<bool> {
    match parent_of(machine) {
        Err(e) => Err(e),
        Ok(parent) => match filter_state(parent, record, true) {
            Err(e) => Err(e),
            Ok(found) => Ok(found is Some),
        },
    }
}

/// The machine once the filter's debugger is taken away.
pub open spec fn disarmed(machine: MachineView, record: RegistrationView) -> MachineView {
    let parent = machine.parent->0;
    let at = first_where(parent.filters, own(record.id))->0;
    MachineView {
        parent: Some(
            ParentView {
                filters: parent.filters.update(
                    at,
                    with_part(parent.filters[at], Part::Debugger, None),
                ),
                ..parent
            },
        ),
        ..machine
    }
}

/// The machine once the filter is deleted.
pub open spec fn filter_deleted(machine: MachineView, record: RegistrationView) -> MachineView {
    let parent = machine.parent->0;
    let at = first_where(parent.filters, own(record.id))->0;
    MachineView {
        parent: Some(ParentView { filters: parent.filters.remove(at), ..parent }),
        ..machine
    }
}

/// Whether the program's setting has to be put back: only once no other registration of the program
/// remains, and only if nobody else has come to depend on it.
pub open spec fn restorable(
    machine: MachineView,
    record: RegistrationView,
    original: Option<ValueView>,
) -> Result<bool> {
    match parent_of(machine) {
        Err(e) => Err(e),
        Ok(parent) => if entries_validity(machine.entries, 0) is Err {
            Err(entries_validity(machine.entries, 0)->Err_0)
        } else if others_remain(machine.entries, record) {
            Ok(false)
        } else if original != Some(dword_view(1)) && parent.filters.len() > 0 {
            invalid("IFEO_FOREIGN_FILTERS_ADDED")
        } else if parent.use_filter == original {
            Ok(false)
        } else if parent.use_filter != Some(dword_view(1)) {
            invalid("IFEO_PARENT_CHANGED")
        } else {
            Ok(true)
        },
    }
}

/// Whether a removal may begin: `Ok(None)` says that the registration is removed already, otherwise the
/// program's saved setting is told.
pub open spec fn removable(machine: MachineView, record: RegistrationView) -> Result<
    Option<Option<ValueView>>,
> {
    match journal_of(machine, record.id) {
        Err(e) => Err(e),
        Ok(journal) => if journal.record != record {
            invalid("IFEO_OWNER_CONFLICT")
        } else {
            match parent_of(machine) {
                Err(e) => Err(e),
                Ok(parent) => if journal.phase == Phase::Removed {
                    if first_where(parent.filters, own(record.id)) is Some {
                        invalid("IFEO_REGISTRATION_CHANGED")
                    } else {
                        Ok(None)
                    }
                } else if parent.debugger is Some {
                    invalid("IFEO_FOREIGN_DEBUGGER")
                } else {
                    match backup_of(machine, record) {
                        Err(e) => Err(e),
                        Ok(original) => if parent.use_filter != Some(dword_view(1)) && !(
                        journal.phase != Phase::Active && parent.use_filter == original) {
                            invalid("IFEO_PARENT_CHANGED")
                        } else {
                            match filter_state(parent, record, journal.phase != Phase::Active) {
                                Err(e) => Err(e),
                                Ok(_) => Ok(Some(original)),
                            }
                        },
                    }
                },
            }
        },
    }
}

/// Whether the filter is gone.
pub open spec fn gone(machine: MachineView, record: RegistrationView) -> Result<()> {
    match parent_of(machine) {
        Err(e) => Err(e),
        Ok(parent) => if first_where(parent.filters, own(record.id)) is Some {
            invalid("IFEO_REMOVE_UNCONFIRMED")
        } else {
            Ok(())
        },
    }
}

/// A removal from its beginning to its end. The debugger, which keeps the registration in force, goes
/// first.
pub open spec fn remove_run(
    machine: MachineView,
    record: RegistrationView,
    interruption: Interruption,
) -> Run {
    let start = Run { machine, interruption, result: Ok(()) };
    match removable(machine, record) {
        Err(e) => Run { result: Err(e), ..start },
        Ok(None) => start,
        Ok(Some(original)) => {
            let marked = stepped(start, Ok(true), phase_written(machine, record, Phase::Removing));
            let bare = stepped(
                marked,
                armed(marked.machine, record),
                disarmed(marked.machine, record),
            );
            let cut = stepped(
                bare,
                filter_present(bare.machine, record),
                filter_deleted(bare.machine, record),
            );
            let restored = stepped(
                cut,
                restorable(cut.machine, record, original),
                setting_written(cut.machine, original),
            );
            let done = stepped(
                restored,
                Ok(true),
                phase_written(restored.machine, record, Phase::Removed),
            );
            checked_step(done, gone(done.machine, record))
        },
    }
}

impl Interruption {
    /// No interruption.
    pub fn none() -> (r: Interruption)
        ensures
            r == (Interruption { after: None, before_intent: false }),
    {
        Interruption { after: None, before_intent: false }
    }

    /// Interrupt before the intent of the next installation.
    pub fn interrupt_before_intent(&mut self)
        ensures
            *final(self) == (Interruption { before_intent: true, ..*old(self) }),
    {
        self.before_intent = true;
    }

    /// Interrupt after so many durable writes.
    pub fn interrupt_after(&mut self, step: usize)
        ensures
            *final(self) == (Interruption { after: Some(step), ..*old(self) }),
    {
        self.after = Some(step);
    }

    /// The point before an intent is recorded.
    pub fn before_intent(&mut self) -> (r: Result<()>)
        ensures
            r == (if old(self).before_intent {
                invalid::<()>("IFEO_FIXTURE_INTERRUPTION")
            } else {
                Ok(())
            }),
            *final(self) == (Interruption { before_intent: false, ..*old(self) }),
    {
        if self.before_intent {
            self.before_intent = false;
            return Err(Error::Invalid("IFEO_FIXTURE_INTERRUPTION"));
        }
        Ok(())
    }

    /// The point after a durable write.
    pub fn checkpoint(&mut self) -> (r: Result<()>)
        ensures
            forall|machine: MachineView|
                #[trigger] checkpointed(
                    Run { machine, interruption: *old(self), result: Ok(()) },
                ) == (Run { machine, interruption: *final(self), result: r }),
    {
        match self.after {
            None => Ok(()),
            Some(n) => {
                if n <= 1 {
                    self.after = None;
                    return Err(Error::Invalid("IFEO_FIXTURE_INTERRUPTION"));
                }
                self.after = Some(n - 1);
                Ok(())
            },
        }
    }
}

impl Machine {
    fn parent_ref(&self) -> (r: Result<&Parent>)
        ensures
            match (r, parent_of(self@)) {
                (Ok(parent), Ok(view)) => parent@ == view && self.parent == Some(*parent),
                (Err(e), Err(f)) => e == f,
                _ => false,
            },
    {
        if !self.root {
            return Err(Error::Invalid("IFEO_ROOT_MISSING"));
        }
        match self.root_fault {
            Some(code) => {
                return Err(Error::Invalid(code));
            },
            None => {},
        }
        match &self.parent {
            None => Err(Error::Invalid("IFEO_REGISTRATION_CHANGED")),
            Some(parent) => match parent.fault {
                Some(code) => Err(Error::Invalid(code)),
                None => Ok(parent),
            },
        }
    }

    fn backup_original(&self, record: &Registration) -> (r: Result<Option<Value>>)
        ensures
            match (r, backup_of(self@, record@)) {
                (Ok(value), Ok(view)) => value_view(value) == view,
                (Err(e), Err(f)) => e == f,
                _ => false,
            },
    {
        match &self.backup {
            StoredBackup::Missing => Err(Error::Invalid("IFEO_BACKUP_MISSING")),
            StoredBackup::Malformed => Err(Error::Invalid("IFEO_INVALID_RECORD")),
            StoredBackup::Stored(backup) => {
                if !text::same(backup.format.as_str(), "app-proxy-rust-ifeo-parent-v1")
                    || !text::same(backup.basename_key.as_str(), base_of(record).as_str()) {
                    return Err(Error::Invalid("IFEO_INVALID_BACKUP"));
                }
                if !is_setting_valid(&backup.original) {
                    return Err(Error::Invalid("IFEO_INVALID_USE_FILTER"));
                }
                Ok(copy_value(&backup.original))
            },
        }
    }

    fn find_journal(&self, id: Uuid) -> (r: Result<&Journal>)
        ensures
            match (r, journal_of(self@, id)) {
                (Ok(journal), Ok(view)) => journal.record@ == view.record && journal.phase
                    == view.phase && registration_validity(journal.record@) is Ok,
                (Err(e), Err(f)) => e == f,
                _ => false,
            },
    {
        if !self.index {
            return Err(Error::Invalid("IFEO_NOT_REGISTERED"));
        }
        match self.index_fault {
            Some(code) => {
                return Err(Error::Invalid(code));
            },
            None => {},
        }
        if !self.records {
            return Err(Error::Invalid("IFEO_NOT_REGISTERED"));
        }
        if self.stray {
            return Err(Error::Invalid("IFEO_RECORD_CHANGED"));
        }
        match find_entry(self.entries.as_slice(), id) {
            None => Err(Error::Invalid("IFEO_NOT_REGISTERED")),
            Some(at) => {
                proof {
                    assert(self@.entries[at as int] == self.entries@[at as int]@);
                }
                check_entry(&self.entries[at])?;
                match &self.entries[at].journal {
                    Some(journal) => Ok(journal),
                    None => {
                        proof {
                            assert(false);
                        }
                        Err(Error::Invalid("IFEO_INVALID_RECORD"))
                    },
                }
            },
        }
    }

    pub(crate) fn write_part(&mut self, record: &Registration, part: Part)
        requires
            registration_validity(record@) is Ok,
            old(self).parent is Some,
        ensures
            final(self)@ == part_written(old(self)@, record@, part),
            final(self).parent is Some,
    {
        let ghost before = self@;
        let value = Some(expected(record, part));
        match &mut self.parent {
            Some(parent) => {
                let ghost filters = parent@.filters;
                match parent.find_filter(record) {
                    Some(at) => {
                        let mut filter = parent.filters.remove(at);
                        proof {
                            assert(filter@ == filters[at as int]);
                        }
                        match part {
                            Part::Owner => {
                                filter.owner = value;
                            },
                            Part::Path => {
                                filter.path = value;
                            },
                            Part::Debugger => {
                                filter.debugger = value;
                            },
                        }
                        parent.filters.insert(at, filter);
                        proof {
                            assert(filter_views(parent.filters@) =~= filters.update(
                                at as int,
                                filter@,
                            ));
                        }
                    },
                    None => {
                        let mut filter = Filter {
                            name: record.filter(),
                            owner: None,
                            path: None,
                            debugger: None,
                            extra: 0,
                            children: 0,
                            path_key: record.target_key.clone(),
                            fault: None,
                        };
                        match part {
                            Part::Owner => {
                                filter.owner = value;
                            },
                            Part::Path => {
                                filter.path = value;
                            },
                            Part::Debugger => {
                                filter.debugger = value;
                            },
                        }
                        parent.filters.push(filter);
                        proof {
                            assert(filter_views(parent.filters@) =~= filters.push(filter@));
                        }
                    },
                }
            },
            None => {},
        }
    }

    pub(crate) fn write_phase(&mut self, record: &Registration, phase: Phase)
        ensures
            final(self)@ == phase_written(old(self)@, record@, phase),
            final(self).parent == old(self).parent,
    {
        let ghost entries = self@.entries;
        let entry = Entry {
            name: record.id.to_text(),
            journal: Some(Journal { record: record.copy(), phase }),
        };
        match find_entry(self.entries.as_slice(), record.id) {
            Some(at) => {
                self.entries.set(at, entry);
                proof {
                    assert(self@.entries =~= entries.update(at as int, entry@));
                }
            },
            None => {
                self.entries.push(entry);
                proof {
                    assert(self@.entries =~= entries.push(entry@));
                }
            },
        }
        self.index = true;
        self.records = true;
    }

    pub(crate) fn write_backup(&mut self, record: &Registration, original: &Option<Value>)
        ensures
            final(self)@ == backup_written(old(self)@, record@, value_view(*original)),
            final(self).parent == old(self).parent,
    {
        self.index = true;
        self.backup = StoredBackup::Stored(
            Backup {
                format: "app-proxy-rust-ifeo-parent-v1".to_owned(),
                basename_key: base_of(record),
                original: copy_value(original),
            },
        );
    }

    pub(crate) fn write_setting(&mut self, value: Option<Value>)
        requires
            old(self).parent is Some,
        ensures
            final(self)@ == setting_written(old(self)@, value_view(value)),
            final(self).parent is Some,
    {
        match &mut self.parent {
            Some(parent) => {
                parent.use_filter = value;
            },
            None => {},
        }
    }

    /// Check that nothing that belongs to others stands in the way of the next step.
    pub fn check_undisturbed(&self, record: &Registration, original: &Option<Value>) -> (r: Result<
        (),
    >)
        ensures
            r == undisturbed(self@, record@, value_view(*original)),
    {
        let parent = self.parent_ref()?;
        if !same_value(&parent.use_filter, original) && !is_one(&parent.use_filter) {
            return Err(Error::Invalid("IFEO_PARENT_CHANGED"));
        }
        parent.check_foreign(record, &parent.use_filter)
    }

    /// Check whether a value of the filter has to be written.
    pub fn check_part(&self, record: &Registration, part: Part) -> (r: Result<bool>)
        requires
            registration_validity(record@) is Ok,
        ensures
            r == part_missing(self@, record@, part),
    {
        let parent = self.parent_ref()?;
        match parent.find_filter(record) {
            None => Ok(true),
            Some(at) => {
                let filter = &parent.filters[at];
                proof {
                    assert(parent@.filters[at as int] == filter@);
                }
                let value = match part {
                    Part::Owner => &filter.owner,
                    Part::Path => &filter.path,
                    Part::Debugger => &filter.debugger,
                };
                match value {
                    None => Ok(true),
                    Some(found) => if found.same(&expected(record, part)) {
                        Ok(false)
                    } else {
                        Err(Error::Invalid("IFEO_REGISTRATION_CHANGED"))
                    },
                }
            },
        }
    }

    /// Check that what is there of the filter is its registration's.
    pub fn check_partial(&self, record: &Registration) -> (r: Result<()>)
        requires
            registration_validity(record@) is Ok,
        ensures
            r == filter_partial(self@, record@),
    {
        let parent = self.parent_ref()?;
        parent.check_filter(record, true)?;
        Ok(())
    }

    /// Check that a registration is in force exactly as it was recorded.
    pub fn verify(&self, record: &Registration) -> (r: Result<()>)
        requires
            registration_validity(record@) is Ok,
        ensures
            r == verified(self@, record@),
    {
        self.parent_ref()?.check_exact(record)
    }

    /// The registration of this identifier, in force or not.
    pub fn read_for_removal(&self, id: Uuid) -> (r: Result<Registration>)
        ensures
            removal_read(self@, id, r),
    {
        if id.is_nil() {
            return Err(Error::Invalid("IFEO_INVALID_ID"));
        }
        Ok(self.find_journal(id)?.record.copy())
    }

    /// The registration of this identifier, if it is in force.
    pub fn read(&self, id: Uuid) -> (r: Result<Registration>)
        ensures
            match read_of(self@, id) {
                Err(e) => r == Err::<Registration, Error>(e),
                Ok(found) => r matches Ok(record) && record@ == found,
            },
    {
        let journal = self.find_journal(id)?;
        match journal.phase {
            Phase::Active => Ok(journal.record.copy()),
            Phase::Removed => Err(Error::Invalid("IFEO_NOT_REGISTERED")),
            _ => Err(Error::Invalid("IFEO_OPERATION_INCOMPLETE")),
        }
    }

    fn check_admissible(&self, record: &Registration) -> (r: Result<Option<bool>>)
        ensures
            r == admissible(self@, record@),
    {
        record.validate()?;
        match self.index_fault {
            Some(code) => {
                return Err(Error::Invalid(code));
            },
            None => {},
        }
        if self.records && self.stray {
            return Err(Error::Invalid("IFEO_RECORD_CHANGED"));
        }
        check_entries(self.entries.as_slice())?;
        match find_entry(self.entries.as_slice(), record.id) {
            None => if self.entries.len() >= RECORD_LIMIT {
                Err(Error::Invalid("IFEO_RECORD_LIMIT"))
            } else {
                Ok(Some(true))
            },
            Some(at) => {
                proof {
                    assert(self@.entries[at as int] == self.entries@[at as int]@);
                }
                match &self.entries[at].journal {
                    None => {
                        proof {
                            assert(entry_validity(self.entries@[at as int]@) is Ok);
                            assert(false);
                        }
                        Err(Error::Invalid("IFEO_INVALID_RECORD"))
                    },
                    Some(journal) => if !journal.record.same(record) {
                        Err(Error::Invalid("IFEO_OWNER_CONFLICT"))
                    } else {
                        match journal.phase {
                            Phase::Active => Ok(None),
                            Phase::Installing => Ok(Some(false)),
                            _ => Err(Error::Invalid("IFEO_REGISTRATION_RETIRED")),
                        }
                    },
                }
            },
        }
    }

    /// Decide how an installation begins, on a machine whose program key was made sure of.
    fn check_beginning(&self, record: &Registration, fresh: bool) -> (r: Result<
        (bool, Option<Value>),
    >)
        requires
            admissible(self@, record@) == Ok::<Option<bool>, Error>(Some(fresh)),
            !collision(self@.entries, record@),
            self@.root && self@.root_fault is None ==> self.parent is Some,
        ensures
            match (r, beginning(self@, record@)) {
                (Ok((backup, original)), Ok(Beginning::Proceed { fresh: f, backup: b, original: o })) => fresh == f
                    && backup == b && value_view(original) == o,
                (Err(e), Err(f)) => e == f,
                _ => false,
            },
    {
        let parent = self.parent_ref()?;
        let found = parent.find_filter(record);
        if fresh && found.is_some() {
            return Err(Error::Invalid("IFEO_OWNER_CONFLICT"));
        }
        if found.is_none() && parent.filters.len() >= RECORD_LIMIT {
            return Err(Error::Invalid("IFEO_KEY_LIMIT"));
        }
        if !is_setting_valid(&parent.use_filter) {
            return Err(Error::Invalid("IFEO_INVALID_USE_FILTER"));
        }
        if has_participants(self.entries.as_slice(), record, true) {
            Ok((false, self.backup_original(record)?))
        } else {
            parent.check_foreign(record, &parent.use_filter)?;
            Ok((true, copy_value(&parent.use_filter)))
        }
    }
}

/// How an installation begins.
pub(crate) enum Start {
    Settled(Result<()>),
    Proceed { fresh: bool, backup: bool, original: Option<Value> },
}

impl Machine {
    pub(crate) fn begin(&mut self, record: &Registration) -> (r: Result<Start>)
        ensures
            final(self)@ == touched(old(self)@, record@),
            match (r, beginning(old(self)@, record@)) {
                (Ok(Start::Settled(a)), Ok(Beginning::Settled(b))) => a == b,
                (
                    Ok(Start::Proceed { fresh, backup, original }),
                    Ok(Beginning::Proceed { fresh: f, backup: b, original: o }),
                ) => fresh == f && backup == b && value_view(original) == o
                    && registration_validity(record@) is Ok,
                (Err(e), Err(f)) => e == f,
                _ => false,
            },
    {
        let ghost origin = self@;
        let admitted = match self.check_admissible(record) {
            Ok(admitted) => admitted,
            Err(e) => {
                if self.index_fault.is_none() && record.validate().is_ok() {
                    self.index = true;
                }
                return Err(e);
            },
        };
        self.index = true;
        let fresh = match admitted {
            None => {
                return Ok(Start::Settled(self.verify(record)));
            },
            Some(fresh) => fresh,
        };
        if has_collision(self.entries.as_slice(), record) {
            return Err(Error::Invalid("IFEO_OWNER_CONFLICT"));
        }
        if self.root && self.root_fault.is_none() && self.parent.is_none() {
            let parent = Parent {
                debugger: None,
                use_filter: None,
                filters: Vec::new(),
                rest: Vec::new(),
                fault: None,
            };
            proof {
                assert(parent@.filters =~= Seq::empty());
                assert(parent@.rest =~= Seq::empty());
            }
            self.parent = Some(parent);
        }
        let ghost start = self@;
        proof {
            assert(start == touched(origin, record@));
            assert(admissible(start, record@) == admissible(origin, record@));
            assert(parent_of(with_keys(start)) == parent_of(with_keys(origin)));
            assert(backup_of(start, record@) == backup_of(origin, record@));
            assert(beginning(start, record@) == beginning(origin, record@));
        }
        let (backup, original) = self.check_beginning(record, fresh)?;
        Ok(Start::Proceed { fresh, backup, original })
    }

    fn intend(
        &mut self,
        record: &Registration,
        fresh: bool,
        backup: bool,
        original: &Option<Value>,
        interruption: &mut Interruption,
    ) -> (r: Result<()>)
        ensures
            (Run { machine: final(self)@, interruption: *final(interruption), result: r })
                == intended(
                Run { machine: old(self)@, interruption: *old(interruption), result: Ok(()) },
                record@,
                fresh,
                backup,
                value_view(*original),
            ),
    {
        if backup {
            self.write_backup(record, original);
            interruption.checkpoint()?;
        }
        self.check_undisturbed(record, original)?;
        if fresh {
            interruption.before_intent()?;
            self.write_phase(record, Phase::Installing);
            interruption.checkpoint()?;
        }
        Ok(())
    }

    fn fill(
        &mut self,
        record: &Registration,
        original: &Option<Value>,
        interruption: &mut Interruption,
    ) -> (r: Result<()>)
        requires
            registration_validity(record@) is Ok,
        ensures
            (Run { machine: final(self)@, interruption: *final(interruption), result: r })
                == filled(
                Run { machine: old(self)@, interruption: *old(interruption), result: Ok(()) },
                record@,
                value_view(*original),
            ),
    {
        self.check_partial(record)?;
        if self.check_part(record, Part::Owner)? {
            self.write_part(record, Part::Owner);
            interruption.checkpoint()?;
        }
        if self.check_part(record, Part::Path)? {
            self.write_part(record, Part::Path);
            interruption.checkpoint()?;
        }
        self.check_undisturbed(record, original)?;
        self.write_setting(Some(Value::dword(1)));
        interruption.checkpoint()?;
        if self.check_part(record, Part::Debugger)? {
            self.write_part(record, Part::Debugger);
            interruption.checkpoint()?;
        }
        Ok(())
    }
}

/// The part of the registry that a root lies in.
#[derive(Clone, Copy, Debug, PartialEq, Eq, Structural)]
pub enum Hive {
    LocalMachine,
    CurrentUser,
}

/// Whether keys have to be protected, or belong to an isolated fixture.
#[derive(Clone, Copy, Debug, PartialEq, Eq, Structural)]
pub enum Security {
    Protected,
    Fixture,
}

/// Where the registry keeps the programs and the journal.
#[derive(Debug)]
pub struct Roots {
    pub hive: Hive,
    pub ifeo: &'static str,
    pub product: &'static str,
    pub security: Security,
}

impl Roots {
    /// The places of the whole machine, whose keys have to be protected.
    pub fn machine() -> (r: Roots)
        ensures
            r.hive == Hive::LocalMachine,
            r.ifeo@
                == "SOFTWARE\\Microsoft\\Windows NT\\CurrentVersion\\Image File Execution Options"@,
            r.product@ == "SOFTWARE\\AppProxyRust"@,
            r.security == Security::Protected,
    {
        Roots {
            hive: Hive::LocalMachine,
            ifeo: "SOFTWARE\\Microsoft\\Windows NT\\CurrentVersion\\Image File Execution Options",
            product: "SOFTWARE\\AppProxyRust",
            security: Security::Protected,
        }
    }

    /// Whether a change has to hold the machine-wide lock.
    pub fn lock(&self) -> (r: bool)
        ensures
            r == (self.security == Security::Protected),
    {
        matches!(self.security, Security::Protected)
    }

    /// Install a registration: save the program's setting, record the intent, fill the filter, put it
    /// into force and record that. Installing again after an interruption completes the work. `intent` is the
    /// encoding of the intent.
    pub fn install(
        &self,
        machine: &mut Machine,
        record: &Registration,
        intent: Vec<u8>,
        interruption: &mut Interruption,
    ) -> (r: Result<()>)
        ensures
            (Run { machine: final(machine)@, interruption: *final(interruption), result: r })
                == install_run(old(machine)@, record@, intent@.len(), *old(interruption)),
    {
        record.validate()?;
        encode(intent)?;
        match machine.begin(record)? {
            Start::Settled(result) => result,
            Start::Proceed { fresh, backup, original } => {
                machine.intend(record, fresh, backup, &original, interruption)?;
                machine.fill(record, &original, interruption)?;
                machine.verify(record)?;
                machine.write_phase(record, Phase::Active);
                interruption.checkpoint()?;
                machine.verify(record)
            },
        }
    }

    /// Remove a registration: record the removal, disarm and delete the filter, put the program's
    /// setting back if no other registration needs it, and record the end. Removing again after an
    /// interruption completes the work.
    pub fn remove(
        &self,
        machine: &mut Machine,
        record: &Registration,
        interruption: &mut Interruption,
    ) -> (r: Result<()>)
        ensures
            (Run { machine: final(machine)@, interruption: *final(interruption), result: r })
                == remove_run(old(machine)@, record@, *old(interruption)),
    {
        let original = match machine.check_removable(record)? {
            None => {
                return Ok(());
            },
            Some(original) => original,
        };
        machine.write_phase(record, Phase::Removing);
        interruption.checkpoint()?;
        if machine.check_armed(record)? {
            machine.disarm(record);
            interruption.checkpoint()?;
        }
        if machine.check_present(record)? {
            machine.delete_filter(record);
            interruption.checkpoint()?;
        }
        if machine.check_restorable(record, &original)? {
            machine.write_setting(copy_value(&original));
            interruption.checkpoint()?;
        }
        machine.write_phase(record, Phase::Removed);
        interruption.checkpoint()?;
        machine.check_gone(record)
    }
}

impl Machine {
    /// Check whether a removal may begin; the program's saved setting is told unless there is nothing to remove.
    pub fn check_removable(&self, record: &Registration) -> (r: Result<Option<Option<Value>>>)
        ensures
            match (r, removable(self@, record@)) {
                (Ok(Some(value)), Ok(Some(view))) => value_view(value) == view
                    && registration_validity(record@) is Ok,
                (Ok(None), Ok(None)) => true,
                (Err(e), Err(f)) => e == f,
                _ => false,
            },
    {
        let journal = self.find_journal(record.id)?;
        if !journal.record.same(record) {
            return Err(Error::Invalid("IFEO_OWNER_CONFLICT"));
        }
        let parent = self.parent_ref()?;
        if matches!(journal.phase, Phase::Removed) {
            if parent.find_filter(record).is_some() {
                return Err(Error::Invalid("IFEO_REGISTRATION_CHANGED"));
            }
            return Ok(None);
        }
        if parent.debugger.is_some() {
            return Err(Error::Invalid("IFEO_FOREIGN_DEBUGGER"));
        }
        let original = self.backup_original(record)?;
        let partial = !matches!(journal.phase, Phase::Active);
        if !is_one(&parent.use_filter) && !(partial && same_value(&parent.use_filter, &original)) {
            return Err(Error::Invalid("IFEO_PARENT_CHANGED"));
        }
        parent.check_filter(record, partial)?;
        Ok(Some(original))
    }

    /// Check that the filter is gone.
    pub fn check_gone(&self, record: &Registration) -> (r: Result<()>)
        ensures
            r == gone(self@, record@),
    {
        if self.parent_ref()?.find_filter(record).is_some() {
            return Err(Error::Invalid("IFEO_REMOVE_UNCONFIRMED"));
        }
        Ok(())
    }

    /// Check whether the filter's debugger has to be taken away first.
    pub fn check_armed(&self, record: &Registration) -> (r: Result<bool>)
        requires
            registration_validity(record@) is Ok,
        ensures
            r == armed(self@, record@),
            r == Ok::<bool, Error>(true) ==> self.parent is Some && first_where(
                self@.parent->0.filters,
                own(record.id),
            ) is Some,
    {
        let parent = self.parent_ref()?;
        match parent.check_filter(record, true)? {
            None => Ok(false),
            Some(at) => {
                proof {
                    assert(parent@.filters[at as int] == parent.filters@[at as int]@);
                }
                Ok(parent.filters[at].debugger.is_some())
            },
        }
    }

    /// Check whether there is a filter to delete.
    pub fn check_present(&self, record: &Registration) -> (r: Result<bool>)
        requires
            registration_validity(record@) is Ok,
        ensures
            r == filter_present(self@, record@),
            r == Ok::<bool, Error>(true) ==> self.parent is Some && first_where(
                self@.parent->0.filters,
                own(record.id),
            ) is Some,
    {
        let parent = self.parent_ref()?;
        Ok(parent.check_filter(record, true)?.is_some())
    }

    /// Check whether the program's setting has to be put back.
    pub fn check_restorable(&self, record: &Registration, original: &Option<Value>) -> (r: Result<
        bool,
    >)
        ensures
            r == restorable(self@, record@, value_view(*original)),
            r == Ok::<bool, Error>(true) ==> self.parent is Some,
    {
        let parent = self.parent_ref()?;
        check_entries(self.entries.as_slice())?;
        if has_participants(self.entries.as_slice(), record, false) {
            return Ok(false);
        }
        if !is_one(original) && parent.filters.len() > 0 {
            return Err(Error::Invalid("IFEO_FOREIGN_FILTERS_ADDED"));
        }
        if same_value(&parent.use_filter, original) {
            return Ok(false);
        }
        if !is_one(&parent.use_filter) {
            return Err(Error::Invalid("IFEO_PARENT_CHANGED"));
        }
        Ok(true)
    }

    pub(crate) fn disarm(&mut self, record: &Registration)
        requires
            old(self).parent is Some,
            first_where(old(self)@.parent->0.filters, own(record.id)) is Some,
        ensures
            final(self)@ == disarmed(old(self)@, record@),
    {
        match &mut self.parent {
            Some(parent) => {
                let ghost filters = parent@.filters;
                match parent.find_filter(record) {
                    Some(at) => {
                        let mut filter = parent.filters.remove(at);
                        proof {
                            assert(filter@ == filters[at as int]);
                        }
                        filter.debugger = None;
                        parent.filters.insert(at, filter);
                        proof {
                            assert(filter_views(parent.filters@) =~= filters.update(
                                at as int,
                                filter@,
                            ));
                        }
                    },
                    None => {},
                }
            },
            None => {},
        }
    }

    pub(crate) fn delete_filter(&mut self, record: &Registration)
        requires
            old(self).parent is Some,
            first_where(old(self)@.parent->0.filters, own(record.id)) is Some,
        ensures
            final(self)@ == filter_deleted(old(self)@, record@),
    {
        match &mut self.parent {
            Some(parent) => {
                let ghost filters = parent@.filters;
                match parent.find_filter(record) {
                    Some(at) => {
                        parent.filters.remove(at);
                        proof {
                            assert(filter_views(parent.filters@) =~= filters.remove(at as int));
                        }
                    },
                    None => {},
                }
            },
            None => {},
        }
    }
}

/// The registration that is to be removed.
pub open spec fn removal_read(machine: MachineView, id: Uuid, r: Result<Registration>) -> bool {
    if id.bits == 0 {
        r == invalid::<Registration>("IFEO_INVALID_ID")
    } else {
        match journal_of(machine, id) {
            Err(e) => r == Err::<Registration, Error>(e),
            Ok(journal) => r matches Ok(record) && record@ == journal.record,
        }
    }
}

} // verus!
