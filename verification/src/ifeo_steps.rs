//! Installing and removing a registration one durable step at a time. Each step is decided from the registry as it is
//! then found, so that what others change between two steps is seen.
use vstd::prelude::*;
use crate::error::{Error, Result, invalid};
use crate::ifeo_journal::{Beginning, Machine, MachineView, Part, Phase, Run, Start, armed, backup_written, beginning, checked_step, disarmed, filled, filter_deleted, filter_partial, filter_present, gated, gone, install_run, intended, part_missing, part_written, phase_written, removable, remove_run, restorable, setting_written, stepped, touched, undisturbed, verified};
use crate::ifeo_laws::undisturbed_run;
use crate::ifeo_registry::{VALUE_LIMIT, Value, ValueView, copy_value, dword_view, value_view};
use crate::ifeo_rules::{Registration, RegistrationView, registration_validity};

verus! {

/// What an installation does next. `size` is that of the intent as it is recorded, `original` the program's saved
/// setting.
#[derive(Debug)]
pub enum InstallStep {
    Begin { size: usize },
    Backup { fresh: bool, backup: bool, original: Option<Value> },
    Intent { fresh: bool, original: Option<Value> },
    Owner { original: Option<Value> },
    Path { original: Option<Value> },
    Setting { original: Option<Value> },
    Debugger,
    Activate,
    Confirm,
    Done,
}

/// The contents of a step of an installation.
pub enum InstallView {
    Begin { size: usize },
    Backup { fresh: bool, backup: bool, original: Option<ValueView> },
    Intent { fresh: bool, original: Option<ValueView> },
    Owner { original: Option<ValueView> },
    Path { original: Option<ValueView> },
    Setting { original: Option<ValueView> },
    Debugger,
    Activate,
    Confirm,
    Done,
}

impl View for InstallStep {
    type V = InstallView;

    open spec fn view(&self) -> InstallView {
        match self {
            InstallStep::Begin { size } => InstallView::Begin { size: *size },
            InstallStep::Backup { fresh, backup, original } => InstallView::Backup {
                fresh: *fresh,
                backup: *backup,
                original: value_view(*original),
            },
            InstallStep::Intent { fresh, original } => InstallView::Intent {
                fresh: *fresh,
                original: value_view(*original),
            },
            InstallStep::Owner { original } => InstallView::Owner { original: value_view(*original) },
            InstallStep::Path { original } => InstallView::Path { original: value_view(*original) },
            InstallStep::Setting { original } => InstallView::Setting {
                original: value_view(*original),
            },
            InstallStep::Debugger => InstallView::Debugger,
            InstallStep::Activate => InstallView::Activate,
            InstallStep::Confirm => InstallView::Confirm,
            InstallStep::Done => InstallView::Done,
        }
    }
}

/// A step that writes if a check says so: the machine after it, and what comes next.
pub open spec fn written_if<S>(machine: MachineView, decision: Result<bool>, written: MachineView, next: S) -> (
    MachineView,
    Result<S>,
) {
    match decision {
        Err(e) => (machine, Err(e)),
        Ok(false) => (machine, Ok(next)),
        Ok(true) => (written, Ok(next)),
    }
}

/// One step of an installation: the machine after it, and what comes next.
pub open spec fn install_stepped(machine: MachineView, record: RegistrationView, step: InstallView) -> (
    MachineView,
    Result<InstallView>,
) {
    if registration_validity(record) is Err {
        (
            match step {
                InstallView::Begin { .. } => touched(machine, record),
                _ => machine,
            },
            Err(registration_validity(record)->Err_0),
        )
    } else {
        match step {
            InstallView::Begin { size } => if size > VALUE_LIMIT {
                (machine, invalid("IFEO_RECORD_SIZE"))
            } else {
                (
                    touched(machine, record),
                    match beginning(machine, record) {
                        Err(e) => Err(e),
                        Ok(Beginning::Settled(Err(e))) => Err(e),
                        Ok(Beginning::Settled(Ok(_))) => Ok(InstallView::Done),
                        Ok(Beginning::Proceed { fresh, backup, original }) => Ok(
                            InstallView::Backup { fresh, backup, original },
                        ),
                    },
                )
            },
            InstallView::Backup { fresh, backup, original } => written_if(
                machine,
                Ok(backup),
                backup_written(machine, record, original),
                InstallView::Intent { fresh, original },
            ),
            InstallView::Intent { fresh, original } => written_if(
                machine,
                gated(undisturbed(machine, record, original), fresh),
                phase_written(machine, record, Phase::Installing),
                InstallView::Owner { original },
            ),
            InstallView::Owner { original } => match filter_partial(machine, record) {
                Err(e) => (machine, Err(e)),
                Ok(_) => written_if(
                    machine,
                    part_missing(machine, record, Part::Owner),
                    part_written(machine, record, Part::Owner),
                    InstallView::Path { original },
                ),
            },
            InstallView::Path { original } => written_if(
                machine,
                part_missing(machine, record, Part::Path),
                part_written(machine, record, Part::Path),
                InstallView::Setting { original },
            ),
            InstallView::Setting { original } => written_if(
                machine,
                gated(undisturbed(machine, record, original), true),
                setting_written(machine, Some(dword_view(1))),
                InstallView::Debugger,
            ),
            InstallView::Debugger => written_if(
                machine,
                part_missing(machine, record, Part::Debugger),
                part_written(machine, record, Part::Debugger),
                InstallView::Activate,
            ),
            InstallView::Activate => written_if(
                machine,
                gated(verified(machine, record), true),
                phase_written(machine, record, Phase::Active),
                InstallView::Confirm,
            ),
            InstallView::Confirm => written_if(
                machine,
                gated(verified(machine, record), false),
                machine,
                InstallView::Done,
            ),
            InstallView::Done => (machine, Ok(InstallView::Done)),
        }
    }
}

/// What a removal does next. `original` is the program's saved setting.
#[derive(Debug)]
pub enum RemoveStep {
    Begin,
    Disarm { original: Option<Value> },
    Delete { original: Option<Value> },
    Restore { original: Option<Value> },
    Record,
    Confirm,
    Done,
}

/// The contents of a step of a removal.
pub enum RemoveView {
    Begin,
    Disarm { original: Option<ValueView> },
    Delete { original: Option<ValueView> },
    Restore { original: Option<ValueView> },
    Record,
    Confirm,
    Done,
}

impl View for RemoveStep {
    type V = RemoveView;

    open spec fn view(&self) -> RemoveView {
        match self {
            RemoveStep::Begin => RemoveView::Begin,
            RemoveStep::Disarm { original } => RemoveView::Disarm { original: value_view(*original) },
            RemoveStep::Delete { original } => RemoveView::Delete { original: value_view(*original) },
            RemoveStep::Restore { original } => RemoveView::Restore {
                original: value_view(*original),
            },
            RemoveStep::Record => RemoveView::Record,
            RemoveStep::Confirm => RemoveView::Confirm,
            RemoveStep::Done => RemoveView::Done,
        }
    }
}

/// One step of a removal: the machine after it, and what comes next.
pub open spec fn remove_stepped(machine: MachineView, record: RegistrationView, step: RemoveView) -> (
    MachineView,
    Result<RemoveView>,
) {
    match step {
        RemoveView::Begin => match removable(machine, record) {
            Err(e) => (machine, Err(e)),
            Ok(None) => (machine, Ok(RemoveView::Done)),
            Ok(Some(original)) => (
                phase_written(machine, record, Phase::Removing),
                Ok(RemoveView::Disarm { original }),
            ),
        },
        RemoveView::Done => (machine, Ok(RemoveView::Done)),
        _ => if registration_validity(record) is Err {
            (machine, Err(registration_validity(record)->Err_0))
        } else {
            match step {
                RemoveView::Disarm { original } => written_if(
                    machine,
                    armed(machine, record),
                    disarmed(machine, record),
                    RemoveView::Delete { original },
                ),
                RemoveView::Delete { original } => written_if(
                    machine,
                    filter_present(machine, record),
                    filter_deleted(machine, record),
                    RemoveView::Restore { original },
                ),
                RemoveView::Restore { original } => written_if(
                    machine,
                    restorable(machine, record, original),
                    setting_written(machine, original),
                    RemoveView::Record,
                ),
                RemoveView::Record => (
                    phase_written(machine, record, Phase::Removed),
                    Ok(RemoveView::Confirm),
                ),
                _ => written_if(
                    machine,
                    gated(gone(machine, record), false),
                    machine,
                    RemoveView::Done,
                ),
            }
        },
    }
}

impl Machine {
    /// Take one step of an installation on the machine as it is found, and tell the next.
    pub fn install_step(&mut self, record: &Registration, step: InstallStep) -> (r: Result<InstallStep>)
        ensures
            ({
                let (machine, next) = install_stepped(old(self)@, record@, step@);
                final(self)@ == machine && match (r, next) {
                    (Ok(told), Ok(view)) => told@ == view,
                    (Err(e), Err(f)) => e == f,
                    _ => false,
                }
            }),
    {
        match step {
            InstallStep::Begin { size } => {
                if record.validate().is_ok() && size > VALUE_LIMIT {
                    return Err(Error::Invalid("IFEO_RECORD_SIZE"));
                }
                match self.begin(record)? {
                    Start::Settled(result) => {
                        result?;
                        Ok(InstallStep::Done)
                    },
                    Start::Proceed { fresh, backup, original } => Ok(
                        InstallStep::Backup { fresh, backup, original },
                    ),
                }
            },
            InstallStep::Backup { fresh, backup, original } => {
                record.validate()?;
                if backup {
                    self.write_backup(record, &original);
                }
                Ok(InstallStep::Intent { fresh, original })
            },
            InstallStep::Intent { fresh, original } => {
                record.validate()?;
                self.check_undisturbed(record, &original)?;
                if fresh {
                    self.write_phase(record, Phase::Installing);
                }
                Ok(InstallStep::Owner { original })
            },
            InstallStep::Owner { original } => {
                record.validate()?;
                self.check_partial(record)?;
                if self.check_part(record, Part::Owner)? {
                    self.write_part(record, Part::Owner);
                }
                Ok(InstallStep::Path { original })
            },
            InstallStep::Path { original } => {
                record.validate()?;
                if self.check_part(record, Part::Path)? {
                    self.write_part(record, Part::Path);
                }
                Ok(InstallStep::Setting { original })
            },
            InstallStep::Setting { original } => {
                record.validate()?;
                self.check_undisturbed(record, &original)?;
                self.write_setting(Some(Value::dword(1)));
                Ok(InstallStep::Debugger)
            },
            InstallStep::Debugger => {
                record.validate()?;
                if self.check_part(record, Part::Debugger)? {
                    self.write_part(record, Part::Debugger);
                }
                Ok(InstallStep::Activate)
            },
            InstallStep::Activate => {
                record.validate()?;
                self.verify(record)?;
                self.write_phase(record, Phase::Active);
                Ok(InstallStep::Confirm)
            },
            InstallStep::Confirm => {
                record.validate()?;
                self.verify(record)?;
                Ok(InstallStep::Done)
            },
            InstallStep::Done => {
                record.validate()?;
                Ok(InstallStep::Done)
            },
        }
    }

    /// Take one step of a removal on the machine as it is found, and tell the next.
    pub fn remove_step(&mut self, record: &Registration, step: RemoveStep) -> (r: Result<RemoveStep>)
        ensures
            ({
                let (machine, next) = remove_stepped(old(self)@, record@, step@);
                final(self)@ == machine && match (r, next) {
                    (Ok(told), Ok(view)) => told@ == view,
                    (Err(e), Err(f)) => e == f,
                    _ => false,
                }
            }),
    {
        match step {
            RemoveStep::Begin => match self.check_removable(record)? {
                None => Ok(RemoveStep::Done),
                Some(original) => {
                    self.write_phase(record, Phase::Removing);
                    Ok(RemoveStep::Disarm { original })
                },
            },
            RemoveStep::Disarm { original } => {
                record.validate()?;
                if self.check_armed(record)? {
                    self.disarm(record);
                }
                Ok(RemoveStep::Delete { original })
            },
            RemoveStep::Delete { original } => {
                record.validate()?;
                if self.check_present(record)? {
                    self.delete_filter(record);
                }
                Ok(RemoveStep::Restore { original })
            },
            RemoveStep::Restore { original } => {
                record.validate()?;
                if self.check_restorable(record, &original)? {
                    self.write_setting(copy_value(&original));
                }
                Ok(RemoveStep::Record)
            },
            RemoveStep::Record => {
                record.validate()?;
                self.write_phase(record, Phase::Removed);
                Ok(RemoveStep::Confirm)
            },
            RemoveStep::Confirm => {
                record.validate()?;
                self.check_gone(record)?;
                Ok(RemoveStep::Done)
            },
            RemoveStep::Done => Ok(RemoveStep::Done),
        }
    }
}

/// `n` steps of an installation between which nobody else changes the machine.
pub open spec fn install_steps(machine: MachineView, record: RegistrationView, step: InstallView, n: nat) -> (
    MachineView,
    Result<InstallView>,
)
    decreases n,
{
    if n == 0 {
        (machine, Ok(step))
    } else {
        let (after, next) = install_stepped(machine, record, step);
        match next {
            Err(e) => (after, Err(e)),
            Ok(view) => install_steps(after, record, view, (n - 1) as nat),
        }
    }
}

/// `n` steps of a removal between which nobody else changes the machine.
pub open spec fn remove_steps(machine: MachineView, record: RegistrationView, step: RemoveView, n: nat) -> (
    MachineView,
    Result<RemoveView>,
)
    decreases n,
{
    if n == 0 {
        (machine, Ok(step))
    } else {
        let (after, next) = remove_stepped(machine, record, step);
        match next {
            Err(e) => (after, Err(e)),
            Ok(view) => remove_steps(after, record, view, (n - 1) as nat),
        }
    }
}

/// Steps that came to what a run came to.
pub open spec fn agree(steps: (MachineView, Result<InstallView>), run: Run) -> bool {
    steps.0 == run.machine && match (steps.1, run.result) {
        (Ok(step), Ok(_)) => step is Done,
        (Err(e), Err(f)) => e == f,
        _ => false,
    }
}

/// The end of an installation, once the filter is filled.
spec fn concluded(done: Run, record: RegistrationView) -> Run {
    let active = stepped(
        done,
        gated(verified(done.machine, record), true),
        phase_written(done.machine, record, Phase::Active),
    );
    checked_step(active, verified(active.machine, record))
}

spec fn fresh_run(machine: MachineView) -> Run {
    Run { machine, interruption: undisturbed_run(), result: Ok(()) }
}

proof fn last_steps(machine: MachineView, record: RegistrationView)
    requires
        registration_validity(record) is Ok,
    ensures
        agree(
            install_steps(machine, record, InstallView::Activate, 2),
            concluded(fresh_run(machine), record),
        ),
{
    reveal_with_fuel(install_steps, 3);
}

proof fn arming_steps(machine: MachineView, record: RegistrationView)
    requires
        registration_validity(record) is Ok,
    ensures
        agree(
            install_steps(machine, record, InstallView::Debugger, 3),
            concluded(
                stepped(
                    fresh_run(machine),
                    part_missing(machine, record, Part::Debugger),
                    part_written(machine, record, Part::Debugger),
                ),
                record,
            ),
        ),
{
    reveal_with_fuel(install_steps, 2);
    last_steps(machine, record);
    last_steps(part_written(machine, record, Part::Debugger), record);
}

spec fn enabled(run: Run, record: RegistrationView, original: Option<ValueView>) -> Run {
    let on = stepped(
        run,
        gated(undisturbed(run.machine, record, original), true),
        setting_written(run.machine, Some(dword_view(1))),
    );
    stepped(
        on,
        part_missing(on.machine, record, Part::Debugger),
        part_written(on.machine, record, Part::Debugger),
    )
}

proof fn enabling_steps(machine: MachineView, record: RegistrationView, original: Option<ValueView>)
    requires
        registration_validity(record) is Ok,
    ensures
        agree(
            install_steps(machine, record, InstallView::Setting { original }, 4),
            concluded(enabled(fresh_run(machine), record, original), record),
        ),
{
    reveal_with_fuel(install_steps, 2);
    arming_steps(setting_written(machine, Some(dword_view(1))), record);
}

spec fn named(run: Run, record: RegistrationView) -> Run {
    stepped(
        run,
        part_missing(run.machine, record, Part::Path),
        part_written(run.machine, record, Part::Path),
    )
}

proof fn naming_steps(machine: MachineView, record: RegistrationView, original: Option<ValueView>)
    requires
        registration_validity(record) is Ok,
    ensures
        agree(
            install_steps(machine, record, InstallView::Path { original }, 5),
            concluded(enabled(named(fresh_run(machine), record), record, original), record),
        ),
{
    reveal_with_fuel(install_steps, 2);
    enabling_steps(machine, record, original);
    enabling_steps(part_written(machine, record, Part::Path), record, original);
}

proof fn filling_steps(machine: MachineView, record: RegistrationView, original: Option<ValueView>)
    requires
        registration_validity(record) is Ok,
    ensures
        agree(
            install_steps(machine, record, InstallView::Owner { original }, 6),
            concluded(filled(fresh_run(machine), record, original), record),
        ),
{
    reveal_with_fuel(install_steps, 2);
    naming_steps(machine, record, original);
    naming_steps(part_written(machine, record, Part::Owner), record, original);
    let partial = checked_step(fresh_run(machine), filter_partial(machine, record));
    let owned = stepped(
        partial,
        part_missing(partial.machine, record, Part::Owner),
        part_written(partial.machine, record, Part::Owner),
    );
    assert(filled(fresh_run(machine), record, original) == enabled(
        named(owned, record),
        record,
        original,
    ));
}

proof fn intent_steps(
    machine: MachineView,
    record: RegistrationView,
    fresh: bool,
    original: Option<ValueView>,
)
    requires
        registration_validity(record) is Ok,
    ensures
        agree(
            install_steps(machine, record, InstallView::Intent { fresh, original }, 7),
            concluded(
                filled(
                    intended(fresh_run(machine), record, fresh, false, original),
                    record,
                    original,
                ),
                record,
            ),
        ),
{
    reveal_with_fuel(install_steps, 2);
    filling_steps(machine, record, original);
    filling_steps(phase_written(machine, record, Phase::Installing), record, original);
}

/// Taken one by one, the steps of an installation come to what the installation as a whole comes to, and are done
/// after the ninth.
pub proof fn steps_make_an_installation(machine: MachineView, record: RegistrationView, size: usize)
    ensures
        agree(
            install_steps(machine, record, InstallView::Begin { size }, 9),
            install_run(machine, record, size as nat, undisturbed_run()),
        ),
{
    reveal_with_fuel(install_steps, 3);
    if registration_validity(record) is Ok && size <= VALUE_LIMIT {
        match beginning(machine, record) {
            Ok(Beginning::Proceed { fresh, backup, original }) => {
                let first = touched(machine, record);
                let saved = if backup {
                    backup_written(first, record, original)
                } else {
                    first
                };
                intent_steps(saved, record, fresh, original);
                assert(intended(fresh_run(first), record, fresh, backup, original) == intended(
                    fresh_run(saved),
                    record,
                    fresh,
                    false,
                    original,
                ));
                assert(install_steps(machine, record, InstallView::Begin { size }, 9)
                    == install_steps(saved, record, InstallView::Intent { fresh, original }, 7));
            },
            Ok(Beginning::Settled(result)) => {
                done_stays(touched(machine, record), record, 8);
            },
            Err(_) => {},
        }
    }
}

proof fn done_stays(machine: MachineView, record: RegistrationView, n: nat)
    requires
        registration_validity(record) is Ok,
    ensures
        install_steps(machine, record, InstallView::Done, n) == (
            machine,
            Ok::<InstallView, Error>(InstallView::Done),
        ),
    decreases n,
{
    if n > 0 {
        done_stays(machine, record, (n - 1) as nat);
    }
}

/// Taken one by one, the steps of a removal come to what the removal as a whole comes to, and are done after the
/// sixth.
pub proof fn steps_make_a_removal(machine: MachineView, record: RegistrationView)
    ensures
        ({
            let whole = remove_run(machine, record, undisturbed_run());
            let (end, told) = remove_steps(machine, record, RemoveView::Begin, 6);
            end == whole.machine && match (told, whole.result) {
                (Ok(step), Ok(_)) => step is Done,
                (Err(e), Err(f)) => e == f,
                _ => false,
            }
        }),
{
    reveal_with_fuel(remove_steps, 7);
}

} // verus!
