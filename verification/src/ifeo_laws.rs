//! What installations and removals keep to, however often they are interrupted: those of a program's only
//! registration, and those of several that share the program's setting.
use vstd::prelude::*;
use vstd::string::*;
use crate::error::{Error, Result, invalid};
use crate::ids::{uuid_text, uuid_text_injective, uuid_text_plain};
use crate::ifeo_journal::{Beginning, EntryView, FilterView, Interruption, JournalView, MachineView, ParentView, Part, Phase, RECORD_LIMIT, Run, admissible, admitted_run, armed, base_key, backup_of, backup_written, beginning, checked_step, collides, collision, debugger_value, disarmed, empty_filter, entries_validity, entry_at, entry_named, entry_validity, exact, filled, filter_deleted, filter_partial, filter_present, foreign, foreign_filter, foreign_filters, gated, gone, install_run, intended, journal_of, others_remain, own, owner_value, parent_of, part_missing, part_written, participates, participation, path_value, phase_written, read_of, removable, remove_run, restorable, setting_valid, setting_written, stepped, touched, undisturbed, verified, with_keys};
use crate::ifeo_registry::{VALUE_LIMIT, ValueView, dword_view};
use crate::ifeo_rules::{RegistrationView, filter_name, registration_validity};
use crate::seqs::{first_where, first_where_found, first_where_is, first_where_none};
use crate::text;

verus! {

/// How far the changes of a registration have come: whether the program's setting is saved, what the
/// journal says, which of the three values the filter holds, and whether the program's setting is the
/// one that registrations need.
pub struct Progress {
    pub backed: bool,
    pub phase: Option<Phase>,
    pub filter: Option<(bool, bool, bool)>,
    pub on: bool,
}

/// A value that is there or not.
pub open spec fn present(value: ValueView, there: bool) -> Option<ValueView> {
    if there {
        Some(value)
    } else {
        None
    }
}

/// The filter of a registration with some of its values.
pub open spec fn filter_with(record: RegistrationView, parts: (bool, bool, bool)) -> FilterView {
    FilterView {
        owner: present(owner_value(record), parts.0),
        path: present(path_value(record), parts.1),
        debugger: present(debugger_value(record), parts.2),
        ..empty_filter(record)
    }
}

/// The machine that `base` becomes when the changes of a registration have come this far.
pub open spec fn at_progress(
    base: MachineView,
    record: RegistrationView,
    progress: Progress,
) -> MachineView {
    let parent = base.parent->0;
    MachineView {
        index: true,
        records: base.records || progress.phase is Some,
        entries: match progress.phase {
            Some(phase) => base.entries.push(
                EntryView {
                    name: record.id.text(),
                    journal: Some(JournalView { record, phase }),
                },
            ),
            None => base.entries,
        },
        backup: if progress.backed {
            backup_written(base, record, parent.use_filter).backup
        } else {
            base.backup
        },
        parent: Some(
            ParentView {
                use_filter: if progress.on {
                    Some(dword_view(1))
                } else {
                    parent.use_filter
                },
                filters: match progress.filter {
                    Some(parts) => parent.filters.push(filter_with(record, parts)),
                    None => parent.filters,
                },
                ..parent
            },
        ),
        ..base
    }
}

/// A machine on which a registration can be installed as the program's only one.
pub open spec fn alone(base: MachineView, record: RegistrationView) -> bool {
    base.index && !base.stray && base.parent is Some && beginning(base, record) == Ok::<Beginning, Error>(
        Beginning::Proceed { fresh: true, backup: true, original: base.parent->0.use_filter },
    )
}

/// Progress that an installation can have made: nothing is touched before the intent is recorded, and
/// the intent follows the backup.
pub open spec fn installing(progress: Progress) -> bool {
    match progress.phase {
        None => progress.filter is None && !progress.on,
        Some(Phase::Installing) => progress.backed,
        Some(Phase::Active) => progress == complete(),
        _ => false,
    }
}

/// The progress of a complete installation.
pub open spec fn complete() -> Progress {
    Progress {
        backed: true,
        phase: Some(Phase::Active),
        filter: Some((true, true, true)),
        on: true,
    }
}

/// Progress that a removal can have made.
pub open spec fn removing(progress: Progress) -> bool {
    progress.backed && match progress.phase {
        None => false,
        Some(Phase::Active) => progress == complete(),
        Some(Phase::Removed) => progress == removed(),
        Some(_) => true,
    }
}

/// The progress of a complete removal: only the journal and the backup still tell of the registration.
pub open spec fn removed() -> Progress {
    Progress { backed: true, phase: Some(Phase::Removed), filter: None, on: false }
}

/// No interruption to come.
pub open spec fn undisturbed_run() -> Interruption {
    Interruption { after: None, before_intent: false }
}

proof fn own_filter_last(filters: Seq<FilterView>, record: RegistrationView, f: FilterView)
    requires
        first_where(filters, own(record.id)) is None,
        f.name == filter_name(record.id),
    ensures
        first_where(filters.push(f), own(record.id)) == Some(filters.len() as int),
{
    first_where_found(filters, own(record.id));
    let longer = filters.push(f);
    assert forall|k: int| 0 <= k < filters.len() implies !own(record.id)(#[trigger] longer[k]) by {
        assert(!own(record.id)(filters[k]));
    }
    first_where_is(longer, own(record.id), filters.len() as int);
}

proof fn foreign_ignores_own(
    filters: Seq<FilterView>,
    record: RegistrationView,
    f: FilterView,
    setting: Option<ValueView>,
    i: int,
)
    requires
        f.name == filter_name(record.id),
        0 <= i <= filters.len(),
    ensures
        foreign_filters(filters.push(f), record, setting, i) == foreign_filters(
            filters,
            record,
            setting,
            i,
        ),
    decreases filters.len() - i,
{
    let longer = filters.push(f);
    if i == filters.len() {
        assert(longer[i] == f);
        assert(foreign_filters(longer, record, setting, i + 1) == Ok::<(), Error>(()));
    } else {
        assert(longer[i] == filters[i]);
        foreign_ignores_own(filters, record, f, setting, i + 1);
    }
}

proof fn foreign_when_on(
    filters: Seq<FilterView>,
    record: RegistrationView,
    setting: Option<ValueView>,
    i: int,
)
    requires
        foreign_filters(filters, record, setting, i) is Ok,
        0 <= i <= filters.len(),
    ensures
        foreign_filters(filters, record, Some(dword_view(1)), i) is Ok,
        setting != Some(dword_view(1)) ==> forall|k: int|
            i <= k < filters.len() ==> own(record.id)(#[trigger] filters[k]),
    decreases filters.len() - i,
{
    if i < filters.len() {
        foreign_when_on(filters, record, setting, i + 1);
    }
}

proof fn valid_entries_extended(entries: Seq<EntryView>, entry: EntryView, i: int)
    requires
        0 <= i <= entries.len(),
        entries_validity(entries, i) is Ok,
        entry_validity(entry) is Ok,
    ensures
        entries_validity(entries.push(entry), i) is Ok,
    decreases entries.len() - i,
{
    let longer = entries.push(entry);
    if i == entries.len() {
        assert(longer[i] == entry);
        assert(entries_validity(longer, i + 1) is Ok);
    } else {
        assert(longer[i] == entries[i]);
        valid_entries_extended(entries, entry, i + 1);
    }
}

/// What holds of a machine on which the changes of the program's only registration have come this far.
proof fn progress_facts(base: MachineView, record: RegistrationView, progress: Progress)
    requires
        alone(base, record),
    ensures
        ({
            let m = at_progress(base, record, progress);
            let p = m.parent->0;
            let original = base.parent->0.use_filter;
            &&& registration_validity(record) is Ok
            &&& parent_of(m) == Ok::<ParentView, Error>(p)
            &&& entries_validity(m.entries, 0) is Ok
            &&& m.index_fault is None
            &&& !(base.records && m.stray)
            &&& !collision(m.entries, record)
            &&& !others_remain(m.entries, record)
            &&& foreign(p, record, p.use_filter) is Ok
            &&& foreign(p, record, Some(dword_view(1))) is Ok
            &&& setting_valid(original)
            &&& setting_valid(p.use_filter)
            &&& base.entries.len() < RECORD_LIMIT
            &&& base.parent->0.filters.len() < RECORD_LIMIT
            &&& first_where(base.parent->0.filters, own(record.id)) is None
            &&& first_where(p.filters, own(record.id)) == (match progress.filter {
                Some(_) => Some(base.parent->0.filters.len() as int),
                None => None,
            })
            &&& entry_at(m.entries, record.id) == (match progress.phase {
                Some(_) => Some(base.entries.len() as int),
                None => None,
            })
            &&& participation(m.entries, record) == (progress.phase is Some && progress.phase
                != Some(Phase::Removed))
            &&& progress.backed ==> backup_of(m, record) == Ok::<Option<ValueView>, Error>(original)
            &&& original != Some(dword_view(1)) ==> base.parent->0.filters.len() == 0
        }),
{
    let m = at_progress(base, record, progress);
    let p = m.parent->0;
    let b = base.parent->0;
    assert(with_keys(base) == base);
    foreign_when_on(b.filters, record, b.use_filter, 0);
    first_where_found(b.filters, own(record.id));
    assert(b.use_filter != Some(dword_view(1)) ==> b.filters.len() == 0) by {
        if b.use_filter != Some(dword_view(1)) && b.filters.len() > 0 {
            assert(own(record.id)(b.filters[0]));
        }
    }
    match progress.filter {
        Some(parts) => {
            let f = filter_with(record, parts);
            own_filter_last(b.filters, record, f);
            foreign_ignores_own(b.filters, record, f, b.use_filter, 0);
            foreign_ignores_own(b.filters, record, f, Some(dword_view(1)), 0);
        },
        None => {},
    }
    first_where_found(base.entries, entry_named(record.id.text()));
    match progress.phase {
        Some(phase) => {
            let entry = EntryView {
                name: record.id.text(),
                journal: Some(JournalView { record, phase }),
            };
            assert(entry.name == record.id.text());
            assert(entry_validity(entry) is Ok);
            valid_entries_extended(base.entries, entry, 0);
            let longer = base.entries.push(entry);
            assert forall|k: int| 0 <= k < base.entries.len() implies !entry_named(
                record.id.text(),
            )(#[trigger] longer[k]) by {
                assert(!entry_named(record.id.text())(base.entries[k]));
            }
            first_where_is(longer, entry_named(record.id.text()), base.entries.len() as int);
            assert forall|k: int| 0 <= k < longer.len() implies !(#[trigger] collides(
                longer[k],
                record,
            )) by {
                if k < base.entries.len() {
                    assert(longer[k] == base.entries[k]);
                    assert(!collides(base.entries[k], record));
                }
            }
            assert forall|k: int| 0 <= k < longer.len() implies !((#[trigger] participates(
                longer[k],
                record,
            )) && longer[k].journal->0.record.id != record.id) by {
                if k < base.entries.len() {
                    assert(longer[k] == base.entries[k]);
                    assert(!participates(base.entries[k], record));
                }
            }
            if phase != Phase::Removed {
                assert(participates(longer[base.entries.len() as int], record));
            } else {
                assert forall|k: int| 0 <= k < longer.len() implies !(#[trigger] participates(
                    longer[k],
                    record,
                )) by {
                    if k < base.entries.len() {
                        assert(longer[k] == base.entries[k]);
                        assert(!participates(base.entries[k], record));
                    }
                }
            }
        },
        None => {},
    }
}

proof fn part_progress(base: MachineView, record: RegistrationView, progress: Progress, part: Part)
    requires
        alone(base, record),
    ensures
        ({
            let m = at_progress(base, record, progress);
            let parts = match progress.filter {
                Some(parts) => parts,
                None => (false, false, false),
            };
            let there = match part {
                Part::Owner => parts.0,
                Part::Path => parts.1,
                Part::Debugger => parts.2,
            };
            let next = match part {
                Part::Owner => (true, parts.1, parts.2),
                Part::Path => (parts.0, true, parts.2),
                Part::Debugger => (parts.0, parts.1, true),
            };
            &&& part_missing(m, record, part) == Ok::<bool, Error>(!there)
            &&& part_written(m, record, part) == at_progress(
                base,
                record,
                Progress { filter: Some(next), ..progress },
            )
        }),
{
    progress_facts(base, record, progress);
    let m = at_progress(base, record, progress);
    let b = base.parent->0;
    let parts = match progress.filter {
        Some(parts) => parts,
        None => (false, false, false),
    };
    let next = match part {
        Part::Owner => (true, parts.1, parts.2),
        Part::Path => (parts.0, true, parts.2),
        Part::Debugger => (parts.0, parts.1, true),
    };
    let target = at_progress(base, record, Progress { filter: Some(next), ..progress });
    let made = part_written(m, record, part);
    assert(made.parent->0.filters =~= target.parent->0.filters);
}

proof fn phase_progress(base: MachineView, record: RegistrationView, progress: Progress, phase: Phase)
    requires
        alone(base, record),
    ensures
        phase_written(at_progress(base, record, progress), record, phase) == at_progress(
            base,
            record,
            Progress { phase: Some(phase), ..progress },
        ),
{
    progress_facts(base, record, progress);
    let made = phase_written(at_progress(base, record, progress), record, phase);
    let target = at_progress(base, record, Progress { phase: Some(phase), ..progress });
    assert(made.entries =~= target.entries);
}

/// A step that leads from one progress to the next, or does nothing.
pub open spec fn advances(
    run: Run,
    base: MachineView,
    record: RegistrationView,
    progress: Progress,
) -> bool {
    run.machine == at_progress(base, record, progress)
}

proof fn intent_progress(
    base: MachineView,
    record: RegistrationView,
    progress: Progress,
    interruption: Interruption,
) -> (after: Progress)
    requires
        alone(base, record),
        installing(progress),
        progress.phase != Some(Phase::Active),
    ensures
        ({
            let start = Run {
                machine: at_progress(base, record, progress),
                interruption,
                result: Ok::<(), Error>(()),
            };
            let fresh = progress.phase is None;
            let run = intended(start, record, fresh, fresh, base.parent->0.use_filter);
            &&& installing(after)
            &&& after.phase != Some(Phase::Active)
            &&& advances(run, base, record, after)
            &&& run.result is Ok ==> after.phase == Some(Phase::Installing) && after
                == (Progress { backed: true, phase: Some(Phase::Installing), ..progress })
            &&& interruption == undisturbed_run() ==> run.result is Ok && run.interruption
                == interruption
        }),
{
    let original = base.parent->0.use_filter;
    let fresh = progress.phase is None;
    let start = Run {
        machine: at_progress(base, record, progress),
        interruption,
        result: Ok::<(), Error>(()),
    };
    progress_facts(base, record, progress);
    let first = Progress { backed: progress.backed || fresh, ..progress };
    progress_facts(base, record, first);
    assert(backup_written(start.machine, record, original).backup == at_progress(
        base,
        record,
        first,
    ).backup || !fresh);
    assert(fresh ==> backup_written(start.machine, record, original) == at_progress(
        base,
        record,
        first,
    ));
    let saved = stepped(start, Ok(fresh), backup_written(start.machine, record, original));
    assert(saved.machine == at_progress(base, record, first));
    assert(undisturbed(saved.machine, record, original) is Ok);
    phase_progress(base, record, first, Phase::Installing);
    let run = intended(start, record, fresh, fresh, original);
    let second = Progress { phase: Some(Phase::Installing), ..first };
    if run.machine == at_progress(base, record, second) {
        second
    } else {
        first
    }
}

proof fn fill_progress(
    base: MachineView,
    record: RegistrationView,
    progress: Progress,
    interruption: Interruption,
) -> (after: Progress)
    requires
        alone(base, record),
        installing(progress),
        progress.phase == Some(Phase::Installing),
    ensures
        ({
            let start = Run {
                machine: at_progress(base, record, progress),
                interruption,
                result: Ok::<(), Error>(()),
            };
            let run = filled(start, record, base.parent->0.use_filter);
            &&& installing(after)
            &&& after.phase == Some(Phase::Installing)
            &&& advances(run, base, record, after)
            &&& run.result is Ok ==> after == (Progress { phase: Some(Phase::Installing), ..complete() })
            &&& interruption == undisturbed_run() ==> run.result is Ok && run.interruption
                == interruption
        }),
{
    let original = base.parent->0.use_filter;
    let start = Run {
        machine: at_progress(base, record, progress),
        interruption,
        result: Ok::<(), Error>(()),
    };
    progress_facts(base, record, progress);
    let p0 = start.machine.parent->0;
    assert(filter_partial(start.machine, record) is Ok);
    let parts = match progress.filter {
        Some(parts) => parts,
        None => (false, false, false),
    };
    part_progress(base, record, progress, Part::Owner);
    let a = Progress { filter: Some((true, parts.1, parts.2)), ..progress };
    let partial = checked_step(start, filter_partial(start.machine, record));
    assert(partial == start);
    let owned = stepped(
        partial,
        part_missing(partial.machine, record, Part::Owner),
        part_written(partial.machine, record, Part::Owner),
    );
    assert(owned.machine == at_progress(base, record, a));
    let c = Progress { filter: Some((true, true, parts.2)), ..progress };
    let d = Progress { on: true, ..c };
    if owned.result is Err {
        assert(filled(start, record, original).machine == owned.machine);
        a
    } else {
        part_progress(base, record, a, Part::Path);
        let named = stepped(
            owned,
            part_missing(owned.machine, record, Part::Path),
            part_written(owned.machine, record, Part::Path),
        );
        assert(named.machine == at_progress(base, record, c));
        if named.result is Err {
            c
        } else {
            progress_facts(base, record, c);
            assert(undisturbed(named.machine, record, original) is Ok);
            assert(setting_written(named.machine, Some(dword_view(1))) == at_progress(
                base,
                record,
                d,
            ));
            let enabled = stepped(
                named,
                gated(undisturbed(named.machine, record, original), true),
                setting_written(named.machine, Some(dword_view(1))),
            );
            assert(enabled.machine == at_progress(base, record, d));
            if enabled.result is Err {
                d
            } else {
                part_progress(base, record, d, Part::Debugger);
                Progress { filter: Some((true, true, true)), ..d }
            }
        }
    }
}

proof fn beginning_progress(base: MachineView, record: RegistrationView, progress: Progress)
    requires
        alone(base, record),
        installing(progress),
    ensures
        ({
            let m = at_progress(base, record, progress);
            let fresh = progress.phase is None;
            &&& touched(m, record) == m
            &&& if progress.phase == Some(Phase::Active) {
                beginning(m, record) == Ok::<Beginning, Error>(Beginning::Settled(Ok(())))
            } else {
                beginning(m, record) == Ok::<Beginning, Error>(
                    Beginning::Proceed {
                        fresh,
                        backup: fresh,
                        original: base.parent->0.use_filter,
                    },
                )
            }
        }),
{
    let m = at_progress(base, record, progress);
    progress_facts(base, record, progress);
    let p = m.parent->0;
    if progress.phase is Some {
        assert(m.entries[base.entries.len() as int].journal == Some(
            JournalView { record, phase: progress.phase->0 },
        ));
    }
    assert(with_keys(m) == m);
    if progress.phase == Some(Phase::Active) {
        assert(admissible(m, record) == Ok::<Option<bool>, Error>(None));
        assert(p.filters[base.parent->0.filters.len() as int] == filter_with(
            record,
            (true, true, true),
        ));
        assert(exact(p, record) is Ok);
        let nothing = exact(p, record)->Ok_0;
        assert(nothing == ());
        assert(parent_of(m) == Ok::<ParentView, Error>(p));
        assert(beginning(m, record) == Ok::<Beginning, Error>(Beginning::Settled(Ok(()))));
    } else {
        let fresh = progress.phase is None;
        assert(admissible(m, record) == Ok::<Option<bool>, Error>(Some(fresh)));
        assert(parent_of(with_keys(m)) == Ok::<ParentView, Error>(p));
        assert(participation(m.entries, record) == !fresh);
        assert(fresh ==> p.use_filter == base.parent->0.use_filter);
        assert(fresh ==> first_where(p.filters, own(record.id)) is None);
        assert(beginning(m, record) == Ok::<Beginning, Error>(
            Beginning::Proceed { fresh, backup: fresh, original: base.parent->0.use_filter },
        ));
    }
    assert(touched(m, record) == m);
}

/// An installation that is interrupted, at any point and any number of times, leaves progress from
/// which it can be taken up again; one that is not interrupted completes.
pub proof fn installation_resumes(
    base: MachineView,
    record: RegistrationView,
    size: nat,
    progress: Progress,
    interruption: Interruption,
) -> (after: Progress)
    requires
        alone(base, record),
        installing(progress),
        size <= VALUE_LIMIT,
    ensures
        installing(after),
        install_run(at_progress(base, record, progress), record, size, interruption).machine
            == at_progress(base, record, after),
        install_run(at_progress(base, record, progress), record, size, interruption).result is Ok ==> after
            == complete(),
        interruption == undisturbed_run() ==> install_run(
            at_progress(base, record, progress),
            record,
            size,
            interruption,
        ).result is Ok,
{
    let m = at_progress(base, record, progress);
    let original = base.parent->0.use_filter;
    beginning_progress(base, record, progress);
    if progress.phase == Some(Phase::Active) {
        progress
    } else {
        let fresh = progress.phase is None;
        let start = Run { machine: m, interruption, result: Ok::<(), Error>(()) };
        let first = intent_progress(base, record, progress, interruption);
        let noted = intended(start, record, fresh, fresh, original);
        if noted.result is Err {
            assert(filled(noted, record, original) == noted);
            first
        } else {
            let second = fill_progress(base, record, first, noted.interruption);
            let done = filled(noted, record, original);
            if done.result is Err {
                second
            } else {
                progress_facts(base, record, second);
                let q = done.machine.parent->0;
                assert(q.filters[base.parent->0.filters.len() as int] == filter_with(
                    record,
                    (true, true, true),
                ));
                assert(verified(done.machine, record) is Ok);
                phase_progress(base, record, second, Phase::Active);
                let third = Progress { phase: Some(Phase::Active), ..second };
                progress_facts(base, record, third);
                assert(at_progress(base, record, third).parent == done.machine.parent);
                third
            }
        }
    }
}

/// A removal that is interrupted, at any point and any number of times, leaves progress from which it
/// can be taken up again; one that is not interrupted completes.
pub proof fn removal_resumes(
    base: MachineView,
    record: RegistrationView,
    progress: Progress,
    interruption: Interruption,
) -> (after: Progress)
    requires
        alone(base, record),
        removing(progress),
    ensures
        removing(after),
        remove_run(at_progress(base, record, progress), record, interruption).machine
            == at_progress(base, record, after),
        remove_run(at_progress(base, record, progress), record, interruption).result is Ok ==> after
            == removed(),
        interruption == undisturbed_run() ==> remove_run(
            at_progress(base, record, progress),
            record,
            interruption,
        ).result is Ok,
{
    let m = at_progress(base, record, progress);
    let original = base.parent->0.use_filter;
    let b = base.parent->0;
    progress_facts(base, record, progress);
    let p = m.parent->0;
    let entry = EntryView {
        name: record.id.text(),
        journal: Some(JournalView { record, phase: progress.phase->0 }),
    };
    assert(m.entries[base.entries.len() as int] == entry);
    assert(entry.name == record.id.text());
    assert(entry_validity(entry) is Ok);
    assert(journal_of(m, record.id) == Ok::<JournalView, Error>(
        JournalView { record, phase: progress.phase->0 },
    ));
    if progress.phase == Some(Phase::Removed) {
        progress
    } else {
        if progress.filter is Some {
            assert(p.filters[b.filters.len() as int] == filter_with(record, progress.filter->0));
        }
        assert(removable(m, record) == Ok::<Option<Option<ValueView>>, Error>(Some(original)));
        let start = Run { machine: m, interruption, result: Ok::<(), Error>(()) };
        phase_progress(base, record, progress, Phase::Removing);
        let a = Progress { phase: Some(Phase::Removing), ..progress };
        let c = match a.filter {
            Some(parts) => Progress { filter: Some((parts.0, parts.1, false)), ..a },
            None => a,
        };
        let d = Progress { filter: None, ..c };
        let e = Progress { on: false, ..d };
        let f = Progress { phase: Some(Phase::Removed), ..e };
        let marked = stepped(start, Ok(true), phase_written(m, record, Phase::Removing));
        assert(marked.machine == at_progress(base, record, a));
        if marked.result is Err {
            a
        } else {
            progress_facts(base, record, a);
            let bare = stepped(
                marked,
                armed(marked.machine, record),
                disarmed(marked.machine, record),
            );
            assert(bare.machine == at_progress(base, record, c)) by {
                if a.filter is Some {
                    let parts = a.filter->0;
                    assert(marked.machine.parent->0.filters[b.filters.len() as int]
                        == filter_with(record, parts));
                    assert(disarmed(marked.machine, record).parent->0.filters =~= at_progress(
                        base,
                        record,
                        c,
                    ).parent->0.filters);
                    if !parts.2 {
                        assert(c == a);
                    }
                }
            }
            if bare.result is Err {
                c
            } else {
                progress_facts(base, record, c);
                let cut = stepped(
                    bare,
                    filter_present(bare.machine, record),
                    filter_deleted(bare.machine, record),
                );
                assert(cut.machine == at_progress(base, record, d)) by {
                    if c.filter is Some {
                        assert(bare.machine.parent->0.filters[b.filters.len() as int]
                            == filter_with(record, c.filter->0));
                        assert(filter_deleted(bare.machine, record).parent->0.filters
                            =~= b.filters);
                    } else {
                        assert(c == d);
                    }
                }
                if cut.result is Err {
                    d
                } else {
                    progress_facts(base, record, d);
                    let restored = stepped(
                        cut,
                        restorable(cut.machine, record, original),
                        setting_written(cut.machine, original),
                    );
                    assert(restorable(cut.machine, record, original) is Ok);
                    assert(restored.machine == at_progress(base, record, e));
                    if restored.result is Err {
                        e
                    } else {
                        phase_progress(base, record, e, Phase::Removed);
                        progress_facts(base, record, f);
                        assert(gone(at_progress(base, record, f), record) is Ok);
                        f
                    }
                }
            }
        }
    }
}

/// Installing and then removing a program's only registration leaves the program's key exactly as it
/// was, its mitigations and its own setting included. Installing again, and removing again, changes nothing, and
/// afterwards the registration is not found.
pub proof fn removal_restores_the_program(base: MachineView, record: RegistrationView, size: nat)
    requires
        alone(base, record),
        size <= VALUE_LIMIT,
    ensures
        ({
            let installed = install_run(base, record, size, undisturbed_run());
            let again = install_run(installed.machine, record, size, undisturbed_run());
            let end = remove_run(installed.machine, record, undisturbed_run());
            let twice = remove_run(end.machine, record, undisturbed_run());
            &&& installed.result is Ok
            &&& verified(installed.machine, record) is Ok
            &&& read_of(installed.machine, record.id) == Ok::<RegistrationView, Error>(record)
            &&& again.result is Ok
            &&& again.machine == installed.machine
            &&& end.result is Ok
            &&& end.machine.parent == base.parent
            &&& read_of(end.machine, record.id) == invalid::<RegistrationView>(
                "IFEO_NOT_REGISTERED",
            )
            &&& twice.result is Ok
            &&& twice.machine == end.machine
        }),
{
    let none = Progress { backed: false, phase: None, filter: None, on: false };
    assert(at_progress(base, record, none) == base) by {
        assert(at_progress(base, record, none).parent->0 == base.parent->0);
    }
    let x = installation_resumes(base, record, size, none, undisturbed_run());
    progress_facts(base, record, x);
    let installed = install_run(base, record, size, undisturbed_run());
    assert(installed.machine.parent->0.filters[base.parent->0.filters.len() as int]
        == filter_with(record, (true, true, true)));
    let z = installation_resumes(base, record, size, x, undisturbed_run());
    let y = removal_resumes(base, record, x, undisturbed_run());
    let w = removal_resumes(base, record, y, undisturbed_run());
    recorded_phase(base, record, x);
    recorded_phase(base, record, y);
}

proof fn recorded_phase(base: MachineView, record: RegistrationView, progress: Progress)
    requires
        alone(base, record),
        installing(progress) || removing(progress),
        progress.phase is Some,
    ensures
        journal_of(at_progress(base, record, progress), record.id) == Ok::<JournalView, Error>(
            JournalView { record, phase: progress.phase->0 },
        ),
{
    let m = at_progress(base, record, progress);
    progress_facts(base, record, progress);
    let entry = EntryView {
        name: record.id.text(),
        journal: Some(JournalView { record, phase: progress.phase->0 }),
    };
    assert(m.entries[base.entries.len() as int] == entry);
    assert(entry.name == record.id.text());
    assert(entry_validity(entry) is Ok);
}

/// The removal of the last registration of a program puts the saved setting back: once it has succeeded, and no
/// other registration of the program remains, the program's setting is the one that was saved.
pub proof fn last_removal_restores_the_setting(
    machine: MachineView,
    record: RegistrationView,
    interruption: Interruption,
)
    requires
        !others_remain(machine.entries, record),
        removable(machine, record) matches Ok(Some(_)),
        remove_run(machine, record, interruption).result is Ok,
    ensures
        backup_of(machine, record) == Ok::<Option<ValueView>, Error>(
            remove_run(machine, record, interruption).machine.parent->0.use_filter,
        ),
{
    let original = removable(machine, record)->Ok_0->0;
    let start = Run { machine, interruption, result: Ok::<(), Error>(()) };
    let marked = stepped(start, Ok(true), phase_written(machine, record, Phase::Removing));
    let bare = stepped(marked, armed(marked.machine, record), disarmed(marked.machine, record));
    let cut = stepped(
        bare,
        filter_present(bare.machine, record),
        filter_deleted(bare.machine, record),
    );
    assert(cut.machine.entries == marked.machine.entries);
    none_comes_back(machine.entries, record, Phase::Removing);
    let restored = stepped(
        cut,
        restorable(cut.machine, record, original),
        setting_written(cut.machine, original),
    );
    assert(restored.result is Ok);
    assert(restored.machine.parent->0.use_filter == original);
}

proof fn none_comes_back(entries: Seq<EntryView>, record: RegistrationView, phase: Phase)
    requires
        !others_remain(entries, record),
        entry_at(entries, record.id) is Some,
    ensures
        !others_remain(
            entries.update(
                entry_at(entries, record.id)->0,
                EntryView {
                    name: record.id.text(),
                    journal: Some(JournalView { record, phase }),
                },
            ),
            record,
        ),
{
    first_where_found(entries, entry_named(record.id.text()));
    let at = entry_at(entries, record.id)->0;
    let changed = entries.update(
        at,
        EntryView { name: record.id.text(), journal: Some(JournalView { record, phase }) },
    );
    assert forall|i: int| 0 <= i < changed.len() && #[trigger] participates(changed[i], record)
        implies changed[i].journal->0.record.id == record.id by {
        if i != at {
            assert(changed[i] == entries[i]);
            assert(participates(entries[i], record));
        }
    }
}

/// A change of a program's registrations: an installation, or a removal.
pub enum Change {
    Install { record: RegistrationView, size: nat, interruption: Interruption },
    Remove { record: RegistrationView, interruption: Interruption },
}

/// The registration that a change is about.
pub open spec fn changed_record(change: Change) -> RegistrationView {
    match change {
        Change::Install { record, .. } => record,
        Change::Remove { record, .. } => record,
    }
}

/// The machine once a change was made, or was interrupted or refused.
pub open spec fn changed(machine: MachineView, change: Change) -> MachineView {
    match change {
        Change::Install { record, size, interruption } => install_run(
            machine,
            record,
            size,
            interruption,
        ).machine,
        Change::Remove { record, interruption } => remove_run(machine, record, interruption).machine,
    }
}

/// The machine after changes, in order.
pub open spec fn after(machine: MachineView, changes: Seq<Change>) -> MachineView
    decreases changes.len(),
{
    if changes.len() == 0 {
        machine
    } else {
        changed(after(machine, changes.drop_last()), changes.last())
    }
}

/// A registration is recorded and not removed.
pub open spec fn holds(machine: MachineView, record: RegistrationView) -> bool {
    match entry_at(machine.entries, record.id) {
        Some(at) => machine.entries[at].journal matches Some(journal) && journal.record == record
            && journal.phase != Phase::Removed,
        None => false,
    }
}

/// Neither the saved setting nor the entry of this registration differs.
pub open spec fn keeps(before: MachineView, now: MachineView, keeper: RegistrationView) -> bool {
    now.backup == before.backup && holds(now, keeper)
}

proof fn entry_stays(machine: MachineView, record: RegistrationView, phase: Phase, keeper: RegistrationView)
    requires
        holds(machine, keeper),
        keeper.id != record.id,
    ensures
        holds(phase_written(machine, record, phase), keeper),
{
    if keeper.id.text() == record.id.text() {
        uuid_text_injective(keeper.id.bits, record.id.bits);
    }
    let entries = machine.entries;
    let now = phase_written(machine, record, phase).entries;
    first_where_found(entries, entry_named(keeper.id.text()));
    first_where_found(entries, entry_named(record.id.text()));
    let at = entry_at(entries, keeper.id)->0;
    assert(now[at] == entries[at]);
    assert forall|k: int| 0 <= k < at implies !entry_named(keeper.id.text())(#[trigger] now[k]) by {
        assert(!entry_named(keeper.id.text())(entries[k]));
    }
    first_where_is(now, entry_named(keeper.id.text()), at);
}

proof fn filling_keeps_records(start: Run, record: RegistrationView, original: Option<ValueView>)
    ensures
        filled(start, record, original).machine.entries == start.machine.entries,
        filled(start, record, original).machine.backup == start.machine.backup,
{
    let partial = checked_step(start, filter_partial(start.machine, record));
    let owned = stepped(
        partial,
        part_missing(partial.machine, record, Part::Owner),
        part_written(partial.machine, record, Part::Owner),
    );
    assert(owned.machine.entries == start.machine.entries && owned.machine.backup
        == start.machine.backup);
    let named = stepped(
        owned,
        part_missing(owned.machine, record, Part::Path),
        part_written(owned.machine, record, Part::Path),
    );
    assert(named.machine.entries == start.machine.entries && named.machine.backup
        == start.machine.backup);
    let enabled = stepped(
        named,
        gated(undisturbed(named.machine, record, original), true),
        setting_written(named.machine, Some(dword_view(1))),
    );
    assert(enabled.machine.entries == start.machine.entries && enabled.machine.backup
        == start.machine.backup);
}

proof fn step_lands(run: Run, decision: Result<bool>, written: MachineView)
    ensures
        stepped(run, decision, written).machine == run.machine || stepped(run, decision, written).machine
            == written,
{
}

proof fn installation_keeps(
    machine: MachineView,
    keeper: RegistrationView,
    record: RegistrationView,
    interruption: Interruption,
)
    requires
        holds(machine, keeper),
        record.id != keeper.id,
        base_key(record) == base_key(keeper),
    ensures
        keeps(machine, admitted_run(machine, record, interruption).machine, keeper),
{
    first_where_found(machine.entries, entry_named(keeper.id.text()));
    let at = entry_at(machine.entries, keeper.id)->0;
    assert(participates(machine.entries[at], record));
    assert(participation(machine.entries, record));
    let first = touched(machine, record);
    assert(first.entries == machine.entries && first.backup == machine.backup);
    match beginning(machine, record) {
        Ok(Beginning::Proceed { fresh, backup, original }) => {
            let start = Run { machine: first, interruption, result: Ok::<(), Error>(()) };
            let noted = intended(start, record, fresh, backup, original);
            assert(!backup);
            entry_stays(first, record, Phase::Installing, keeper);
            assert(noted.machine == first || noted.machine == phase_written(
                first,
                record,
                Phase::Installing,
            ));
            filling_keeps_records(noted, record, original);
            let done = filled(noted, record, original);
            assert(keeps(machine, done.machine, keeper));
            entry_stays(done.machine, record, Phase::Active, keeper);
            step_lands(
                done,
                gated(verified(done.machine, record), true),
                phase_written(done.machine, record, Phase::Active),
            );
        },
        _ => {},
    }
}

proof fn removal_keeps(
    machine: MachineView,
    keeper: RegistrationView,
    record: RegistrationView,
    interruption: Interruption,
)
    requires
        holds(machine, keeper),
        record.id != keeper.id,
    ensures
        keeps(machine, remove_run(machine, record, interruption).machine, keeper),
{
    match removable(machine, record) {
        Ok(Some(original)) => {
            let start = Run { machine, interruption, result: Ok::<(), Error>(()) };
            let removing = phase_written(machine, record, Phase::Removing);
            entry_stays(machine, record, Phase::Removing, keeper);
            let marked = stepped(start, Ok(true), removing);
            assert(marked.machine == removing);
            let bare = stepped(
                marked,
                armed(marked.machine, record),
                disarmed(marked.machine, record),
            );
            step_lands(marked, armed(marked.machine, record), disarmed(marked.machine, record));
            let cut = stepped(
                bare,
                filter_present(bare.machine, record),
                filter_deleted(bare.machine, record),
            );
            step_lands(
                bare,
                filter_present(bare.machine, record),
                filter_deleted(bare.machine, record),
            );
            let restored = stepped(
                cut,
                restorable(cut.machine, record, original),
                setting_written(cut.machine, original),
            );
            step_lands(
                cut,
                restorable(cut.machine, record, original),
                setting_written(cut.machine, original),
            );
            assert(restored.machine.entries == removing.entries && restored.machine.backup
                == machine.backup);
            assert(keeps(machine, restored.machine, keeper));
            entry_stays(restored.machine, record, Phase::Removed, keeper);
            step_lands(
                restored,
                Ok(true),
                phase_written(restored.machine, record, Phase::Removed),
            );
        },
        _ => {},
    }
}

/// While a registration of the program is recorded and not removed, a change of another registration of that
/// program leaves the saved setting and that registration's record alone.
pub proof fn saved_setting_stays(machine: MachineView, keeper: RegistrationView, change: Change)
    requires
        holds(machine, keeper),
        changed_record(change).id != keeper.id,
        base_key(changed_record(change)) == base_key(keeper),
    ensures
        keeps(machine, changed(machine, change), keeper),
{
    match change {
        Change::Install { record, size, interruption } => {
            installation_keeps(machine, keeper, record, interruption);
        },
        Change::Remove { record, interruption } => {
            removal_keeps(machine, keeper, record, interruption);
        },
    }
}

/// The setting that was saved with a program's first registration survives any number of changes of the others,
/// interrupted or not, so that the removal that comes last puts it back.
pub proof fn saved_setting_survives(machine: MachineView, keeper: RegistrationView, changes: Seq<Change>)
    requires
        holds(machine, keeper),
        forall|i: int|
            0 <= i < changes.len() ==> changed_record(#[trigger] changes[i]).id != keeper.id && base_key(
                changed_record(changes[i]),
            ) == base_key(keeper),
    ensures
        keeps(machine, after(machine, changes), keeper),
        backup_of(after(machine, changes), keeper) == backup_of(machine, keeper),
    decreases changes.len(),
{
    if changes.len() > 0 {
        let front = changes.drop_last();
        assert forall|i: int| 0 <= i < front.len() implies changed_record(#[trigger] front[i]).id
            != keeper.id && base_key(changed_record(front[i])) == base_key(keeper) by {
            assert(front[i] == changes[i]);
        }
        saved_setting_survives(machine, keeper, front);
        assert(changes.last() == changes[changes.len() - 1]);
        saved_setting_stays(after(machine, front), keeper, changes.last());
    }
}

/// While another registration of the program remains, a removal leaves the program's setting alone.
pub proof fn shared_setting_stays(
    machine: MachineView,
    record: RegistrationView,
    interruption: Interruption,
)
    requires
        others_remain(machine.entries, record),
        removable(machine, record) is Ok,
    ensures
        remove_run(machine, record, interruption).machine.parent->0.use_filter
            == machine.parent->0.use_filter,
{
    match removable(machine, record)->Ok_0 {
        None => {},
        Some(original) => {
            let start = Run { machine, interruption, result: Ok::<(), Error>(()) };
            let marked = stepped(start, Ok(true), phase_written(machine, record, Phase::Removing));
            others_still_remain(machine.entries, record, Phase::Removing);
            let bare = stepped(
                marked,
                armed(marked.machine, record),
                disarmed(marked.machine, record),
            );
            let cut = stepped(
                bare,
                filter_present(bare.machine, record),
                filter_deleted(bare.machine, record),
            );
            assert(cut.machine.entries == marked.machine.entries);
        },
    }
}

proof fn others_still_remain(entries: Seq<EntryView>, record: RegistrationView, phase: Phase)
    requires
        others_remain(entries, record),
        entry_at(entries, record.id) is Some,
        entry_validity(entries[entry_at(entries, record.id)->0]) is Ok,
        entries[entry_at(entries, record.id)->0].journal->0.record == record,
    ensures
        others_remain(
            entries.update(
                entry_at(entries, record.id)->0,
                EntryView {
                    name: record.id.text(),
                    journal: Some(JournalView { record, phase }),
                },
            ),
            record,
        ),
{
    first_where_found(entries, entry_named(record.id.text()));
    let at = entry_at(entries, record.id)->0;
    let changed = entries.update(
        at,
        EntryView { name: record.id.text(), journal: Some(JournalView { record, phase }) },
    );
    let i = choose|i: int|
        0 <= i < entries.len() && #[trigger] participates(entries[i], record)
            && entries[i].journal->0.record.id != record.id;
    assert(i != at);
    assert(changed[i] == entries[i]);
    assert(participates(changed[i], record));
}

proof fn filters_are_told_apart(filter: FilterView, a: RegistrationView, b: RegistrationView)
    requires
        own(a.id)(filter),
        own(b.id)(filter),
    ensures
        a.id == b.id,
{
    let x = filter_name(a.id);
    let y = filter_name(b.id);
    reveal_strlit("AppProxyRust-");
    uuid_text_plain(a.id.bits);
    uuid_text_plain(b.id.bits);
    assert(text::folded(x) == text::folded(y));
    assert forall|i: int| 0 <= i < 36 implies a.id.text()[i] == b.id.text()[i] by {
        assert(text::folded(x)[i + 13] == text::folded(y)[i + 13]);
        assert(x[i + 13] == uuid_text(a.id.bits)[i]);
        assert(y[i + 13] == uuid_text(b.id.bits)[i]);
    }
    assert(a.id.text() =~= b.id.text());
    uuid_text_injective(a.id.bits, b.id.bits);
}

proof fn foreign_each(filters: Seq<FilterView>, record: RegistrationView, setting: Option<ValueView>, i: int)
    requires
        0 <= i <= filters.len(),
    ensures
        foreign_filters(filters, record, setting, i) is Ok <==> forall|k: int|
            i <= k < filters.len() ==> foreign_filter(#[trigger] filters[k], record, setting) is Ok,
    decreases filters.len() - i,
{
    if i < filters.len() {
        foreign_each(filters, record, setting, i + 1);
        if foreign_filter(filters[i], record, setting) is Ok {
            assert forall|k: int|
                (forall|m: int|
                    i + 1 <= m < filters.len() ==> foreign_filter(
                        #[trigger] filters[m],
                        record,
                        setting,
                    ) is Ok) && i <= k < filters.len() implies foreign_filter(
                #[trigger] filters[k],
                record,
                setting,
            ) is Ok by {
                if k > i {
                    assert(foreign_filter(filters[k], record, setting) is Ok);
                }
            }
        }
    }
}

proof fn disarming_spares_others(machine: MachineView, record: RegistrationView, other: RegistrationView)
    requires
        verified(machine, other) is Ok,
        record.id != other.id,
        first_where(machine.parent->0.filters, own(record.id)) is Some,
    ensures
        verified(disarmed(machine, record), other) is Ok,
{
    let old = machine.parent->0.filters;
    let now = disarmed(machine, record).parent->0.filters;
    let setting = Some(dword_view(1));
    first_where_found(old, own(record.id));
    first_where_found(old, own(other.id));
    let at = first_where(old, own(record.id))->0;
    let place = first_where(old, own(other.id))->0;
    if at == place {
        filters_are_told_apart(old[at], record, other);
    }
    assert forall|k: int| 0 <= k < place implies !own(other.id)(#[trigger] now[k]) by {
        assert(!own(other.id)(old[k]));
    }
    first_where_is(now, own(other.id), place);
    foreign_each(old, other, setting, 0);
    foreign_each(now, other, setting, 0);
    assert forall|k: int| 0 <= k < now.len() implies foreign_filter(#[trigger] now[k], other, setting) is Ok by {
        assert(foreign_filter(old[k], other, setting) is Ok);
    }
}

proof fn deleting_spares_others(machine: MachineView, record: RegistrationView, other: RegistrationView)
    requires
        verified(machine, other) is Ok,
        record.id != other.id,
        first_where(machine.parent->0.filters, own(record.id)) is Some,
    ensures
        verified(filter_deleted(machine, record), other) is Ok,
{
    let old = machine.parent->0.filters;
    let now = filter_deleted(machine, record).parent->0.filters;
    let setting = Some(dword_view(1));
    first_where_found(old, own(record.id));
    first_where_found(old, own(other.id));
    let at = first_where(old, own(record.id))->0;
    let place = first_where(old, own(other.id))->0;
    if at == place {
        filters_are_told_apart(old[at], record, other);
    }
    let moved = if place < at {
        place
    } else {
        place - 1
    };
    assert(now[moved] == old[place]);
    assert forall|k: int| 0 <= k < moved implies !own(other.id)(#[trigger] now[k]) by {
        if k < at {
            assert(!own(other.id)(old[k]));
        } else {
            assert(!own(other.id)(old[k + 1]));
        }
    }
    first_where_is(now, own(other.id), moved);
    foreign_each(old, other, setting, 0);
    foreign_each(now, other, setting, 0);
    assert forall|k: int| 0 <= k < now.len() implies foreign_filter(#[trigger] now[k], other, setting) is Ok by {
        if k < at {
            assert(foreign_filter(old[k], other, setting) is Ok);
        } else {
            assert(foreign_filter(old[k + 1], other, setting) is Ok);
        }
    }
}

proof fn keeper_participates(machine: MachineView, record: RegistrationView, other: RegistrationView)
    requires
        holds(machine, other),
        record.id != other.id,
        base_key(record) == base_key(other),
    ensures
        others_remain(machine.entries, record),
{
    first_where_found(machine.entries, entry_named(other.id.text()));
    let at = entry_at(machine.entries, other.id)->0;
    assert(participates(machine.entries[at], record));
}

/// Removing one registration of a program leaves another one of it in force: while the other is recorded and not
/// removed, it verifies after the removal, or any interrupted part of it, if it did before.
pub proof fn others_stay_in_force(
    machine: MachineView,
    record: RegistrationView,
    other: RegistrationView,
    interruption: Interruption,
)
    requires
        record.id != other.id,
        base_key(record) == base_key(other),
        holds(machine, other),
        verified(machine, other) is Ok,
    ensures
        verified(remove_run(machine, record, interruption).machine, other) is Ok,
{
    match removable(machine, record) {
        Ok(Some(original)) => {
            let start = Run { machine, interruption, result: Ok::<(), Error>(()) };
            let removing = phase_written(machine, record, Phase::Removing);
            entry_stays(machine, record, Phase::Removing, other);
            let marked = stepped(start, Ok(true), removing);
            assert(verified(marked.machine, other) is Ok);
            if armed(marked.machine, record) == Ok::<bool, Error>(true) {
                disarming_spares_others(marked.machine, record, other);
            }
            let bare = stepped(
                marked,
                armed(marked.machine, record),
                disarmed(marked.machine, record),
            );
            assert(verified(bare.machine, other) is Ok);
            if filter_present(bare.machine, record) == Ok::<bool, Error>(true) {
                deleting_spares_others(bare.machine, record, other);
            }
            let cut = stepped(
                bare,
                filter_present(bare.machine, record),
                filter_deleted(bare.machine, record),
            );
            assert(verified(cut.machine, other) is Ok);
            assert(cut.machine.entries == removing.entries);
            keeper_participates(cut.machine, record, other);
            let restored = stepped(
                cut,
                restorable(cut.machine, record, original),
                setting_written(cut.machine, original),
            );
            assert(restored.machine == cut.machine);
        },
        _ => {},
    }
}

proof fn valid_each(entries: Seq<EntryView>, i: int)
    requires
        0 <= i <= entries.len(),
    ensures
        entries_validity(entries, i) is Ok <==> forall|k: int|
            i <= k < entries.len() ==> entry_validity(#[trigger] entries[k]) is Ok,
    decreases entries.len() - i,
{
    if i < entries.len() {
        valid_each(entries, i + 1);
        if entry_validity(entries[i]) is Ok {
            assert forall|k: int|
                (forall|m: int|
                    i + 1 <= m < entries.len() ==> entry_validity(#[trigger] entries[m]) is Ok) && i <= k
                    < entries.len() implies entry_validity(#[trigger] entries[k]) is Ok by {
                if k > i {
                    assert(entry_validity(entries[k]) is Ok);
                }
            }
        }
    }
}

/// The filters of a program have names of their own, as the keys of a registry have.
pub open spec fn distinct_filters(filters: Seq<FilterView>) -> bool {
    forall|i: int, j: int|
        0 <= i < j < filters.len() ==> !text::same_folded(
            (#[trigger] filters[i]).name,
            (#[trigger] filters[j]).name,
        )
}

/// A registration is in force: the journal says so, the program's setting is saved, and the registry holds what
/// was written.
pub open spec fn in_force(machine: MachineView, record: RegistrationView) -> bool {
    journal_of(machine, record.id) == Ok::<JournalView, Error>(
        JournalView { record, phase: Phase::Active },
    ) && entries_validity(machine.entries, 0) is Ok && verified(machine, record) is Ok && backup_of(
        machine,
        record,
    ) is Ok && distinct_filters(machine.parent->0.filters)
}

/// The machine once a registration is removed.
pub open spec fn without_registration(machine: MachineView, record: RegistrationView) -> MachineView {
    let parent = machine.parent->0;
    MachineView {
        parent: Some(
            ParentView {
                filters: parent.filters.remove(first_where(parent.filters, own(record.id))->0),
                use_filter: if others_remain(machine.entries, record) {
                    parent.use_filter
                } else {
                    backup_of(machine, record)->Ok_0
                },
                ..parent
            },
        ),
        ..phase_written(machine, record, Phase::Removed)
    }
}

proof fn rewritten_entry(machine: MachineView, record: RegistrationView, phase: Phase)
    requires
        journal_of(machine, record.id) is Ok,
        journal_of(machine, record.id)->Ok_0.record == record,
        entries_validity(machine.entries, 0) is Ok,
    ensures
        ({
            let now = phase_written(machine, record, phase);
            &&& journal_of(now, record.id) == Ok::<JournalView, Error>(JournalView { record, phase })
            &&& entries_validity(now.entries, 0) is Ok
            &&& entry_at(now.entries, record.id) == entry_at(machine.entries, record.id)
            &&& others_remain(now.entries, record) == others_remain(machine.entries, record)
        }),
{
    let entries = machine.entries;
    let name = entry_named(record.id.text());
    first_where_found(entries, name);
    let at = entry_at(entries, record.id)->0;
    let now = phase_written(machine, record, phase).entries;
    assert forall|k: int| 0 <= k < at implies !name(#[trigger] now[k]) by {
        assert(!name(entries[k]));
    }
    first_where_is(now, name, at);
    valid_each(entries, 0);
    valid_each(now, 0);
    assert(entry_validity(entries[at]) is Ok);
    assert(now[at].name == record.id.text());
    assert forall|k: int| 0 <= k < now.len() implies entry_validity(#[trigger] now[k]) is Ok by {
        if k != at {
            assert(entry_validity(entries[k]) is Ok);
        }
    }
    if others_remain(entries, record) {
        others_still_remain(entries, record, phase);
    } else {
        none_comes_back(entries, record, phase);
    }
}

/// A registration that is in force can be removed, unless it is the program's last and filters of others have come
/// to depend on the program's setting since: nothing is left of it but its record, and the program's setting is put
/// back with the last registration.
pub proof fn removal_succeeds(machine: MachineView, record: RegistrationView)
    requires
        in_force(machine, record),
        others_remain(machine.entries, record) || backup_of(machine, record)->Ok_0 == Some(
            dword_view(1),
        ) || machine.parent->0.filters.len() == 1,
    ensures
        remove_run(machine, record, undisturbed_run()).result is Ok,
        remove_run(machine, record, undisturbed_run()).machine == without_registration(
            machine,
            record,
        ),
{
    let original = backup_of(machine, record)->Ok_0;
    let mine = own(record.id);
    let filters = machine.parent->0.filters;
    first_where_found(filters, mine);
    let at = first_where(filters, mine)->0;
    assert(removable(machine, record) == Ok::<Option<Option<ValueView>>, Error>(Some(original)));
    let start = Run { machine, interruption: undisturbed_run(), result: Ok::<(), Error>(()) };
    let removing = phase_written(machine, record, Phase::Removing);
    rewritten_entry(machine, record, Phase::Removing);
    let marked = stepped(start, Ok(true), removing);
    assert(marked.machine == removing && marked.result is Ok);
    let bare = stepped(marked, armed(removing, record), disarmed(removing, record));
    assert(bare.machine == disarmed(removing, record) && bare.result is Ok);
    let loose = bare.machine.parent->0.filters;
    assert forall|k: int| 0 <= k < at implies !mine(#[trigger] loose[k]) by {
        assert(!mine(filters[k]));
    }
    first_where_is(loose, mine, at);
    let cut = stepped(
        bare,
        filter_present(bare.machine, record),
        filter_deleted(bare.machine, record),
    );
    assert(cut.machine == filter_deleted(bare.machine, record) && cut.result is Ok);
    let left = cut.machine.parent->0.filters;
    assert(left =~= filters.remove(at));
    assert(cut.machine.entries == removing.entries);
    let restored = stepped(
        cut,
        restorable(cut.machine, record, original),
        setting_written(cut.machine, original),
    );
    assert(restored.result is Ok);
    assert(restored.machine.entries == removing.entries);
    let done = stepped(
        restored,
        Ok(true),
        phase_written(restored.machine, record, Phase::Removed),
    );
    let end = without_registration(machine, record);
    first_where_found(machine.entries, entry_named(record.id.text()));
    assert(entry_at(removing.entries, record.id) == entry_at(machine.entries, record.id));
    assert(done.machine.entries =~= end.entries);
    assert(done.machine == end);
    assert forall|k: int| 0 <= k < left.len() implies !mine(#[trigger] left[k]) by {
        if k < at {
            assert(!mine(filters[k]));
        } else {
            assert(!text::same_folded(filters[at].name, filters[k + 1].name));
        }
    }
    first_where_none(left, mine);
}

proof fn entry_untouched(machine: MachineView, first: RegistrationView, second: RegistrationView, phase: Phase)
    requires
        first.id != second.id,
        journal_of(machine, first.id) is Ok,
        journal_of(machine, second.id) is Ok,
    ensures
        journal_of(phase_written(machine, first, phase), second.id) == journal_of(machine, second.id),
        entry_at(phase_written(machine, first, phase).entries, second.id) == entry_at(
            machine.entries,
            second.id,
        ),
{
    if second.id.text() == first.id.text() {
        uuid_text_injective(second.id.bits, first.id.bits);
    }
    let entries = machine.entries;
    let now = phase_written(machine, first, phase).entries;
    let name = entry_named(second.id.text());
    first_where_found(entries, name);
    first_where_found(entries, entry_named(first.id.text()));
    let place = entry_at(entries, second.id)->0;
    assert(now[place] == entries[place]);
    assert forall|k: int| 0 <= k < place implies !name(#[trigger] now[k]) by {
        assert(!name(entries[k]));
    }
    first_where_is(now, name, place);
}

proof fn distinct_without(filters: Seq<FilterView>, gap: int)
    requires
        distinct_filters(filters),
        0 <= gap < filters.len(),
    ensures
        distinct_filters(filters.remove(gap)),
{
    let left = filters.remove(gap);
    assert forall|i: int, j: int| 0 <= i < j < left.len() implies !text::same_folded(
        (#[trigger] left[i]).name,
        (#[trigger] left[j]).name,
    ) by {
        let a = if i < gap {
            i
        } else {
            i + 1
        };
        let b = if j < gap {
            j
        } else {
            j + 1
        };
        assert(left[i] == filters[a] && left[j] == filters[b]);
    }
}

/// The registrations of a program are these two and no others.
pub open spec fn only_two(machine: MachineView, first: RegistrationView, second: RegistrationView) -> bool {
    forall|i: int|
        0 <= i < machine.entries.len() && #[trigger] participates(machine.entries[i], first) ==> Some(i)
            == entry_at(machine.entries, first.id) || Some(i) == entry_at(
            machine.entries,
            second.id,
        )
}

proof fn second_remains(machine: MachineView, first: RegistrationView, second: RegistrationView)
    requires
        first.id != second.id,
        base_key(first) == base_key(second),
        in_force(machine, first),
        in_force(machine, second),
        only_two(machine, first, second),
        others_remain(machine.entries, first),
        verified(without_registration(machine, first), second) is Ok,
    ensures
        in_force(without_registration(machine, first), second),
        !others_remain(without_registration(machine, first).entries, second),
{
    let entries = machine.entries;
    let one = without_registration(machine, first);
    let now = one.entries;
    let filters = machine.parent->0.filters;
    rewritten_entry(machine, first, Phase::Removed);
    entry_untouched(machine, first, second, Phase::Removed);
    first_where_found(filters, own(first.id));
    distinct_without(filters, first_where(filters, own(first.id))->0);
    assert(in_force(one, second));
    first_where_found(entries, entry_named(first.id.text()));
    first_where_found(entries, entry_named(second.id.text()));
    let at = entry_at(entries, first.id)->0;
    let place = entry_at(entries, second.id)->0;
    assert forall|i: int| 0 <= i < now.len() && #[trigger] participates(now[i], second) implies
        now[i].journal->0.record.id == second.id by {
        if i != at {
            assert(now[i] == entries[i]);
            assert(participates(entries[i], first));
            assert(i == place);
        }
    }
}

/// With two registrations of a program in force, the only ones of it, and no filters but theirs unless the
/// program's setting was on before: the removal of the one succeeds, leaves the setting on and the other in force;
/// the removal of the other succeeds then, and puts the setting back as it was before both.
pub proof fn the_setting_comes_back_with_the_last(
    machine: MachineView,
    first: RegistrationView,
    second: RegistrationView,
)
    requires
        first.id != second.id,
        base_key(first) == base_key(second),
        in_force(machine, first),
        in_force(machine, second),
        only_two(machine, first, second),
        machine.parent->0.filters.len() == 2 || backup_of(machine, first)->Ok_0 == Some(
            dword_view(1),
        ),
    ensures
        ({
            let one = remove_run(machine, first, undisturbed_run());
            let both = remove_run(one.machine, second, undisturbed_run());
            &&& one.result is Ok
            &&& one.machine.parent->0.use_filter == Some(dword_view(1))
            &&& verified(one.machine, second) is Ok
            &&& both.result is Ok
            &&& Ok::<Option<ValueView>, Error>(both.machine.parent->0.use_filter) == backup_of(
                machine,
                first,
            )
        }),
{
    keeper_participates(machine, first, second);
    removal_succeeds(machine, first);
    others_stay_in_force(machine, first, second, undisturbed_run());
    second_remains(machine, first, second);
    let one = without_registration(machine, first);
    let filters = machine.parent->0.filters;
    first_where_found(filters, own(first.id));
    assert(one.parent->0.filters.len() == filters.len() - 1);
    removal_succeeds(one, second);
}

} // verus!
