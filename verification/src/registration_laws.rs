//! What registrations may name, when they are in force, and what stands in their way, in terms of what is recorded and
//! found.
use vstd::prelude::*;
use vstd::string::*;
use crate::creation_guard::{FilterSeen, KeySeen, creation_verdict, filter_verdict, filters_verdict, key_verdict};
use crate::error::{Error, Result, invalid};
use crate::ids::Uuid;
use crate::ifeo_entry::entry_verdict;
use crate::ifeo_journal::{Beginning, EntryView, FilterView, MachineView, ParentView, Phase, admissible, backup_of, beginning, collides, collision, entries_validity, entry_at, entry_validity, foreign, foreign_filter, foreign_filters, journal_of, others_remain, parent_of, read_of, removable, restorable, touched, undisturbed, verified};
use crate::ifeo_registry::{ValueView, dword_view, string_view};
use crate::ifeo_rules::{EntryPath, RegistrationView, dos, registration_validity, still_registered};
use crate::installation::{FileSeen, Package, ResolvedApplication, executable, one_installation, resolution, unchanged};
use crate::model::{ApplicationLocator, FileIdentity, ProcessView};
use crate::path;
use crate::seqs::first_where;
use crate::text;

verus! {

/// A text that ends in `.exe`, in any case, with something before it.
pub open spec fn ends_in_exe(name: Seq<char>) -> bool {
    name.len() > 4 && text::same_folded(name.skip(name.len() - 4), ".exe"@)
}

/// A path that a registration may name lies on a local drive, has no step upwards, ends in an executable, and holds
/// nothing that a command line or the registry would take for something else. Its DOS form is the path without
/// `\\?\`, with backslashes alone.
pub proof fn registered_paths_are_unambiguous(path: Seq<char>, i: int)
    requires
        dos(path) is Ok,
    ensures
        ({
            let form = dos(path)->Ok_0;
            let bare = if r"\\?\"@.is_prefix_of(path) {
                path.skip(4)
            } else {
                path
            };
            &&& form.len() == bare.len() && (0 <= i < form.len() ==> form[i] == if bare[i] == '/' {
                '\\'
            } else {
                bare[i]
            })
            &&& path::prefix(path) == path::Prefix::Disk || path::prefix(path) == path::Prefix::VerbatimDisk
            &&& path::rooted(path)
            &&& path::last_component(path) matches Some(name) && ends_in_exe(name)
            &&& !bare.contains('"') && !bare.contains('%') && !bare.contains('\0')
            &&& 0 <= i < path::parts(path).len() ==> path::parts(path)[i] != seq!['.', '.']
            &&& 0 <= i < path::pieces(bare, true).len() && path::pieces(bare, true)[i].len() > 0 ==> path::pieces(
                bare,
                true,
            )[i].last() != '.' && path::pieces(bare, true)[i].last() != ' '
        }),
{
    reveal_strlit(".exe");
    assert(text::folded(".exe"@) =~= ".exe"@);
    if 0 <= i < path::parts(path).len() {
        assert(!crate::ifeo_rules::detour(path::parts(path)[i], path::verbatim(path::prefix(path))));
    }
    let bare = crate::ifeo_rules::plain(path);
    if 0 <= i < path::pieces(bare, true).len() {
        assert(!crate::ifeo_rules::loose_end(path::pieces(bare, true)[i]));
    }
}

/// A registration may be recorded only if everything that it names is real: its own identifier, those of store,
/// application, instance and deployment, an owner, a target, and a host of the one name that hosts have.
pub proof fn registrations_name_real_things(record: RegistrationView)
    ensures
        registration_validity(record) is Ok <==> record.format == "app-proxy-rust-ifeo-v1"@ && record.id.bits != 0
            && record.store_id.bits != 0 && record.application_id.bits != 0 && record.instance_id.bits != 0
            && record.deployment_generation.bits != 0 && record.owner_sid.len() > 0 && dos(record.target) is Ok && dos(
            record.host,
        ) is Ok && (path::last_component(record.host) matches Some(name) && text::same_folded(
            name,
            "app-proxy-host.exe"@,
        )),
{
}

/// An entry acts for a registration only if it was started for that registration, by its owner, from its host, which
/// is the very file that runs, and for its target.
pub proof fn entries_act_for_their_own_registration(
    registration: Uuid,
    record: RegistrationView,
    current: ProcessView,
    host: EntryPath,
    target: EntryPath,
    image: EntryPath,
)
    ensures
        entry_verdict(registration, record, current, host, target, image) is Ok <==> registration == record.id
            && current.user_sid == record.owner_sid && current.image_file == record.host_image && host.key@
            == record.host_key && image.key@ == record.host_key && target.key@ == record.target_key && dos(host.path@)
            is Ok && dos(image.path@) is Ok && dos(target.path@) is Ok,
        registration != record.id || current.user_sid != record.owner_sid ==> entry_verdict(
            registration,
            record,
            current,
            host,
            target,
            image,
        ) == invalid::<()>("IFEO_OWNER_MISMATCH"),
{
}

/// A registration stays usable only while its host lies where it was and both files are the very ones that were
/// registered.
pub proof fn registered_files_stay(
    record: RegistrationView,
    host: Seq<char>,
    host_image: FileIdentity,
    target: FileIdentity,
)
    ensures
        still_registered(record, host, host_image, target) is Ok <==> host == record.host
            && host_image.volume_serial == record.host_image.volume_serial && host_image.file_index
            == record.host_image.file_index && target.volume_serial == record.target_image.volume_serial
            && target.file_index == record.target_image.file_index,
        host != record.host || host_image != record.host_image ==> still_registered(record, host, host_image, target)
            == invalid::<()>("IFEO_HOST_CHANGED"),
{
}

/// An application is found only as what was asked for: a packaged one only in a package of the family and with the
/// application that it names, and either only as a plain file at an absolute path to an executable.
pub proof fn applications_are_found_as_recorded(
    locator: ApplicationLocator,
    query: Result<Package>,
    file: Result<FileSeen>,
)
    ensures
        resolution(locator, query, file) matches Ok(found) ==> {
            &&& file matches Ok(seen) && seen.regular && executable(seen.path@)
            &&& match locator {
                ApplicationLocator::Exe { path } => found is None && executable(path@),
                ApplicationLocator::Msix { family_name, app_id } => query matches Ok(package) && found == Some(package)
                    && text::same_folded(package.family_name@, family_name@) && text::same_folded(
                    package.app_id@,
                    app_id@,
                ) && package.full_name@.len() > 0 && executable(package.exe@),
            }
        },
        forall|path: Seq<char>|
            #[trigger] executable(path) <==> path::absolute(path) && !path::goes_up(path) && !path.contains('\0') && (
            path::last_component(path) matches Some(name) && ends_in_exe(name)),
{
    reveal_strlit(".exe");
    assert(text::folded(".exe"@) =~= ".exe"@);
}

/// Two programs are of one installation if they are the same application of the same package family, whatever the
/// case of the names, or, where one is not packaged, the same file. A resolved program has changed if its package has
/// another full name, or its file or its path is another.
pub proof fn installations_are_told_apart(a: ResolvedApplication, b: ResolvedApplication)
    ensures
        one_installation(a, b) <==> match (a.package, b.package) {
            (Some(p), Some(q)) => text::same_folded(p.family_name@, q.family_name@) && text::same_folded(
                p.app_id@,
                q.app_id@,
            ),
            _ => a.image.volume_serial == b.image.volume_serial && a.image.file_index == b.image.file_index,
        },
        unchanged(a, b) is Ok <==> a.image == b.image && a.executable@ == b.executable@ && match (a.package, b.package) {
            (Some(p), Some(q)) => p.full_name@ == q.full_name@,
            (None, None) => true,
            _ => false,
        },
        a.package is Some != b.package is Some ==> unchanged(a, b) == invalid::<()>("PACKAGE_CHANGED"),
{
}

/// A program is started plainly only if neither registry has a debugger for it: its key is missing, or can be read
/// and has none, and so has every filter in it, of which there are fewer than the limit.
pub proof fn plain_starts_have_no_debugger(executable: Seq<char>, native: KeySeen, emulated: KeySeen)
    ensures
        creation_verdict(executable, native, emulated) is Ok <==> path::last_component(executable) is Some
            && without_debugger(native) && without_debugger(emulated),
{
    key_is(native);
    key_is(emulated);
}

/// Nothing under a key starts a debugger.
pub open spec fn without_debugger(key: KeySeen) -> bool {
    key.opened == 2 || (key.opened == 0 && key.debugger == 2 && key.filters@.len() < 512 && forall|i: int|
        0 <= i < key.filters@.len() ==> (#[trigger] key.filters@[i]).listed == 0 && text::is_utf16(
            key.filters@[i].name@,
        ) && key.filters@[i].opened == 0 && key.filters@[i].debugger == 2)
}

proof fn filters_are(filters: Seq<FilterSeen>, i: int)
    requires
        0 <= i,
    ensures
        i <= filters.len() && i <= 512 ==> (filters_verdict(filters, i) is Ok <==> filters.len() < 512 && forall|k: int|
            i <= k < filters.len() ==> (#[trigger] filters[k]).listed == 0 && text::is_utf16(filters[k].name@)
                && filters[k].opened == 0 && filters[k].debugger == 2),
    decreases 512 - i,
{
    if i < 512 && i < filters.len() {
        filters_are(filters, i + 1);
        if filter_verdict(filters[i]) is Ok && filters_verdict(filters, i + 1) is Ok {
            assert forall|k: int| i <= k < filters.len() implies (#[trigger] filters[k]).listed == 0 && text::is_utf16(
                filters[k].name@,
            ) && filters[k].opened == 0 && filters[k].debugger == 2 by {
                if k == i {
                    assert(filter_verdict(filters[k]) is Ok);
                }
            }
        }
    }
}

proof fn key_is(key: KeySeen)
    ensures
        key_verdict(key) is Ok <==> without_debugger(key),
{
    filters_are(key.filters@, 0);
}

/// A registration is in force only if the program has no debugger of its own, its filters are on, and the
/// registration's own filter holds its three values and nothing else: the registration's identifier, the target's path,
/// and the command that starts the host for it.
pub proof fn registrations_in_force_are_exact(machine: MachineView, record: RegistrationView)
    requires
        verified(machine, record) is Ok,
    ensures
        machine.root && machine.root_fault is None,
        machine.parent matches Some(parent) && {
            &&& parent.fault is None && parent.debugger is None && parent.use_filter == Some(dword_view(1))
            &&& exists|at: int|
                0 <= at < parent.filters.len() && text::same_folded(
                    (#[trigger] parent.filters[at]).name,
                    "AppProxyRust-"@ + record.id.text(),
                ) && parent.filters[at].fault is None && parent.filters[at].extra == 0 && parent.filters[at].children == 0
                    && parent.filters[at].owner == Some(string_view(record.id.text())) && parent.filters[at].path == Some(
                    string_view(dos(record.target)->Ok_0),
                ) && parent.filters[at].debugger == Some(
                    string_view(
                        "\""@ + dos(record.host)->Ok_0 + "\" ifeo-entry --registration "@ + record.id.text() + " --"@,
                    ),
                )
            &&& forall|i: int|
                0 <= i < parent.filters.len() && !text::same_folded(
                    (#[trigger] parent.filters[i]).name,
                    "AppProxyRust-"@ + record.id.text(),
                ) ==> parent.filters[i].path_key != record.target_key && parent.filters[i].path is Some
        },
{
    let parent = machine.parent->0;
    crate::seqs::first_where_found(parent.filters, crate::ifeo_journal::own(record.id));
    let at = first_where(parent.filters, crate::ifeo_journal::own(record.id))->0;
    assert(text::same_folded(parent.filters[at].name, "AppProxyRust-"@ + record.id.text()));
    assert forall|i: int|
        0 <= i < parent.filters.len() && !text::same_folded(
            (#[trigger] parent.filters[i]).name,
            "AppProxyRust-"@ + record.id.text(),
        ) implies parent.filters[i].path_key != record.target_key && parent.filters[i].path is Some by {
        each_foreign(parent.filters, record, Some(dword_view(1)), 0, i);
    }
}

proof fn each_foreign(
    filters: Seq<FilterView>,
    record: RegistrationView,
    setting: Option<ValueView>,
    from: int,
    i: int,
)
    requires
        0 <= from <= i < filters.len(),
        foreign_filters(filters, record, setting, from) is Ok,
    ensures
        foreign_filter(filters[i], record, setting) is Ok,
    decreases i - from,
{
    if from < i {
        each_foreign(filters, record, setting, from + 1, i);
    }
}

/// Another program's debugger, or a filter of someone else while the program's filters are off, without a path, or for
/// the same target, stands in the way of a registration.
pub proof fn others_settings_are_respected(
    parent: ParentView,
    record: RegistrationView,
    setting: Option<ValueView>,
    i: int,
)
    requires
        0 <= i < parent.filters.len(),
        !text::same_folded(parent.filters[i].name, "AppProxyRust-"@ + record.id.text()),
        foreign(parent, record, setting) is Ok,
    ensures
        parent.debugger is None,
        setting == Some(dword_view(1)),
        parent.filters[i].path is Some,
        parent.filters[i].path_key != record.target_key,
{
    each_foreign(parent.filters, record, setting, 0, i);
}

/// A target that is registered and not removed is not registered a second time, neither by its file nor by its path.
pub proof fn targets_are_registered_once(machine: MachineView, record: RegistrationView, i: int)
    requires
        0 <= i < machine.entries.len(),
        machine.entries[i].journal matches Some(journal) && journal.phase != Phase::Removed && journal.record.id
            != record.id && (journal.record.target_image == record.target_image || journal.record.target_key
            == record.target_key),
    ensures
        match beginning(machine, record) {
            Ok(Beginning::Proceed { .. }) => false,
            _ => true,
        },
        admissible(machine, record) matches Ok(Some(_)) ==> beginning(machine, record) == invalid::<Beginning>(
            "IFEO_OWNER_CONFLICT",
        ),
{
    assert(collides(machine.entries[i], record));
}

/// An installation begins only for a sound registration in a sound journal that has room. Under an identifier that is
/// taken, the registration must be the recorded one; one that was being removed or is removed never comes back.
pub proof fn identifiers_are_registered_once(machine: MachineView, record: RegistrationView, at: int)
    requires
        entry_at(machine.entries, record.id) == Some(at),
        admissible(machine, record) is Ok,
    ensures
        registration_validity(record) is Ok,
        machine.index_fault is None,
        machine.entries[at].journal matches Some(journal) && journal.record == record && (journal.phase
            == Phase::Active || journal.phase == Phase::Installing),
        admissible(machine, record) == Ok::<Option<bool>, Error>(
            if machine.entries[at].journal->0.phase == Phase::Active {
                None
            } else {
                Some(false)
            },
        ),
{
    crate::seqs::first_where_found(machine.entries, crate::ifeo_journal::entry_named(record.id.text()));
    each_valid(machine.entries, 0, at);
}

proof fn each_valid(entries: Seq<EntryView>, from: int, i: int)
    requires
        0 <= from <= i < entries.len(),
        crate::ifeo_journal::entries_validity(entries, from) is Ok,
    ensures
        entry_validity(entries[i]) is Ok,
    decreases i - from,
{
    if from < i {
        each_valid(entries, from + 1, i);
    }
}

/// A registration is read only while it is in force; a removed one is not registered, one under way is told to be
/// incomplete. What is read lies under its own identifier.
pub proof fn registrations_are_read_while_in_force(machine: MachineView, id: Uuid)
    ensures
        read_of(machine, id) matches Ok(record) ==> record.id.text() == id.text() && registration_validity(record) is Ok && (
        journal_of(machine, id) matches Ok(journal) && journal.phase == Phase::Active && journal.record == record),
        journal_of(machine, id) matches Ok(journal) && journal.phase == Phase::Removed ==> read_of(machine, id)
            == invalid::<RegistrationView>("IFEO_NOT_REGISTERED"),
        journal_of(machine, id) matches Ok(journal) && (journal.phase == Phase::Installing || journal.phase
            == Phase::Removing) ==> read_of(machine, id) == invalid::<RegistrationView>("IFEO_OPERATION_INCOMPLETE"),
{
    crate::seqs::first_where_found(machine.entries, crate::ifeo_journal::entry_named(id.text()));
}

/// A removal touches only what its registration wrote: it begins only for the recorded registration, with no debugger
/// of the program itself, with a saved setting, with the program's filters on (or as they were, if the registration
/// was not complete), and with a filter that is the registration's own.
pub proof fn removals_touch_their_own(machine: MachineView, record: RegistrationView)
    ensures
        removable(machine, record) matches Ok(Some(original)) ==> {
            &&& journal_of(machine, record.id) matches Ok(journal) && journal.record == record && journal.phase
                != Phase::Removed && {
                &&& machine.parent matches Some(parent) && parent.debugger is None && (parent.use_filter == Some(
                    dword_view(1),
                ) || (journal.phase != Phase::Active && parent.use_filter == original))
            }
            &&& backup_of(machine, record) == Ok::<Option<ValueView>, Error>(original)
            &&& original is None || original == Some(dword_view(0)) || original == Some(dword_view(1))
        },
        removable(machine, record) == Ok::<Option<Option<ValueView>>, Error>(None) ==> (journal_of(
            machine,
            record.id,
        ) matches Ok(journal) && journal.record == record && journal.phase == Phase::Removed),
{
}

/// Where the setting of a program was changed by someone else in the meantime the work stops, and so it does where a
/// foreign filter or debugger has come.
pub proof fn changed_settings_stop_the_work(machine: MachineView, record: RegistrationView, original: Option<ValueView>)
    ensures
        parent_of(machine) matches Ok(parent) && parent.use_filter != original && parent.use_filter != Some(dword_view(1))
            ==> undisturbed(machine, record, original) == invalid::<()>("IFEO_PARENT_CHANGED"),
        undisturbed(machine, record, original) is Ok ==> (parent_of(machine) matches Ok(parent) && parent.debugger is None
            && (parent.use_filter == original || parent.use_filter == Some(dword_view(1))) && foreign(
            parent,
            record,
            parent.use_filter,
        ) is Ok),
        parent_of(machine) matches Ok(parent) && parent.debugger is Some ==> undisturbed(machine, record, original) is Err,
{
}

/// The setting is put back when the last registration goes, if it is still the one that was made, and not while others
/// remain.
pub proof fn settings_are_put_back_by_the_last(machine: MachineView, record: RegistrationView, original: Option<ValueView>)
    requires
        parent_of(machine) is Ok,
        entries_validity(machine.entries, 0) is Ok,
    ensures
        ({
            let parent = parent_of(machine)->Ok_0;
            let due = restorable(machine, record, original);
            &&& others_remain(machine.entries, record) ==> due == Ok::<bool, Error>(false)
            &&& due == Ok::<bool, Error>(true) ==> !others_remain(machine.entries, record) && parent.use_filter == Some(
                dword_view(1),
            ) && original != Some(dword_view(1)) && parent.filters.len() == 0
            &&& !others_remain(machine.entries, record) && parent.filters.len() == 0 && parent.use_filter == Some(
                dword_view(1),
            ) && original != Some(dword_view(1)) ==> due == Ok::<bool, Error>(true)
            &&& !others_remain(machine.entries, record) && parent.filters.len() == 0 && parent.use_filter != original
                && parent.use_filter != Some(dword_view(1)) ==> due == invalid::<bool>("IFEO_PARENT_CHANGED")
            &&& !others_remain(machine.entries, record) && parent.filters.len() > 0 && original != Some(dword_view(1))
                ==> due == invalid::<bool>("IFEO_FOREIGN_FILTERS_ADDED")
        }),
{
}

/// Beginning a registration makes the keys that it needs and changes nothing that is there.
pub proof fn beginnings_make_keys_alone(machine: MachineView, record: RegistrationView)
    ensures
        ({
            let after = touched(machine, record);
            &&& after == (MachineView { index: after.index, parent: after.parent, ..machine })
            &&& machine.parent is Some ==> after.parent == machine.parent
            &&& registration_validity(record) is Err ==> after == machine
            &&& machine.index_fault is Some ==> after == machine
            &&& !machine.root || collision(machine.entries, record) ==> after.parent == machine.parent
        }),
{
}

} // verus!
