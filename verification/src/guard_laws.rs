//! Who may do what to the guard's files, keys and tasks, and what is installed and run, in terms of what is found.
use vstd::prelude::*;
use vstd::string::*;
use crate::error::{Error, Result};
use crate::guard_install::{AuthorizeStep, ListenerSeen, Ticket, authorization, install_result, ticket_sound};
use crate::guard_task::{Definition, RegisterStep, Spec, account_is, definition_fits, definition_verdict, deletion_due, event_arguments, event_name, event_scope, registration_due, session_to_run_in, task_verdict_of};
use crate::ids::Uuid;
use crate::model::FileIdentity;
use crate::security::{Ace, Descriptor, guard_ace, guard_aces, guard_verdict, login_ace, login_aces, login_verdict, object_verdict, system_ace, system_aces, system_verdict, task_ace, task_aces, task_verdict, user_verdict};

verus! {

/// The entries of an access list allow, and concern different accounts.
pub open spec fn allow_each_once(aces: Seq<Ace>) -> bool {
    &&& forall|i: int| 0 <= i < aces.len() ==> (#[trigger] aces[i]).kind == 0
    &&& forall|i: int, j: int| 0 <= i < j < aces.len() ==> (#[trigger] aces[i]).sid@ != (#[trigger] aces[j]).sid@
}

proof fn guard_entries(aces: Seq<Ace>, directory: bool, i: int)
    requires
        0 <= i <= aces.len(),
    ensures
        guard_aces(aces, i, directory) is Ok <==> forall|k: int|
            i <= k < aces.len() ==> (#[trigger] guard_ace(aces, k, directory)) is Ok,
    decreases aces.len() - i,
{
    if i < aces.len() {
        guard_entries(aces, directory, i + 1);
        if guard_ace(aces, i, directory) is Ok && guard_aces(aces, i + 1, directory) is Ok {
            assert forall|k: int| i <= k < aces.len() implies (#[trigger] guard_ace(aces, k, directory)) is Ok by {
                if k > i {
                    assert(guard_ace(aces, k, directory) is Ok);
                }
            }
        }
    }
}

/// A guarded file or directory belongs to the administrators and inherits nothing. Its three entries give everything
/// to the administrators and the system, reading and running to the users, and nothing to anyone else; those of a
/// directory hold for all that lies in it.
pub proof fn guarded_objects_belong_to_administrators(descriptor: Descriptor, directory: bool)
    requires
        guard_verdict(descriptor, directory) is Ok,
    ensures
        descriptor.owner matches Some(owner) && owner@ == "S-1-5-32-544"@,
        descriptor.protected,
        descriptor.dacl matches Some(list) && list@.len() == 3 && allow_each_once(list@) && forall|i: int|
            0 <= i < 3 ==> {
                let ace = #[trigger] list@[i];
                &&& ace.sid@ == "S-1-5-32-544"@ || ace.sid@ == "S-1-5-18"@ || ace.sid@ == "S-1-5-32-545"@
                &&& ace.mask == if ace.sid@ == "S-1-5-32-545"@ {
                    0x1200a9u32
                } else {
                    0x1f01ffu32
                }
                &&& ace.flags & 4 == 0 && ace.flags & 8 == 0
                &&& directory ==> ace.flags & 1 == 1 && ace.flags & 2 == 2
            },
{
    let aces = descriptor.dacl->0@;
    guard_entries(aces, directory, 0);
    reveal_strlit("S-1-5-32-544");
    reveal_strlit("S-1-5-18");
    reveal_strlit("S-1-5-32-545");
    assert("S-1-5-32-544"@[11] == '4' && "S-1-5-32-545"@[11] == '5');
    assert forall|i: int| 0 <= i < 3 implies ({
        let ace = #[trigger] aces[i];
        &&& ace.sid@ == "S-1-5-32-544"@ || ace.sid@ == "S-1-5-18"@ || ace.sid@ == "S-1-5-32-545"@
        &&& ace.mask == if ace.sid@ == "S-1-5-32-545"@ {
            0x1200a9u32
        } else {
            0x1f01ffu32
        }
        &&& ace.flags & 4 == 0 && ace.flags & 8 == 0
        &&& directory ==> ace.flags & 1 == 1 && ace.flags & 2 == 2
    }) by {
        assert(guard_ace(aces, i, directory) is Ok);
        let f = aces[i].flags;
        assert(f & 12 == 0 ==> f & 4 == 0 && f & 8 == 0) by (bit_vector);
        assert(f & 3 == 3 ==> f & 1 == 1 && f & 2 == 2) by (bit_vector);
    }
    assert forall|i: int| 0 <= i < aces.len() implies (#[trigger] aces[i]).kind == 0 by {
        assert(guard_ace(aces, i, directory) is Ok);
    }
    assert forall|i: int, j: int| 0 <= i < j < aces.len() implies (#[trigger] aces[i]).sid@ != (
    #[trigger] aces[j]).sid@ by {
        assert(guard_ace(aces, j, directory) is Ok);
    }
}

proof fn task_entries(aces: Seq<Ace>, sid: Seq<char>, i: int)
    requires
        0 <= i <= aces.len(),
        task_aces(aces, i, sid) is Ok,
    ensures
        forall|k: int| i <= k < aces.len() ==> (#[trigger] task_ace(aces, k, sid)) is Ok,
    decreases aces.len() - i,
{
    if i < aces.len() {
        task_entries(aces, sid, i + 1);
    }
}

proof fn login_entries(aces: Seq<Ace>, sid: Seq<char>, i: int)
    requires
        0 <= i <= aces.len(),
        login_aces(aces, i, sid) is Ok,
    ensures
        forall|k: int| i <= k < aces.len() ==> (#[trigger] login_ace(aces, k, sid)) is Ok,
    decreases aces.len() - i,
{
    if i < aces.len() {
        login_entries(aces, sid, i + 1);
    }
}

/// An elevated task belongs to the administrators; its user may read and run it and no more, and nobody else appears.
/// A login task belongs to its user, who may do everything to it, as may the administrators and the system, and nobody
/// else.
pub proof fn tasks_belong_to_their_role(length: nat, descriptor: Descriptor, sid: Seq<char>)
    ensures
        task_verdict(length, descriptor, sid) is Ok ==> length <= 65536 && descriptor.protected && (
        descriptor.owner matches Some(owner) && owner@ == "S-1-5-32-544"@) && (descriptor.dacl matches Some(list)
            && list@.len() == 3 && allow_each_once(list@) && forall|i: int|
            0 <= i < 3 ==> {
                let ace = #[trigger] list@[i];
                ace.flags == 0 && if ace.sid@ == "S-1-5-32-544"@ || ace.sid@ == "S-1-5-18"@ {
                    ace.mask == 0x1f01ff
                } else {
                    ace.sid@ == sid && (ace.mask == 0xa000_0000 || ace.mask == 0x1200a9)
                }
            }),
        login_verdict(length, descriptor, sid) is Ok ==> length <= 65536 && descriptor.protected && (
        descriptor.owner matches Some(owner) && owner@ == sid) && (descriptor.dacl matches Some(list) && list@.len() == 3
            && allow_each_once(list@) && forall|i: int|
            0 <= i < 3 ==> {
                let ace = #[trigger] list@[i];
                ace.flags == 0 && ace.mask == 0x1f01ff && (ace.sid@ == "S-1-5-32-544"@ || ace.sid@ == "S-1-5-18"@
                    || ace.sid@ == sid)
            }),
{
    if task_verdict(length, descriptor, sid) is Ok {
        let aces = descriptor.dacl->0@;
        task_entries(aces, sid, 0);
        assert forall|i: int| 0 <= i < 3 implies ({
            let ace = #[trigger] aces[i];
            ace.flags == 0 && if ace.sid@ == "S-1-5-32-544"@ || ace.sid@ == "S-1-5-18"@ {
                ace.mask == 0x1f01ff
            } else {
                ace.sid@ == sid && (ace.mask == 0xa000_0000 || ace.mask == 0x1200a9)
            }
        }) by {
            assert(task_ace(aces, i, sid) is Ok);
        }
        assert forall|i: int| 0 <= i < aces.len() implies (#[trigger] aces[i]).kind == 0 by {
            assert(task_ace(aces, i, sid) is Ok);
        }
        assert forall|i: int, j: int| 0 <= i < j < aces.len() implies (#[trigger] aces[i]).sid@ != (
        #[trigger] aces[j]).sid@ by {
            assert(task_ace(aces, j, sid) is Ok);
        }
    }
    if login_verdict(length, descriptor, sid) is Ok {
        let aces = descriptor.dacl->0@;
        login_entries(aces, sid, 0);
        assert forall|i: int| 0 <= i < 3 implies ({
            let ace = #[trigger] aces[i];
            ace.flags == 0 && ace.mask == 0x1f01ff && (ace.sid@ == "S-1-5-32-544"@ || ace.sid@ == "S-1-5-18"@
                || ace.sid@ == sid)
        }) by {
            assert(login_ace(aces, i, sid) is Ok);
        }
        assert forall|i: int| 0 <= i < aces.len() implies (#[trigger] aces[i]).kind == 0 by {
            assert(login_ace(aces, i, sid) is Ok);
        }
        assert forall|i: int, j: int| 0 <= i < j < aces.len() implies (#[trigger] aces[i]).sid@ != (
        #[trigger] aces[j]).sid@ by {
            assert(login_ace(aces, j, sid) is Ok);
        }
    }
}

/// A system key is accepted only if the administrators, the system or its installer own it, and nobody else is given a
/// right that changes it here: the rights to set values, make subkeys, delete, or change its security. Only the
/// placeholder for an object's creator may appear besides.
pub proof fn system_keys_are_changed_by_the_system_alone(descriptor: Descriptor, i: int)
    requires
        system_verdict(descriptor) is Ok,
        0 <= i < descriptor.dacl->0@.len(),
    ensures
        descriptor.owner matches Some(owner) && (owner@ == "S-1-5-32-544"@ || owner@ == "S-1-5-18"@ || owner@
            == "S-1-5-80-956008885-3418522649-1831038044-1853292631-2271478464"@),
        ({
            let ace = descriptor.dacl->0@[i];
            &&& ace.kind == 0 || ace.kind == 1
            &&& ace.kind == 0 && ace.flags & 8 == 0 && (ace.mask & 0x2 != 0 || ace.mask & 0x4 != 0 || ace.mask & 0x20 != 0
                || ace.mask & 0x10000 != 0 || ace.mask & 0x40000 != 0 || ace.mask & 0x80000 != 0 || ace.mask
                & 0x1000_0000 != 0 || ace.mask & 0x4000_0000 != 0) ==> ace.sid@ == "S-1-5-32-544"@ || ace.sid@
                == "S-1-5-18"@ || ace.sid@ == "S-1-5-80-956008885-3418522649-1831038044-1853292631-2271478464"@ || ace.sid@
                == "S-1-3-0"@
        }),
{
    accepted(descriptor.dacl->0@, 0, i);
    let m = descriptor.dacl->0@[i].mask;
    assert(m & 0x2 != 0 || m & 0x4 != 0 || m & 0x20 != 0 || m & 0x10000 != 0 || m & 0x40000 != 0 || m & 0x80000 != 0 || m
        & 0x1000_0000 != 0 || m & 0x4000_0000 != 0 ==> m & 0x500d_0026 != 0) by (bit_vector);
}

proof fn accepted(aces: Seq<Ace>, from: int, i: int)
    requires
        0 <= from <= i < aces.len(),
        system_aces(aces, from) is Ok,
    ensures
        system_ace(aces[i]) is Ok,
    decreases i - from,
{
    if from < i {
        accepted(aces, from + 1, i);
    }
}

/// What is opened as a file is a file with one name, what is opened as a directory is one, and neither is a link.
pub proof fn opened_objects_are_of_their_kind(attributes: u32, links: u32, directory: bool)
    ensures
        object_verdict(attributes, links, directory) is Ok <==> attributes & 0x400 == 0 && if directory {
            attributes & 0x10 != 0
        } else {
            attributes & 0x10 == 0 && links == 1
        },
{
}

/// An account is the expected user if it is named by that user's identifier, or is a user account that resolves to it.
pub proof fn accounts_are_users(account: Seq<char>, expected: Seq<char>, resolved: Result<(bool, String)>)
    ensures
        user_verdict(account, expected, resolved) == Ok::<bool, Error>(true) <==> account == expected || (
        resolved matches Ok((user, sid)) && user && sid@ == expected),
{
}

/// A task that passes runs one program: the specified one, with the specified arguments, in the specified directory,
/// for the specified user, without a group and without a password; an event task with the highest rights and on no
/// trigger, a login task with ordinary rights at each logon of the user. It runs once at a time, without a limit, and is
/// started on demand.
pub proof fn passing_tasks_run_one_program(task: Definition, spec: Spec)
    requires
        definition_fits(task, spec),
    ensures
        task.actions@.len() == 1 && task.actions@[0].path@ == spec.path@ && task.actions@[0].args@ == spec.args@
            && task.actions@[0].cwd@ == spec.cwd@,
        account_is(task.user, spec.sid@) && task.group@.len() == 0,
        task.principal_id@ == task.context@ && task.uri@ == spec.uri@,
        task.data@ == if spec.login {
            "app-proxy-rust:login-task:v1"@
        } else {
            "app-proxy-rust:event-task:v1"@
        },
        task.logon == 3 && task.level == if spec.login {
            0int
        } else {
            1int
        },
        !spec.login ==> task.triggers@.len() == 0,
        spec.login ==> task.triggers@.len() == 1 && task.triggers@[0].kind == 9 && task.triggers@[0].enabled && account_is(
            task.triggers@[0].user,
            spec.sid@,
        ) && task.triggers@[0].delay@.len() == 0 && task.triggers@[0].start@.len() == 0 && task.triggers@[0].end@.len()
            == 0 && task.triggers@[0].interval@.len() == 0,
        task.instances == 2 && task.restarts == 0 && task.limit@ == "PT0S"@ && task.deletion@.len() == 0,
        task.switches.enabled && task.switches.allow_demand_start && task.switches.hidden
            && !task.switches.start_when_available && !task.switches.wake_to_run
            && !task.switches.allow_hard_terminate && !task.switches.disallow_start_on_batteries
            && !task.switches.stop_on_batteries && !task.switches.run_only_if_idle
            && !task.switches.run_only_if_network_available,
{
}

/// A registered task passes only where its name says, with the security of its role, and with exactly its definition.
/// Only such a task is kept, run or deleted; one that exists otherwise is left alone, and one that runs is not deleted.
pub proof fn other_tasks_are_left_alone(
    path: Seq<char>,
    length: nat,
    security: Descriptor,
    task: Definition,
    spec: Spec,
    existing: Option<Result<()>>,
    instances: i32,
    session: u32,
    current: FileIdentity,
    coordinator: FileIdentity,
)
    ensures
        task_verdict_of(path, length, security, task, spec) is Ok ==> path == "\\"@ + spec.name@ && definition_fits(
            task,
            spec,
        ) && if spec.login {
            login_verdict(length, security, spec.sid@) is Ok
        } else {
            task_verdict(length, security, spec.sid@) is Ok
        },
        registration_due(existing) == Ok::<RegisterStep, Error>(RegisterStep::Create) <==> existing is None,
        registration_due(existing) == Ok::<RegisterStep, Error>(RegisterStep::Keep) <==> (existing matches Some(found)
            && found is Ok),
        deletion_due(existing, instances, spec.login) == Ok::<bool, Error>(true) <==> (existing matches Some(found)
            && found is Ok) && instances == 0,
        deletion_due(existing, instances, spec.login) == Ok::<bool, Error>(false) <==> existing is None,
        session_to_run_in(current, coordinator, existing, session) matches Ok(told) ==> (existing matches Some(found)
            && found is Ok) && told == session && session != 0 && current.volume_serial == coordinator.volume_serial && current.file_index
            == coordinator.file_index,
{
}

/// An event task is made for a real store, user and generation, and an absolute path that the scheduler takes
/// literally; its name tells user and store apart, its arguments name store and generation.
pub proof fn event_tasks_name_store_and_generation(sid: Seq<char>, store: Uuid, generation: Uuid, path: Seq<char>)
    ensures
        event_scope(sid, store, generation, path) is Ok ==> store.bits != 0 && sid.len() > 0 && generation.bits != 0
            && crate::path::absolute(path) && crate::guard_task::literal(path),
        event_arguments(store, generation) == "event-listen --store "@ + store.text() + " --generation "@
            + generation.text(),
        event_name(sid, store) == "AppProxyRust-Event-"@ + crate::digest::text_digest(sid).take(16) + "-"@ + store.text(),
{
}

/// The installer acts on a ticket only if it names a real request, store and issuer, and, where it replaces a
/// generation, a real one.
pub proof fn tickets_name_real_things(ticket: Ticket)
    ensures
        ticket_sound(ticket) <==> ticket.version == 1 && ticket.request.bits != 0 && ticket.store.bits != 0
            && ticket.issuer.pid != 0 && ticket.issuer.creation_time != 0 && ticket.issuer.session_id != 0 && (
        ticket.upgrade_from matches Some(id) ==> id.bits != 0),
{
}

/// A listener needs nothing only if it is of the running release and its task is verified; what is missing is
/// installed, and what is of another release or fails stands in the way. An installation counts only by what is found
/// afterwards, and only once the installer has ended.
pub proof fn installations_count_by_what_is_found(store: Uuid, seen: ListenerSeen, exited: Option<u32>)
    ensures
        authorization(store, seen) matches Ok(AuthorizeStep::Done { generation }) ==> store.bits != 0 && (
        seen matches ListenerSeen::Found { release_matches, generation: found, task } && release_matches && found
            == generation && task is Verified),
        authorization(store, seen) == Ok::<AuthorizeStep, Error>(AuthorizeStep::Elevate) <==> store.bits != 0 && (seen
            is Missing || (seen matches ListenerSeen::Found { release_matches, task, .. } && release_matches && task
            is Missing)),
        install_result(exited, seen) matches Ok(generation) ==> exited is Some && (
        seen matches ListenerSeen::Found { release_matches, generation: found, task } && release_matches && found
            == generation && task is Verified),
        exited is Some && (seen matches ListenerSeen::Found { release_matches, generation, task } && release_matches
            && task is Verified) ==> install_result(exited, seen) is Ok,
{
}

/// The right that a login task gives is full, plain, to the system, to the administrators or to its user, and given
/// once.
pub proof fn login_rights_are_given_once(aces: Seq<Ace>, i: int, sid: Seq<char>)
    ensures
        login_ace(aces, i, sid) is Ok <==> aces[i].kind == 0 && aces[i].flags == 0 && aces[i].mask == 0x1f01ff && (
        aces[i].sid@ == crate::security::system() || aces[i].sid@ == crate::security::admin() || aces[i].sid@ == sid)
            && forall|k: int| 0 <= k < i ==> (#[trigger] aces[k]).sid@ != aces[i].sid@,
{
}

/// A login task is wanted if it has the one trigger, at the logon of its user, and is otherwise as it is made.
pub proof fn login_tasks_have_one_trigger(task: Definition, spec: Spec)
    ensures
        definition_verdict(task, spec) is Ok ==> definition_fits(task, spec),
        definition_verdict(task, spec) is Ok && spec.login ==> task.triggers@.len() == 1 && {
            let trigger = task.triggers@[0];
            &&& trigger.kind == 9 && trigger.id@ == "AppProxyLogon"@ && account_is(trigger.user, spec.sid@)
            &&& trigger.enabled && !trigger.stop_at_end && trigger.limit@ == "PT0S"@
            &&& trigger.delay@.len() == 0 && trigger.start@.len() == 0 && trigger.end@.len() == 0
            &&& trigger.interval@.len() == 0 && trigger.duration@.len() == 0
        },
        !definition_fits(task, spec) ==> definition_verdict(task, spec) is Err,
{
}

} // verus!
