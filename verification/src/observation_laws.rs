//! What is told of the processes of an application and of the directories that its data lies in, in terms of the
//! candidates and the directories that were seen.
use vstd::prelude::*;
use crate::error::{Error, Result, invalid};
use crate::ifeo_rules::on_drive;
use crate::instance_process::{Candidate, DirectorySeen, InstanceObservation, InstanceRelation, InstanceTarget, Member, ProcessRole, ProxyArguments, ProxyValue, SwitchesView, Template, candidates_told, directories, gathered, identity_observation, pinned_observation, proxy_value_of, quick_class, way, way_identity};
use crate::model::{Endpoint, FileIdentity, ProcessIdentity, ProcessView};
use crate::path;
use crate::text;

verus! {

/// What is told of a candidate: every observation is one of a candidate that runs for the caller.
pub proof fn observations_are_of_candidates(
    target: InstanceTarget,
    candidates: Seq<Candidate>,
    caller: ProcessView,
    endpoint: Option<Endpoint>,
    asked: bool,
    n: nat,
    i: int,
)
    requires
        n <= candidates.len(),
        gathered(target, candidates, caller, endpoint, asked, n) is Ok,
        0 <= i < gathered(target, candidates, caller, endpoint, asked, n)->Ok_0.len(),
    ensures
        exists|k: int|
            0 <= k < n && (#[trigger] candidates[k]).expected == gathered(
                target,
                candidates,
                caller,
                endpoint,
                asked,
                n,
            )->Ok_0[i].identity,
    decreases n,
{
    let list = gathered(target, candidates, caller, endpoint, asked, n)->Ok_0;
    let so_far = gathered(target, candidates, caller, endpoint, asked, (n - 1) as nat)->Ok_0;
    if i < so_far.len() {
        observations_are_of_candidates(target, candidates, caller, endpoint, asked, (n - 1) as nat, i);
        let k = choose|k: int| 0 <= k < n - 1 && (#[trigger] candidates[k]).expected == so_far[i].identity;
        assert(candidates[k].expected == list[i].identity);
    } else {
        if asked {
            observed_identity(target, candidates[n - 1], endpoint);
        }
        assert(candidates[n - 1].expected == list[i].identity);
    }
}

proof fn observed_identity(target: InstanceTarget, c: Candidate, endpoint: Option<Endpoint>)
    ensures
        crate::instance_process::asked_observation(target, c.expected, c.line, endpoint) matches Ok(told) ==> told.identity
            == c.expected,
{
}

/// Every candidate is told of: one whose identity decides among those, one that had to be asked among the others.
pub proof fn every_candidate_is_told_of(
    target: InstanceTarget,
    candidates: Seq<Candidate>,
    caller: ProcessView,
    endpoint: Option<Endpoint>,
    asked: bool,
    n: nat,
    k: int,
)
    requires
        n <= candidates.len(),
        gathered(target, candidates, caller, endpoint, asked, n) is Ok,
        0 <= k < n,
        asked <==> candidates[k].expected.image_file == target.application.image && target.template != Template::Environment,
    ensures
        exists|i: int|
            0 <= i < gathered(target, candidates, caller, endpoint, asked, n)->Ok_0.len() && (#[trigger] gathered(
                target,
                candidates,
                caller,
                endpoint,
                asked,
                n,
            )->Ok_0[i]).identity == candidates[k].expected,
    decreases n,
{
    let list = gathered(target, candidates, caller, endpoint, asked, n)->Ok_0;
    let so_far = gathered(target, candidates, caller, endpoint, asked, (n - 1) as nat)->Ok_0;
    if k < n - 1 {
        every_candidate_is_told_of(target, candidates, caller, endpoint, asked, (n - 1) as nat, k);
        let i = choose|i: int| 0 <= i < so_far.len() && (#[trigger] so_far[i]).identity == candidates[k].expected;
        assert(list[i] == so_far[i]);
    } else {
        if asked {
            observed_identity(target, candidates[k], endpoint);
        }
        assert(list.len() == so_far.len() + 1);
        assert(list[so_far.len() as int].identity == candidates[k].expected);
    }
}

/// The candidates are told of where the endpoint, if one is given, is a loopback address with a port, and every one of
/// them could be told of: one that ran in vain, or for another user, spoils the answer.
pub proof fn candidates_are_all_told_of(
    target: InstanceTarget,
    candidates: Seq<Candidate>,
    caller: ProcessView,
    endpoint: Option<Endpoint>,
    r: Result<Vec<InstanceObservation>>,
    k: int,
)
    requires
        candidates_told(target, candidates, caller, endpoint, r),
        r is Ok,
        0 <= k < candidates.len(),
    ensures
        endpoint matches Some(given) ==> given.port != 0 && crate::model::loopback(given.host),
        exists|i: int| 0 <= i < r->Ok_0@.len() && (#[trigger] r->Ok_0@[i]).identity == candidates[k].expected,
{
    let n = candidates.len();
    let asked = candidates[k].expected.image_file == target.application.image && target.template != Template::Environment;
    let decided = gathered(target, candidates, caller, endpoint, false, n)->Ok_0;
    let list = gathered(target, candidates, caller, endpoint, asked, n)->Ok_0;
    every_candidate_is_told_of(target, candidates, caller, endpoint, asked, n, k);
    let i = choose|i: int| 0 <= i < list.len() && (#[trigger] list[i]).identity == candidates[k].expected;
    if asked {
        assert(r->Ok_0@[decided.len() + i] == list[i]);
    } else {
        assert(r->Ok_0@[i] == list[i]);
    }
}

/// A candidate of another user or another session, or one that has ended, is an error where its identity decides.
pub proof fn strangers_spoil_the_answer(
    target: InstanceTarget,
    candidates: Seq<Candidate>,
    caller: ProcessView,
    endpoint: Option<Endpoint>,
    n: nat,
    k: int,
)
    requires
        n <= candidates.len(),
        0 <= k < n,
        candidates[k].expected.image_file != target.application.image || target.template == Template::Environment,
        candidates[k].expected@.user_sid != caller.user_sid || candidates[k].expected@.session_id != caller.session_id || !(
        candidates[k].running matches Ok(runs) && runs),
    ensures
        gathered(target, candidates, caller, endpoint, false, n) is Err,
    decreases n,
{
    if k < n - 1 {
        strangers_spoil_the_answer(target, candidates, caller, endpoint, (n - 1) as nat, k);
    }
}

/// A pinned process is told of if it runs the application's own file and is not an environment; what is told carries the
/// pinned identity, and its proxy is known only of the main process of the instance.
pub proof fn pinned_processes_run_the_application(
    target: InstanceTarget,
    verified: Result<()>,
    process: Member,
    endpoint: Endpoint,
    r: Result<InstanceObservation>,
)
    requires
        pinned_observation(target, verified, process, endpoint, r),
    ensures
        r matches Ok(told) ==> verified is Ok && process.identity.image_file == target.application.image && target.template
            != Template::Environment && endpoint.port != 0 && crate::model::loopback(endpoint.host) && told.identity
            == process.identity && (told.proxy != ProxyArguments::Unknown ==> told.role == ProcessRole::Main && told.relation
            == InstanceRelation::Target),
        verified is Err ==> r is Err,
        verified is Ok && (process.identity.image_file != target.application.image || target.template
            == Template::Environment) ==> r == Err::<InstanceObservation, Error>(Error::IdentityMismatch),
{
}

/// The identity alone decides only of a process of the caller's own, running, that runs another file, or any file of an
/// environment.
pub proof fn identities_decide_of_other_files(
    target: InstanceTarget,
    expected: ProcessIdentity,
    caller: ProcessView,
    running: Result<bool>,
    r: Result<Option<InstanceObservation>>,
)
    requires
        identity_observation(target, expected, caller, running, r),
    ensures
        r is Ok <==> expected@.user_sid == caller.user_sid && expected@.session_id == caller.session_id && (
        running matches Ok(runs) && runs),
        r is Ok ==> (r->Ok_0 is None <==> expected.image_file == target.application.image && target.template
            != Template::Environment),
        r is Ok && r->Ok_0 is Some ==> {
            let told = r->Ok_0->0;
            &&& told.identity == expected && told.proxy == ProxyArguments::Unknown
            &&& expected.image_file == target.application.image ==> told.role == ProcessRole::Main && told.relation
                == InstanceRelation::Target
            &&& expected.image_file != target.application.image ==> told.role == ProcessRole::Unknown && told.relation
                != InstanceRelation::Target
        },
{
}

/// The way to a directory begins at the root of its drive and goes down one name at a time; it never goes up.
pub proof fn ways_go_down(parts: Seq<Seq<char>>, n: int, root: Seq<char>, verbatim: bool, i: int)
    requires
        0 <= n <= parts.len(),
        way(parts, n, root, verbatim) is Ok,
        0 <= i < way(parts, n, root, verbatim)->Ok_0.len(),
    ensures
        way(parts, n, root, verbatim)->Ok_0.len() <= 128,
        i == 0 ==> way(parts, n, root, verbatim)->Ok_0[0] == root,
        i > 0 ==> exists|k: int|
            0 <= k < n && (#[trigger] parts[k]).len() > 0 && parts[k] != seq!['.'] && parts[k] != seq!['.', '.'] && way(
                parts,
                n,
                root,
                verbatim,
            )->Ok_0[i] == path::pushed(way(parts, n, root, verbatim)->Ok_0[i - 1], parts[k]),
    decreases n,
{
    let list = way(parts, n, root, verbatim)->Ok_0;
    if n > 0 {
        let so_far = way(parts, n - 1, root, verbatim)->Ok_0;
        way_begins(parts, n - 1, root, verbatim);
        if i < so_far.len() {
            ways_go_down(parts, n - 1, root, verbatim, i);
            assert(list[i] == so_far[i]);
            if i > 0 {
                assert(list[i - 1] == so_far[i - 1]);
                let k = choose|k: int|
                    0 <= k < n - 1 && (#[trigger] parts[k]).len() > 0 && parts[k] != seq!['.'] && parts[k] != seq!['.', '.']
                        && so_far[i] == path::pushed(so_far[i - 1], parts[k]);
                assert(parts[k].len() > 0);
            }
        } else {
            ways_go_down(parts, n - 1, root, verbatim, 0);
            assert(list[i] == path::pushed(list[i - 1], parts[n - 1]));
        }
    }
}

proof fn way_begins(parts: Seq<Seq<char>>, n: int, root: Seq<char>, verbatim: bool)
    requires
        way(parts, n, root, verbatim) is Ok,
    ensures
        way(parts, n, root, verbatim)->Ok_0.len() > 0,
    decreases n,
{
    if n > 0 {
        way_begins(parts, n - 1, root, verbatim);
    }
}

/// A way that would go up is refused.
pub proof fn ways_up_are_refused(parts: Seq<Seq<char>>, n: int, root: Seq<char>, verbatim: bool, k: int)
    requires
        0 <= k < n <= parts.len(),
        parts[k] == seq!['.', '.'],
    ensures
        way(parts, n, root, verbatim) is Err,
    decreases n,
{
    if k < n - 1 {
        ways_up_are_refused(parts, n - 1, root, verbatim, k);
    } else {
        assert(seq!['.', '.'].len() == 2);
        assert(seq!['.', '.'] != seq!['.']) by {
            assert(seq!['.'].len() == 1);
        }
    }
}

/// Directories are looked at on drives of this machine alone: removable, fixed or in memory.
pub proof fn directories_lie_on_own_drives(path: Seq<char>, drive: u32)
    ensures
        directories(path, drive) is Ok ==> on_drive(path) && (drive == 2 || drive == 3 || drive == 6),
        !(drive == 2 || drive == 3 || drive == 6) ==> directories(path, drive) == invalid::<Seq<Seq<char>>>(
            "INSTANCE_DIRECTORY_UNRESOLVED",
        ),
{
}

/// The directory that a way leads to is the last on it, and only where every directory on the way was opened and is a
/// plain directory.
pub proof fn ways_lead_through_plain_directories(seen: Seq<DirectorySeen>, i: int, k: int)
    requires
        0 <= i <= k < seen.len(),
    ensures
        way_identity(seen, i) matches Ok(identity) ==> identity == seen.last().identity && seen[k].opened == 0
            && seen[k].inspected == 0 && seen[k].attributes & 0x400 == 0 && seen[k].attributes & 0x10 != 0,
    decreases seen.len() - i,
{
    if i + 1 < seen.len() {
        if i < k {
            ways_lead_through_plain_directories(seen, i + 1, k);
        } else {
            ways_lead_through_plain_directories(seen, i + 1, i + 1);
        }
    }
}

/// A way of plain directories that could all be seen leads somewhere.
pub proof fn plain_ways_lead_somewhere(seen: Seq<DirectorySeen>, i: int)
    requires
        0 <= i < seen.len(),
        forall|k: int|
            i <= k < seen.len() ==> (#[trigger] seen[k]).opened == 0 && seen[k].inspected == 0 && seen[k].attributes & 0x400
                == 0 && seen[k].attributes & 0x10 != 0,
    ensures
        way_identity(seen, i) == Ok::<FileIdentity, Error>(seen.last().identity),
    decreases seen.len() - i,
{
    if i + 1 < seen.len() {
        plain_ways_lead_somewhere(seen, i + 1);
    }
}

/// A process that runs another file than the application's is unknown if it runs from the application's path, or bears
/// the name of a packaged application's file, and is another's otherwise.
pub proof fn other_files_are_unknown_or_anothers(target: InstanceTarget, process: ProcessView)
    requires
        process.image_file != target.application.image,
    ensures
        quick_class(target, process) matches Some((role, relation)) && role == ProcessRole::Unknown && (relation
            == InstanceRelation::Unknown || relation == InstanceRelation::Other),
        crate::instance_process::paths_equal(process.image_path, target.application.executable@) ==> quick_class(
            target,
            process,
        ) == Some((ProcessRole::Unknown, InstanceRelation::Unknown)),
        !crate::instance_process::paths_equal(process.image_path, target.application.executable@)
            && target.application.package is None ==> quick_class(target, process) == Some(
            (ProcessRole::Unknown, InstanceRelation::Other),
        ),
        target.application.package is Some && (match (
            path::last_component(process.image_path),
            path::last_component(target.application.executable@),
        ) {
            (Some(a), Some(b)) => text::same_folded(a, b),
            _ => false,
        }) ==> quick_class(target, process) == Some((ProcessRole::Unknown, InstanceRelation::Unknown)),
{
}

/// What is made of a proxy switch: none, an empty one or a direct one does not fit, nor one that something else turns
/// away; one that lists several cannot be judged; any other is compared by its address.
pub proof fn proxy_switches_are_taken_apart(switches: Option<SwitchesView>, value: ProxyValue)
    requires
        proxy_value_of(switches, value),
    ensures
        switches is None ==> value == ProxyValue::Decided(ProxyArguments::Unknown),
        switches matches Some(s) && (s.proxy_conflict || s.proxy_server is None) ==> value == ProxyValue::Decided(
            ProxyArguments::Mismatched,
        ),
        switches is Some && switches->0.proxy_server is Some && (switches->0.proxy_server->0.len() == 0 || text::same_folded(
            switches->0.proxy_server->0,
            "direct://"@,
        )) ==> value == ProxyValue::Decided(ProxyArguments::Mismatched),
        value is Address ==> switches is Some && !switches->0.proxy_conflict && switches->0.proxy_server is Some && forall|
            i: int,
        |
            0 <= i < switches->0.proxy_server->0.len() ==> {
                let c = #[trigger] switches->0.proxy_server->0[i];
                c != ';' && c != ',' && c != '=' && c != ' ' && c != '@'
            },
        value != ProxyValue::Decided(ProxyArguments::Matching),
{
    if value is Address {
        let server = switches->0.proxy_server->0;
        assert forall|i: int| 0 <= i < server.len() implies {
            let c = #[trigger] server[i];
            c != ';' && c != ',' && c != '=' && c != ' ' && c != '@'
        } by {
            assert(!crate::instance_process::list_char(server[i]));
        }
    }
}

proof fn plain_parts_have_a_way(parts: Seq<Seq<char>>, n: int, root: Seq<char>, verbatim: bool)
    requires
        0 <= n <= parts.len(),
        n < 128,
        forall|k: int| 0 <= k < n ==> #[trigger] parts[k] != seq!['.'] && parts[k] != seq!['.', '.'],
    ensures
        way(parts, n, root, verbatim) matches Ok(list) && 0 < list.len() <= n + 1,
    decreases n,
{
    if n > 0 {
        plain_parts_have_a_way(parts, n - 1, root, verbatim);
    }
}

/// On a drive of this machine every path of plain names that is not too deep has its directories.
pub proof fn plain_paths_have_their_directories(path: Seq<char>, drive: u32)
    requires
        on_drive(path),
        drive == 2 || drive == 3 || drive == 6,
        path::parts(path).len() < 128,
        forall|k: int|
            0 <= k < path::parts(path).len() ==> #[trigger] path::parts(path)[k] != seq!['.'] && path::parts(path)[k]
                != seq!['.', '.'],
    ensures
        directories(path, drive) is Ok,
{
    plain_parts_have_a_way(
        path::parts(path),
        path::parts(path).len() as int,
        crate::instance_process::drive_root(path),
        path::prefix(path) == path::Prefix::VerbatimDisk,
    );
}

} // verus!
