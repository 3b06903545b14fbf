//! The scheduled tasks that start the listener and the login entry: what they look like, and when an
//! existing task may be used, run or removed.
use vstd::prelude::*;
use vstd::string::*;
use crate::digest::{digest_text, text_digest};
use crate::error::{Error, Result, invalid};
use crate::etw::prefix;
use crate::ids::Uuid;
use crate::model::FileIdentity;
use crate::path;
use crate::security::{
    Descriptor, login_verdict, task_verdict, user_matches, user_verdict, verify_login, verify_task,
};
use crate::text;

verus! {

/// The status that says that a task does not exist.
pub const MISSING: u32 = 0x8007_0002;

/// The longest text that is read from a task, in units.
pub const TEXT_LIMIT: usize = 65536;

/// How the scheduler numbers the settings that tasks have here.
pub const LOGON_INTERACTIVE_TOKEN: i32 = 3;

pub const RUNLEVEL_LUA: i32 = 0;

pub const RUNLEVEL_HIGHEST: i32 = 1;

pub const COMPATIBILITY_V2: i32 = 2;

pub const INSTANCES_IGNORE_NEW: i32 = 2;

pub const TRIGGER_LOGON: i32 = 9;

/// What a task is to be: its name, the user it belongs to, the program it starts with which arguments
/// and in which directory, its address, and whether it is the login entry.
#[derive(Debug)]
pub struct Spec {
    pub name: String,
    pub sid: String,
    pub path: String,
    pub args: String,
    pub cwd: String,
    pub uri: String,
    pub login: bool,
}

/// The result of asking the scheduler to run a task.
#[derive(Debug)]
pub struct RunReceipt {
    pub task_name: String,
    pub task_instance: Uuid,
}

/// A text holds the two characters one behind the other.
pub open spec fn has_pair(t: Seq<char>, a: char, b: char) -> bool {
    exists|i: int| 0 <= i && i + 1 < t.len() && #[trigger] t[i] == a && t[i + 1] == b
}

/// A text that the scheduler takes literally: no terminator, no variable, no quotation mark, no
/// parameter.
pub open spec fn literal(t: Seq<char>) -> bool {
    !t.contains('\0') && !t.contains('%') && !t.contains('"') && !has_pair(t, '$', '(')
}

/// Whether the scheduler takes a text literally.
pub fn is_literal(value: &str) -> (r: bool)
    ensures
        r == literal(value@),
{
    let x = text::chars(value);
    let mut i: usize = 0;
    while i < x.len()
        invariant
            i <= x.len(),
            x@ == value@,
            forall|k: int|
                0 <= k < i ==> value@[k] != '\0' && value@[k] != '%' && value@[k] != '"' && !(
                #[trigger] value@[k] == '$' && k + 1 < value@.len() && value@[k + 1] == '('),
        decreases x.len() - i,
    {
        let c = x[i];
        if c == '\0' || c == '%' || c == '"' {
            proof {
                assert(value@.contains(value@[i as int]));
            }
            return false;
        }
        if c == '$' && i + 1 < x.len() && x[i + 1] == '(' {
            proof {
                assert(value@[i as int] == '$');
                assert(has_pair(value@, '$', '('));
            }
            return false;
        }
        i += 1;
    }
    proof {
        if has_pair(value@, '$', '(') {
            let k = choose|k: int|
                0 <= k && k + 1 < value@.len() && #[trigger] value@[k] == '$' && value@[k + 1]
                    == '(';
            assert(value@[k] == '$');
        }
    }
    true
}

/// Refuse a store or user that no address can be made of.
pub fn check_scope(store: Uuid, sid: &str) -> (r: Result<()>)
    ensures
        r == (if store.bits != 0 && sid@.len() > 0 {
            Ok(())
        } else {
            invalid::<()>("INVALID_IPC_SCOPE")
        }),
{
    if store.is_nil() || sid.is_empty() {
        return Err(Error::Invalid("INVALID_IPC_SCOPE"));
    }
    Ok(())
}

/// The name of a store's event task.
pub open spec fn event_name(sid: Seq<char>, store: Uuid) -> Seq<char> {
    "AppProxyRust-Event-"@ + text_digest(sid).take(16) + "-"@ + store.text()
}

/// The arguments of a store's event task.
pub open spec fn event_arguments(store: Uuid, generation: Uuid) -> Seq<char> {
    "event-listen --store "@ + store.text() + " --generation "@ + generation.text()
}

/// Why no event task can be made.
pub open spec fn event_scope(sid: Seq<char>, store: Uuid, generation: Uuid, path: Seq<char>) -> Result<
    (),
> {
    if store.bits == 0 || sid.len() == 0 {
        invalid("INVALID_IPC_SCOPE")
    } else if generation.bits == 0 {
        invalid("GUARD_DEPLOYMENT_ID_REQUIRED")
    } else if path::parent_path(path) is None || !path::absolute(path) || !literal(path) {
        invalid("GUARD_TASK_PATH")
    } else {
        Ok(())
    }
}

/// Event tasks of different stores have different names.
pub proof fn event_names_differ(sid: Seq<char>, a: Uuid, b: Uuid)
    requires
        event_name(sid, a) == event_name(sid, b),
    ensures
        a == b,
{
    let front = "AppProxyRust-Event-"@ + text_digest(sid).take(16) + "-"@;
    assert(event_name(sid, a).skip(front.len() as int) =~= a.text());
    assert(event_name(sid, b).skip(front.len() as int) =~= b.text());
    crate::ids::uuid_text_injective(a.bits, b.bits);
}

impl Spec {
    /// The event task of a store's deployment.
    pub fn new(sid: &str, store: Uuid, generation: Uuid, path: &str) -> (r: Result<Spec>)
        ensures
            match event_scope(sid@, store, generation, path@) {
                Err(e) => r == Err::<Spec, Error>(e),
                Ok(_) => r matches Ok(spec) && spec.name@ == event_name(sid@, store) && spec.sid@
                    == sid@ && spec.path@ == path@ && Some(spec.cwd@) == path::parent_path(path@)
                    && spec.args@ == event_arguments(store, generation) && spec.uri@ == "\\"@
                    + spec.name@ && !spec.login,
            },
    {
        check_scope(store, sid)?;
        if generation.is_nil() {
            return Err(Error::Invalid("GUARD_DEPLOYMENT_ID_REQUIRED"));
        }
        let cwd = match path::parent(path) {
            Some(cwd) => cwd,
            None => {
                return Err(Error::Invalid("GUARD_TASK_PATH"));
            },
        };
        if !path::is_absolute(path) || !is_literal(path) {
            return Err(Error::Invalid("GUARD_TASK_PATH"));
        }
        let scope = digest_text(sid);
        let mut name = text::join3("AppProxyRust-Event-", prefix(scope.as_str(), 16).as_str(), "-");
        name.append(store.to_text().as_str());
        let mut args = text::join3(
            "event-listen --store ",
            store.to_text().as_str(),
            " --generation ",
        );
        args.append(generation.to_text().as_str());
        let uri = text::join("\\", name.as_str());
        Ok(
            Spec {
                name,
                sid: sid.to_owned(),
                path: path.to_owned(),
                args,
                cwd,
                uri,
                login: false,
            },
        )
    }
}

/// An account that a task names: the text, and what resolving it came to: whether it is a user, and its
/// identifier.
#[derive(Debug)]
pub struct Account {
    pub name: String,
    pub resolved: Result<(bool, String)>,
}

/// Whether an account is the expected user.
pub open spec fn account_verdict(account: Account, sid: Seq<char>) -> Result<bool> {
    user_verdict(account.name@, sid, account.resolved)
}

/// An account that is the expected user.
pub open spec fn account_is(account: Account, sid: Seq<char>) -> bool {
    account_verdict(account, sid) == Ok::<bool, Error>(true)
}

fn check_account(account: &Account, sid: &str) -> (r: Result<bool>)
    ensures
        r == account_verdict(*account, sid@),
{
    user_matches(account.name.as_str(), sid, &account.resolved)
}

/// A trigger of a task.
#[derive(Debug)]
pub struct Trigger {
    pub kind: i32,
    pub id: String,
    pub user: Account,
    pub delay: String,
    pub start: String,
    pub end: String,
    pub limit: String,
    pub enabled: bool,
    pub interval: String,
    pub duration: String,
    pub stop_at_end: bool,
}

/// The trigger of a login task: each logon of the user, at once and without end.
pub open spec fn logon_trigger(trigger: Trigger, sid: Seq<char>) -> bool {
    trigger.kind == TRIGGER_LOGON && trigger.id@ == "AppProxyLogon"@ && account_is(
        trigger.user,
        sid,
    ) && trigger.delay@.len() == 0 && trigger.start@.len() == 0 && trigger.end@.len() == 0
        && trigger.limit@ == "PT0S"@ && trigger.enabled && trigger.interval@.len() == 0
        && trigger.duration@.len() == 0 && !trigger.stop_at_end
}

/// Why the triggers are not those of a login task. An account that cannot be resolved is told as such.
pub open spec fn trigger_verdict(triggers: Seq<Trigger>, sid: Seq<char>) -> Result<()> {
    if triggers.len() == 1 && logon_trigger(triggers[0], sid) {
        Ok(())
    } else if triggers.len() == 1 && triggers[0].kind == TRIGGER_LOGON && triggers[0].id@
        == "AppProxyLogon"@ && account_verdict(triggers[0].user, sid) is Err {
        Err(account_verdict(triggers[0].user, sid)->Err_0)
    } else {
        invalid("GUARD_TASK_CONFLICT")
    }
}

/// Check the triggers of a login task.
pub fn verify_trigger(triggers: &[Trigger], sid: &str) -> (r: Result<()>)
    ensures
        r == trigger_verdict(triggers@, sid@),
{
    if triggers.len() != 1 {
        return Err(Error::Invalid("GUARD_TASK_CONFLICT"));
    }
    let trigger = &triggers[0];
    if trigger.kind != TRIGGER_LOGON || !text::same(trigger.id.as_str(), "AppProxyLogon") {
        return Err(Error::Invalid("GUARD_TASK_CONFLICT"));
    }
    if !check_account(&trigger.user, sid)? || !trigger.delay.as_str().is_empty()
        || !trigger.start.as_str().is_empty() || !trigger.end.as_str().is_empty() || !text::same(
        trigger.limit.as_str(),
        "PT0S",
    ) || !trigger.enabled || !trigger.interval.as_str().is_empty()
        || !trigger.duration.as_str().is_empty() || trigger.stop_at_end {
        return Err(Error::Invalid("GUARD_TASK_CONFLICT"));
    }
    Ok(())
}

/// A program that a task starts.
#[derive(Debug)]
pub struct Action {
    pub path: String,
    pub args: String,
    pub cwd: String,
}

/// The settings of a task that say yes or no.
#[derive(Clone, Copy, Debug, PartialEq, Eq, Structural)]
pub struct Switches {
    pub allow_demand_start: bool,
    pub disallow_start_on_batteries: bool,
    pub stop_on_batteries: bool,
    pub allow_hard_terminate: bool,
    pub start_when_available: bool,
    pub run_only_if_network_available: bool,
    pub run_only_if_idle: bool,
    pub wake_to_run: bool,
    pub hidden: bool,
    pub enabled: bool,
}

/// The switches of every task here: it starts on demand, at once, and is neither ended nor woken for.
pub open spec fn fixed_switches() -> Switches {
    Switches {
        allow_demand_start: true,
        disallow_start_on_batteries: false,
        stop_on_batteries: false,
        allow_hard_terminate: false,
        start_when_available: false,
        run_only_if_network_available: false,
        run_only_if_idle: false,
        wake_to_run: false,
        hidden: true,
        enabled: true,
    }
}

/// The definition of a task.
#[derive(Debug)]
pub struct Definition {
    pub data: String,
    pub uri: String,
    pub principal_id: String,
    pub user: Account,
    pub group: String,
    pub logon: i32,
    pub level: i32,
    pub triggers: Vec<Trigger>,
    pub context: String,
    pub actions: Vec<Action>,
    pub compatibility: i32,
    pub switches: Switches,
    pub instances: i32,
    pub restarts: i32,
    pub limit: String,
    pub deletion: String,
}

/// The mark of a task's role.
pub open spec fn marker(login: bool) -> Seq<char> {
    if login {
        "app-proxy-rust:login-task:v1"@
    } else {
        "app-proxy-rust:event-task:v1"@
    }
}

/// The principal of a task: its user, with the rights that its role needs.
pub open spec fn principal_fits(task: Definition, spec: Spec) -> bool {
    task.principal_id@ == "AppProxyRustOwner"@ && account_is(task.user, spec.sid@)
        && task.group@.len() == 0 && task.logon == LOGON_INTERACTIVE_TOKEN && task.level == (
    if spec.login {
        RUNLEVEL_LUA
    } else {
        RUNLEVEL_HIGHEST
    })
}

/// The one action of a task.
pub open spec fn action_fits(task: Definition, spec: Spec) -> bool {
    task.context@ == "AppProxyRustOwner"@ && task.actions@.len() == 1 && task.actions@[0].path@
        == spec.path@ && task.actions@[0].args@ == spec.args@ && task.actions@[0].cwd@ == spec.cwd@
}

/// The triggers of a task: none for the event task, the logon for the login task.
pub open spec fn triggers_fit(task: Definition, spec: Spec) -> bool {
    if spec.login {
        task.triggers@.len() == 1 && logon_trigger(task.triggers@[0], spec.sid@)
    } else {
        task.triggers@.len() == 0
    }
}

/// The settings of a task.
pub open spec fn settings_fit(task: Definition) -> bool {
    task.compatibility == COMPATIBILITY_V2 && task.switches == fixed_switches() && task.instances
        == INSTANCES_IGNORE_NEW && task.restarts == 0 && task.limit@ == "PT0S"@
        && task.deletion@.len() == 0
}

/// A definition that is exactly the specified one.
pub open spec fn definition_fits(task: Definition, spec: Spec) -> bool {
    task.data@ == marker(spec.login) && task.uri@ == spec.uri@ && principal_fits(task, spec)
        && triggers_fit(task, spec) && action_fits(task, spec) && settings_fit(task)
}

/// Why a definition is not the specified one. An account that cannot be resolved is told as such.
pub open spec fn definition_verdict(task: Definition, spec: Spec) -> Result<()> {
    if task.principal_id@ == "AppProxyRustOwner"@ && account_verdict(task.user, spec.sid@) is Err {
        Err(account_verdict(task.user, spec.sid@)->Err_0)
    } else if spec.login && trigger_verdict(task.triggers@, spec.sid@) is Err {
        trigger_verdict(task.triggers@, spec.sid@)
    } else if definition_fits(task, spec) {
        Ok(())
    } else {
        invalid("GUARD_TASK_CONFLICT")
    }
}

fn marker_text(login: bool) -> (r: &'static str)
    ensures
        r@ == marker(login),
{
    if login {
        "app-proxy-rust:login-task:v1"
    } else {
        "app-proxy-rust:event-task:v1"
    }
}

fn switches() -> (r: Switches)
    ensures
        r == fixed_switches(),
{
    Switches {
        allow_demand_start: true,
        disallow_start_on_batteries: false,
        stop_on_batteries: false,
        allow_hard_terminate: false,
        start_when_available: false,
        run_only_if_network_available: false,
        run_only_if_idle: false,
        wake_to_run: false,
        hidden: true,
        enabled: true,
    }
}

/// Check that a definition is exactly the specified one.
pub fn verify_definition(task: &Definition, spec: &Spec) -> (r: Result<()>)
    ensures
        r == definition_verdict(*task, *spec),
{
    let level: i32 = if spec.login {
        RUNLEVEL_LUA
    } else {
        RUNLEVEL_HIGHEST
    };
    let principal = text::same(task.principal_id.as_str(), "AppProxyRustOwner") && check_account(
        &task.user,
        spec.sid.as_str(),
    )? && task.group.as_str().is_empty() && task.logon == LOGON_INTERACTIVE_TOKEN && task.level
        == level;
    let triggers = if spec.login {
        verify_trigger(task.triggers.as_slice(), spec.sid.as_str())?;
        true
    } else {
        task.triggers.len() == 0
    };
    if task.actions.len() != 1 {
        return Err(Error::Invalid("GUARD_TASK_CONFLICT"));
    }
    let action = text::same(task.context.as_str(), "AppProxyRustOwner") && text::same(
        task.actions[0].path.as_str(),
        spec.path.as_str(),
    ) && text::same(task.actions[0].args.as_str(), spec.args.as_str()) && text::same(
        task.actions[0].cwd.as_str(),
        spec.cwd.as_str(),
    );
    let settings = task.compatibility == COMPATIBILITY_V2 && task.switches == switches()
        && task.instances == INSTANCES_IGNORE_NEW && task.restarts == 0 && text::same(
        task.limit.as_str(),
        "PT0S",
    ) && task.deletion.as_str().is_empty();
    if text::same(task.data.as_str(), marker_text(spec.login)) && text::same(
        task.uri.as_str(),
        spec.uri.as_str(),
    ) && principal && triggers && action && settings {
        Ok(())
    } else {
        Err(Error::Invalid("GUARD_TASK_CONFLICT"))
    }
}

/// A definition as it is handed to the scheduler: exactly the specified one, with the user's identifier as the
/// name of each account.
pub open spec fn as_built(task: Definition, spec: Spec) -> bool {
    definition_fits(task, spec) && task.user.name@ == spec.sid@ && (spec.login
        ==> task.triggers@[0].user.name@ == spec.sid@)
}

/// The definition of a specified task.
pub fn build(spec: &Spec) -> (r: Definition)
    ensures
        as_built(r, *spec),
        r.user.name@ == spec.sid@,
        spec.login ==> r.triggers@[0].user.name@ == spec.sid@,
{
    let mut triggers: Vec<Trigger> = Vec::new();
    if spec.login {
        triggers.push(
            Trigger {
                kind: TRIGGER_LOGON,
                id: "AppProxyLogon".to_owned(),
                user: Account { name: spec.sid.clone(), resolved: Ok((true, spec.sid.clone())) },
                delay: String::new(),
                start: String::new(),
                end: String::new(),
                limit: "PT0S".to_owned(),
                enabled: true,
                interval: String::new(),
                duration: String::new(),
                stop_at_end: false,
            },
        );
    }
    let mut actions: Vec<Action> = Vec::new();
    actions.push(
        Action { path: spec.path.clone(), args: spec.args.clone(), cwd: spec.cwd.clone() },
    );
    Definition {
        data: marker_text(spec.login).to_owned(),
        uri: spec.uri.clone(),
        principal_id: "AppProxyRustOwner".to_owned(),
        user: Account { name: spec.sid.clone(), resolved: Ok((true, spec.sid.clone())) },
        group: String::new(),
        logon: LOGON_INTERACTIVE_TOKEN,
        level: if spec.login {
            RUNLEVEL_LUA
        } else {
            RUNLEVEL_HIGHEST
        },
        triggers,
        context: "AppProxyRustOwner".to_owned(),
        actions,
        compatibility: COMPATIBILITY_V2,
        switches: switches(),
        instances: INSTANCES_IGNORE_NEW,
        restarts: 0,
        limit: "PT0S".to_owned(),
        deletion: String::new(),
    }
}

/// Two triggers that differ at most in what resolving their account came to.
pub open spec fn same_trigger(a: Trigger, b: Trigger) -> bool {
    a.kind == b.kind && a.id@ == b.id@ && a.user.name@ == b.user.name@ && a.delay@ == b.delay@
        && a.start@ == b.start@ && a.end@ == b.end@ && a.limit@ == b.limit@ && a.enabled == b.enabled
        && a.interval@ == b.interval@ && a.duration@ == b.duration@ && a.stop_at_end
        == b.stop_at_end
}

/// Two definitions that differ at most in what resolving their accounts came to.
pub open spec fn same_definition(a: Definition, b: Definition) -> bool {
    &&& a.data@ == b.data@ && a.uri@ == b.uri@ && a.principal_id@ == b.principal_id@
    &&& a.user.name@ == b.user.name@ && a.group@ == b.group@ && a.logon == b.logon && a.level
        == b.level
    &&& a.triggers@.len() == b.triggers@.len() && forall|i: int|
        0 <= i < a.triggers@.len() ==> same_trigger(#[trigger] a.triggers@[i], b.triggers@[i])
    &&& a.context@ == b.context@ && a.actions@.len() == b.actions@.len() && forall|i: int|
        0 <= i < a.actions@.len() ==> (#[trigger] a.actions@[i]).path@ == b.actions@[i].path@
            && a.actions@[i].args@ == b.actions@[i].args@ && a.actions@[i].cwd@
            == b.actions@[i].cwd@
    &&& a.compatibility == b.compatibility && a.switches == b.switches && a.instances == b.instances
        && a.restarts == b.restarts && a.limit@ == b.limit@ && a.deletion@ == b.deletion@
}

/// A definition that is read back as it was built passes, whatever looking its accounts up again comes to.
pub proof fn built_definitions_verify(built: Definition, task: Definition, spec: Spec)
    requires
        as_built(built, spec),
        same_definition(task, built),
    ensures
        definition_verdict(task, spec) is Ok,
{
    if spec.login {
        assert(same_trigger(task.triggers@[0], built.triggers@[0]));
    }
    assert(task.actions@[0].path@ == built.actions@[0].path@);
}

/// A task that runs with elevated rights never passes for a login task, nor the other way round.
pub proof fn roles_are_not_interchangeable(task: Definition, event: Spec, login: Spec)
    requires
        !event.login,
        login.login,
    ensures
        !(definition_fits(task, event) && definition_fits(task, login)),
{
}

/// Why the security of a task, read as a text of this length, is not that of its role.
pub open spec fn security_verdict(length: nat, descriptor: Descriptor, spec: Spec) -> Result<()> {
    if spec.login {
        login_verdict(length, descriptor, spec.sid@)
    } else {
        task_verdict(length, descriptor, spec.sid@)
    }
}

/// Why a registered task is not the specified one.
pub open spec fn task_verdict_of(
    path: Seq<char>,
    length: nat,
    security: Descriptor,
    task: Definition,
    spec: Spec,
) -> Result<()> {
    if path != "\\"@ + spec.name@ {
        invalid("GUARD_TASK_CONFLICT")
    } else if security_verdict(length, security, spec) is Err {
        security_verdict(length, security, spec)
    } else {
        definition_verdict(task, spec)
    }
}

/// Check a registered task: it lies where its name says, its security is that of its role, and its
/// definition is exactly the specified one. `length` is that of the text from which its security was read.
pub fn verify(
    path: &str,
    length: usize,
    security: &Descriptor,
    task: &Definition,
    spec: &Spec,
) -> (r: Result<()>)
    ensures
        r == task_verdict_of(path@, length as nat, *security, *task, *spec),
{
    if !text::same(path, text::join("\\", spec.name.as_str()).as_str()) {
        return Err(Error::Invalid("GUARD_TASK_CONFLICT"));
    }
    if spec.login {
        verify_login(length, security, spec.sid.as_str())?;
    } else {
        verify_task(length, security, spec.sid.as_str())?;
    }
    verify_definition(task, spec)
}

/// The text of a task's property.
pub fn task_text(units: &[u16]) -> (r: Result<String>)
    ensures
        if units@.len() > TEXT_LIMIT {
            r == invalid::<String>("GUARD_TASK_TEXT_SIZE")
        } else if text::is_utf16(units@) {
            r matches Ok(found) && text::utf16(found@) == units@
        } else {
            r == invalid::<String>("GUARD_TASK_TEXT_ENCODING")
        },
{
    if units.len() > TEXT_LIMIT {
        return Err(Error::Invalid("GUARD_TASK_TEXT_SIZE"));
    }
    match text::from_utf16(units) {
        Some(found) => {
            proof {
                assert(text::is_utf16(units@));
            }
            Ok(found)
        },
        None => Err(Error::Invalid("GUARD_TASK_TEXT_ENCODING")),
    }
}

/// Whether looking for a task found it: a task that does not exist is no failure.
pub fn found(status: u32) -> (r: Result<bool>)
    ensures
        r == (if status == 0 {
            Ok(true)
        } else if status == MISSING {
            Ok(false)
        } else {
            Err(Error::Windows { operation: "GuardTaskScheduler", code: status })
        }),
{
    if status == 0 {
        Ok(true)
    } else if status == MISSING {
        Ok(false)
    } else {
        Err(Error::Windows { operation: "GuardTaskScheduler", code: status })
    }
}

/// What to do about a task that is to be registered.
#[derive(Clone, Copy, Debug, PartialEq, Eq, Structural)]
pub enum RegisterStep {
    Keep,
    Create,
}

/// What registering a task has to do.
pub open spec fn registration_due(existing: Option<Result<()>>) -> Result<RegisterStep> {
    match existing {
        Some(Err(e)) => Err(e),
        Some(Ok(_)) => Ok(RegisterStep::Keep),
        None => Ok(RegisterStep::Create),
    }
}

/// Decide about a task that is to be registered: one that exists is kept if it is exactly the specified
/// one and is never overwritten. `existing` is what verifying it came to.
pub fn register(existing: Option<Result<()>>) -> (r: Result<RegisterStep>)
    ensures
        r == registration_due(existing),
{
    match existing {
        Some(verified) => {
            verified?;
            Ok(RegisterStep::Keep)
        },
        None => Ok(RegisterStep::Create),
    }
}

/// Check that a task is registered.
pub fn verify_registered(existing: Option<Result<()>>) -> (r: Result<()>)
    ensures
        r == (match existing {
            Some(verified) => verified,
            None => invalid("GUARD_TASK_MISSING"),
        }),
{
    match existing {
        Some(verified) => verified,
        None => Err(Error::Invalid("GUARD_TASK_MISSING")),
    }
}

/// The session in which a task may be run, or why it may not.
pub open spec fn session_to_run_in(
    current: FileIdentity,
    coordinator: FileIdentity,
    existing: Option<Result<()>>,
    session_id: u32,
) -> Result<i32> {
    if current != coordinator {
        invalid("GUARD_COORDINATOR_CHANGED")
    } else {
        match existing {
            None => invalid("GUARD_TASK_MISSING"),
            Some(Err(e)) => Err(e),
            Some(Ok(_)) => if 0 < session_id <= i32::MAX {
                Ok(session_id as i32)
            } else {
                invalid("GUARD_TASK_SESSION")
            },
        }
    }
}

/// The session in which a task may be run: the caller's own, which must be an interactive one, and only
/// for the coordinator that was deployed.
pub fn run_session(
    current: FileIdentity,
    coordinator: FileIdentity,
    existing: Option<Result<()>>,
    session_id: u32,
) -> (r: Result<i32>)
    ensures
        r == session_to_run_in(current, coordinator, existing, session_id),
{
    if current != coordinator {
        return Err(Error::Invalid("GUARD_COORDINATOR_CHANGED"));
    }
    verify_registered(existing)?;
    if session_id == 0 || session_id > 0x7fff_ffff {
        return Err(Error::Invalid("GUARD_TASK_SESSION"));
    }
    Ok(session_id as i32)
}

/// The receipt of a run. `instance` is the identifier that the scheduler gave to the run, if it gave one.
pub fn run_receipt(spec: Spec, instance: Option<Uuid>) -> (r: Result<RunReceipt>)
    ensures
        r == (match instance {
            Some(id) if id.bits != 0 => Ok(
                RunReceipt { task_name: spec.name, task_instance: id },
            ),
            _ => invalid::<RunReceipt>("GUARD_TASK_INSTANCE_UNKNOWN"),
        }),
{
    match instance {
        Some(id) => {
            if id.is_nil() {
                return Err(Error::Invalid("GUARD_TASK_INSTANCE_UNKNOWN"));
            }
            Ok(RunReceipt { task_name: spec.name, task_instance: id })
        },
        None => Err(Error::Invalid("GUARD_TASK_INSTANCE_UNKNOWN")),
    }
}

/// The receipt of a run, from the text that the scheduler gave.
pub fn run_receipt_text(spec: Spec, instance: &str) -> (r: Result<RunReceipt>)
    ensures
        r == (match crate::ids::uuid_parsed(instance@) {
            Some(bits) if bits != 0 => Ok(
                RunReceipt { task_name: spec.name, task_instance: Uuid { bits } },
            ),
            _ => invalid::<RunReceipt>("GUARD_TASK_INSTANCE_UNKNOWN"),
        }),
{
    run_receipt(spec, Uuid::parse_str(instance))
}

/// What deleting a task has to do.
pub open spec fn deletion_due(existing: Option<Result<()>>, instances: i32, login: bool) -> Result<bool> {
    match existing {
        None => Ok(false),
        Some(Err(e)) => Err(e),
        Some(Ok(_)) => if instances != 0 {
            invalid(
                if login {
                    "GUARD_LOGIN_TASK_RUNNING"
                } else {
                    "GUARD_TASK_RUNNING"
                },
            )
        } else {
            Ok(true)
        },
    }
}

/// Whether a task has to be deleted: one that does not exist needs nothing, one that is not exactly the
/// specified one or that runs is left alone.
pub fn remove_idle(existing: Option<Result<()>>, instances: i32, login: bool) -> (r: Result<bool>)
    ensures
        r == deletion_due(existing, instances, login),
{
    match existing {
        None => Ok(false),
        Some(verified) => {
            verified?;
            if instances != 0 {
                return Err(
                    Error::Invalid(
                        if login {
                            "GUARD_LOGIN_TASK_RUNNING"
                        } else {
                            "GUARD_TASK_RUNNING"
                        },
                    ),
                );
            }
            Ok(true)
        },
    }
}

/// Check that a deleted task is gone.
pub fn removed(still_found: bool, login: bool) -> (r: Result<()>)
    ensures
        removal_verdict(still_found, login, r),
{
    if still_found {
        return Err(
            Error::Invalid(
                if login {
                    "GUARD_LOGIN_REMOVE_UNCONFIRMED"
                } else {
                    "GUARD_TASK_REMOVE_UNCONFIRMED"
                },
            ),
        );
    }
    Ok(())
}

/// Whether a task is gone.
pub open spec fn removal_verdict(still_found: bool, login: bool, r: Result<()>) -> bool {
    r == (if !still_found {
        Ok(())
    } else {
        invalid(
            if login {
                "GUARD_LOGIN_REMOVE_UNCONFIRMED"
            } else {
                "GUARD_TASK_REMOVE_UNCONFIRMED"
            },
        )
    })
}

} // verus!
