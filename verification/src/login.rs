//! The login entry: the task that starts the coordinator of a store when its user logs on.
use vstd::prelude::*;
use vstd::string::*;
use crate::digest::{digest_text, text_digest};
use crate::error::{Error, Result, invalid};
use crate::etw::prefix;
use crate::guard_task::{Spec, check_scope, is_literal, literal};
use crate::ids::Uuid;
use crate::model::LoginTask;
use crate::path;
use crate::path::{last_component, parent_path};
use crate::text;
use crate::text::utf16;

verus! {

/// The longest command line, in UTF-16 units.
pub const COMMAND_LIMIT: usize = 32767;

/// The login entry of a store: whose it is, where the store lies and which host it starts.
#[derive(Debug)]
pub struct Registration {
    pub store_id: Uuid,
    pub owner_sid: String,
    pub home: String,
    pub host: String,
}

/// The contents of a registration.
pub struct RegistrationView {
    pub store_id: Uuid,
    pub owner_sid: Seq<char>,
    pub home: Seq<char>,
    pub host: Seq<char>,
}

impl View for Registration {
    type V = RegistrationView;

    open spec fn view(&self) -> RegistrationView {
        RegistrationView {
            store_id: self.store_id,
            owner_sid: self.owner_sid@,
            home: self.home@,
            host: self.host@,
        }
    }
}

/// The backslashes from place `i` on lead up to a quotation mark or the end.
pub open spec fn leads_to_quote(word: Seq<char>, i: int) -> bool
    decreases word.len() - i,
{
    if i < 0 || i >= word.len() {
        true
    } else if word[i] == '\\' {
        leads_to_quote(word, i + 1)
    } else {
        word[i] == '"'
    }
}

/// What one character of a word becomes between quotation marks: a quotation mark is escaped, and so is
/// a backslash that would otherwise escape one.
pub open spec fn escaped(word: Seq<char>, i: int) -> Seq<char> {
    if word[i] == '"' {
        seq!['\\', '"']
    } else if word[i] == '\\' && leads_to_quote(word, i) {
        seq!['\\', '\\']
    } else {
        seq![word[i]]
    }
}

/// The first `n` characters of a word, escaped.
pub open spec fn escaped_front(word: Seq<char>, n: int) -> Seq<char>
    decreases n,
{
    if n <= 0 {
        Seq::empty()
    } else {
        escaped_front(word, n - 1) + escaped(word, n - 1)
    }
}

/// A word as one argument of a command line.
pub open spec fn quoted(word: Seq<char>) -> Seq<char> {
    seq!['"'] + escaped_front(word, word.len() as int) + seq!['"']
}

fn runs_to_quote(word: &[char], from: usize) -> (r: bool)
    requires
        from <= word@.len(),
    ensures
        r == leads_to_quote(word@, from as int),
{
    let mut i: usize = from;
    while i < word.len() && word[i] == '\\'
        invariant
            from <= i <= word@.len(),
            leads_to_quote(word@, from as int) == leads_to_quote(word@, i as int),
        decreases word.len() - i,
    {
        i += 1;
    }
    i == word.len() || word[i] == '"'
}

/// A word as one argument of a command line.
pub fn quote_windows_word(word: &str) -> (r: String)
    ensures
        r@ == quoted(word@),
{
    let x = text::chars(word);
    let mut out = String::new();
    out.push('"');
    let mut i: usize = 0;
    proof {
        assert(out@ =~= seq!['"'] + escaped_front(word@, 0));
    }
    while i < x.len()
        invariant
            i <= x.len(),
            x@ == word@,
            out@ == seq!['"'] + escaped_front(word@, i as int),
        decreases x.len() - i,
    {
        let c = x[i];
        let ghost before = out@;
        if c == '"' {
            out.push('\\');
            out.push('"');
        } else if c == '\\' && runs_to_quote(x.as_slice(), i) {
            out.push('\\');
            out.push('\\');
        } else {
            out.push(c);
        }
        proof {
            assert(out@ =~= before + escaped(word@, i as int));
            assert(out@ =~= seq!['"'] + escaped_front(word@, i + 1));
        }
        i += 1;
    }
    out.push('"');
    proof {
        assert(out@ =~= quoted(word@));
    }
    out
}

/// A path that a task may hold: absolute, taken literally, and without a step upwards.
pub open spec fn path_usable(path: Seq<char>) -> bool {
    path::absolute(path) && literal(path) && !path::goes_up(path)
}

/// Check that a task may hold a path.
pub fn task_path(path: &str) -> (r: Result<&str>)
    ensures
        match r {
            Ok(usable) => path_usable(path@) && usable@ == path@,
            Err(e) => !path_usable(path@) && e == Error::Invalid("GUARD_LOGIN_PATH"),
        },
{
    if !path::is_absolute(path) || !is_literal(path) || path::is_going_up(path) {
        return Err(Error::Invalid("GUARD_LOGIN_PATH"));
    }
    Ok(path)
}

/// The arguments of a login task.
pub open spec fn login_arguments(home: Seq<char>, store: Uuid) -> Seq<char> {
    "serve --home "@ + quoted(home) + " --expected-store "@ + store.text()
}

/// The name of a store's login task.
pub open spec fn login_name(sid: Seq<char>, store: Uuid) -> Seq<char> {
    "AppProxy-Login-"@ + text_digest(sid).take(16) + "-"@ + store.text()
}

/// Why no login task can be made for the user `sid`.
pub open spec fn login_scope(registration: RegistrationView, sid: Seq<char>) -> Result<()> {
    if registration.owner_sid != sid {
        invalid("GUARD_LOGIN_OWNER_MISMATCH")
    } else if registration.store_id.bits == 0 || sid.len() == 0 {
        invalid("INVALID_IPC_SCOPE")
    } else if !path_usable(registration.home) || !path_usable(registration.host) {
        invalid("GUARD_LOGIN_PATH")
    } else if last_component(registration.host) != Some("app-proxy-host.exe"@) {
        invalid("GUARD_LOGIN_HOST_REQUIRED")
    } else if utf16(login_arguments(registration.home, registration.store_id)).len() + utf16(
        registration.host,
    ).len() + 4 > COMMAND_LIMIT || parent_path(registration.host) is None {
        invalid("GUARD_LOGIN_PATH")
    } else {
        Ok(())
    }
}

/// The task that a registration stands for.
pub open spec fn login_spec(spec: Spec, registration: RegistrationView, sid: Seq<char>) -> bool {
    spec.name@ == login_name(sid, registration.store_id) && spec.uri@ == "\\"@ + spec.name@
        && spec.sid@ == sid && spec.path@ == registration.host && spec.args@ == login_arguments(
        registration.home,
        registration.store_id,
    ) && Some(spec.cwd@) == parent_path(registration.host) && spec.login
}

/// What the configuration records of a login task.
pub open spec fn task_metadata(
    task: LoginTask,
    registration: RegistrationView,
    sid: Seq<char>,
) -> bool {
    task.name@ == login_name(sid, registration.store_id) && task.target@ == registration.host
        && task.args@.len() == 5 && task.args@[0]@ == "serve"@ && task.args@[1]@ == "--home"@
        && task.args@[2]@ == registration.home && task.args@[3]@ == "--expected-store"@
        && task.args@[4]@ == registration.store_id.text()
}

/// What is found at the place of a store: its identity and its owner.
#[derive(Debug)]
pub struct StoreDescriptor {
    pub store_id: Uuid,
    pub owner_sid: String,
}

/// Whether a login entry is ready.
pub open spec fn login_ready(
    registration: RegistrationView,
    found: StoreDescriptor,
    same_place: bool,
    task: Result<bool>,
    deployed: Seq<char>,
    listener: Result<()>,
) -> Result<bool> {
    if found.store_id != registration.store_id || found.owner_sid@ != registration.owner_sid || !same_place {
        invalid("GUARD_LOGIN_STORE_MISMATCH")
    } else {
        match task {
            Err(e) => Err(e),
            Ok(false) => Ok(false),
            Ok(true) => if deployed != registration.host {
                invalid("GUARD_LOGIN_REGISTRATION_CHANGED")
            } else {
                match listener {
                    Err(e) => Err(e),
                    Ok(_) => Ok(true),
                }
            },
        }
    }
}

/// What preparing a login entry for a deployment comes to.
pub open spec fn authorization(
    found: StoreDescriptor,
    deployment_store: Uuid,
    listener: Result<()>,
    release_matches: bool,
    home: Seq<char>,
    host: Seq<char>,
    sid: Seq<char>,
) -> Result<RegistrationView> {
    let made = RegistrationView { store_id: found.store_id, owner_sid: found.owner_sid@, home, host };
    if found.store_id != deployment_store {
        invalid("GUARD_LOGIN_STORE_MISMATCH")
    } else if listener is Err {
        Err(listener->Err_0)
    } else if !release_matches {
        invalid("GUARD_LISTENER_RELEASE_CONFLICT")
    } else {
        match login_scope(made, sid) {
            Err(e) => Err(e),
            Ok(_) => Ok(made),
        }
    }
}

impl Registration {
    /// An equal registration.
    pub fn copy(&self) -> (r: Registration)
        ensures
            r == *self,
    {
        Registration {
            store_id: self.store_id,
            owner_sid: self.owner_sid.clone(),
            home: self.home.clone(),
            host: self.host.clone(),
        }
    }

    /// Whether two registrations are equal.
    pub fn same(&self, other: &Registration) -> (r: bool)
        ensures
            r == (self@ == other@),
    {
        self.store_id == other.store_id && text::same(
            self.owner_sid.as_str(),
            other.owner_sid.as_str(),
        ) && text::same(self.home.as_str(), other.home.as_str()) && text::same(
            self.host.as_str(),
            other.host.as_str(),
        )
    }

    /// The task that the registration stands for, for the user `sid`.
    pub fn spec(&self, sid: &str) -> (r: Result<Spec>)
        ensures
            match login_scope(self@, sid@) {
                Err(e) => r == Err::<Spec, Error>(e),
                Ok(_) => r matches Ok(spec) && login_spec(spec, self@, sid@),
            },
    {
        if !text::same(self.owner_sid.as_str(), sid) {
            return Err(Error::Invalid("GUARD_LOGIN_OWNER_MISMATCH"));
        }
        check_scope(self.store_id, sid)?;
        task_path(self.home.as_str())?;
        task_path(self.host.as_str())?;
        let named = match path::file_name(self.host.as_str()) {
            Some(name) => text::same(name.as_str(), "app-proxy-host.exe"),
            None => false,
        };
        if !named {
            return Err(Error::Invalid("GUARD_LOGIN_HOST_REQUIRED"));
        }
        let mut args = text::join3(
            "serve --home ",
            quote_windows_word(self.home.as_str()).as_str(),
            " --expected-store ",
        );
        args.append(self.store_id.to_text().as_str());
        let a = text::encode_utf16(args.as_str());
        let b = text::encode_utf16(self.host.as_str());
        if a.len() > COMMAND_LIMIT || b.len() > COMMAND_LIMIT || a.len() + b.len() + 4
            > COMMAND_LIMIT {
            return Err(Error::Invalid("GUARD_LOGIN_PATH"));
        }
        let cwd = match path::parent(self.host.as_str()) {
            Some(cwd) => cwd,
            None => {
                return Err(Error::Invalid("GUARD_LOGIN_PATH"));
            },
        };
        let scope = digest_text(sid);
        let mut name = text::join3("AppProxy-Login-", prefix(scope.as_str(), 16).as_str(), "-");
        name.append(self.store_id.to_text().as_str());
        let uri = text::join("\\", name.as_str());
        Ok(
            Spec {
                name,
                sid: sid.to_owned(),
                path: self.host.clone(),
                args,
                cwd,
                uri,
                login: true,
            },
        )
    }

    /// What the configuration records of the login task.
    pub fn metadata(&self, sid: &str) -> (r: Result<LoginTask>)
        ensures
            match login_scope(self@, sid@) {
                Err(e) => r == Err::<LoginTask, Error>(e),
                Ok(_) => r matches Ok(task) && task_metadata(task, self@, sid@),
            },
    {
        let spec = self.spec(sid)?;
        let mut args: Vec<String> = Vec::new();
        args.push("serve".to_owned());
        args.push("--home".to_owned());
        args.push(self.home.clone());
        args.push("--expected-store".to_owned());
        args.push(self.store_id.to_text());
        Ok(LoginTask { name: spec.name, target: self.host.clone(), args })
    }

    /// Whether the configuration records exactly this login task.
    pub fn matches_metadata(&self, task: &LoginTask, sid: &str) -> (r: Result<bool>)
        ensures
            r == (match login_scope(self@, sid@) {
                Err(e) => Err(e),
                Ok(_) => Ok(task_metadata(*task, self@, sid@)),
            }),
    {
        let expected = self.metadata(sid)?;
        let same = expected.same(task);
        proof {
            assert(same == task_metadata(*task, self@, sid@)) by {
                if same {
                    assert(expected.args@[0]@ == task.args@[0]@);
                    assert(expected.args@[1]@ == task.args@[1]@);
                    assert(expected.args@[2]@ == task.args@[2]@);
                    assert(expected.args@[3]@ == task.args@[3]@);
                    assert(expected.args@[4]@ == task.args@[4]@);
                }
            }
        }
        Ok(same)
    }

    /// Whether the login entry is ready: the store at its place is the registered one, the task exists
    /// exactly as registered (`task`), and the deployed host is the registered one. `same_place` says
    /// that the caller's store lies where the registration says, `deployed` is the path of the deployed
    /// host and `listener` what checking its listener came to.
    pub fn ready(
        &self,
        found: &StoreDescriptor,
        same_place: bool,
        task: Result<bool>,
        deployed: &str,
        listener: Result<()>,
    ) -> (r: Result<bool>)
        ensures
            r == login_ready(self@, *found, same_place, task, deployed@, listener),
    {
        if found.store_id != self.store_id || !text::same(
            found.owner_sid.as_str(),
            self.owner_sid.as_str(),
        ) || !same_place {
            return Err(Error::Invalid("GUARD_LOGIN_STORE_MISMATCH"));
        }
        if !task? {
            return Ok(false);
        }
        if !text::same(deployed, self.host.as_str()) {
            return Err(Error::Invalid("GUARD_LOGIN_REGISTRATION_CHANGED"));
        }
        listener?;
        Ok(true)
    }
}

/// Prepare a login entry for a deployment: the store must be the deployment's, its listener must be
/// registered, and the running release must be the deployed one.
pub fn authorized(
    found: StoreDescriptor,
    deployment_store: Uuid,
    listener: Result<()>,
    release_matches: bool,
    home: String,
    host: String,
    sid: &str,
) -> (r: Result<Registration>)
    ensures
        match authorization(found, deployment_store, listener, release_matches, home@, host@, sid@) {
            Err(e) => r == Err::<Registration, Error>(e),
            Ok(made) => r matches Ok(registration) && registration@ == made,
        },
{
    if found.store_id != deployment_store {
        return Err(Error::Invalid("GUARD_LOGIN_STORE_MISMATCH"));
    }
    listener?;
    if !release_matches {
        return Err(Error::Invalid("GUARD_LISTENER_RELEASE_CONFLICT"));
    }
    let registration = Registration {
        store_id: found.store_id,
        owner_sid: found.owner_sid,
        home,
        host,
    };
    registration.spec(sid)?;
    Ok(registration)
}

} // verus!
