//! The records that a store keeps. Reading them from protected files and writing them back is the
//! caller's work; every rule about what they may hold and how they may change is here.
use std::sync::Arc;
use vstd::prelude::*;
use vstd::string::*;
use crate::config_transaction::{ConfigRecord, config_lookup};
use crate::core_requests::{CoreRequest, core_lookup};
use crate::core_start::Witness;
use crate::core_state::{CoreGeneration, CoreRecord};
use crate::core_update::CoreUpdate;
use crate::error::{Error, Result, invalid};
use crate::ids::Uuid;
use crate::login_journal::{LoginJournal, LoginView, holds_request, login_validity};
use crate::model::{Manifest, contains_id};
use crate::seqs::{first_where, first_where_is, first_where_none};
use crate::text;

verus! {

/// A secret value under its identifier.
#[derive(Debug)]
pub struct Secret {
    pub id: Uuid,
    pub value: String,
}

/// The contents of a secret.
pub struct SecretView {
    pub id: Uuid,
    pub value: Seq<char>,
}

impl View for Secret {
    type V = SecretView;

    open spec fn view(&self) -> SecretView {
        SecretView { id: self.id, value: self.value@ }
    }
}

/// The contents of secrets, in order.
pub open spec fn secret_views(list: Seq<Secret>) -> Seq<SecretView> {
    list.map_values(|secret: Secret| secret@)
}

/// A store: the current configuration and the journals beside it.
///
/// `user_sid` is the account that this program runs as. `config_limit` is the size in bytes of the
/// largest core configuration. `other_ids` are the request identifiers that journals outside this
/// library hold.
pub struct Store {
    pub manifest: Arc<Manifest>,
    pub core: Option<CoreRecord>,
    pub generations: Vec<CoreGeneration>,
    pub update: Option<CoreUpdate>,
    pub core_requests: Vec<CoreRequest>,
    pub config_requests: Vec<ConfigRecord>,
    pub start: Option<Witness>,
    pub login: LoginJournal,
    pub user_sid: String,
    pub secrets: Vec<Secret>,
    pub other_ids: Vec<Uuid>,
    pub config_limit: usize,
}

/// The contents of a store.
pub struct StoreView {
    pub manifest: Manifest,
    pub core: Option<CoreRecord>,
    pub generations: Seq<CoreGeneration>,
    pub update: Option<CoreUpdate>,
    pub core_requests: Seq<CoreRequest>,
    pub config_requests: Seq<ConfigRecord>,
    pub start: Option<Witness>,
    pub login: LoginView,
    pub user_sid: Seq<char>,
    pub secrets: Seq<SecretView>,
    pub other_ids: Seq<Uuid>,
    pub config_limit: usize,
}

impl View for Store {
    type V = StoreView;

    open spec fn view(&self) -> StoreView {
        StoreView {
            manifest: *self.manifest,
            core: self.core,
            generations: self.generations@,
            update: self.update,
            core_requests: self.core_requests@,
            config_requests: self.config_requests@,
            start: self.start,
            login: self.login@,
            user_sid: self.user_sid@,
            secrets: secret_views(self.secrets@),
            other_ids: self.other_ids@,
            config_limit: self.config_limit,
        }
    }
}

/// `std::sync::Arc::clone`: another handle on the same value.
#[verifier::external_body]
pub(crate) fn share(snapshot: &Arc<Manifest>) -> (r: Arc<Manifest>)
    ensures
        r == *snapshot,
{
    Arc::clone(snapshot)
}

/// The journals that hold request identifiers. An identifier belongs to one of them only.
#[derive(Clone, Copy, Debug, PartialEq, Eq, Structural)]
pub enum Journal {
    Config,
    Core,
    Login,
}

/// Whether an identifier is free of every journal but `journal`.
pub open spec fn unused_elsewhere(store: StoreView, id: Uuid, journal: Journal) -> Result<()> {
    if journal != Journal::Config && config_lookup(store, id) is Err {
        Err(config_lookup(store, id)->Err_0)
    } else if journal != Journal::Config && config_lookup(store, id) != Ok::<Option<int>, Error>(
        None,
    ) {
        invalid("REQUEST_ID_CONFLICT")
    } else if journal != Journal::Core && core_lookup(store, id) is Err {
        Err(core_lookup(store, id)->Err_0)
    } else if journal != Journal::Core && core_lookup(store, id) != Ok::<Option<int>, Error>(
        None,
    ) {
        invalid("REQUEST_ID_CONFLICT")
    } else if journal != Journal::Login && login_validity(store) is Err {
        login_validity(store)
    } else if journal != Journal::Login && first_where(store.login.entries, holds_request(id))
        is Some {
        invalid("REQUEST_ID_CONFLICT")
    } else if store.other_ids.contains(id) {
        invalid("REQUEST_ID_CONFLICT")
    } else {
        Ok(())
    }
}

/// Secrets with this identifier.
pub open spec fn secret_id(id: Uuid) -> spec_fn(SecretView) -> bool {
    |secret: SecretView| secret.id == id
}

/// Put a secret that may be put once: putting the same value again changes nothing, and another
/// value under the same identifier is refused.
pub open spec fn secret_put(secrets: Seq<SecretView>, secret: SecretView) -> (
    Seq<SecretView>,
    Result<()>,
) {
    match first_where(secrets, secret_id(secret.id)) {
        None => (secrets.push(secret), Ok(())),
        Some(at) => if secrets[at].value == secret.value {
            (secrets, Ok(()))
        } else {
            (secrets, invalid("SECRET_ID_CONFLICT"))
        },
    }
}

/// Put secrets in order, up to the first that is refused.
pub open spec fn secrets_put(secrets: Seq<SecretView>, list: Seq<SecretView>) -> (
    Seq<SecretView>,
    Result<()>,
)
    decreases list.len(),
{
    if list.len() == 0 {
        (secrets, Ok(()))
    } else {
        let (front, result) = secrets_put(secrets, list.drop_last());
        if result is Err {
            (front, result)
        } else {
            secret_put(front, list.last())
        }
    }
}

proof fn secrets_put_stops(secrets: Seq<SecretView>, list: Seq<SecretView>, n: int)
    requires
        0 <= n <= list.len(),
        secrets_put(secrets, list.take(n)).1 is Err,
    ensures
        secrets_put(secrets, list) == secrets_put(secrets, list.take(n)),
    decreases list.len() - n,
{
    if n == list.len() {
        assert(list.take(n) =~= list);
    } else {
        assert(list.take(n + 1).drop_last() =~= list.take(n));
        secrets_put_stops(secrets, list, n + 1);
    }
}

/// A secret that was put stays as it was put: whatever is put later, the first value under an
/// identifier is the one that is read.
pub proof fn secrets_are_immutable(secrets: Seq<SecretView>, secret: SecretView, id: Uuid)
    requires
        first_where(secrets, secret_id(id)) is Some,
    ensures
        ({
            let (after, _) = secret_put(secrets, secret);
            first_where(after, secret_id(id)) == first_where(secrets, secret_id(id)) && after[
            first_where(secrets, secret_id(id))->0] == secrets[
            first_where(secrets, secret_id(id))->0]
        }),
{
    crate::seqs::first_where_found(secrets, secret_id(id));
    let at = first_where(secrets, secret_id(id))->0;
    let (after, _) = secret_put(secrets, secret);
    assert(after[at] == secrets[at]);
    assert forall|k: int| 0 <= k < at implies !secret_id(id)(#[trigger] after[k]) by {
        assert(after[k] == secrets[k]);
    }
    first_where_is(after, secret_id(id), at);
}

impl Store {
    /// Refuse an identifier that a journal other than `journal` holds.
    pub fn ensure_request_id_unused_elsewhere(&self, id: Uuid, journal: Journal) -> (r: Result<()>)
        ensures
            r == unused_elsewhere(self@, id, journal),
    {
        if journal != Journal::Config {
            if self.find_config_request(id)?.is_some() {
                return Err(Error::Invalid("REQUEST_ID_CONFLICT"));
            }
        }
        if journal != Journal::Core {
            if self.find_core_request(id)?.is_some() {
                return Err(Error::Invalid("REQUEST_ID_CONFLICT"));
            }
        }
        if journal != Journal::Login {
            if self.find_login_request(id)?.is_some() {
                return Err(Error::Invalid("REQUEST_ID_CONFLICT"));
            }
        }
        if contains_id(self.other_ids.as_slice(), id) {
            return Err(Error::Invalid("REQUEST_ID_CONFLICT"));
        }
        Ok(())
    }

    /// Put a secret that may be put once.
    pub fn put_secret_once(&mut self, id: Uuid, value: &str) -> (r: Result<()>)
        ensures
            final(self)@ == (StoreView {
                secrets: secret_put(old(self)@.secrets, SecretView { id, value: value@ }).0,
                ..old(self)@
            }),
            r == secret_put(old(self)@.secrets, SecretView { id, value: value@ }).1,
    {
        let ghost views = self@.secrets;
        let mut at: usize = 0;
        while at < self.secrets.len() && self.secrets[at].id != id
            invariant
                at <= self.secrets.len(),
                views == self@.secrets,
                forall|k: int| 0 <= k < at ==> !secret_id(id)(#[trigger] views[k]),
            decreases self.secrets.len() - at,
        {
            proof {
                assert(views[at as int].id == self.secrets@[at as int].id);
            }
            at += 1;
        }
        if at == self.secrets.len() {
            proof {
                first_where_none(views, secret_id(id));
            }
            self.secrets.push(Secret { id, value: value.to_owned() });
            proof {
                assert(self@.secrets =~= views.push(SecretView { id, value: value@ }));
            }
            return Ok(());
        }
        proof {
            assert(views[at as int].id == self.secrets@[at as int].id);
            first_where_is(views, secret_id(id), at as int);
        }
        if text::same(self.secrets[at].value.as_str(), value) {
            Ok(())
        } else {
            Err(Error::Invalid("SECRET_ID_CONFLICT"))
        }
    }

    /// The value of a secret.
    pub fn read_secret(&self, id: Uuid) -> (r: Option<String>)
        ensures
            match first_where(self@.secrets, secret_id(id)) {
                Some(at) => r matches Some(value) && value@ == self@.secrets[at].value,
                None => r is None,
            },
    {
        let ghost views = self@.secrets;
        let mut at: usize = 0;
        while at < self.secrets.len() && self.secrets[at].id != id
            invariant
                at <= self.secrets.len(),
                views == self@.secrets,
                forall|k: int| 0 <= k < at ==> !secret_id(id)(#[trigger] views[k]),
            decreases self.secrets.len() - at,
        {
            proof {
                assert(views[at as int].id == self.secrets@[at as int].id);
            }
            at += 1;
        }
        if at == self.secrets.len() {
            proof {
                first_where_none(views, secret_id(id));
            }
            return None;
        }
        proof {
            assert(views[at as int].id == self.secrets@[at as int].id);
            first_where_is(views, secret_id(id), at as int);
        }
        Some(self.secrets[at].value.clone())
    }

    pub(crate) fn put_secrets(&mut self, list: Vec<Secret>) -> (r: Result<()>)
        ensures
            final(self)@ == (StoreView {
                secrets: secrets_put(
                    old(self)@.secrets,
                    secret_views(list@),
                ).0,
                ..old(self)@
            }),
            r == secrets_put(old(self)@.secrets, secret_views(list@)).1,
    {
        let ghost before = self@;
        let ghost views = secret_views(list@);
        let mut i: usize = 0;
        while i < list.len()
            invariant
                i <= list.len(),
                views == secret_views(list@),
                before == old(self)@,
                self@ == (StoreView {
                    secrets: secrets_put(before.secrets, views.take(i as int)).0,
                    ..before
                }),
                secrets_put(before.secrets, views.take(i as int)).1 == Ok::<(), Error>(()),
            decreases list.len() - i,
        {
            proof {
                assert(views.take(i + 1).drop_last() =~= views.take(i as int));
                assert(views.take(i + 1).last() == list@[i as int]@);
            }
            match self.put_secret_once(list[i].id, list[i].value.as_str()) {
                Ok(_) => {},
                Err(e) => {
                    proof {
                        secrets_put_stops(before.secrets, views, i + 1);
                    }
                    return Err(e);
                },
            }
            i += 1;
        }
        proof {
            assert(views.take(views.len() as int) =~= views);
        }
        Ok(())
    }
}

/// An identifier that one journal holds is refused by every other journal.
pub proof fn identifiers_belong_to_one_journal(store: StoreView, id: Uuid)
    ensures
        config_lookup(store, id) matches Ok(Some(_)) ==> unused_elsewhere(store, id, Journal::Core)
            is Err && unused_elsewhere(store, id, Journal::Login) is Err,
        core_lookup(store, id) matches Ok(Some(_)) ==> unused_elsewhere(store, id, Journal::Config)
            is Err && unused_elsewhere(store, id, Journal::Login) is Err,
        first_where(store.login.entries, holds_request(id)) is Some ==> unused_elsewhere(
            store,
            id,
            Journal::Config,
        ) is Err && unused_elsewhere(store, id, Journal::Core) is Err,
{
}

} // verus!
