//! Where the data of an isolated instance lies. Only directories that this program has marked are used;
//! an application's own data is never taken over.
use vstd::prelude::*;
use vstd::string::*;
use crate::error::{Error, Result, invalid};
use crate::ids::Uuid;
use crate::installation::Package;
use crate::model::{Application, ApplicationLocator, Instance, InstanceData, Manifest, StorageLocation};
use crate::path;
use crate::path::{last_component, parent_path, pushed};
use crate::seqs::{first_where, first_where_is, first_where_none};
use crate::text;

verus! {

/// The mark of a directory: whose it is, and what it is for.
#[derive(Debug)]
pub struct DataOwner {
    pub format: String,
    pub schema_version: u32,
    pub owner_sid: String,
    pub store_id: Option<Uuid>,
    pub instance_id: Option<Uuid>,
    pub package_family: Option<String>,
}

/// The contents of a mark.
pub struct OwnerView {
    pub format: Seq<char>,
    pub schema_version: u32,
    pub owner_sid: Seq<char>,
    pub store_id: Option<Uuid>,
    pub instance_id: Option<Uuid>,
    pub package_family: Option<Seq<char>>,
}

impl View for DataOwner {
    type V = OwnerView;

    open spec fn view(&self) -> OwnerView {
        OwnerView {
            format: self.format@,
            schema_version: self.schema_version,
            owner_sid: self.owner_sid@,
            store_id: self.store_id,
            instance_id: self.instance_id,
            package_family: text::option_view(self.package_family),
        }
    }
}

/// The mark of a directory of `owner`.
pub open spec fn mark(
    owner: Seq<char>,
    store_id: Option<Uuid>,
    instance_id: Option<Uuid>,
    package_family: Option<Seq<char>>,
) -> OwnerView {
    OwnerView {
        format: "app-proxy-rust-data"@,
        schema_version: 1,
        owner_sid: owner,
        store_id,
        instance_id,
        package_family,
    }
}

fn make_mark(
    owner: &str,
    store_id: Option<Uuid>,
    instance_id: Option<Uuid>,
    package_family: Option<&str>,
) -> (r: DataOwner)
    ensures
        r@ == mark(
            owner@,
            store_id,
            instance_id,
            (match package_family {
                Some(family) => Some(family@),
                None => None,
            }),
        ),
{
    DataOwner {
        format: "app-proxy-rust-data".to_owned(),
        schema_version: 1,
        owner_sid: owner.to_owned(),
        store_id,
        instance_id,
        package_family: match package_family {
            Some(family) => Some(family.to_owned()),
            None => None,
        },
    }
}

fn same_id(a: Option<Uuid>, b: Option<Uuid>) -> (r: bool)
    ensures
        r == (a == b),
{
    match (a, b) {
        (Some(x), Some(y)) => x == y,
        (None, None) => true,
        _ => false,
    }
}

impl DataOwner {
    /// Whether two marks are equal.
    pub fn same(&self, other: &DataOwner) -> (r: bool)
        ensures
            r == (self@ == other@),
    {
        self.schema_version == other.schema_version && same_id(self.store_id, other.store_id)
            && same_id(self.instance_id, other.instance_id) && text::same(
            self.format.as_str(),
            other.format.as_str(),
        ) && text::same(self.owner_sid.as_str(), other.owner_sid.as_str()) && text::same_option(
            &self.package_family,
            &other.package_family,
        )
    }
}

/// One directory on the way to the data: it has to exist and is left alone, it has to exist and be the
/// owner's alone, it is claimed by a mark, or it is a plain directory of the owner inside a claimed one.
#[derive(Debug)]
pub enum DataStep {
    Existing { path: String },
    Owned { path: String },
    Claim { path: String, owner: DataOwner },
    Plain { path: String },
}

/// The contents of a step.
pub enum StepView {
    Existing { path: Seq<char> },
    Owned { path: Seq<char> },
    Claim { path: Seq<char>, owner: OwnerView },
    Plain { path: Seq<char> },
}

impl View for DataStep {
    type V = StepView;

    open spec fn view(&self) -> StepView {
        match self {
            DataStep::Existing { path } => StepView::Existing { path: path@ },
            DataStep::Owned { path } => StepView::Owned { path: path@ },
            DataStep::Claim { path, owner } => StepView::Claim { path: path@, owner: owner@ },
            DataStep::Plain { path } => StepView::Plain { path: path@ },
        }
    }
}

/// The contents of steps, in order.
pub open spec fn step_views(steps: Seq<DataStep>) -> Seq<StepView> {
    steps.map_values(|step: DataStep| step@)
}

/// The directories of an isolated instance.
#[derive(Debug)]
pub struct IsolatedPaths {
    pub root: String,
    pub user_data: String,
    pub app_home: String,
}

/// The directories on the way to an instance's data, and those that it works on.
#[derive(Debug)]
pub struct DataPlan {
    pub steps: Vec<DataStep>,
    pub paths: IsolatedPaths,
}

/// The directory in which a package keeps its own state.
pub open spec fn local_state(local: Seq<char>, family: Seq<char>) -> Seq<char> {
    pushed(pushed(pushed(local, "Packages"@), family), "LocalState"@)
}

/// Instances with this identifier.
pub open spec fn with_instance_id(id: Uuid) -> spec_fn(Instance) -> bool {
    |instance: Instance| instance.id == id
}

/// Applications with this identifier.
pub open spec fn with_application_id(id: Uuid) -> spec_fn(Application) -> bool {
    |application: Application| application.id == id
}

/// The package that was found is the one that the application names; an application without a package needs
/// none.
pub open spec fn package_fits(locator: ApplicationLocator, package: Option<Package>) -> bool {
    match (locator, package) {
        (ApplicationLocator::Exe { .. }, None) => true,
        (ApplicationLocator::Msix { family_name, app_id }, Some(found)) => found.family_name@
            == family_name@ && found.app_id@ == app_id@,
        _ => false,
    }
}

/// Where an instance's data lies, or why it cannot be used: `Ok(None)` says that the instance works on the
/// application's own data.
pub open spec fn data_location(
    manifest: Manifest,
    instance_id: Uuid,
    package: Option<Package>,
) -> Result<Option<StorageLocation>> {
    match first_where(manifest.instances@, with_instance_id(instance_id)) {
        None => invalid("INSTANCE_NOT_FOUND"),
        Some(at) => match manifest.instances@[at].data {
            InstanceData::Original => Ok(None),
            InstanceData::Isolated { location } => match first_where(
                manifest.applications@,
                with_application_id(manifest.instances@[at].application_id),
            ) {
                None => invalid("APPLICATION_NOT_FOUND"),
                Some(place) => if !package_fits(manifest.applications@[place].locator, package) {
                    invalid("INSTANCE_PACKAGE_MISMATCH")
                } else if location is Store && package is Some && package->0.isolated_storage {
                    invalid("PACKAGE_STORAGE_MODE_CHANGED")
                } else {
                    Ok(Some(location))
                },
            },
        },
    }
}

/// The steps that lead to the base of an instance's data, the base, and the path below it.
pub open spec fn base_steps(
    manifest: Manifest,
    root: Seq<char>,
    local: Seq<char>,
    location: StorageLocation,
) -> (Seq<StepView>, Seq<char>, Seq<char>, Option<Seq<char>>) {
    let owner = manifest.owner_sid@;
    match location {
        StorageLocation::Store { relative_path } => (
            seq![StepView::Owned { path: root }],
            root,
            relative_path@,
            None,
        ),
        StorageLocation::PackageLocalState { family_name, namespace, relative_path } => {
            let state = local_state(local, family_name@);
            let container = pushed(state, "AppProxy"@);
            let base = pushed(container, namespace@);
            (
                seq![
                    StepView::Existing { path: state },
                    StepView::Claim {
                        path: container,
                        owner: mark(owner, None, None, Some(family_name@)),
                    },
                    StepView::Claim {
                        path: base,
                        owner: mark(owner, Some(manifest.store_id), None, Some(family_name@)),
                    },
                ],
                base,
                relative_path@,
                Some(family_name@),
            )
        },
    }
}

/// All steps that lead to an instance's data.
pub open spec fn data_steps(
    manifest: Manifest,
    instance_id: Uuid,
    root: Seq<char>,
    local: Seq<char>,
    location: StorageLocation,
) -> Seq<StepView> {
    let (first, base, relative, family) = base_steps(manifest, root, local, location);
    let place = pushed(base, relative);
    first + seq![
        StepView::Plain { path: pushed(base, "instances"@) },
        StepView::Claim {
            path: place,
            owner: mark(
                manifest.owner_sid@,
                Some(manifest.store_id),
                Some(instance_id),
                family,
            ),
        },
        StepView::Plain { path: pushed(place, "user-data"@) },
        StepView::Plain { path: pushed(place, "app-home"@) },
    ]
}

fn find_location<'a>(
    manifest: &'a Manifest,
    instance_id: Uuid,
    package: Option<&Package>,
) -> (r: Result<Option<&'a StorageLocation>>)
    ensures
        match (
            r,
            data_location(*manifest, instance_id, lent(package)),
        ) {
            (Ok(Some(found)), Ok(Some(location))) => *found == location,
            (Ok(None), Ok(None)) => true,
            (Err(e), Err(f)) => e == f,
            _ => false,
        },
{
    let mut at: usize = 0;
    while at < manifest.instances.len() && manifest.instances[at].id != instance_id
        invariant
            at <= manifest.instances.len(),
            forall|k: int|
                0 <= k < at ==> !with_instance_id(instance_id)(#[trigger] manifest.instances@[k]),
        decreases manifest.instances.len() - at,
    {
        at += 1;
    }
    if at == manifest.instances.len() {
        proof {
            first_where_none(manifest.instances@, with_instance_id(instance_id));
        }
        return Err(Error::Invalid("INSTANCE_NOT_FOUND"));
    }
    proof {
        first_where_is(manifest.instances@, with_instance_id(instance_id), at as int);
    }
    let application_id = manifest.instances[at].application_id;
    let location = match &manifest.instances[at].data {
        InstanceData::Original => {
            return Ok(None);
        },
        InstanceData::Isolated { location } => location,
    };
    let mut place: usize = 0;
    while place < manifest.applications.len() && manifest.applications[place].id != application_id
        invariant
            place <= manifest.applications.len(),
            forall|k: int|
                0 <= k < place ==> !with_application_id(application_id)(
                    #[trigger] manifest.applications@[k],
                ),
        decreases manifest.applications.len() - place,
    {
        place += 1;
    }
    if place == manifest.applications.len() {
        proof {
            first_where_none(manifest.applications@, with_application_id(application_id));
        }
        return Err(Error::Invalid("APPLICATION_NOT_FOUND"));
    }
    proof {
        first_where_is(manifest.applications@, with_application_id(application_id), place as int);
    }
    let fits = match (&manifest.applications[place].locator, package) {
        (ApplicationLocator::Exe { .. }, None) => true,
        (ApplicationLocator::Msix { family_name, app_id }, Some(found)) => text::same(
            found.family_name.as_str(),
            family_name.as_str(),
        ) && text::same(found.app_id.as_str(), app_id.as_str()),
        _ => false,
    };
    if !fits {
        return Err(Error::Invalid("INSTANCE_PACKAGE_MISMATCH"));
    }
    match package {
        Some(found) => {
            if found.isolated_storage && matches!(location, StorageLocation::Store { .. }) {
                return Err(Error::Invalid("PACKAGE_STORAGE_MODE_CHANGED"));
            }
        },
        None => {},
    }
    Ok(Some(location))
}

/// The package that was found, when it is borrowed.
pub open spec fn lent(package: Option<&Package>) -> Option<Package> {
    match package {
        Some(found) => Some(*found),
        None => None,
    }
}

/// Whether the user's local application data has to be asked for: only for data that lies in a package's own
/// state, and only once nothing speaks against using it.
pub fn needs_local_folder(manifest: &Manifest, instance_id: Uuid, package: Option<&Package>) -> (r:
    Result<bool>)
    ensures
        r == (match data_location(*manifest, instance_id, lent(package)) {
            Err(e) => Err(e),
            Ok(None) => Ok(false),
            Ok(Some(location)) => Ok(location is PackageLocalState),
        }),
{
    match find_location(manifest, instance_id, package)? {
        Some(location) => Ok(matches!(location, StorageLocation::PackageLocalState { .. })),
        None => Ok(false),
    }
}

/// The text of a folder that was found, or nothing.
pub open spec fn folder_text(folder: Result<&str>) -> Seq<char> {
    match folder {
        Ok(found) => found@,
        Err(_) => Seq::empty(),
    }
}

/// What asking for the directories of an instance's data comes to.
pub open spec fn accessed(
    manifest: Manifest,
    root: Seq<char>,
    instance_id: Uuid,
    package: Option<Package>,
    local: Result<&str>,
    r: Result<Option<DataPlan>>,
) -> bool {
    match data_location(manifest, instance_id, package) {
        Err(e) => r == Err::<Option<DataPlan>, Error>(e),
        Ok(None) => r == Ok::<Option<DataPlan>, Error>(None),
        Ok(Some(location)) => if location is PackageLocalState && local is Err {
            r == Err::<Option<DataPlan>, Error>(local->Err_0)
        } else {
            r matches Ok(Some(plan)) && {
                let (_, base, relative, _) = base_steps(
                    manifest,
                    root,
                    folder_text(local),
                    location,
                );
                let place = pushed(base, relative);
                step_views(plan.steps@) == data_steps(
                    manifest,
                    instance_id,
                    root,
                    folder_text(local),
                    location,
                ) && plan.paths.root@ == place && plan.paths.user_data@ == pushed(place, "user-data"@)
                    && plan.paths.app_home@ == pushed(place, "app-home"@)
            }
        },
    }
}

/// The directories on the way to an instance's data. Nothing is decided about them here; the caller makes
/// sure of each in order, creating what is missing only if it is to prepare the data. `root` is the place of
/// the store, `local` what asking for the user's local application data came to; it is not looked at unless it is
/// needed.
pub fn access_instance_data(
    manifest: &Manifest,
    root: &str,
    instance_id: Uuid,
    package: Option<&Package>,
    local: Result<&str>,
) -> (r: Result<Option<DataPlan>>)
    ensures
        accessed(*manifest, root@, instance_id, lent(package), local, r),
{
    let location = match find_location(manifest, instance_id, package)? {
        Some(location) => location,
        None => {
            return Ok(None);
        },
    };
    let folder = match local {
        Ok(folder) => folder,
        Err(error) => {
            if matches!(location, StorageLocation::PackageLocalState { .. }) {
                return Err(error);
            }
            ""
        },
    };
    proof {
        reveal_strlit("");
        assert(folder@ =~= folder_text(local));
    }
    let owner = manifest.owner_sid.as_str();
    let store = Some(manifest.store_id);
    let mut steps: Vec<DataStep> = Vec::new();
    let ghost wanted = data_steps(*manifest, instance_id, root@, folder@, *location);
    let ghost first = base_steps(*manifest, root@, folder@, *location).0;
    let (base, relative, family) = match location {
        StorageLocation::Store { relative_path } => {
            steps.push(DataStep::Owned { path: root.to_owned() });
            (root.to_owned(), relative_path.clone(), None)
        },
        StorageLocation::PackageLocalState { family_name, namespace, relative_path } => {
            let state = path::push(
                path::push(path::push(folder, "Packages").as_str(), family_name.as_str()).as_str(),
                "LocalState",
            );
            let container = path::push(state.as_str(), "AppProxy");
            let base = path::push(container.as_str(), namespace.as_str());
            steps.push(DataStep::Existing { path: state });
            steps.push(
                DataStep::Claim {
                    path: container,
                    owner: make_mark(owner, None, None, Some(family_name.as_str())),
                },
            );
            steps.push(
                DataStep::Claim {
                    path: base.clone(),
                    owner: make_mark(owner, store, None, Some(family_name.as_str())),
                },
            );
            (base, relative_path.clone(), Some(family_name.as_str()))
        },
    };
    proof {
        assert(step_views(steps@) =~= first);
    }
    let place = path::push(base.as_str(), relative.as_str());
    let user_data = path::push(place.as_str(), "user-data");
    let app_home = path::push(place.as_str(), "app-home");
    steps.push(DataStep::Plain { path: path::push(base.as_str(), "instances") });
    steps.push(
        DataStep::Claim {
            path: place.clone(),
            owner: make_mark(owner, store, Some(instance_id), family),
        },
    );
    steps.push(DataStep::Plain { path: user_data.clone() });
    steps.push(DataStep::Plain { path: app_home.clone() });
    proof {
        assert(step_views(steps@) =~= wanted);
    }
    Ok(Some(DataPlan { steps, paths: IsolatedPaths { root: place, user_data, app_home } }))
}

/// The application's own directory is never claimed: whatever the location, the first step is a directory
/// that has to exist, and where a package keeps its own state it is left alone.
pub proof fn first_directory_is_left_alone(
    manifest: Manifest,
    instance_id: Uuid,
    root: Seq<char>,
    local: Seq<char>,
    location: StorageLocation,
)
    ensures
        match (location, data_steps(manifest, instance_id, root, local, location)[0]) {
            (StorageLocation::Store { .. }, StepView::Owned { path }) => path == root,
            (StorageLocation::PackageLocalState { family_name, .. }, StepView::Existing { path }) => path
                == local_state(local, family_name@),
            _ => false,
        },
{
}

/// What to do about a directory that is to be claimed.
#[derive(Clone, Copy, Debug, PartialEq, Eq, Structural)]
pub enum ClaimStep {
    Create,
    Verify,
}

/// Decide about a directory that is to be claimed: it is created only where nothing is, and only to prepare
/// data; otherwise its mark decides.
pub fn claim(create: bool, exists: bool) -> (r: ClaimStep)
    ensures
        r == (if create && !exists {
            ClaimStep::Create
        } else {
            ClaimStep::Verify
        }),
{
    if create && !exists {
        ClaimStep::Create
    } else {
        ClaimStep::Verify
    }
}

/// Check the mark of a directory.
pub fn check_mark(actual: &DataOwner, expected: &DataOwner) -> (r: Result<()>)
    ensures
        r == (if actual@ == expected@ {
            Ok(())
        } else {
            invalid::<()>("INSTANCE_DATA_OWNER_MISMATCH")
        }),
{
    if !actual.same(expected) {
        return Err(Error::Invalid("INSTANCE_DATA_OWNER_MISMATCH"));
    }
    Ok(())
}

/// A name that is one component of a path.
pub open spec fn one_component(name: Seq<char>) -> bool {
    last_component(name) == Some(name)
}

/// The steps that lead to the state directory through which packaged programs are controlled, and that
/// directory.
pub open spec fn control_steps(
    owner: Seq<char>,
    store_id: Uuid,
    root: Seq<char>,
    local: Seq<char>,
    package: Package,
) -> (Seq<StepView>, Seq<char>) {
    let existing = seq![StepView::Existing { path: root }];
    if package.isolated_storage {
        let state = local_state(local, package.family_name@);
        let container = pushed(state, "AppProxy"@);
        let base = pushed(container, store_id.text());
        let place = pushed(base, "state"@);
        (
            existing + seq![
                StepView::Existing { path: state },
                StepView::Claim {
                    path: container,
                    owner: mark(owner, None, None, Some(package.family_name@)),
                },
                StepView::Claim {
                    path: base,
                    owner: mark(owner, Some(store_id), None, Some(package.family_name@)),
                },
                StepView::Plain { path: place },
            ],
            place,
        )
    } else {
        let place = pushed(root, "state"@);
        (existing + seq![StepView::Plain { path: place }], place)
    }
}

/// The directories on the way to the state directory through which packaged programs are controlled. `local` is
/// what asking for the user's local application data came to; it is not looked at unless it is needed.
pub fn prepare_package_control(
    owner: &str,
    store_id: Uuid,
    root: &str,
    local: Result<&str>,
    package: &Package,
) -> (r: Result<(Vec<DataStep>, String)>)
    ensures
        if package.isolated_storage && !one_component(package.family_name@) {
            r == invalid::<(Vec<DataStep>, String)>("INVALID_PACKAGE_LOCATOR")
        } else if package.isolated_storage && local is Err {
            r == Err::<(Vec<DataStep>, String), Error>(local->Err_0)
        } else {
            r matches Ok((steps, place)) && (step_views(steps@), place@) == control_steps(
                owner@,
                store_id,
                root@,
                folder_text(local),
                *package,
            )
        },
{
    let family = package.family_name.as_str();
    let mut steps: Vec<DataStep> = Vec::new();
    steps.push(DataStep::Existing { path: root.to_owned() });
    let base = if package.isolated_storage {
        let single = match path::file_name(family) {
            Some(name) => text::same(name.as_str(), family),
            None => false,
        };
        if !single {
            return Err(Error::Invalid("INVALID_PACKAGE_LOCATOR"));
        }
        let local = local?;
        let state = path::push(path::push(path::push(local, "Packages").as_str(), family).as_str(), "LocalState");
        let container = path::push(state.as_str(), "AppProxy");
        let base = path::push(container.as_str(), store_id.to_text().as_str());
        steps.push(DataStep::Existing { path: state });
        steps.push(
            DataStep::Claim {
                path: container,
                owner: make_mark(owner, None, None, Some(family)),
            },
        );
        steps.push(
            DataStep::Claim {
                path: base.clone(),
                owner: make_mark(owner, Some(store_id), None, Some(family)),
            },
        );
        base
    } else {
        root.to_owned()
    };
    let place = path::push(base.as_str(), "state");
    steps.push(DataStep::Plain { path: place.clone() });
    proof {
        assert(step_views(steps@) =~= control_steps(
            owner@,
            store_id,
            root@,
            folder_text(local),
            *package,
        ).0);
    }
    Ok((steps, place))
}

/// Stores of one user never share a marked control directory, even for the same package.
pub proof fn control_directories_are_separate(
    owner: Seq<char>,
    a: Uuid,
    b: Uuid,
    root_a: Seq<char>,
    root_b: Seq<char>,
    local: Seq<char>,
    package: Package,
)
    requires
        package.isolated_storage,
        control_steps(owner, a, root_a, local, package).0[3] is Claim,
        control_steps(owner, a, root_a, local, package).0[3]->Claim_path == control_steps(
            owner,
            b,
            root_b,
            local,
            package,
        ).0[3]->Claim_path,
    ensures
        a == b,
{
    let container = pushed(local_state(local, package.family_name@), "AppProxy"@);
    plain_identifier(a);
    plain_identifier(b);
    path::plain_names_are_appended(container, a.text());
    path::plain_names_are_appended(container, b.text());
    let front = path::front(container);
    assert((front + a.text()).skip(front.len() as int) =~= a.text());
    assert((front + b.text()).skip(front.len() as int) =~= b.text());
    crate::ids::uuid_text_injective(a.bits, b.bits);
}

proof fn plain_identifier(id: Uuid)
    ensures
        path::plain_name(id.text()),
{
    crate::ids::uuid_text_plain(id.bits);
    let name = id.text();
    assert(name[1] == '-' || text::lower_hex_char(name[1]));
    assert(name.len() == 36);
    assert forall|i: int| 0 <= i < name.len() implies name[i] != '\\' && name[i] != '/' by {
        assert(name[i] == '-' || text::lower_hex_char(name[i]));
    }
}

/// A path that has the form of a control directory's base: the store below this program's directory below
/// the package's own state.
pub open spec fn control_form(base: Seq<char>, store_id: Uuid, family: Seq<char>) -> bool {
    match parent_path(base) {
        None => false,
        Some(container) => match parent_path(container) {
            None => false,
            Some(local) => last_component(base) == Some(store_id.text()) && last_component(
                container,
            ) == Some("AppProxy"@) && last_component(local) == Some("LocalState"@) && match parent_path(
                local,
            ) {
                None => false,
                Some(package) => last_component(package) == Some(family),
            },
        },
    }
}

fn is_named(found: Option<String>, name: &str) -> (r: bool)
    ensures
        r == (text::option_view(found) == Some(name@)),
{
    match found {
        Some(found) => text::same(found.as_str(), name),
        None => false,
    }
}

/// Check that a path has the form of a control directory's base, and tell the directory above it.
pub fn check_control_path(base: &str, store_id: Uuid, family: &str) -> (r: Result<String>)
    ensures
        if control_form(base@, store_id, family@) {
            r matches Ok(container) && Some(container@) == parent_path(base@)
        } else {
            r == invalid::<String>("PACKAGE_CONTROL_PATH_INVALID")
        },
{
    let container = match path::parent(base) {
        Some(container) => container,
        None => {
            return Err(Error::Invalid("PACKAGE_CONTROL_PATH_INVALID"));
        },
    };
    let local = match path::parent(container.as_str()) {
        Some(local) => local,
        None => {
            return Err(Error::Invalid("PACKAGE_CONTROL_PATH_INVALID"));
        },
    };
    let package = match path::parent(local.as_str()) {
        Some(package) => path::file_name(package.as_str()),
        None => None,
    };
    if !is_named(path::file_name(base), store_id.to_text().as_str()) || !is_named(
        path::file_name(container.as_str()),
        "AppProxy",
    ) || !is_named(path::file_name(local.as_str()), "LocalState") || !is_named(package, family) {
        return Err(Error::Invalid("PACKAGE_CONTROL_PATH_INVALID"));
    }
    Ok(container)
}

/// Check the two marks of a control directory: that of this program's directory, which all stores share, and
/// that of the store.
pub fn verify_package_control(
    container: &DataOwner,
    base: &DataOwner,
    store_id: Uuid,
    sid: &str,
    family: &str,
) -> (r: Result<()>)
    ensures
        control_verified(container@, base@, store_id, sid@, family@, r),
{
    if !container.same(&make_mark(sid, None, None, Some(family))) || !base.same(
        &make_mark(sid, Some(store_id), None, Some(family)),
    ) {
        return Err(Error::Invalid("PACKAGE_CONTROL_OWNER_MISMATCH"));
    }
    Ok(())
}

/// The path of the user's local application data from what the system reports.
pub fn local_app_data(status: i32, units: &[u16]) -> (r: Result<String>)
    ensures
        folder_read(status, units@, r),
{
    if status < 0 {
        return Err(
            Error::Windows {
                operation: "GetLocalAppData",
                code: crate::guard_deployment::status_code(status),
            },
        );
    }
    match text::from_utf16(units) {
        None => Err(Error::Invalid("NON_UNICODE_LOCAL_APP_DATA")),
        Some(path) => {
            proof {
                assert(text::is_utf16(units@));
            }
            if !path::is_absolute(path.as_str()) {
                proof {
                    assert forall|other: Seq<char>| #[trigger] text::utf16(other)
                        == units@ implies !path::absolute(other) by {
                        text::utf16_injective(other, path@);
                    }
                }
                return Err(Error::Invalid("LOCAL_APP_DATA_NOT_ABSOLUTE"));
            }
            Ok(path)
        },
    }
}

/// Whether the marks are those of the store's own control directories.
pub open spec fn control_verified(
    container: OwnerView,
    base: OwnerView,
    store_id: Uuid,
    sid: Seq<char>,
    family: Seq<char>,
    r: Result<()>,
) -> bool {
    r == (if container == mark(sid, None, None, Some(family)) && base == mark(
        sid,
        Some(store_id),
        None,
        Some(family),
    ) {
        Ok(())
    } else {
        invalid::<()>("PACKAGE_CONTROL_OWNER_MISMATCH")
    })
}

/// The folder for local data, or why there is none.
pub open spec fn folder_read(status: i32, units: Seq<u16>, r: Result<String>) -> bool {
    match r {
        Ok(path) => status >= 0 && text::utf16(path@) == units && path::absolute(path@),
        Err(e) => if status < 0 {
            e == (Error::Windows { operation: "GetLocalAppData", code: status as u32 })
        } else if !text::is_utf16(units) {
            e == Error::Invalid("NON_UNICODE_LOCAL_APP_DATA")
        } else {
            e == Error::Invalid("LOCAL_APP_DATA_NOT_ABSOLUTE") && forall|path: Seq<char>|
                #[trigger] text::utf16(path) == units ==> !path::absolute(path)
        },
    }
}

} // verus!
