//! Where the data of instances lies, in terms of what the configuration records of them.
use vstd::prelude::*;
use vstd::string::*;
use crate::error::{Result, invalid};
use crate::ids::Uuid;
use crate::installation::Package;
use crate::instance_data::{DataPlan, OwnerView, StepView, accessed, data_location, step_views, with_application_id, with_instance_id};
use crate::model::{ApplicationLocator, InstanceData, Manifest, StorageLocation};
use crate::path::{front, plain_name, plain_names_are_appended, prefix, pushed, two_names_are_appended, verbatim};
use crate::seqs::first_where;

verus! {

/// Instance `at` of a configuration is the first with this identifier, and application `place` the first with the
/// identifier that the instance names.
pub open spec fn recorded_at(manifest: Manifest, id: Uuid, at: int, place: int) -> bool {
    &&& 0 <= at < manifest.instances@.len() && manifest.instances@[at].id == id
    &&& forall|k: int| 0 <= k < at ==> (#[trigger] manifest.instances@[k]).id != id
    &&& 0 <= place < manifest.applications@.len() && manifest.applications@[place].id
        == manifest.instances@[at].application_id
    &&& forall|k: int|
        0 <= k < place ==> (#[trigger] manifest.applications@[k]).id != manifest.instances@[at].application_id
}

proof fn found_at(manifest: Manifest, id: Uuid, at: int, place: int)
    requires
        recorded_at(manifest, id, at, place),
    ensures
        first_where(manifest.instances@, with_instance_id(id)) == Some(at),
        first_where(
            manifest.applications@,
            with_application_id(manifest.instances@[at].application_id),
        ) == Some(place),
{
    let instance = with_instance_id(id);
    let application = with_application_id(manifest.instances@[at].application_id);
    assert forall|k: int| 0 <= k < at implies !instance(#[trigger] manifest.instances@[k]) by {}
    crate::seqs::first_where_is(manifest.instances@, instance, at);
    assert forall|k: int| 0 <= k < place implies !application(#[trigger] manifest.applications@[k]) by {}
    crate::seqs::first_where_is(manifest.applications@, application, place);
}

/// The package that was found is the application's own.
pub open spec fn own_package(locator: ApplicationLocator, package: Option<Package>) -> bool {
    match locator {
        ApplicationLocator::Exe { .. } => package is None,
        ApplicationLocator::Msix { family_name, app_id } => package is Some && package->0.family_name@
            == family_name@ && package->0.app_id@ == app_id@,
    }
}

/// An instance works on what its entry records: on the application's own data, or on the isolated data at the recorded
/// location. Isolated data is refused for a package that is not the application's, and data in the store for a
/// package that would see other files there.
pub proof fn data_lies_where_it_is_recorded(
    manifest: Manifest,
    id: Uuid,
    at: int,
    place: int,
    package: Option<Package>,
)
    requires
        recorded_at(manifest, id, at, place),
    ensures
        data_location(manifest, id, package) == (match manifest.instances@[at].data {
            InstanceData::Original => Ok(None),
            InstanceData::Isolated { location } => if !own_package(
                manifest.applications@[place].locator,
                package,
            ) {
                invalid::<Option<StorageLocation>>("INSTANCE_PACKAGE_MISMATCH")
            } else if (location matches StorageLocation::Store { .. }) && package is Some
                && package->0.isolated_storage {
                invalid::<Option<StorageLocation>>("PACKAGE_STORAGE_MODE_CHANGED")
            } else {
                Ok(Some(location))
            },
        }),
{
    found_at(manifest, id, at, place);
}

/// No data is found for an instance that is not recorded.
pub proof fn unknown_instances_have_no_data(manifest: Manifest, id: Uuid, package: Option<Package>)
    requires
        forall|k: int| 0 <= k < manifest.instances@.len() ==> (#[trigger] manifest.instances@[k]).id != id,
    ensures
        data_location(manifest, id, package) == invalid::<Option<StorageLocation>>("INSTANCE_NOT_FOUND"),
{
    let instance = with_instance_id(id);
    assert forall|k: int| 0 <= k < manifest.instances@.len() implies !instance(
        #[trigger] manifest.instances@[k],
    ) by {}
    crate::seqs::first_where_none(manifest.instances@, instance);
}

/// The data of an instance in the store lies below the store's own place, where its entry says: its root is the place
/// of the store followed by the recorded path, with the directories of the user and of the application inside. It is
/// claimed for this instance of this store and this user, and for no package.
pub proof fn store_data_lies_below_the_store(
    manifest: Manifest,
    root: Seq<char>,
    id: Uuid,
    at: int,
    place: int,
    package: Option<Package>,
    local: Result<&str>,
    plan: DataPlan,
    relative: Seq<char>,
)
    requires
        recorded_at(manifest, id, at, place),
        manifest.instances@[at].data matches InstanceData::Isolated {
            location: StorageLocation::Store { relative_path },
        } && relative_path@ == relative,
        accessed(manifest, root, id, package, local, Ok(Some(plan))),
    ensures
        plan.paths.root@ == pushed(root, relative),
        plan.paths.user_data@ == pushed(pushed(root, relative), "user-data"@),
        plan.paths.app_home@ == pushed(pushed(root, relative), "app-home"@),
        step_views(plan.steps@) == seq![
            StepView::Owned { path: root },
            StepView::Plain { path: pushed(root, "instances"@) },
            StepView::Claim {
                path: pushed(root, relative),
                owner: OwnerView {
                    format: "app-proxy-rust-data"@,
                    schema_version: 1,
                    owner_sid: manifest.owner_sid@,
                    store_id: Some(manifest.store_id),
                    instance_id: Some(id),
                    package_family: None,
                },
            },
            StepView::Plain { path: pushed(pushed(root, relative), "user-data"@) },
            StepView::Plain { path: pushed(pushed(root, relative), "app-home"@) },
        ],
{
    found_at(manifest, id, at, place);
    assert(step_views(plan.steps@) =~= seq![
        StepView::Owned { path: root },
        StepView::Plain { path: pushed(root, "instances"@) },
        StepView::Claim {
            path: pushed(root, relative),
            owner: OwnerView {
                format: "app-proxy-rust-data"@,
                schema_version: 1,
                owner_sid: manifest.owner_sid@,
                store_id: Some(manifest.store_id),
                instance_id: Some(id),
                package_family: None,
            },
        },
        StepView::Plain { path: pushed(pushed(root, relative), "user-data"@) },
        StepView::Plain { path: pushed(pushed(root, relative), "app-home"@) },
    ]);
}

/// The data of a packaged instance lies in the package's own state, in a directory of this program, of the recorded
/// namespace and path. This program's directory, the store's and the instance's are claimed, each for what it is; the
/// package's own directory is left alone.
pub proof fn packaged_data_lies_in_the_package(
    manifest: Manifest,
    root: Seq<char>,
    id: Uuid,
    at: int,
    place: int,
    package: Option<Package>,
    local: Result<&str>,
    plan: DataPlan,
    family: Seq<char>,
    namespace: Seq<char>,
    relative: Seq<char>,
)
    requires
        recorded_at(manifest, id, at, place),
        manifest.instances@[at].data matches InstanceData::Isolated {
            location: StorageLocation::PackageLocalState { family_name, namespace: space, relative_path },
        } && relative_path@ == relative && family_name@ == family && space@ == namespace,
        accessed(manifest, root, id, package, local, Ok(Some(plan))),
    ensures
        local is Ok,
        ({
            let state = pushed(pushed(pushed(local->Ok_0@, "Packages"@), family), "LocalState"@);
            let base = pushed(pushed(state, "AppProxy"@), namespace);
            let owner = OwnerView {
                format: "app-proxy-rust-data"@,
                schema_version: 1,
                owner_sid: manifest.owner_sid@,
                store_id: None,
                instance_id: None,
                package_family: Some(family),
            };
            &&& plan.paths.root@ == pushed(base, relative)
            &&& plan.paths.user_data@ == pushed(pushed(base, relative), "user-data"@)
            &&& plan.paths.app_home@ == pushed(pushed(base, relative), "app-home"@)
            &&& step_views(plan.steps@) =~= seq![
                StepView::Existing { path: state },
                StepView::Claim { path: pushed(state, "AppProxy"@), owner },
                StepView::Claim { path: base, owner: OwnerView { store_id: Some(manifest.store_id), ..owner } },
                StepView::Plain { path: pushed(base, "instances"@) },
                StepView::Claim {
                    path: pushed(base, relative),
                    owner: OwnerView { store_id: Some(manifest.store_id), instance_id: Some(id), ..owner },
                },
                StepView::Plain { path: pushed(pushed(base, relative), "user-data"@) },
                StepView::Plain { path: pushed(pushed(base, relative), "app-home"@) },
            ]
        }),
{
    found_at(manifest, id, at, place);
}

/// A relative path of two plain names, as every instance has one.
pub open spec fn two_names(path: Seq<char>, first: Seq<char>, second: Seq<char>) -> bool {
    path == first + seq!['\\'] + second && plain_name(first) && plain_name(second)
}

/// Two isolated instances that are recorded at different places below the same root never share a directory: their
/// roots differ, and so do the directories of the user and of the application in them.
pub proof fn instances_keep_apart(
    base: Seq<char>,
    a: Seq<char>,
    b: Seq<char>,
    a_first: Seq<char>,
    a_second: Seq<char>,
    b_first: Seq<char>,
    b_second: Seq<char>,
)
    requires
        two_names(a, a_first, a_second),
        two_names(b, b_first, b_second),
        a != b,
    ensures
        pushed(base, a) != pushed(base, b),
        pushed(base, a) == front(base) + a,
        !verbatim(prefix(pushed(base, a))) && !verbatim(prefix(pushed(base, b))) ==> pushed(
            pushed(base, a),
            "user-data"@,
        ) != pushed(pushed(base, b), "user-data"@) && pushed(pushed(base, a), "app-home"@) != pushed(
            pushed(base, b),
            "app-home"@,
        ),
{
    two_names_are_appended(base, a_first, a_second);
    two_names_are_appended(base, b_first, b_second);
    let f = front(base);
    assert((f + a).skip(f.len() as int) =~= a);
    assert((f + b).skip(f.len() as int) =~= b);
    let x = pushed(base, a);
    let y = pushed(base, b);
    if !verbatim(prefix(x)) && !verbatim(prefix(y)) {
        below_apart(x, y, a_second, b_second, "user-data"@);
        below_apart(x, y, a_second, b_second, "app-home"@);
    }
}

proof fn below_apart(x: Seq<char>, y: Seq<char>, a: Seq<char>, b: Seq<char>, name: Seq<char>)
    requires
        x != y,
        !verbatim(prefix(x)),
        !verbatim(prefix(y)),
        plain_name(a),
        plain_name(b),
        x.len() > a.len() + 1,
        y.len() > b.len() + 1,
        x.last() == a.last(),
        y.last() == b.last(),
        name == "user-data"@ || name == "app-home"@,
    ensures
        pushed(x, name) != pushed(y, name),
{
    reveal_strlit("user-data");
    reveal_strlit("app-home");
    assert(plain_name(name)) by {
        assert(forall|i: int| 0 <= i < name.len() ==> name[i] != '\\' && name[i] != '/');
    }
    plain_names_are_appended(x, name);
    plain_names_are_appended(y, name);
    assert(a.contains(a.last()) && b.contains(b.last()));
    assert(front(x) == x.push('\\') && front(y) == y.push('\\'));
    if pushed(x, name) == pushed(y, name) {
        let whole = pushed(x, name);
        assert(x =~= whole.take(whole.len() - name.len() - 1));
        assert(y =~= whole.take(whole.len() - name.len() - 1));
    }
}

} // verus!
