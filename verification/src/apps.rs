//! The launcher's list of apps: a map from package to app that keeps the
//! order in which the user arranged it.

use crate::config::{AppConfig, AppConfigView};
use crate::text::views;
use indexmap::IndexMap;
use vstd::prelude::*;

verus! {

/// `indexmap::IndexMap`, a hash map that keeps its entries in the order in
/// which they were put in. Nothing is claimed of what is inside a map but
/// through [`app_entries`].
#[verifier::external_type_specification]
#[verifier::external_body]
#[verifier::reject_recursive_types(K)]
#[verifier::reject_recursive_types(V)]
#[verifier::reject_recursive_types(S)]
pub struct ExIndexMap<K, V, S>(IndexMap<K, V, S>);

/// The entries of a list of apps, in the list's order: each package with
/// its app.
pub uninterp spec fn app_entries(apps: IndexMap<String, AppConfig>) -> Seq<
    (Seq<char>, AppConfigView),
>;

/// Where `package` stands in `entries`; `None` where it has no entry.
pub open spec fn position(entries: Seq<(Seq<char>, AppConfigView)>, package: Seq<char>) -> Option<
    int,
>
    decreases entries.len(),
{
    if entries.len() == 0 {
        None
    } else {
        match position(entries.drop_last(), package) {
            Some(i) => Some(i),
            None => if entries.last().0 == package {
                Some(entries.len() - 1)
            } else {
                None
            },
        }
    }
}

/// `entries` after `app` was put under `package`: an entry that is there
/// keeps its place and gets the new app, and a new entry goes last.
pub open spec fn put(
    entries: Seq<(Seq<char>, AppConfigView)>,
    package: Seq<char>,
    app: AppConfigView,
) -> Seq<(Seq<char>, AppConfigView)> {
    match position(entries, package) {
        Some(i) => entries.update(i, (package, app)),
        None => entries.push((package, app)),
    }
}

/// `entries` without the entry of `package`; the entries behind it move up.
pub open spec fn taken(entries: Seq<(Seq<char>, AppConfigView)>, package: Seq<char>) -> Seq<
    (Seq<char>, AppConfigView),
> {
    match position(entries, package) {
        Some(i) => entries.remove(i),
        None => entries,
    }
}

/// The app of `package` in `entries`.
pub open spec fn app_of(entries: Seq<(Seq<char>, AppConfigView)>, package: Seq<char>) -> Option<
    AppConfigView,
> {
    match position(entries, package) {
        Some(i) => Some(entries[i].1),
        None => None,
    }
}

/// The view of an optional app.
pub open spec fn opt_app(app: Option<AppConfig>) -> Option<AppConfigView> {
    match app {
        Some(a) => Some(a@),
        None => None,
    }
}

/// The views of a list of packages with their apps.
pub open spec fn entry_views(list: Seq<(String, AppConfig)>) -> Seq<(Seq<char>, AppConfigView)> {
    Seq::new(list.len(), |i: int| (list[i].0@, list[i].1@))
}

/// `IndexMap::new` makes a map without entries.
#[verifier::external_body]
pub(crate) fn empty_apps() -> (apps: IndexMap<String, AppConfig>)
    ensures
        app_entries(apps) == Seq::<(Seq<char>, AppConfigView)>::empty(),
{
    IndexMap::new()
}

/// `IndexMap::shift_remove` takes the entry of the key out and returns its
/// value; the entries behind it keep their order and move up. Where the key
/// has no entry the map stays as it is and nothing is returned.
#[verifier::external_body]
fn shift_remove_app(apps: &mut IndexMap<String, AppConfig>, package: &str) -> (app: Option<
    AppConfig,
>)
    ensures
        opt_app(app) == app_of(app_entries(*old(apps)), package@),
        app_entries(*final(apps)) == taken(app_entries(*old(apps)), package@),
{
    apps.shift_remove(package)
}

/// `IndexMap::insert` updates the value of a key that is in the map and
/// leaves the key in its place; a key that is not in the map is put last.
#[verifier::external_body]
fn insert_app(apps: &mut IndexMap<String, AppConfig>, package: String, app: AppConfig)
    ensures
        app_entries(*final(apps)) == put(app_entries(*old(apps)), package@, app@),
{
    apps.insert(package, app);
}

/// `IndexMap::drain` over the full range empties the map and hands its
/// entries out in the map's order.
#[verifier::external_body]
fn drain_apps(apps: &mut IndexMap<String, AppConfig>) -> (list: Vec<(String, AppConfig)>)
    ensures
        entry_views(list@) == app_entries(*old(apps)),
        app_entries(*final(apps)) == Seq::<(Seq<char>, AppConfigView)>::empty(),
{
    apps.drain(..).collect()
}

/// `entries` with all of `more` put into it, one after the other.
pub open spec fn put_all(
    entries: Seq<(Seq<char>, AppConfigView)>,
    more: Seq<(Seq<char>, AppConfigView)>,
) -> Seq<(Seq<char>, AppConfigView)>
    decreases more.len(),
{
    if more.len() == 0 {
        entries
    } else {
        put(put_all(entries, more.drop_last()), more.last().0, more.last().1)
    }
}

/// What is left of `entries` once the packages of `order` were taken out.
pub open spec fn left_over(entries: Seq<(Seq<char>, AppConfigView)>, order: Seq<Seq<char>>) -> Seq<
    (Seq<char>, AppConfigView),
>
    decreases order.len(),
{
    if order.len() == 0 {
        entries
    } else {
        taken(left_over(entries, order.drop_last()), order.last())
    }
}

/// The entries that the packages of `order` pick out of `entries`, in the
/// order of `order`. A package without an entry picks nothing, and so does
/// a package that was named before.
pub open spec fn picked(entries: Seq<(Seq<char>, AppConfigView)>, order: Seq<Seq<char>>) -> Seq<
    (Seq<char>, AppConfigView),
>
    decreases order.len(),
{
    if order.len() == 0 {
        Seq::empty()
    } else {
        let before = picked(entries, order.drop_last());
        match app_of(left_over(entries, order.drop_last()), order.last()) {
            Some(app) => put(before, order.last(), app),
            None => before,
        }
    }
}

/// The list of apps in a new order: first the apps that `order` names, as
/// it names them, then every other app in the order it had.
pub open spec fn reordered(entries: Seq<(Seq<char>, AppConfigView)>, order: Seq<Seq<char>>) -> Seq<
    (Seq<char>, AppConfigView),
> {
    put_all(picked(entries, order), left_over(entries, order))
}

/// Puts `app` into the list under `package`. An app that is in the list
/// under that package keeps its place; a new app goes last.
pub fn save_app(apps: &mut IndexMap<String, AppConfig>, package: String, app: AppConfig)
    ensures
        app_entries(*final(apps)) == put(app_entries(*old(apps)), package@, app@),
{
    insert_app(apps, package, app);
}

/// Takes the app of `package` off the list and returns it.
pub fn delete_app(apps: &mut IndexMap<String, AppConfig>, package: &str) -> (app: Option<
    AppConfig,
>)
    ensures
        opt_app(app) == app_of(app_entries(*old(apps)), package@),
        app_entries(*final(apps)) == taken(app_entries(*old(apps)), package@),
{
    shift_remove_app(apps, package)
}

/// Arranges the list of apps in a new order.
pub fn reorder_apps(apps: &mut IndexMap<String, AppConfig>, new_order: &Vec<String>)
    ensures
        app_entries(*final(apps)) == reordered(app_entries(*old(apps)), views(new_order@)),
{
    let ghost entries = app_entries(*apps);
    let ghost order = views(new_order@);
    let mut fresh = empty_apps();
    let mut i: usize = 0;
    assert(order.take(0) =~= Seq::<Seq<char>>::empty());
    while i < new_order.len()
        invariant
            i <= new_order.len(),
            order == views(new_order@),
            app_entries(*apps) == left_over(entries, order.take(i as int)),
            app_entries(fresh) == picked(entries, order.take(i as int)),
        decreases new_order.len() - i,
    {
        proof {
            assert(order.take(i + 1).drop_last() =~= order.take(i as int));
            assert(order.take(i + 1).last() == new_order@[i as int]@);
        }
        match shift_remove_app(apps, new_order[i].as_str()) {
            Some(app) => {
                insert_app(&mut fresh, new_order[i].clone(), app);
            },
            None => {},
        }
        i += 1;
    }
    assert(order.take(new_order@.len() as int) =~= order);
    let mut rest = drain_apps(apps);
    let ghost left = entry_views(rest@);
    let ghost start = app_entries(fresh);
    let ghost mut done: int = 0;
    assert(left.take(0) =~= Seq::<(Seq<char>, AppConfigView)>::empty());
    while rest.len() > 0
        invariant
            0 <= done <= left.len(),
            entry_views(rest@) == left.skip(done),
            app_entries(fresh) == put_all(start, left.take(done)),
        decreases rest.len(),
    {
        let ghost before = entry_views(rest@);
        let ghost full = rest@;
        assert(before.len() == full.len());
        let (package, app) = rest.remove(0);
        proof {
            assert(rest@ == full.remove(0));
            assert(before[0] == (package@, app@));
            assert(left[done] == before[0]);
            assert forall|k: int| 0 <= k < rest@.len() implies entry_views(rest@)[k] == left.skip(
                done + 1,
            )[k] by {
                assert(rest@[k] == full[k + 1]);
                assert(before[k + 1] == left[done + k + 1]);
            }
            assert(entry_views(rest@) =~= left.skip(done + 1));
            assert(left.take(done + 1).drop_last() =~= left.take(done));
            assert(left.take(done + 1).last() == left[done]);
        }
        insert_app(&mut fresh, package, app);
        proof {
            done = done + 1;
        }
    }
    assert(left.take(left.len() as int) =~= left);
    *apps = fresh;
}

/// A package with the name of its app, as two sequences of characters.
pub open spec fn name_views(list: Seq<(String, String)>) -> Seq<(Seq<char>, Seq<char>)> {
    Seq::new(list.len(), |i: int| (list[i].0@, list[i].1@))
}

/// The packages of `entries` with the names of their apps.
pub open spec fn names_of(entries: Seq<(Seq<char>, AppConfigView)>) -> Seq<
    (Seq<char>, Seq<char>),
> {
    Seq::new(entries.len(), |i: int| (entries[i].0, entries[i].1.name))
}

/// `IndexMap::iter` walks the entries in the map's order; of each entry the
/// key and the app's name are copied out.
#[verifier::external_body]
fn iter_names(apps: &IndexMap<String, AppConfig>) -> (list: Vec<(String, String)>)
    ensures
        name_views(list@) == names_of(app_entries(*apps)),
{
    apps.iter().map(|(package, app)| (package.clone(), app.name.clone())).collect()
}

/// `IndexMap::get` finds the value of a key; a copy of it is handed out.
#[verifier::external_body]
fn get_app(apps: &IndexMap<String, AppConfig>, package: &str) -> (app: Option<AppConfig>)
    ensures
        opt_app(app) == app_of(app_entries(*apps), package@),
{
    apps.get(package).cloned()
}

/// Looks up the app of `package`.
pub fn find_app(apps: &IndexMap<String, AppConfig>, package: &str) -> (app: Option<AppConfig>)
    ensures
        opt_app(app) == app_of(app_entries(*apps), package@),
{
    get_app(apps, package)
}

/// The first `count` apps of the list, each as its package and its name;
/// all of them where the list is shorter.
pub fn first_apps(apps: &IndexMap<String, AppConfig>, count: u32) -> (list: Vec<(String, String)>)
    ensures
        name_views(list@) == if names_of(app_entries(*apps)).len() <= count {
            names_of(app_entries(*apps))
        } else {
            names_of(app_entries(*apps)).take(count as int)
        },
{
    let mut list = iter_names(apps);
    let ghost all = name_views(list@);
    if list.len() > count as usize {
        list.truncate(count as usize);
        assert(name_views(list@) =~= all.take(count as int));
    }
    list
}

} // verus!
