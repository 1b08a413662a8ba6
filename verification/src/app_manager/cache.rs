//! The list of applications in memory.

#![verifier::loop_isolation(false)]

use vstd::prelude::*;

use super::snapshot::{are_with_icon_urls, attach_icon_urls};
use crate::list::Queue;
use crate::models::InstalledApp;
use crate::text;

verus! {

/// The list of applications, while it is known to be current.
#[derive(Debug)]
pub struct AppCache {
    pub apps: Vec<InstalledApp>,
    /// When the list was made, in milliseconds.
    pub last_scan_time: u64,
    /// Whether the list has to be made again.
    pub is_dirty: bool,
}

impl AppCache {
    /// A cache with nothing in it.
    pub fn new(now: u64) -> (r: Self)
        ensures
            r.apps@.len() == 0,
            r.last_scan_time == now,
            r.is_dirty,
    {
        AppCache { apps: Vec::new(), last_scan_time: now, is_dirty: true }
    }

    /// Whether the list is current.
    pub fn is_valid(&self) -> (r: bool)
        ensures
            r == !self.is_dirty,
    {
        !self.is_dirty
    }

    /// Notes that the list has to be made again.
    pub fn invalidate(&mut self)
        ensures
            final(self).is_dirty,
            final(self).apps == old(self).apps,
            final(self).last_scan_time == old(self).last_scan_time,
    {
        self.is_dirty = true;
    }
}

/// A copy of a list of applications.
pub fn copy_apps(apps: &Vec<InstalledApp>) -> (r: Vec<InstalledApp>)
    ensures
        r@ == apps@,
{
    let mut r: Vec<InstalledApp> = Vec::new();
    let mut i: usize = 0;
    while i < apps.len()
        invariant
            i <= apps@.len(),
            r@ == apps@.take(i as int),
        decreases apps@.len() - i,
    {
        r.push(apps[i].clone());
        i = i + 1;
        assert(apps@.take(i as int) =~= apps@.take(i - 1).push(apps@[i - 1]));
    }
    assert(apps@.take(i as int) =~= apps@);
    r
}

/// The list, if it is current.
pub fn get_cached(cache: &AppCache) -> (r: Option<Vec<InstalledApp>>)
    ensures
        match r {
            Some(apps) => !cache.is_dirty && apps@ == cache.apps@,
            None => cache.is_dirty,
        },
{
    if cache.is_valid() {
        Some(copy_apps(&cache.apps))
    } else {
        None
    }
}

/// Makes a list the current one; its applications get their icon URLs.
pub fn set_cache(cache: &mut AppCache, apps: Vec<InstalledApp>, now: u64)
    ensures
        are_with_icon_urls(apps@, final(cache).apps@),
        final(cache).last_scan_time == now,
        !final(cache).is_dirty,
{
    let mut apps = apps;
    attach_icon_urls(&mut apps);
    cache.apps = apps;
    cache.last_scan_time = now;
    cache.is_dirty = false;
}

/// Notes that the list has to be made again.
pub fn invalidate(cache: &mut AppCache)
    ensures
        final(cache).is_dirty,
        final(cache).apps == old(cache).apps,
        final(cache).last_scan_time == old(cache).last_scan_time,
{
    cache.invalidate();
}

/// Whether two applications have the same location and icon path.
pub open spec fn same_icon_place(a: InstalledApp, b: InstalledApp) -> bool {
    a.install_location@ == b.install_location@ && a.display_icon@ == b.display_icon@
}

/// The last application of a list with the location and icon path of another.
pub open spec fn last_of_place(apps: Seq<InstalledApp>, app: InstalledApp) -> Option<InstalledApp>
    decreases apps.len(),
{
    if apps.len() == 0 {
        None
    } else if same_icon_place(apps.last(), app) {
        Some(apps.last())
    } else {
        last_of_place(apps.drop_last(), app)
    }
}

/// An application with the icon that an earlier list has for it. An icon of
/// its own is kept; of an earlier entry only what is not empty is taken.
pub open spec fn with_known_icon(app: InstalledApp, known: Seq<InstalledApp>) -> InstalledApp {
    match last_of_place(known, app) {
        Some(old) if app.icon_base64@.len() == 0 => InstalledApp {
            icon_base64: if old.icon_base64@.len() > 0 {
                old.icon_base64
            } else {
                app.icon_base64
            },
            icon_url: if old.icon_url@.len() > 0 {
                old.icon_url
            } else {
                app.icon_url
            },
            ..app
        },
        _ => app,
    }
}

fn find_last_of_place(known: &Vec<InstalledApp>, app: &InstalledApp) -> (r: Option<usize>)
    ensures
        match r {
            Some(i) => i < known@.len() && last_of_place(known@, *app) == Some(known@[i as int]),
            None => last_of_place(known@, *app) is None,
        },
{
    let mut n: usize = known.len();
    assert(known@.take(n as int) =~= known@);
    while n > 0
        invariant
            n <= known@.len(),
            last_of_place(known@, *app) == last_of_place(known@.take(n as int), *app),
        decreases n,
    {
        assert(known@.take(n as int).drop_last() =~= known@.take(n - 1));
        let old = &known[n - 1];
        if text::same(old.install_location.as_str(), app.install_location.as_str()) && text::same(
            old.display_icon.as_str(),
            app.display_icon.as_str(),
        ) {
            return Some(n - 1);
        }
        n = n - 1;
    }
    None
}

/// Gives applications without an icon the icons that an earlier list has.
pub fn reuse_icons(apps: Vec<InstalledApp>, known: &Vec<InstalledApp>) -> (r: Vec<InstalledApp>)
    ensures
        r@.len() == apps@.len(),
        forall|i: int|
            0 <= i < apps@.len() ==> r@[i] == with_known_icon(#[trigger] apps@[i], known@),
{
    let ghost all = apps@;
    let mut rest = Queue::of(apps);
    let mut r: Vec<InstalledApp> = Vec::new();
    assert(rest@ =~= all.skip(0));
    while rest.len() > 0
        invariant
            r@.len() + rest@.len() == all.len(),
            rest@ == all.skip(r@.len() as int),
            forall|i: int|
                0 <= i < r@.len() ==> r@[i] == with_known_icon(#[trigger] all[i], known@),
        decreases rest@.len(),
    {
        let ghost n = r@.len() as int;
        let app = rest.take_first();
        assert(app == all[n]);
        assert(rest@ =~= all.skip(n + 1));
        let mut app = app;
        if app.icon_base64.as_str().is_empty() {
            if let Some(i) = find_last_of_place(known, &app) {
                let old = &known[i];
                if !old.icon_base64.as_str().is_empty() {
                    app.icon_base64 = old.icon_base64.clone();
                }
                if !old.icon_url.as_str().is_empty() {
                    app.icon_url = old.icon_url.clone();
                }
            }
        }
        r.push(app);
    }
    r
}

/// Whether a list is made from what a scan found: the found applications and
/// those that are known to have been moved, with icon URLs and the icons that
/// an earlier list has.
pub open spec fn is_made_from(
    r: Seq<InstalledApp>,
    scanned: Seq<InstalledApp>,
    failsafe: Seq<InstalledApp>,
    known: Seq<InstalledApp>,
) -> bool {
    exists|with_urls: Seq<InstalledApp>| #[trigger]
        are_with_icon_urls(scanned + failsafe, with_urls) && r == with_urls.map_values(
            |app: InstalledApp| with_known_icon(app, known),
        )
}

/// The list: that in memory where it is current, else one made from what a
/// scan found, which becomes the current one. A scan that failed changes
/// nothing.
pub fn get_or_scan(
    cache: &mut AppCache,
    scanned: Result<Vec<InstalledApp>, String>,
    failsafe: Vec<InstalledApp>,
    now: u64,
) -> (r: Result<Vec<InstalledApp>, String>)
    ensures
        if !old(cache).is_dirty {
            *final(cache) == *old(cache) && (r matches Ok(apps) && apps@ == old(cache).apps@)
        } else {
            match scanned {
                Ok(found) => r matches Ok(apps) && is_made_from(
                    apps@,
                    found@,
                    failsafe@,
                    old(cache).apps@,
                ) && final(cache).apps@ == apps@ && !final(cache).is_dirty
                    && final(cache).last_scan_time == now,
                Err(reason) => r == Err::<Vec<InstalledApp>, String>(reason) && *final(cache)
                    == *old(cache),
            }
        },
{
    if cache.is_valid() {
        return Ok(copy_apps(&cache.apps));
    }
    let mut apps = match scanned {
        Ok(found) => found,
        Err(reason) => {
            return Err(reason);
        },
    };
    let ghost found = apps@;
    let mut extra = failsafe;
    apps.append(&mut extra);
    let ghost joined = apps@;
    assert(joined =~= found + failsafe@);
    attach_icon_urls(&mut apps);
    let ghost with_urls = apps@;
    let apps = reuse_icons(apps, &cache.apps);
    proof {
        let known = old(cache).apps@;
        assert(apps@ =~= with_urls.map_values(|app: InstalledApp| with_known_icon(app, known)));
        assert(are_with_icon_urls(found + failsafe@, with_urls));
    }
    cache.apps = copy_apps(&apps);
    cache.last_scan_time = now;
    cache.is_dirty = false;
    Ok(apps)
}

/// Makes the list again.
pub fn refresh(
    cache: &mut AppCache,
    scanned: Result<Vec<InstalledApp>, String>,
    failsafe: Vec<InstalledApp>,
    now: u64,
) -> (r: Result<Vec<InstalledApp>, String>)
    ensures
        match scanned {
            Ok(found) => r matches Ok(apps) && is_made_from(
                apps@,
                found@,
                failsafe@,
                old(cache).apps@,
            ) && final(cache).apps@ == apps@ && !final(cache).is_dirty
                && final(cache).last_scan_time == now,
            Err(reason) => r == Err::<Vec<InstalledApp>, String>(reason) && final(cache).is_dirty
                && final(cache).apps == old(cache).apps && final(cache).last_scan_time
                == old(cache).last_scan_time,
        },
{
    cache.invalidate();
    get_or_scan(cache, scanned, failsafe, now)
}

/// After an application was moved the list has to be made again. Its paths stay
/// as they are: links stand in the old places.
pub fn on_app_migrated(cache: &mut AppCache)
    ensures
        final(cache).is_dirty,
        final(cache).apps == old(cache).apps,
        final(cache).last_scan_time == old(cache).last_scan_time,
{
    cache.invalidate();
}

/// Whether an application is elsewhere than at a location.
pub open spec fn elsewhere(install_location: Seq<char>) -> spec_fn(InstalledApp) -> bool {
    |app: InstalledApp| app.install_location@ != install_location
}

/// The applications of a list that are not at a location.
pub open spec fn not_at(apps: Seq<InstalledApp>, install_location: Seq<char>) -> Seq<InstalledApp> {
    apps.filter(elsewhere(install_location))
}

/// After an application was removed it leaves the list.
pub fn on_app_uninstalled(cache: &mut AppCache, install_location: &str)
    ensures
        final(cache).apps@ == not_at(old(cache).apps@, install_location@),
        final(cache).is_dirty == old(cache).is_dirty,
        final(cache).last_scan_time == old(cache).last_scan_time,
{
    let ghost all = cache.apps@;
    let mut rest: Vec<InstalledApp> = Vec::new();
    std::mem::swap(&mut cache.apps, &mut rest);
    let mut rest = Queue::of(rest);
    let mut kept: Vec<InstalledApp> = Vec::new();
    let ghost mut n: int = 0;
    proof {
        reveal(Seq::filter);
    }
    assert(rest@ =~= all.skip(0));
    while rest.len() > 0
        invariant
            0 <= n <= all.len(),
            rest@ == all.skip(n),
            kept@ == not_at(all.take(n), install_location@),
        decreases rest@.len(),
    {
        let app = rest.take_first();
        assert(app == all[n]);
        assert(rest@ =~= all.skip(n + 1));
        assert(all.take(n + 1).drop_last() =~= all.take(n));
        proof {
            reveal(Seq::filter);
        }
        if !text::same(app.install_location.as_str(), install_location) {
            kept.push(app);
        }
        proof {
            n = n + 1;
        }
    }
    assert(all.take(n) =~= all);
    cache.apps = kept;
}

/// After an application was removed no entry is left at its location, and
/// every other entry is still there.
pub proof fn law_uninstalled_app_leaves_alone(
    apps: Seq<InstalledApp>,
    install_location: Seq<char>,
    app: InstalledApp,
)
    ensures
        not_at(apps, install_location).contains(app) <==> apps.contains(app)
            && app.install_location@ != install_location,
{
    let keeps = elsewhere(install_location);
    let kept = not_at(apps, install_location);
    if kept.contains(app) {
        apps.lemma_filter_contains_rev(keeps, app);
        let i = choose|i: int| 0 <= i < kept.len() && kept[i] == app;
        apps.lemma_filter_pred(keeps, i);
    }
    if apps.contains(app) && app.install_location@ != install_location {
        let i = choose|i: int| 0 <= i < apps.len() && apps[i] == app;
        apps.lemma_filter_contains(keeps, i);
    }
}

} // verus!
