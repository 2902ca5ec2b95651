//! Window registry planning: which content surfaces to close, create, show
//! or hide so that the window set matches the configuration.  The functions
//! here only decide; the caller owns the surface toolkit and carries the
//! plans out, tolerating per-surface failures without aborting the rest.

use vstd::prelude::*;

use crate::settings::{has_id, ids_of, AppSettings, AppSettingsView, Website, WebsiteView};
use crate::text::str_eq;

verus! {

/// Surfaces to destroy and surfaces to build so that the window set for
/// `old` becomes the window set for `new`.
pub struct ReconcilePlan {
    /// Identifiers present in the old list but absent from the new one.
    pub closes: Vec<String>,
    /// Websites of the new list whose identifier is absent from the old one.
    pub creates: Vec<Website>,
}

/// The identifiers a reconciliation closes: ids of `old` with no match in `new`.
pub open spec fn spec_closes(old: Seq<WebsiteView>, new: Seq<WebsiteView>) -> Seq<Seq<char>> {
    ids_of(old).filter(|id: Seq<char>| !has_id(new, id))
}

/// The websites a reconciliation creates: entries of `new` with no match in `old`.
pub open spec fn spec_creates(old: Seq<WebsiteView>, new: Seq<WebsiteView>) -> Seq<WebsiteView> {
    new.filter(|w: WebsiteView| !has_id(old, w.id))
}

/// Whether some website in the vector carries this identifier.
pub fn contains_id(ws: &Vec<Website>, id: &str) -> (r: bool)
    ensures
        r == has_id(ws@.map_values(|w: Website| w@), id@),
{
    let ghost wsv = ws@.map_values(|w: Website| w@);
    let mut i: usize = 0;
    while i < ws.len()
        invariant
            0 <= i <= ws.len(),
            wsv == ws@.map_values(|w: Website| w@),
            forall|j: int| 0 <= j < i ==> wsv[j].id != id@,
        decreases ws.len() - i,
    {
        if str_eq(ws[i].id.as_str(), id) {
            proof {
                assert(wsv[i as int].id == id@);
            }
            return true;
        }
        i = i + 1;
    }
    false
}

/// The position of the first website carrying this identifier.
pub fn find_first(ws: &Vec<Website>, id: &str) -> (r: Option<usize>)
    ensures
        ({
            let wsv = ws@.map_values(|w: Website| w@);
            match r {
                Some(i) => i < ws@.len() && wsv[i as int].id == id@ && (forall|j: int|
                    0 <= j < i ==> wsv[j].id != id@),
                None => !has_id(wsv, id@),
            }
        }),
{
    let ghost wsv = ws@.map_values(|w: Website| w@);
    let mut i: usize = 0;
    while i < ws.len()
        invariant
            0 <= i <= ws.len(),
            wsv == ws@.map_values(|w: Website| w@),
            forall|j: int| 0 <= j < i ==> wsv[j].id != id@,
        decreases ws.len() - i,
    {
        if str_eq(ws[i].id.as_str(), id) {
            return Some(i);
        }
        i = i + 1;
    }
    None
}

/// The plan that closes every surface whose website was removed and creates
/// one (hidden, default geometry, its own storage partition) for every
/// website that was added.  Websites present in both lists are untouched.
pub fn reconcile(old: &Vec<Website>, new: &Vec<Website>) -> (p: ReconcilePlan)
    ensures
        p.closes@.map_values(|s: String| s@) == spec_closes(
            old@.map_values(|w: Website| w@),
            new@.map_values(|w: Website| w@),
        ),
        p.creates@.map_values(|w: Website| w@) == spec_creates(
            old@.map_values(|w: Website| w@),
            new@.map_values(|w: Website| w@),
        ),
{
    let ghost oldv = old@.map_values(|w: Website| w@);
    let ghost newv = new@.map_values(|w: Website| w@);
    let mut closes: Vec<String> = Vec::new();
    let mut i: usize = 0;
    while i < old.len()
        invariant
            0 <= i <= old.len(),
            oldv == old@.map_values(|w: Website| w@),
            newv == new@.map_values(|w: Website| w@),
            closes@.map_values(|s: String| s@) == ids_of(oldv.subrange(0, i as int)).filter(
                |id: Seq<char>| !has_id(newv, id),
            ),
        decreases old.len() - i,
    {
        let ghost prefix = ids_of(oldv.subrange(0, i as int));
        let ghost next = ids_of(oldv.subrange(0, i + 1 as int));
        proof {
            assert(next =~= prefix.push(oldv[i as int].id));
        }
        if !contains_id(new, old[i].id.as_str()) {
            closes.push(old[i].id.clone());
        }
        proof {
            reveal(Seq::filter);
            let pred = |id: Seq<char>| !has_id(newv, id);
            assert(next.drop_last() =~= prefix);
            assert(next.filter(pred) == if pred(oldv[i as int].id) {
                prefix.filter(pred).push(oldv[i as int].id)
            } else {
                prefix.filter(pred)
            });
            assert(closes@.map_values(|s: String| s@) =~= next.filter(pred));
        }
        i = i + 1;
    }
    proof {
        assert(oldv.subrange(0, oldv.len() as int) =~= oldv);
        assert(ids_of(oldv.subrange(0, old@.len() as int)) =~= ids_of(oldv));
    }

    let mut creates: Vec<Website> = Vec::new();
    let mut k: usize = 0;
    while k < new.len()
        invariant
            0 <= k <= new.len(),
            oldv == old@.map_values(|w: Website| w@),
            newv == new@.map_values(|w: Website| w@),
            creates@.map_values(|w: Website| w@) == newv.subrange(0, k as int).filter(
                |w: WebsiteView| !has_id(oldv, w.id),
            ),
        decreases new.len() - k,
    {
        let ghost prefix = newv.subrange(0, k as int);
        let ghost next = newv.subrange(0, k + 1 as int);
        proof {
            assert(next =~= prefix.push(newv[k as int]));
        }
        if !contains_id(old, new[k].id.as_str()) {
            creates.push(new[k].clone());
        }
        proof {
            reveal(Seq::filter);
            let pred = |w: WebsiteView| !has_id(oldv, w.id);
            assert(next.drop_last() =~= prefix);
            assert(next.filter(pred) == if pred(newv[k as int]) {
                prefix.filter(pred).push(newv[k as int])
            } else {
                prefix.filter(pred)
            });
            assert(creates@.map_values(|w: Website| w@) =~= next.filter(pred));
        }
        k = k + 1;
    }
    proof {
        assert(newv.subrange(0, new@.len() as int) =~= newv);
    }
    ReconcilePlan { closes, creates }
}

/// One visibility decision of an activation: show or hide one surface.
pub struct TabVisibility {
    pub id: String,
    pub show: bool,
}

/// The plan that shows (and focuses) the surface of the addressed website
/// and hides every other website surface.  Exactly one decision per website,
/// in list order; the notes and settings surfaces are unaffected.
pub fn activate_plan(websites: &Vec<Website>, tab_id: &str) -> (p: Vec<TabVisibility>)
    ensures
        p@.len() == websites@.len(),
        forall|i: int|
            #![trigger p@[i]]
            0 <= i < p@.len() ==> p@[i].id@ == websites@[i]@.id && p@[i].show == (
            websites@[i]@.id == tab_id@),
{
    let mut p: Vec<TabVisibility> = Vec::new();
    let mut i: usize = 0;
    while i < websites.len()
        invariant
            0 <= i <= websites.len(),
            p@.len() == i,
            forall|j: int|
                0 <= j < i ==> #[trigger] p@[j].id@ == websites@[j]@.id && p@[j].show == (
                websites@[j]@.id == tab_id@),
        decreases websites.len() - i,
    {
        let show = str_eq(websites[i].id.as_str(), tab_id);
        p.push(TabVisibility { id: websites[i].id.clone(), show });
        proof {
            assert forall|j: int| 0 <= j < i + 1 implies #[trigger] p@[j].id@ == websites@[j]@.id
                && p@[j].show == (websites@[j]@.id == tab_id@) by {
                if j == i as int {
                    assert(p@[j].id@ == websites@[i as int].id@);
                }
            }
        }
        i = i + 1;
    }
    p
}

/// The identifier whose surface starts visible: the recorded default
/// website, or the active tab when none is recorded.
pub open spec fn startup_visible_id(s: AppSettingsView) -> Seq<char> {
    match s.default_website {
        Some(d) => d,
        None => s.active_tab,
    }
}

/// The initial visibility of every website surface: exactly the default
/// website (falling back to the active tab) starts visible, every other
/// surface starts hidden.
pub fn startup_plan(settings: &AppSettings) -> (p: Vec<TabVisibility>)
    ensures
        p@.len() == settings@.websites.len(),
        forall|i: int|
            0 <= i < p@.len() ==> #[trigger] p@[i].id@ == settings@.websites[i].id && p@[i].show
                == (settings@.websites[i].id == startup_visible_id(settings@)),
{
    let target: &String = match &settings.default_website {
        Some(d) => d,
        None => &settings.active_tab,
    };
    let p = activate_plan(&settings.websites, target.as_str());
    proof {
        assert forall|i: int|
            0 <= i < p@.len() implies #[trigger] p@[i].id@ == settings@.websites[i].id
            && p@[i].show == (settings@.websites[i].id == startup_visible_id(settings@)) by {
            assert(target@ == startup_visible_id(settings@));
            assert(p@[i].id@ == settings.websites@[i]@.id && p@[i].show == (
            settings.websites@[i]@.id == target@));
            assert(settings@.websites[i] == settings.websites@[i]@);
        }
    }
    p
}

} // verus!
