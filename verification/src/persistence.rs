//! Bookmarks and recently opened projects kept between runs, and the files
//! that hold them.
use crate::collections::{PathMap, PathSet};
use crate::projects::{expand_tilde, tilde_expanded};
use crate::text::{path_join, path_join_exec};
use vstd::prelude::*;

verus! {

/// When each project was last opened, in seconds since the Unix epoch, keyed
/// by project path.
pub struct RecentProjects {
    pub entries: PathMap<u64>,
}

impl Default for RecentProjects {
    fn default() -> (r: Self)
        ensures
            r.entries@ == Map::<Seq<char>, u64>::empty(),
    {
        RecentProjects { entries: PathMap::new() }
    }
}

/// Paths of the bookmarked projects.
pub struct BookmarkedProjects {
    pub entries: PathSet,
}

impl Default for BookmarkedProjects {
    fn default() -> (r: Self)
        ensures
            r.entries@ == Set::<Seq<char>>::empty(),
    {
        BookmarkedProjects { entries: PathSet::new() }
    }
}

/// The directory of the dashboard's state: `$XDG_STATE_HOME/dashboard`, or
/// `~/.local/state/dashboard` with `~` resolved.
pub open spec fn state_dir_of(xdg_state_home: Option<Seq<char>>, home: Option<Seq<char>>) -> Seq<
    char,
> {
    let base = match xdg_state_home {
        Some(x) => x,
        None => tilde_expanded("~/.local/state"@, home),
    };
    path_join(base, "dashboard"@)
}

/// Directory of the dashboard's state, from the `XDG_STATE_HOME` and `HOME`
/// values.
pub fn dashboard_state_dir(xdg_state_home: Option<&str>, home: Option<&str>) -> (r: String)
    ensures
        r@ == state_dir_of(
            match xdg_state_home {
                Some(s) => Some(s@),
                None => None,
            },
            match home {
                Some(h) => Some(h@),
                None => None,
            },
        ),
{
    let base = match xdg_state_home {
        Some(x) => String::from_str(x),
        None => expand_tilde("~/.local/state", home),
    };
    path_join_exec(base.as_str(), "dashboard")
}

/// File of the bookmarks.
pub fn bookmarked_projects_path(xdg_state_home: Option<&str>, home: Option<&str>) -> (r: String)
    ensures
        r@ == path_join(
            state_dir_of(
                match xdg_state_home {
                    Some(s) => Some(s@),
                    None => None,
                },
                match home {
                    Some(h) => Some(h@),
                    None => None,
                },
            ),
            "bookmarked-projects.json"@,
        ),
{
    let dir = dashboard_state_dir(xdg_state_home, home);
    path_join_exec(dir.as_str(), "bookmarked-projects.json")
}

/// File of the recently opened projects.
pub fn recent_projects_path(xdg_state_home: Option<&str>, home: Option<&str>) -> (r: String)
    ensures
        r@ == path_join(
            state_dir_of(
                match xdg_state_home {
                    Some(s) => Some(s@),
                    None => None,
                },
                match home {
                    Some(h) => Some(h@),
                    None => None,
                },
            ),
            "recent-projects.json"@,
        ),
{
    let dir = dashboard_state_dir(xdg_state_home, home);
    path_join_exec(dir.as_str(), "recent-projects.json")
}

} // verus!
