//! The application configuration value and the rules that update it: the
//! current project, a most-recently-opened list with bounded length, and the
//! theme.  Reading and writing the value on disk is the surrounding
//! program's business; every rule about its contents is decided here.

use vstd::prelude::*;

use crate::filter::{contains_string, lemma_filter_push, views_of};

verus! {

/// How many recent projects are remembered at most.
pub const MAX_RECENT_PROJECTS: usize = 10;

/// The persisted application configuration.
#[derive(Clone, Debug)]
pub struct AppConfig {
    pub current_project: Option<String>,
    pub recent_projects: Vec<String>,
    pub theme: Option<String>,
    pub last_opened: Option<String>,
}

impl Default for AppConfig {
    /// A fresh configuration: no project yet, light theme.
    fn default() -> (c: AppConfig)
        ensures
            c.current_project is None,
            c.recent_projects@.len() == 0,
            c.theme matches Some(t) && t@ == "light"@,
            c.last_opened is None,
    {
        AppConfig {
            current_project: None,
            recent_projects: Vec::new(),
            theme: Some(String::from_str("light")),
            last_opened: None,
        }
    }
}

/// The recent-projects list after `path` is opened: `path` moves to the
/// front, any earlier occurrence leaves, and a list that grew is cut back to
/// [`MAX_RECENT_PROJECTS`] entries.
pub open spec fn updated_recents(recents: Seq<Seq<char>>, path: Seq<char>) -> Seq<Seq<char>> {
    let fronted = seq![path] + recents.filter(|p: Seq<char>| p != path);
    if recents.contains(path) {
        fronted
    } else if fronted.len() > MAX_RECENT_PROJECTS {
        fronted.take(MAX_RECENT_PROJECTS as int)
    } else {
        fronted
    }
}

impl AppConfig {
    /// Record that `path` was opened at `opened_at`: it becomes the current
    /// project, the opening time is remembered, and the recent list is
    /// updated as [`updated_recents`] says.  The theme is untouched.
    pub fn record_project_opened(&mut self, path: String, opened_at: String)
        ensures
            final(self).current_project == Option::Some(path),
            final(self).last_opened == Option::Some(opened_at),
            final(self).theme == old(self).theme,
            views_of(final(self).recent_projects@) == updated_recents(
                views_of(old(self).recent_projects@),
                path@,
            ),
    {
        let ghost orig = views_of(self.recent_projects@);
        let ghost pred = |p: Seq<char>| p != path@;
        let had = contains_string(&self.recent_projects, &path);
        let n = self.recent_projects.len();
        let mut kept: Vec<String> = Vec::new();
        kept.push(path.clone());
        proof {
            assert(views_of(kept@) =~= seq![path@] + orig.take(0).filter(pred));
        }
        let mut i: usize = 0;
        while i < n
            invariant
                n == self.recent_projects@.len(),
                i <= n,
                orig == views_of(self.recent_projects@),
                pred == (|p: Seq<char>| p != path@),
                views_of(kept@) == seq![path@] + orig.take(i as int).filter(pred),
            decreases n - i,
        {
            let ghost prior = views_of(kept@);
            if !self.recent_projects[i].eq(&path) {
                kept.push(self.recent_projects[i].clone());
                proof {
                    assert(views_of(kept@) =~= prior.push(orig[i as int]));
                }
            }
            proof {
                assert(orig.take(i + 1) =~= orig.take(i as int).push(orig[i as int]));
                lemma_filter_push(orig.take(i as int), pred, orig[i as int]);
                assert(views_of(kept@) =~= seq![path@] + orig.take(i + 1).filter(pred));
            }
            i += 1;
        }
        proof {
            assert(orig.take(n as int) =~= orig);
        }
        if !had && kept.len() > MAX_RECENT_PROJECTS {
            let ghost before = views_of(kept@);
            kept.truncate(MAX_RECENT_PROJECTS);
            proof {
                assert(views_of(kept@) =~= before.take(MAX_RECENT_PROJECTS as int));
            }
        }
        self.recent_projects = kept;
        self.current_project = Some(path);
        self.last_opened = Some(opened_at);
    }

    /// Record that `path` was opened now.  Which instant "now" is only the
    /// clock knows; everything else about the update is pinned down.
    pub fn mark_opened_now(&mut self, path: String)
        ensures
            final(self).current_project == Option::Some(path),
            final(self).last_opened matches Some(t) && t@.len() > 0,
            final(self).theme == old(self).theme,
            views_of(final(self).recent_projects@) == updated_recents(
                views_of(old(self).recent_projects@),
                path@,
            ),
    {
        let now = current_time_rfc3339();
        self.record_project_opened(path, now);
    }

    /// The configured theme, or `light` where none was chosen.
    pub fn theme_or_default(&self) -> (t: String)
        ensures
            match self.theme {
                Option::Some(s) => t@ == s@,
                Option::None => t@ == "light"@,
            },
    {
        match &self.theme {
            Some(s) => s.clone(),
            None => String::from_str("light"),
        }
    }

    /// Choose a theme; nothing else changes.
    pub fn set_theme(&mut self, theme: String)
        ensures
            final(self).theme == Option::Some(theme),
            final(self).current_project == old(self).current_project,
            final(self).recent_projects == old(self).recent_projects,
            final(self).last_opened == old(self).last_opened,
    {
        self.theme = Some(theme);
    }
}

/// Relies on chrono's `From<SystemTime>` for `DateTime<Utc>` (total: it
/// handles a clock standing before the Unix epoch without panicking, unlike
/// `Utc::now`) and on `DateTime::to_rfc3339`, which always writes the full
/// date and time into a string.  Which instant comes back only the clock
/// decides, so no more than nonemptiness is assumed of the value.
#[verifier::external_body]
fn current_time_rfc3339() -> (r: String)
    ensures
        r@.len() > 0,
{
    chrono::DateTime::<chrono::Utc>::from(std::time::SystemTime::now()).to_rfc3339()
}

} // verus!
