//! The data shapes of the page protocol: paste summaries, per-page data,
//! request-scoped server state, and derived page metadata.

use vstd::prelude::*;

verus! {

/// Everything a user listing shows about one paste.
///
/// Constructed once (by the server pipeline or by decoding a payload) and
/// never mutated afterwards; pages re-render by reconstructing.
pub struct PasteSummary {
    pub id: String,
    pub user: Option<String>,
    pub title: String,
    pub ascendancy_or_class: String,
    pub version: String,
    pub main_skill_name: String,
    pub last_modified: u64,
}

/// The mathematical value of a [`PasteSummary`].
pub struct SummaryView {
    pub id: Seq<char>,
    pub user: Option<Seq<char>>,
    pub title: Seq<char>,
    pub ascendancy_or_class: Seq<char>,
    pub version: Seq<char>,
    pub main_skill_name: Seq<char>,
    pub last_modified: u64,
}

impl View for PasteSummary {
    type V = SummaryView;

    open spec fn view(&self) -> SummaryView {
        SummaryView {
            id: self.id@,
            user: match self.user {
                Some(u) => Some(u@),
                None => None,
            },
            title: self.title@,
            ascendancy_or_class: self.ascendancy_or_class@,
            version: self.version@,
            main_skill_name: self.main_skill_name@,
            last_modified: self.last_modified,
        }
    }
}

impl Clone for PasteSummary {
    fn clone(&self) -> (r: Self)
        ensures
            r@ == self@,
    {
        PasteSummary {
            id: self.id.clone(),
            user: match &self.user {
                Some(u) => Some(u.clone()),
                None => None,
            },
            title: self.title.clone(),
            ascendancy_or_class: self.ascendancy_or_class.clone(),
            version: self.version.clone(),
            main_skill_name: self.main_skill_name.clone(),
            last_modified: self.last_modified,
        }
    }
}

/// Data of the user listing page: the user's display name and the ordered
/// sequence of that user's paste summaries.
pub struct UserPage {
    pub name: String,
    pub pastes: Vec<PasteSummary>,
}

/// The mathematical value of a [`UserPage`].
pub struct UserPageView {
    pub name: Seq<char>,
    pub pastes: Seq<SummaryView>,
}

impl View for UserPage {
    type V = UserPageView;

    open spec fn view(&self) -> UserPageView {
        UserPageView {
            name: self.name@,
            pastes: self.pastes@.map_values(|p: PasteSummary| p@),
        }
    }
}

/// Request-scoped server state, preloaded by the pipeline before the page
/// constructor runs. Read-only from this crate's perspective; one instance
/// per inbound request.
pub struct Context {
    pub user_pastes: Option<Vec<PasteSummary>>,
}

impl Context {
    pub open spec fn user_pastes_view(&self) -> Option<Seq<SummaryView>> {
        match self.user_pastes {
            Some(v) => Some(v@.map_values(|p: PasteSummary| p@)),
            None => None,
        }
    }
}

/// Page metadata consumed by the head-rendering collaborator: title,
/// description, share image, accent color and resource hints. No other
/// fields may cross that boundary.
pub struct Meta {
    pub title: String,
    pub description: String,
    pub image: String,
    pub color: String,
    pub preload: Vec<String>,
    pub prefetch: Vec<String>,
}

impl Default for Meta {
    /// Metadata with every field empty.
    fn default() -> (r: Self)
        ensures
            r.title@ == Seq::<char>::empty(),
            r.description@ == Seq::<char>::empty(),
            r.image@ == Seq::<char>::empty(),
            r.color@ == Seq::<char>::empty(),
            r.preload@.len() == 0,
            r.prefetch@.len() == 0,
    {
        Meta {
            title: String::new(),
            description: String::new(),
            image: String::new(),
            color: String::new(),
            preload: Vec::new(),
            prefetch: Vec::new(),
        }
    }
}

} // verus!
