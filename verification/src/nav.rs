//! The page-transition protocol for in-app navigation.
//!
//! One slot shows one page. Each navigation draws a fresh token from a
//! generation counter; a data-loading result is applied only while its token
//! is still the active one. Issuing a new navigation supersedes the previous
//! token, so a stale result — whenever it arrives, success or error — is
//! discarded instead of overwriting newer content. While a navigation is
//! pending the previously shown content stays in place: nothing is torn
//! down before the new data resolves.

use vstd::prelude::*;

use crate::api::Error;
use crate::model::{UserPage, UserPageView};

verus! {

/// What the slot currently shows.
pub enum SlotContent {
    /// Nothing loaded yet.
    Empty,
    /// A page, ready to render.
    Ready(UserPage),
    /// A failed load; the page presents the error.
    Failed(Error),
}

/// The mathematical value of a [`SlotContent`].
pub enum SlotContentView {
    Empty,
    Ready(UserPageView),
    Failed(Error),
}

impl View for SlotContent {
    type V = SlotContentView;

    open spec fn view(&self) -> SlotContentView {
        match self {
            SlotContent::Empty => SlotContentView::Empty,
            SlotContent::Ready(p) => SlotContentView::Ready(p@),
            SlotContent::Failed(e) => SlotContentView::Failed(*e),
        }
    }
}

/// One page slot: the generation counter, the token still allowed to apply
/// its result, and the content shown meanwhile.
pub struct PageSlot {
    next_token: u64,
    active: Option<u64>,
    content: SlotContent,
}

/// The mathematical value of a [`PageSlot`].
pub struct SlotView {
    pub next_token: u64,
    pub active: Option<u64>,
    pub content: SlotContentView,
}

impl View for PageSlot {
    type V = SlotView;

    closed spec fn view(&self) -> SlotView {
        SlotView { next_token: self.next_token, active: self.active, content: self.content@ }
    }
}

/// The view of a load outcome.
pub open spec fn outcome_view(o: Result<UserPage, Error>) -> Result<UserPageView, Error> {
    match o {
        Ok(p) => Ok(p@),
        Err(e) => Err(e),
    }
}

/// The content an applied outcome leaves in the slot.
pub open spec fn outcome_content(o: Result<UserPageView, Error>) -> SlotContentView {
    match o {
        Ok(v) => SlotContentView::Ready(v),
        Err(e) => SlotContentView::Failed(e),
    }
}

/// Beginning a navigation: draws the next token and makes it the only one
/// allowed to apply. The content is untouched — the previous page stays
/// visible until the new data resolves.
pub open spec fn begin_spec(s: SlotView) -> (SlotView, u64) {
    (
        SlotView {
            next_token: (s.next_token + 1) as u64,
            active: Some(s.next_token),
            content: s.content,
        },
        s.next_token,
    )
}

/// Applying an outcome: takes effect only while its token is the active
/// one, and consumes the token; a stale or repeated token changes nothing.
pub open spec fn apply_spec(s: SlotView, token: u64, o: Result<UserPageView, Error>) -> SlotView {
    if s.active == Some(token) {
        SlotView { next_token: s.next_token, active: None, content: outcome_content(o) }
    } else {
        s
    }
}

impl PageSlot {
    /// A fresh slot: nothing loaded, no navigation pending.
    pub fn new() -> (r: PageSlot)
        ensures
            r@.next_token == 0,
            r@.active is None,
            r@.content is Empty,
    {
        PageSlot { next_token: 0, active: None, content: SlotContent::Empty }
    }

    /// What the slot currently shows.
    pub fn content(&self) -> (r: &SlotContent)
        ensures
            r@ == self@.content,
    {
        &self.content
    }

    /// True while a navigation's fetch is pending.
    pub fn is_loading(&self) -> (r: bool)
        ensures
            r == (self@.active is Some),
    {
        matches!(self.active, Some(_))
    }

    /// True while the generation counter can still issue a token — the
    /// precondition of [`PageSlot::begin_navigation`].
    pub fn can_navigate(&self) -> (r: bool)
        ensures
            r == (self@.next_token < u64::MAX),
    {
        self.next_token < u64::MAX
    }

    /// Starts a navigation and returns its token. Supersedes any navigation
    /// still pending — the old token can no longer apply — and leaves the
    /// shown content in place.
    pub fn begin_navigation(&mut self) -> (t: u64)
        requires
            old(self)@.next_token < u64::MAX,
        ensures
            final(self)@ == begin_spec(old(self)@).0,
            t == begin_spec(old(self)@).1,
    {
        let t = self.next_token;
        self.next_token = self.next_token + 1;
        self.active = Some(t);
        t
    }

    /// Hands a navigation's outcome to the slot. Applies it only when
    /// `token` is still the active one; a superseded navigation's outcome is
    /// discarded, whatever it was and whenever it resolves.
    pub fn apply_result(&mut self, token: u64, outcome: Result<UserPage, Error>)
        ensures
            final(self)@ == apply_spec(old(self)@, token, outcome_view(outcome)),
    {
        let applies = match &self.active {
            Some(a) => *a == token,
            None => false,
        };
        if applies {
            self.active = None;
            self.content = match outcome {
                Ok(p) => SlotContent::Ready(p),
                Err(e) => SlotContent::Failed(e),
            };
        }
    }
}

/// Cancellation law: when navigation B is issued while navigation A is
/// still pending, the slot ends up reflecting only B's outcome — whichever
/// of the two resolves first — and A's outcome changes nothing once it is
/// superseded. Until B's outcome arrives the content shown before is kept.
pub proof fn lemma_superseded_navigation_discarded(
    s0: SlotView,
    oa: Result<UserPageView, Error>,
    ob: Result<UserPageView, Error>,
)
    requires
        s0.next_token < u64::MAX,
    ensures
        ({
            let (s1, a) = begin_spec(s0);
            let (s2, b) = begin_spec(s1);
            // A resolves first: it is stale, so the old content stays until
            // B then applies.
            &&& apply_spec(s2, a, oa) == s2
            &&& apply_spec(s2, a, oa).content == s0.content
            &&& apply_spec(apply_spec(s2, a, oa), b, ob).content == outcome_content(ob)
            // B resolves first: it applies, and A's late outcome is a no-op.
            &&& apply_spec(apply_spec(s2, b, ob), a, oa) == apply_spec(s2, b, ob)
            &&& apply_spec(apply_spec(s2, b, ob), a, oa).content == outcome_content(ob)
        }),
{
}

} // verus!
