//! The workspace: tabs holding panes holding terminal sessions, which of
//! them is active, and the dividers drawn between panes.
//!
//! The workspace is generic over the session type `S` and over the type
//! `R` of a pane's share of its tab's height; spawning sessions, telling
//! whether they are alive and the arithmetic on shares belong to the
//! caller.

use vstd::prelude::*;
use crate::manager::{kept, lemma_kept_from, lemma_kept_len, retain_flagged};
use crate::render::Viewport;
use crate::text::{decimal, owned, push_decimal, push_str, string_from_chars};

verus! {

/// Identifier of a pane.
pub type PaneId = u64;

/// Identifier of a tab.
pub type TabId = u64;

/// Height of the tab bar, in pixels.
pub const TAB_BAR_HEIGHT: u32 = 30;

/// Thickness of a divider between panes, in pixels.
pub const DIVIDER_WIDTH: u32 = 3;

/// Where a pane is drawn.
#[derive(Debug, Clone, Copy, PartialEq, Eq, Structural)]
pub struct PaneViewport {
    pub pane_id: PaneId,
    pub x: u32,
    pub y: u32,
    pub width: u32,
    pub height: u32,
}

impl PaneViewport {
    /// The same rectangle as a renderer viewport.
    pub fn to_render_viewport(&self) -> (v: Viewport)
        ensures
            v == (Viewport { x: self.x, y: self.y, width: self.width, height: self.height }),
    {
        Viewport { x: self.x, y: self.y, width: self.width, height: self.height }
    }

    /// The far edges fit in `u32`.
    pub open spec fn fits(self) -> bool {
        self.x + self.width <= u32::MAX && self.y + self.height <= u32::MAX
    }
}

/// Orientation of a divider between panes.
#[derive(Debug, Clone, Copy, PartialEq, Eq, Structural)]
pub enum DividerOrientation {
    Horizontal,
    Vertical,
}

/// A visual divider between two adjacent panes.
#[derive(Debug, Clone, Copy, PartialEq, Eq, Structural)]
pub struct Divider {
    pub x: u32,
    pub y: u32,
    pub width: u32,
    pub height: u32,
    pub orientation: DividerOrientation,
}

/// The divider filling the gap between pane `a` and the next pane `b`: a
/// horizontal one when `b` starts below `a`, a vertical one when it starts
/// to its right, none when they meet.
pub open spec fn divider_between(a: PaneViewport, b: PaneViewport) -> Option<Divider> {
    if a.y + a.height < b.y {
        Some(
            Divider {
                x: a.x,
                y: (a.y + a.height) as u32,
                width: if a.width <= b.width { a.width } else { b.width },
                height: (b.y - (a.y + a.height)) as u32,
                orientation: DividerOrientation::Horizontal,
            },
        )
    } else if a.x + a.width < b.x {
        Some(
            Divider {
                x: (a.x + a.width) as u32,
                y: a.y,
                width: (b.x - (a.x + a.width)) as u32,
                height: if a.height <= b.height { a.height } else { b.height },
                orientation: DividerOrientation::Vertical,
            },
        )
    } else {
        None
    }
}

/// The dividers between consecutive panes among the first `n` viewports,
/// in order.
pub open spec fn dividers_upto(vps: Seq<PaneViewport>, n: int) -> Seq<Divider>
    decreases n,
{
    if n <= 1 || n > vps.len() {
        Seq::empty()
    } else {
        let before = dividers_upto(vps, n - 1);
        match divider_between(vps[n - 2], vps[n - 1]) {
            Some(d) => before.push(d),
            None => before,
        }
    }
}

/// The dividers between consecutive pane viewports, in order.
pub fn dividers_between(viewports: &Vec<PaneViewport>) -> (ds: Vec<Divider>)
    requires
        forall|i: int| 0 <= i < viewports@.len() ==> (#[trigger] viewports@[i]).fits(),
    ensures
        ds@ == dividers_upto(viewports@, viewports@.len() as int),
{
    let count = viewports.len();
    let mut dividers: Vec<Divider> = Vec::new();
    if count <= 1 {
        return dividers;
    }
    let mut i: usize = 0;
    while i < count - 1
        invariant
            count == viewports@.len(),
            count >= 2,
            i <= count - 1,
            forall|k: int| 0 <= k < viewports@.len() ==> (#[trigger] viewports@[k]).fits(),
            dividers@ == dividers_upto(viewports@, i as int + 1),
        decreases count - 1 - i,
    {
        let a = viewports[i];
        let b = viewports[i + 1];
        assert(a.fits() && b.fits());
        if a.y + a.height < b.y {
            dividers.push(
                Divider {
                    x: a.x,
                    y: a.y + a.height,
                    width: if a.width <= b.width { a.width } else { b.width },
                    height: b.y - (a.y + a.height),
                    orientation: DividerOrientation::Horizontal,
                },
            );
        } else if a.x + a.width < b.x {
            dividers.push(
                Divider {
                    x: a.x + a.width,
                    y: a.y,
                    width: b.x - (a.x + a.width),
                    height: if a.height <= b.height { a.height } else { b.height },
                    orientation: DividerOrientation::Vertical,
                },
            );
        }
        i += 1;
    }
    dividers
}

/// The tab after `active`, wrapping to the first (unchanged when there are
/// no tabs).
fn next_index(active: usize, count: usize) -> (r: usize)
    requires
        count > 0 ==> active < usize::MAX,
    ensures
        r == (if count > 0 { ((active + 1) % (count as int)) as usize } else { active }),
{
    if count > 0 {
        (active + 1) % count
    } else {
        active
    }
}

/// The tab before `active`, wrapping to the last (unchanged when there are
/// no tabs).
fn previous_index(active: usize, count: usize) -> (r: usize)
    ensures
        r == (if count == 0 { active } else if active == 0 { (count - 1) as usize } else { (active - 1) as usize }),
{
    if count > 0 {
        if active == 0 {
            count - 1
        } else {
            active - 1
        }
    } else {
        active
    }
}

/// The active index after an item was removed, leaving `remaining` items:
/// pulled back onto the last item when it fell off the end.
fn index_after_removal(active: usize, remaining: usize) -> (r: usize)
    requires
        remaining > 0,
    ensures
        r == (if active >= remaining { (remaining - 1) as usize } else { active }),
        r < remaining,
{
    if active >= remaining {
        remaining - 1
    } else {
        active
    }
}

/// Focus moved to the pane above: one index down, stopping at the first.
fn focus_up_index(active: usize) -> (r: usize)
    ensures
        r == (if active > 0 { (active - 1) as usize } else { 0 }),
{
    if active > 0 {
        active - 1
    } else {
        active
    }
}

/// Focus moved to the pane below: one index up, stopping at the last of
/// `count` panes.
fn focus_down_index(active: usize, count: usize) -> (r: usize)
    ensures
        r == (if active + 1 < count { (active + 1) as usize } else { active }),
{
    if active < count && active + 1 < count {
        active + 1
    } else {
        active
    }
}

/// Following next tab by previous tab returns to the starting tab.
pub proof fn lemma_next_then_previous(active: usize, count: usize)
    requires
        active < count,
    ensures
        ({
            let n = (active + 1) % (count as int);
            (if n == 0 { count - 1 } else { n - 1 }) == active
        }),
{
    if active + 1 < count {
        vstd::arithmetic::div_mod::lemma_small_mod((active + 1) as nat, count as nat);
    } else {
        vstd::arithmetic::div_mod::lemma_mod_self_0(count as int);
    }
}


/// A terminal pane within a tab.
pub struct Pane<S> {
    pub id: PaneId,
    pub session: S,
    pub title: String,
}

/// A tab holding one or more panes, stacked; `pane_ratios` holds each
/// pane's share of the tab's height.
pub struct Tab<S, R> {
    pub id: TabId,
    pub title: String,
    pub panes: Vec<Pane<S>>,
    pub active_pane: usize,
    pub pane_ratios: Vec<R>,
}

impl<S, R> Tab<S, R> {
    /// At least one pane, an active one among them, a share for each, and
    /// pane identifiers below `next_pane_id`.
    pub open spec fn wf(&self, next_pane_id: u64) -> bool {
        &&& self.panes@.len() > 0
        &&& self.active_pane < self.panes@.len()
        &&& self.pane_ratios@.len() >= self.panes@.len()
        &&& forall|j: int| 0 <= j < self.panes@.len() ==> (#[trigger] self.panes@[j]).id < next_pane_id
    }
}

/// The number of panes in `tabs`.
pub open spec fn pane_total<S, R>(tabs: Seq<Tab<S, R>>) -> nat
    decreases tabs.len(),
{
    if tabs.len() == 0 {
        0
    } else {
        pane_total(tabs.drop_last()) + tabs.last().panes@.len()
    }
}

/// Mathematical picture of a [`Workspace`].
pub struct WorkspaceView<S, R> {
    pub tabs: Seq<Tab<S, R>>,
    pub active_tab: usize,
    pub next_pane_id: u64,
    pub next_tab_id: u64,
}

impl<S, R> WorkspaceView<S, R> {
    /// The active tab exists while there are tabs; every tab is sound; tab
    /// identifiers are below the next one.
    pub open spec fn wf(self) -> bool {
        &&& self.tabs.len() > 0 ==> self.active_tab < self.tabs.len()
        &&& forall|i: int| 0 <= i < self.tabs.len() ==> (#[trigger] self.tabs[i]).wf(self.next_pane_id)
        &&& forall|i: int| 0 <= i < self.tabs.len() ==> (#[trigger] self.tabs[i]).id < self.next_tab_id
    }

    /// The active tab.
    pub open spec fn tab(self) -> Tab<S, R> {
        self.tabs[self.active_tab as int]
    }

    /// The active pane of the active tab.
    pub open spec fn pane(self) -> Pane<S> {
        self.tab().panes@[self.tab().active_pane as int]
    }
}

/// Tabs holding panes holding terminal sessions, with one tab active.
pub struct Workspace<S, R> {
    pub tabs: Vec<Tab<S, R>>,
    pub active_tab: usize,
    next_pane_id: PaneId,
    next_tab_id: TabId,
}

impl<S, R> View for Workspace<S, R> {
    type V = WorkspaceView<S, R>;

    closed spec fn view(&self) -> WorkspaceView<S, R> {
        WorkspaceView {
            tabs: self.tabs@,
            active_tab: self.active_tab,
            next_pane_id: self.next_pane_id,
            next_tab_id: self.next_tab_id,
        }
    }
}

impl<S, R> Workspace<S, R> {
    /// A workspace with one tab ("terminal") holding one pane ("shell")
    /// for `session`, with the whole height `ratio`.
    pub fn new(session: S, ratio: R) -> (w: Self)
        ensures
            w@.wf(),
            w@.tabs.len() == 1,
            w@.active_tab == 0,
            w@.tabs[0].id == 1,
            w@.tabs[0].title@ == "terminal"@,
            w@.tabs[0].panes@.len() == 1,
            w@.tabs[0].panes@[0].id == 1,
            w@.tabs[0].panes@[0].session == session,
            w@.tabs[0].panes@[0].title@ == "shell"@,
            w@.tabs[0].active_pane == 0,
            w@.tabs[0].pane_ratios@ == seq![ratio],
            w@.next_pane_id == 2,
            w@.next_tab_id == 2,
    {
        let mut panes = Vec::new();
        panes.push(Pane { id: 1, session, title: owned("shell") });
        let mut pane_ratios = Vec::new();
        pane_ratios.push(ratio);
        let mut tabs = Vec::new();
        tabs.push(Tab { id: 1, title: owned("terminal"), panes, active_pane: 0, pane_ratios });
        proof {
            assert(pane_ratios@ =~= seq![ratio]);
        }
        Workspace { tabs, active_tab: 0, next_pane_id: 2, next_tab_id: 2 }
    }

    /// The active tab.
    pub fn active_tab(&self) -> (t: &Tab<S, R>)
        requires
            self@.wf(),
            self@.tabs.len() > 0,
        ensures
            *t == self@.tab(),
    {
        &self.tabs[self.active_tab]
    }

    /// The active pane of the active tab.
    pub fn active_pane(&self) -> (p: &Pane<S>)
        requires
            self@.wf(),
            self@.tabs.len() > 0,
        ensures
            *p == self@.pane(),
    {
        let tab = &self.tabs[self.active_tab];
        assert(tab.wf(self.next_pane_id));
        &tab.panes[tab.active_pane]
    }

    /// The session of the active pane.
    pub fn active_session(&self) -> (s: &S)
        requires
            self@.wf(),
            self@.tabs.len() > 0,
        ensures
            *s == self@.pane().session,
    {
        &self.active_pane().session
    }

    /// Number of tabs.
    pub fn tab_count(&self) -> (n: usize)
        ensures
            n == self@.tabs.len(),
    {
        self.tabs.len()
    }

    /// Switches to tab `idx`; `false` (and no change) when there is no such
    /// tab.
    pub fn switch_to_tab(&mut self, idx: usize) -> (ok: bool)
        requires
            old(self)@.wf(),
        ensures
            final(self)@.wf(),
            ok == (idx < old(self)@.tabs.len()),
            final(self)@ == (WorkspaceView { active_tab: if ok { idx } else { old(self)@.active_tab }, ..old(self)@ }),
    {
        if idx < self.tabs.len() {
            self.active_tab = idx;
            true
        } else {
            false
        }
    }

    /// Switches to the next tab, wrapping to the first.
    pub fn next_tab(&mut self)
        requires
            old(self)@.wf(),
        ensures
            final(self)@.wf(),
            final(self)@ == (WorkspaceView {
                active_tab: if old(self)@.tabs.len() > 0 {
                    ((old(self)@.active_tab + 1) % (old(self)@.tabs.len() as int)) as usize
                } else {
                    old(self)@.active_tab
                },
                ..old(self)@
            }),
    {
        self.active_tab = next_index(self.active_tab, self.tabs.len());
    }

    /// Switches to the previous tab, wrapping to the last.
    pub fn previous_tab(&mut self)
        requires
            old(self)@.wf(),
        ensures
            final(self)@.wf(),
            final(self)@ == (WorkspaceView {
                active_tab: if old(self)@.tabs.len() == 0 {
                    old(self)@.active_tab
                } else if old(self)@.active_tab == 0 {
                    (old(self)@.tabs.len() - 1) as usize
                } else {
                    (old(self)@.active_tab - 1) as usize
                },
                ..old(self)@
            }),
    {
        self.active_tab = previous_index(self.active_tab, self.tabs.len());
    }

    /// The active tab, to change.
    pub fn active_tab_mut(&mut self) -> (t: &mut Tab<S, R>)
        requires
            old(self)@.wf(),
            old(self)@.tabs.len() > 0,
        ensures
            *t == old(self)@.tab(),
            final(self)@ == (WorkspaceView {
                tabs: old(self)@.tabs.update(old(self)@.active_tab as int, *final(t)),
                ..old(self)@
            }),
    {
        &mut self.tabs[self.active_tab]
    }

    /// The active pane of the active tab, to change.
    pub fn active_pane_mut(&mut self) -> (p: &mut Pane<S>)
        requires
            old(self)@.wf(),
            old(self)@.tabs.len() > 0,
        ensures
            *p == old(self)@.pane(),
            same_but_active_pane(old(self)@, final(self)@, *final(p)),
    {
        proof {
            assert(old(self)@.tabs[old(self)@.active_tab as int].wf(old(self)@.next_pane_id));
        }
        let tab = &mut self.tabs[self.active_tab];
        let ap = tab.active_pane;
        &mut tab.panes[ap]
    }

    /// The session of the active pane, to change.
    pub fn active_session_mut(&mut self) -> (s: &mut S)
        requires
            old(self)@.wf(),
            old(self)@.tabs.len() > 0,
        ensures
            *s == old(self)@.pane().session,
            same_but_active_pane(
                old(self)@,
                final(self)@,
                Pane { session: *final(s), ..old(self)@.pane() },
            ),
    {
        &mut self.active_pane_mut().session
    }

    /// Opens a tab ("terminal-" and its identifier) holding one pane
    /// ("shell") for `session`, with the whole height `ratio`, after the
    /// others, and switches to it; returns the tab's identifier.
    pub fn create_tab(&mut self, session: S, ratio: R) -> (id: TabId)
        requires
            old(self)@.wf(),
            old(self)@.next_tab_id < u64::MAX,
            old(self)@.next_pane_id < u64::MAX,
        ensures
            final(self)@.wf(),
            id == old(self)@.next_tab_id,
            final(self)@.tabs.len() == old(self)@.tabs.len() + 1,
            final(self)@.tabs.take(old(self)@.tabs.len() as int) == old(self)@.tabs,
            final(self)@.active_tab == old(self)@.tabs.len(),
            final(self)@.next_tab_id == id + 1,
            final(self)@.next_pane_id == old(self)@.next_pane_id + 1,
            ({
                let t = final(self)@.tabs.last();
                &&& t.id == id
                &&& t.title@ == "terminal-"@ + decimal(id as nat)
                &&& t.panes@.len() == 1
                &&& t.panes@[0].id == old(self)@.next_pane_id
                &&& t.panes@[0].session == session
                &&& t.panes@[0].title@ == "shell"@
                &&& t.active_pane == 0
                &&& t.pane_ratios@ == seq![ratio]
            }),
    {
        let tab_id = self.next_tab_id;
        self.next_tab_id = self.next_tab_id + 1;
        let pane_id = self.next_pane_id;
        self.next_pane_id = self.next_pane_id + 1;
        let mut title: Vec<char> = Vec::new();
        push_str(&mut title, "terminal-");
        push_decimal(&mut title, tab_id);
        let mut panes = Vec::new();
        panes.push(Pane { id: pane_id, session, title: owned("shell") });
        let mut pane_ratios = Vec::new();
        pane_ratios.push(ratio);
        let ghost before = self.tabs@;
        self.tabs.push(Tab { id: tab_id, title: string_from_chars(&title), panes, active_pane: 0, pane_ratios });
        self.active_tab = self.tabs.len() - 1;
        proof {
            assert(pane_ratios@ =~= seq![ratio]);
            assert(self.tabs@.take(before.len() as int) =~= before);
            assert forall|i: int| 0 <= i < self.tabs@.len() implies (#[trigger] self.tabs@[i]).wf(
                self.next_pane_id,
            ) && self.tabs@[i].id < self.next_tab_id by {
                if i < before.len() {
                    assert(self.tabs@[i] == before[i]);
                    assert(before[i].wf(pane_id));
                    assert forall|j: int| 0 <= j < before[i].panes@.len() implies (#[trigger] before[i].panes@[
                        j
                    ]).id < self.next_pane_id by {}
                }
            }
        }
        tab_id
    }

    /// Closes the active tab, unless it is the only one; the tab after it
    /// (or the new last one) becomes active. Returns whether no tab is left.
    pub fn close_active_tab(&mut self) -> (empty: bool)
        requires
            old(self)@.wf(),
        ensures
            final(self)@.wf(),
            !empty,
            old(self)@.tabs.len() <= 1 ==> final(self)@ == old(self)@,
            old(self)@.tabs.len() > 1 ==> final(self)@ == (WorkspaceView {
                tabs: old(self)@.tabs.remove(old(self)@.active_tab as int),
                active_tab: if old(self)@.active_tab >= old(self)@.tabs.len() - 1 {
                    (old(self)@.tabs.len() - 2) as usize
                } else {
                    old(self)@.active_tab
                },
                ..old(self)@
            }),
    {
        if self.tabs.len() <= 1 {
            return false;
        }
        let ghost before = self.tabs@;
        let at = self.active_tab;
        self.tabs.remove(at);
        self.active_tab = index_after_removal(self.active_tab, self.tabs.len());
        proof {
            assert forall|i: int| 0 <= i < self.tabs@.len() implies (#[trigger] self.tabs@[i]).wf(
                self.next_pane_id,
            ) && self.tabs@[i].id < self.next_tab_id by {
                if i < at {
                    assert(self.tabs@[i] == before[i]);
                } else {
                    assert(self.tabs@[i] == before[i + 1]);
                }
            }
        }
        self.tabs.len() == 0
    }
}

impl<S, R: Copy> Workspace<S, R> {
    /// Splits the active pane horizontally: see [`split_pane`](Self::split_pane).
    pub fn split_horizontal(&mut self, session: S, half: R) -> (id: PaneId)
        requires
            old(self)@.wf(),
            old(self)@.tabs.len() > 0,
            old(self)@.next_pane_id < u64::MAX,
        ensures
            final(self)@.wf(),
            split(old(self)@, final(self)@, session, half, id),
    {
        self.split_pane(session, half)
    }

    /// Splits the active pane vertically: see [`split_pane`](Self::split_pane).
    pub fn split_vertical(&mut self, session: S, half: R) -> (id: PaneId)
        requires
            old(self)@.wf(),
            old(self)@.tabs.len() > 0,
            old(self)@.next_pane_id < u64::MAX,
        ensures
            final(self)@.wf(),
            split(old(self)@, final(self)@, session, half, id),
    {
        self.split_pane(session, half)
    }

    /// Adds a pane ("split") for `session` below the others of the active
    /// tab and focuses it; the previously active pane's share becomes
    /// `half` (the caller halves it), and the new pane gets `half` too.
    fn split_pane(&mut self, session: S, half: R) -> (id: PaneId)
        requires
            old(self)@.wf(),
            old(self)@.tabs.len() > 0,
            old(self)@.next_pane_id < u64::MAX,
        ensures
            final(self)@.wf(),
            split(old(self)@, final(self)@, session, half, id),
    {
        let pane_id = self.next_pane_id;
        self.next_pane_id = self.next_pane_id + 1;
        let ghost before = self.tabs@;
        let at = self.active_tab;
        proof {
            assert(before[at as int].wf(pane_id));
        }
        let tab = &mut self.tabs[at];
        tab.panes.push(Pane { id: pane_id, session, title: owned("split") });
        let ai = tab.active_pane;
        tab.pane_ratios.set(ai, half);
        tab.pane_ratios.push(half);
        tab.active_pane = tab.panes.len() - 1;
        proof {
            assert(self.tabs@[at as int].panes@.take(before[at as int].panes@.len() as int) =~= before[
                at as int
            ].panes@);
            assert(self.tabs@[at as int].pane_ratios@ =~= before[at as int].pane_ratios@.update(
                before[at as int].active_pane as int,
                half,
            ).push(half));
            assert forall|i: int| 0 <= i < self.tabs@.len() implies (#[trigger] self.tabs@[i]).wf(
                self.next_pane_id,
            ) && self.tabs@[i].id < self.next_tab_id by {
                assert(before[i].wf(pane_id));
                if i != at {
                    assert(self.tabs@[i] == before[i]);
                    assert forall|j: int| 0 <= j < before[i].panes@.len() implies (#[trigger] before[i].panes@[
                        j
                    ]).id < self.next_pane_id by {}
                } else {
                    assert forall|j: int| 0 <= j < self.tabs@[i].panes@.len() implies (#[trigger] self.tabs@[
                        i
                    ].panes@[j]).id < self.next_pane_id by {
                        if j < before[i].panes@.len() {
                            assert(self.tabs@[i].panes@[j] == before[i].panes@[j]);
                        }
                    }
                }
            }
        }
        pane_id
    }
}

impl<S, R> Workspace<S, R> {
    /// Focuses the pane above the active one (none above: no change).
    pub fn focus_up(&mut self)
        requires
            old(self)@.wf(),
            old(self)@.tabs.len() > 0,
        ensures
            final(self)@.wf(),
            focused(old(self)@, final(self)@, if old(self)@.tab().active_pane > 0 {
                (old(self)@.tab().active_pane - 1) as usize
            } else {
                0
            }),
    {
        let ghost before = self.tabs@;
        let at = self.active_tab;
        let tab = &mut self.tabs[at];
        tab.active_pane = focus_up_index(tab.active_pane);
        proof {
            self.lemma_focus_keeps_wf(before, at as int);
        }
    }

    /// Focuses the pane below the active one (none below: no change).
    pub fn focus_down(&mut self)
        requires
            old(self)@.wf(),
            old(self)@.tabs.len() > 0,
        ensures
            final(self)@.wf(),
            focused(old(self)@, final(self)@, if old(self)@.tab().active_pane + 1 < old(self)@.tab().panes@.len() {
                (old(self)@.tab().active_pane + 1) as usize
            } else {
                old(self)@.tab().active_pane
            }),
    {
        let ghost before = self.tabs@;
        let at = self.active_tab;
        let tab = &mut self.tabs[at];
        tab.active_pane = focus_down_index(tab.active_pane, tab.panes.len());
        proof {
            self.lemma_focus_keeps_wf(before, at as int);
        }
    }

    /// Focuses the pane left of the active one: panes are stacked, so there
    /// is none and nothing changes.
    pub fn focus_left(&mut self)
        requires
            old(self)@.wf(),
            old(self)@.tabs.len() > 0,
        ensures
            final(self)@ == old(self)@,
    {
    }

    /// Focuses the pane right of the active one: panes are stacked, so there
    /// is none and nothing changes.
    pub fn focus_right(&mut self)
        requires
            old(self)@.wf(),
            old(self)@.tabs.len() > 0,
        ensures
            final(self)@ == old(self)@,
    {
    }

    /// Only the active pane index of tab `at` changed, and stayed in range.
    proof fn lemma_focus_keeps_wf(&self, before: Seq<Tab<S, R>>, at: int)
        requires
            (WorkspaceView { tabs: before, ..self@ }).wf(),
            0 <= at < before.len(),
            self@.tabs.len() == before.len(),
            forall|i: int| 0 <= i < before.len() && i != at ==> self@.tabs[i] == before[i],
            self@.tabs[at].id == before[at].id,
            self@.tabs[at].panes == before[at].panes,
            self@.tabs[at].pane_ratios == before[at].pane_ratios,
            self@.tabs[at].active_pane < before[at].panes@.len(),
        ensures
            self@.wf(),
    {
        assert forall|i: int| 0 <= i < self@.tabs.len() implies (#[trigger] self@.tabs[i]).wf(self@.next_pane_id)
            && self@.tabs[i].id < self@.next_tab_id by {
            assert(before[i].wf(self@.next_pane_id));
            assert(before[i].id < self@.next_tab_id);
        }
    }

    /// Closes the active pane of the active tab, unless it is the only one;
    /// its share goes too, and the pane after it (or the new last one) is
    /// focused. Returns whether the tab has no pane left.
    pub fn close_active_pane(&mut self) -> (empty: bool)
        requires
            old(self)@.wf(),
            old(self)@.tabs.len() > 0,
        ensures
            final(self)@.wf(),
            !empty,
            old(self)@.tab().panes@.len() <= 1 ==> final(self)@ == old(self)@,
            old(self)@.tab().panes@.len() > 1 ==> {
                let t = old(self)@;
                let u = final(self)@;
                let at = t.active_tab as int;
                let ap = t.tab().active_pane as int;
                &&& u.tabs.len() == t.tabs.len()
                &&& u.active_tab == t.active_tab
                &&& u.next_pane_id == t.next_pane_id
                &&& u.next_tab_id == t.next_tab_id
                &&& forall|i: int| 0 <= i < t.tabs.len() && i != at ==> u.tabs[i] == t.tabs[i]
                &&& u.tabs[at].id == t.tabs[at].id
                &&& u.tabs[at].title == t.tabs[at].title
                &&& u.tabs[at].panes@ == t.tabs[at].panes@.remove(ap)
                &&& u.tabs[at].pane_ratios@ == t.tabs[at].pane_ratios@.remove(ap)
                &&& u.tabs[at].active_pane == (if ap >= t.tabs[at].panes@.len() - 1 {
                    t.tabs[at].panes@.len() - 2
                } else {
                    ap
                })
            },
    {
        let ghost before = self.tabs@;
        let at = self.active_tab;
        proof {
            assert(before[at as int].wf(self.next_pane_id));
        }
        if self.tabs[at].panes.len() <= 1 {
            return false;
        }
        let tab = &mut self.tabs[at];
        let ap = tab.active_pane;
        tab.panes.remove(ap);
        tab.pane_ratios.remove(ap);
        tab.active_pane = index_after_removal(ap, tab.panes.len());
        let empty = tab.panes.len() == 0;
        proof {
            assert forall|i: int| 0 <= i < self.tabs@.len() implies (#[trigger] self.tabs@[i]).wf(
                self.next_pane_id,
            ) && self.tabs@[i].id < self.next_tab_id by {
                assert(before[i].wf(self.next_pane_id));
                if i == at {
                    assert forall|j: int| 0 <= j < self.tabs@[i].panes@.len() implies (#[trigger] self.tabs@[
                        i
                    ].panes@[j]).id < self.next_pane_id by {
                        if j < ap {
                            assert(self.tabs@[i].panes@[j] == before[i].panes@[j]);
                        } else {
                            assert(self.tabs@[i].panes@[j] == before[i].panes@[j + 1]);
                        }
                    }
                }
            }
        }
        empty
    }
}

impl<S, R> Workspace<S, R> {
    /// Keeps, in each tab, the panes whose flag in `alive` is set (a tab
    /// that lost panes focuses its last pane when its focus fell off the
    /// end), then drops the tabs left without panes; the active tab moves to
    /// the last one when it fell off the end. Returns whether any pane was
    /// removed.
    pub fn reap_dead(&mut self, alive: &Vec<Vec<bool>>) -> (changed: bool)
        requires
            old(self)@.wf(),
            alive@.len() == old(self)@.tabs.len(),
            forall|k: int| 0 <= k < alive@.len() ==> (#[trigger] alive@[k])@.len() == old(self)@.tabs[k].panes@.len(),
        ensures
            final(self)@.wf(),
            reaped(old(self)@, final(self)@, alive@),
            changed == exists|k: int|
                0 <= k < old(self)@.tabs.len() && #[trigger] kept(old(self)@.tabs[k].panes@, alive@[k]@).len()
                    != old(self)@.tabs[k].panes@.len(),
    {
        let ghost before = self.tabs@;
        let n = self.tabs.len();
        let mut changed = false;
        let mut i: usize = 0;
        while i < n
            invariant
                n == before.len(),
                before == old(self)@.tabs,
                old(self)@.wf(),
                self.next_pane_id == old(self)@.next_pane_id,
                self.next_tab_id == old(self)@.next_tab_id,
                self.active_tab == old(self)@.active_tab,
                self.tabs@.len() == n,
                i <= n,
                alive@.len() == n,
                forall|k: int| 0 <= k < n ==> (#[trigger] alive@[k])@.len() == before[k].panes@.len(),
                forall|k: int| 0 <= k < i ==> reaped_tab(before[k], #[trigger] self.tabs@[k], alive@[k]@),
                forall|k: int| i <= k < n ==> #[trigger] self.tabs@[k] == before[k],
                changed == exists|k: int|
                    0 <= k < i && #[trigger] kept(before[k].panes@, alive@[k]@).len() != before[k].panes@.len(),
            decreases n - i,
        {
            let ghost prev = self.tabs@;
            let tab = &mut self.tabs[i];
            let before_len = tab.panes.len();
            retain_flagged(&mut tab.panes, &alive[i]);
            if tab.panes.len() != before_len {
                changed = true;
                if tab.active_pane >= tab.panes.len() && tab.panes.len() > 0 {
                    tab.active_pane = tab.panes.len() - 1;
                }
            }
            i += 1;
            proof {
                assert forall|k: int| 0 <= k < i - 1 implies reaped_tab(before[k], #[trigger] self.tabs@[k], alive@[k]@) by {
                    assert(self.tabs@[k] == prev[k]);
                }
                assert forall|k: int| i <= k < n implies #[trigger] self.tabs@[k] == before[k] by {
                    assert(self.tabs@[k] == prev[k]);
                }
                let j = (i - 1) as int;
                if kept(before[j].panes@, alive@[j]@).len() != before[j].panes@.len() {
                    assert(changed);
                }
            }
        }
        let ghost mid = self.tabs@;
        let mut keep: Vec<bool> = Vec::new();
        let mut j: usize = 0;
        while j < n
            invariant
                n == mid.len(),
                self.tabs@ == mid,
                self.next_pane_id == old(self)@.next_pane_id,
                self.next_tab_id == old(self)@.next_tab_id,
                self.active_tab == old(self)@.active_tab,
                j <= n,
                keep@.len() == j,
                forall|k: int| 0 <= k < j ==> keep@[k] == ((#[trigger] mid[k]).panes@.len() > 0),
            decreases n - j,
        {
            keep.push(self.tabs[j].panes.len() > 0);
            j += 1;
        }
        proof {
            assert(keep@ =~= nonempty_flags(mid));
        }
        retain_flagged(&mut self.tabs, &keep);
        if self.active_tab >= self.tabs.len() && self.tabs.len() > 0 {
            self.active_tab = self.tabs.len() - 1;
        }
        proof {
            let flags = nonempty_flags(mid);
            lemma_kept_from(mid, flags);
            assert forall|k: int| 0 <= k < n && (#[trigger] mid[k]).panes@.len() > 0 implies mid[k].wf(
                self.next_pane_id,
            ) && mid[k].id < self.next_tab_id by {
                assert(reaped_tab(before[k], mid[k], alive@[k]@));
                assert(before[k].wf(self.next_pane_id));
                lemma_kept_len(before[k].panes@, alive@[k]@);
                lemma_kept_from(before[k].panes@, alive@[k]@);
                assert forall|q: int| 0 <= q < mid[k].panes@.len() implies (#[trigger] mid[k].panes@[q]).id
                    < self.next_pane_id by {
                    assert(mid[k].panes@[q] == kept(before[k].panes@, alive@[k]@)[q]);
                    let p = choose|p: int|
                        0 <= p < before[k].panes@.len() && #[trigger] before[k].panes@[p] == kept(
                            before[k].panes@,
                            alive@[k]@,
                        )[q] && alive@[k]@[p];
                    assert(before[k].panes@[p].id < self.next_pane_id);
                }
            }
            assert forall|k: int| 0 <= k < self.tabs@.len() implies (#[trigger] self.tabs@[k]).wf(self.next_pane_id)
                && self.tabs@[k].id < self.next_tab_id by {
                let p = choose|p: int| 0 <= p < mid.len() && #[trigger] mid[p] == kept(mid, flags)[k] && flags[p];
                assert(mid[p].panes@.len() > 0);
            }
            assert(mid.len() == before.len() && (forall|k: int|
                0 <= k < mid.len() ==> reaped_tab(before[k], #[trigger] mid[k], alive@[k]@)) && self@.tabs == kept(
                mid,
                nonempty_flags(mid),
            ));
        }
        changed
    }

    /// Number of panes over all tabs.
    pub fn pane_count(&self) -> (n: usize)
        requires
            pane_total(self@.tabs) <= usize::MAX,
        ensures
            n == pane_total(self@.tabs),
    {
        let mut total: usize = 0;
        let mut i: usize = 0;
        while i < self.tabs.len()
            invariant
                i <= self@.tabs.len(),
                pane_total(self@.tabs) <= usize::MAX,
                total == pane_total(self@.tabs.take(i as int)),
            decreases self@.tabs.len() - i,
        {
            proof {
                assert(self@.tabs.take(i + 1).drop_last() =~= self@.tabs.take(i as int));
                lemma_pane_total_prefix(self@.tabs, i + 1);
            }
            total = total + self.tabs[i].panes.len();
            i += 1;
        }
        proof {
            assert(self@.tabs.take(i as int) =~= self@.tabs);
        }
        total
    }

    /// Number of sessions: one per pane.
    pub fn session_count(&self) -> (n: usize)
        requires
            pane_total(self@.tabs) <= usize::MAX,
        ensures
            n == pane_total(self@.tabs),
    {
        self.pane_count()
    }
}

/// The panes of a prefix are no more than all the panes.
proof fn lemma_pane_total_prefix<S, R>(tabs: Seq<Tab<S, R>>, i: int)
    requires
        0 <= i <= tabs.len(),
    ensures
        pane_total(tabs.take(i)) <= pane_total(tabs),
    decreases tabs.len(),
{
    if i < tabs.len() {
        assert(tabs.drop_last().take(i) =~= tabs.take(i));
        lemma_pane_total_prefix(tabs.drop_last(), i);
    } else {
        assert(tabs.take(i) =~= tabs);
    }
}

/// Tab `u` is tab `t` keeping the panes flagged in `alive`; when it lost
/// panes and its focus fell off the end, it focuses its last pane.
pub open spec fn reaped_tab<S, R>(t: Tab<S, R>, u: Tab<S, R>, alive: Seq<bool>) -> bool {
    let left = kept(t.panes@, alive);
    &&& u.id == t.id
    &&& u.title == t.title
    &&& u.pane_ratios == t.pane_ratios
    &&& u.panes@ == left
    &&& u.active_pane == (if left.len() != t.panes@.len() && t.active_pane >= left.len() && left.len() > 0 {
        (left.len() - 1) as usize
    } else {
        t.active_pane
    })
}

/// For each tab, whether it has a pane.
pub open spec fn nonempty_flags<S, R>(tabs: Seq<Tab<S, R>>) -> Seq<bool> {
    Seq::new(tabs.len(), |k: int| tabs[k].panes@.len() > 0)
}

/// `u` is `t` after reaping with flags `alive`: each tab reaped, the tabs
/// left without panes dropped, the active tab pulled back onto the last one
/// when it fell off the end.
pub open spec fn reaped<S, R>(t: WorkspaceView<S, R>, u: WorkspaceView<S, R>, alive: Seq<Vec<bool>>) -> bool {
    &&& exists|mid: Seq<Tab<S, R>>|
        mid.len() == t.tabs.len() && (forall|k: int|
            0 <= k < mid.len() ==> reaped_tab(t.tabs[k], #[trigger] mid[k], alive[k]@)) && u.tabs == kept(
            mid,
            nonempty_flags(mid),
        )
    &&& u.active_tab == (if t.active_tab >= u.tabs.len() && u.tabs.len() > 0 {
        (u.tabs.len() - 1) as usize
    } else {
        t.active_tab
    })
    &&& u.next_pane_id == t.next_pane_id
    &&& u.next_tab_id == t.next_tab_id
}

/// `u` is `t` after splitting: the active tab gained pane `id` (the next
/// identifier, for `session`, titled "split") at the end, focused; its
/// previously active pane's share became `half` and `half` was added at
/// the end of the shares.
pub open spec fn split<S, R>(t: WorkspaceView<S, R>, u: WorkspaceView<S, R>, session: S, half: R, id: PaneId) -> bool {
    let at = t.active_tab as int;
    let old_tab = t.tabs[at];
    let new_tab = u.tabs[at];
    &&& id == t.next_pane_id
    &&& u.next_pane_id == t.next_pane_id + 1
    &&& u.next_tab_id == t.next_tab_id
    &&& u.active_tab == t.active_tab
    &&& u.tabs.len() == t.tabs.len()
    &&& forall|i: int| 0 <= i < t.tabs.len() && i != at ==> u.tabs[i] == t.tabs[i]
    &&& new_tab.id == old_tab.id
    &&& new_tab.title == old_tab.title
    &&& new_tab.panes@.len() == old_tab.panes@.len() + 1
    &&& new_tab.panes@.take(old_tab.panes@.len() as int) == old_tab.panes@
    &&& new_tab.panes@.last().id == id
    &&& new_tab.panes@.last().session == session
    &&& new_tab.panes@.last().title@ == "split"@
    &&& new_tab.pane_ratios@ == old_tab.pane_ratios@.update(old_tab.active_pane as int, half).push(half)
    &&& new_tab.active_pane == old_tab.panes@.len()
}

/// `u` is `t` with the active tab's focus on pane `p`.
pub open spec fn focused<S, R>(t: WorkspaceView<S, R>, u: WorkspaceView<S, R>, p: usize) -> bool {
    let at = t.active_tab as int;
    &&& u.tabs.len() == t.tabs.len()
    &&& u.active_tab == t.active_tab
    &&& u.next_pane_id == t.next_pane_id
    &&& u.next_tab_id == t.next_tab_id
    &&& forall|i: int| 0 <= i < t.tabs.len() && i != at ==> u.tabs[i] == t.tabs[i]
    &&& u.tabs[at].id == t.tabs[at].id
    &&& u.tabs[at].title == t.tabs[at].title
    &&& u.tabs[at].panes == t.tabs[at].panes
    &&& u.tabs[at].pane_ratios == t.tabs[at].pane_ratios
    &&& u.tabs[at].active_pane == p
}

/// `u` is `t` with the active pane of the active tab replaced by `p`.
pub open spec fn same_but_active_pane<S, R>(t: WorkspaceView<S, R>, u: WorkspaceView<S, R>, p: Pane<S>) -> bool {
    let at = t.active_tab as int;
    &&& u.tabs.len() == t.tabs.len()
    &&& u.active_tab == t.active_tab
    &&& u.next_pane_id == t.next_pane_id
    &&& u.next_tab_id == t.next_tab_id
    &&& forall|i: int| 0 <= i < t.tabs.len() && i != at ==> u.tabs[i] == t.tabs[i]
    &&& u.tabs[at].id == t.tabs[at].id
    &&& u.tabs[at].title == t.tabs[at].title
    &&& u.tabs[at].active_pane == t.tabs[at].active_pane
    &&& u.tabs[at].pane_ratios == t.tabs[at].pane_ratios
    &&& u.tabs[at].panes@ == t.tabs[at].panes@.update(t.tabs[at].active_pane as int, p)
}

/// The next identifiers are unused: a tab or pane created next never shares
/// its identifier with one that exists.
pub proof fn lemma_next_ids_unused<S, R>(w: WorkspaceView<S, R>)
    requires
        w.wf(),
    ensures
        forall|i: int| 0 <= i < w.tabs.len() ==> (#[trigger] w.tabs[i]).id != w.next_tab_id,
        forall|i: int, j: int|
            0 <= i < w.tabs.len() && 0 <= j < w.tabs[i].panes@.len() ==> (#[trigger] w.tabs[i].panes@[j]).id
                != w.next_pane_id,
{
    assert forall|i: int, j: int| 0 <= i < w.tabs.len() && 0 <= j < w.tabs[i].panes@.len() implies (
    #[trigger] w.tabs[i].panes@[j]).id != w.next_pane_id by {
        assert(w.tabs[i].wf(w.next_pane_id));
    }
}

} // verus!
