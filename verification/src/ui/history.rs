//! The pages that were visited.

use vstd::prelude::*;

use crate::text::{copy_str, same_str};

verus! {

#[derive(Debug, Clone, Copy, PartialEq, Eq, Structural)]
pub enum Page {
    Home,
    Albums,
    Album,
    Artists,
    Artist,
    Tracks,
    Genres,
    Genre,
    Favorites,
    Playlist,
    Search,
    Radio,
    Settings,
}

/// The pages that were visited, with what they showed, and the place among
/// them.
#[derive(Debug)]
pub struct History {
    entries: Vec<(Page, String)>,
    pos: usize,
}

/// The contents of a `History`.
pub struct HistoryView {
    pub entries: Seq<(Page, Seq<char>)>,
    pub pos: nat,
}

/// The contents of a list of pages.
pub open spec fn entry_views(v: Seq<(Page, String)>) -> Seq<(Page, Seq<char>)> {
    Seq::new(v.len(), |i: int| (v[i].0, v[i].1@))
}

impl View for History {
    type V = HistoryView;

    closed spec fn view(&self) -> HistoryView {
        HistoryView { entries: entry_views(self.entries@), pos: self.pos as nat }
    }
}

/// Whether the place is among the pages; at the start where there are none.
pub open spec fn history_wf(h: HistoryView) -> bool {
    if h.entries.len() == 0 {
        h.pos == 0
    } else {
        h.pos < h.entries.len()
    }
}

/// The page at the current place.
pub open spec fn current(h: HistoryView) -> Option<(Page, Seq<char>)> {
    if h.pos < h.entries.len() {
        Some(h.entries[h.pos as int])
    } else {
        None
    }
}

/// After a visit: what came after the current place is forgotten. The page that
/// is shown already is not visited again.
pub open spec fn visited(h: HistoryView, page: Page, arg: Seq<char>) -> HistoryView {
    if current(h) == Some((page, arg)) {
        h
    } else {
        let kept = if h.pos + 1 < h.entries.len() {
            h.entries.subrange(0, h.pos as int + 1)
        } else {
            h.entries
        };
        HistoryView { entries: kept.push((page, arg)), pos: kept.len() }
    }
}

/// One place back, if there is one.
pub open spec fn went_back(h: HistoryView) -> HistoryView {
    if h.pos == 0 {
        h
    } else {
        HistoryView { pos: (h.pos - 1) as nat, ..h }
    }
}

/// One place forward, if there is one.
pub open spec fn went_forward(h: HistoryView) -> HistoryView {
    if h.pos + 1 >= h.entries.len() {
        h
    } else {
        HistoryView { pos: h.pos + 1, ..h }
    }
}

impl History {
    pub fn new() -> (h: History)
        ensures
            h@.entries == Seq::<(Page, Seq<char>)>::empty(),
            h@.pos == 0,
            history_wf(h@),
    {
        let h = History { entries: Vec::new(), pos: 0 };
        assert(h@.entries == Seq::<(Page, Seq<char>)>::empty());
        h
    }

    /// A page is visited.
    pub fn navigate(&mut self, page: Page, arg: &str)
        requires
            history_wf(old(self)@),
        ensures
            final(self)@ == visited(old(self)@, page, arg@),
            history_wf(final(self)@),
    {
        let ghost before = self@;
        assert(before.entries.len() == self.entries@.len());
        if self.pos < self.entries.len() {
            assert(before.entries[self.pos as int] == (
                self.entries@[self.pos as int].0,
                self.entries@[self.pos as int].1@,
            ));
            if self.entries[self.pos].0 == page && same_str(
                self.entries[self.pos].1.as_str(),
                arg,
            ) {
                return;
            }
        }
        if self.pos < self.entries.len() {
            self.entries.truncate(self.pos + 1);
        }
        let ghost kept = entry_views(self.entries@);
        assert(kept == (if before.pos + 1 < before.entries.len() {
            before.entries.subrange(0, before.pos as int + 1)
        } else {
            before.entries
        }));
        self.entries.push((page, copy_str(arg)));
        assert(entry_views(self.entries@) == kept.push((page, arg@)));
        self.pos = self.entries.len() - 1;
    }

    /// One place back; the page to show, if there is one.
    pub fn back(&mut self) -> (r: Option<(Page, String)>)
        requires
            history_wf(old(self)@),
        ensures
            final(self)@ == went_back(old(self)@),
            history_wf(final(self)@),
            match r {
                Some((p, a)) => old(self)@.pos > 0 && current(final(self)@) == Some((p, a@)),
                None => old(self)@.pos == 0,
            },
    {
        if self.pos == 0 {
            return None;
        }
        self.pos = self.pos - 1;
        assert(self@.entries[self.pos as int] == (
            self.entries@[self.pos as int].0,
            self.entries@[self.pos as int].1@,
        ));
        Some((self.entries[self.pos].0, self.entries[self.pos].1.clone()))
    }

    /// One place forward; the page to show, if there is one.
    pub fn forward(&mut self) -> (r: Option<(Page, String)>)
        requires
            history_wf(old(self)@),
        ensures
            final(self)@ == went_forward(old(self)@),
            history_wf(final(self)@),
            match r {
                Some((p, a)) => old(self)@.pos + 1 < old(self)@.entries.len() && current(
                    final(self)@,
                ) == Some((p, a@)),
                None => old(self)@.pos + 1 >= old(self)@.entries.len(),
            },
    {
        let n = self.entries.len();
        if n == 0 || self.pos >= n - 1 {
            return None;
        }
        self.pos = self.pos + 1;
        assert(self@.entries[self.pos as int] == (
            self.entries@[self.pos as int].0,
            self.entries@[self.pos as int].1@,
        ));
        Some((self.entries[self.pos].0, self.entries[self.pos].1.clone()))
    }

    /// The page to load again when the library changed.
    pub fn reload_page(&self) -> (r: Option<(Page, String)>)
        ensures
            match r {
                Some((p, a)) => current(self@) == Some((p, a@)),
                None => current(self@) is None,
            },
    {
        if self.pos < self.entries.len() {
            assert(self@.entries[self.pos as int] == (
                self.entries@[self.pos as int].0,
                self.entries@[self.pos as int].1@,
            ));
            Some((self.entries[self.pos].0, self.entries[self.pos].1.clone()))
        } else {
            None
        }
    }

    pub fn can_back(&self) -> (r: bool)
        ensures
            r == (self@.pos > 0),
    {
        self.pos > 0
    }

    pub fn can_forward(&self) -> (r: bool)
        ensures
            r == (self@.pos + 1 < self@.entries.len()),
    {
        let n = self.entries.len();
        n > 0 && self.pos < n - 1
    }
}

/// Going back from a page that was visited shows the page before it.
pub proof fn back_undoes_a_visit(h: HistoryView, page: Page, arg: Seq<char>)
    requires
        history_wf(h),
        h.entries.len() > 0,
        current(h) != Some((page, arg)),
    ensures
        current(visited(h, page, arg)) == Some((page, arg)),
        current(went_back(visited(h, page, arg))) == current(h),
{
}

/// Going forward undoes going back.
pub proof fn forward_undoes_back(h: HistoryView)
    requires
        history_wf(h),
        h.pos > 0,
    ensures
        went_forward(went_back(h)) == h,
{
}

/// From a page that was just visited there is no way forward.
pub proof fn a_visit_ends_the_way_forward(h: HistoryView, page: Page, arg: Seq<char>)
    requires
        history_wf(h),
        current(h) != Some((page, arg)),
    ensures
        went_forward(visited(h, page, arg)) == visited(h, page, arg),
{
}

} // verus!
