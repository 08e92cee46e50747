//! Cursor and paging state of the interactive lists (deck selection, kanji
//! grid).  Drawing and key handling happen outside the library; these types
//! hold the state those loops step through.

use vstd::prelude::*;
use crate::kanji::KanjiEntry;

verus! {

/// A list of options with an optional highlighted index that wraps around.
#[derive(Debug)]
pub struct SelectionList {
    pub items: Vec<String>,
    pub state: Option<usize>,
}

/// Where the cursor lands after a step down: the next index, wrapping to
/// the top past the end; the top when nothing is selected.
pub open spec fn next_index(state: Option<usize>, len: nat) -> usize {
    match state {
        Some(i) => if i + 1 >= len {
            0usize
        } else {
            (i + 1) as usize
        },
        None => 0usize,
    }
}

/// Where the cursor lands after a step up: the previous index, wrapping to
/// the bottom past the top; the top when nothing is selected.
pub open spec fn previous_index(state: Option<usize>, len: nat) -> usize {
    match state {
        Some(i) => if i == 0 {
            (len - 1) as usize
        } else {
            (i - 1) as usize
        },
        None => 0usize,
    }
}

impl SelectionList {
    /// A list over the given options, with nothing selected yet.
    pub fn new(items: Vec<String>) -> (l: SelectionList)
        ensures
            l.items == items,
            l.state is None,
    {
        SelectionList { items, state: None }
    }

    /// Steps the selection down one entry, wrapping around.  A held index
    /// lies within the list, and so does the stepped one.
    pub fn next(&mut self)
        requires
            old(self).state matches Some(i) ==> i < old(self).items@.len(),
        ensures
            final(self).items == old(self).items,
            final(self).state == Some(next_index(old(self).state, old(self).items@.len())),
            old(self).items@.len() > 0 ==> next_index(old(self).state, old(self).items@.len())
                < old(self).items@.len(),
    {
        let i: usize = match self.state {
            Some(i) => {
                if i >= self.items.len() - 1 {
                    0
                } else {
                    i + 1
                }
            },
            None => 0,
        };
        self.state = Some(i);
    }

    /// Steps the selection up one entry, wrapping around.  A held index
    /// lies within the list, and so does the stepped one.
    pub fn previous(&mut self)
        requires
            old(self).state matches Some(i) ==> i < old(self).items@.len(),
        ensures
            final(self).items == old(self).items,
            final(self).state == Some(previous_index(old(self).state, old(self).items@.len())),
            old(self).items@.len() > 0 ==> previous_index(old(self).state, old(self).items@.len())
                < old(self).items@.len(),
    {
        let i: usize = match self.state {
            Some(i) => {
                if i == 0 {
                    self.items.len() - 1
                } else {
                    i - 1
                }
            },
            None => 0,
        };
        self.state = Some(i);
    }

    /// Clears the selection.
    pub fn unselect(&mut self)
        ensures
            final(self).items == old(self).items,
            final(self).state is None,
    {
        self.state = None;
    }
}

/// Rounds up to the next multiple of the grid's page capacity.
pub fn round_up_to_nearest_10(n: u16) -> (r: u16)
    requires
        n <= 65086,
    ensures
        r == ((n + 449) / 450) * 450,
{
    (n + 449) / 450 * 450
}

/// The paged kanji grid: entries, the page in view (starting at one) and
/// the page count.
#[derive(Debug)]
pub struct StatefulList {
    pub state: Option<usize>,
    pub items: Vec<KanjiEntry>,
    pub page: usize,
    pub page_count: u16,
}

impl StatefulList {
    /// Builds the grid over the entries, opened at the first page.
    pub fn with_items(items: Vec<KanjiEntry>) -> (l: StatefulList)
        requires
            items@.len() <= 65086,
        ensures
            l.items == items,
            l.state is None,
            l.page == 1,
            l.page_count == (items@.len() + 449) / 450,
    {
        let count = round_up_to_nearest_10(items.len() as u16) / 450;
        StatefulList { page_count: count, state: None, items, page: 1 }
    }

    /// Turns to the next page, wrapping to the first past the last page
    /// that still has entries.
    pub fn next(&mut self)
        requires
            old(self).page <= 65535,
        ensures
            final(self).items == old(self).items,
            final(self).state == old(self).state,
            final(self).page_count == old(self).page_count,
            final(self).page == (if old(self).page * 450 < old(self).items@.len() {
                old(self).page + 1
            } else {
                1int
            }),
    {
        if self.page * 450 < self.items.len() {
            self.page = self.page + 1;
        } else {
            self.page = 1;
        }
    }

    /// Turns to the previous page, wrapping to the last from the first.
    pub fn previous(&mut self)
        requires
            old(self).page >= 1,
        ensures
            final(self).items == old(self).items,
            final(self).state == old(self).state,
            final(self).page_count == old(self).page_count,
            final(self).page == (if old(self).page == 1 {
                old(self).page_count as usize
            } else {
                (old(self).page - 1) as usize
            }),
    {
        if self.page == 1 {
            self.page = self.page_count as usize;
        } else {
            self.page = self.page - 1;
        }
    }
}

impl StatefulList {
    /// The half-open range of entries the page in view shows: each page
    /// holds up to 450 entries, and the last page is cut at the end of the
    /// list.
    pub fn page_bounds(&self) -> (r: (usize, usize))
        requires
            1 <= self.page <= 65535,
            (self.page - 1) * 450 <= self.items@.len(),
        ensures
            r.0 == (self.page - 1) * 450,
            r.1 == (if r.0 + 450 <= self.items@.len() {
                r.0 + 450
            } else {
                self.items@.len() as int
            }),
            r.0 <= r.1 <= self.items@.len(),
    {
        let start = (self.page - 1) * 450;
        let len = self.items.len();
        let end = if start + 450 <= len {
            start + 450
        } else {
            len
        };
        (start, end)
    }
}

/// A titled kanji grid, as one screen shows it.
#[derive(Debug)]
pub struct KanjiList {
    pub title: String,
    pub content: StatefulList,
}

} // verus!
