//! Selection state for the on-screen lists: the sessions list and the
//! per-session stats list.

use vstd::prelude::*;

verus! {

/// A cursor into a list: `None` for an empty list, otherwise the index
/// of the selected row.
#[derive(Debug, Clone, Copy, PartialEq, Eq, Structural)]
pub struct ListCursor {
    pub selected: Option<usize>,
}

/// The cursor after moving one row up: it saturates at the first row.
pub open spec fn up_model(c: ListCursor) -> ListCursor {
    match c.selected {
        Some(i) => if i > 0 {
            ListCursor { selected: Some((i - 1) as usize) }
        } else {
            c
        },
        None => c,
    }
}

/// The cursor after moving one row down in a list of `count` rows: it is
/// bounded by `count - 1`.
pub open spec fn down_model(c: ListCursor, count: int) -> ListCursor {
    match c.selected {
        Some(i) => if i + 1 < count {
            ListCursor { selected: Some((i + 1) as usize) }
        } else {
            c
        },
        None => c,
    }
}

/// The cursor a fresh list of `len` rows starts with: its top row.
pub open spec fn top_model(len: int) -> ListCursor {
    if len == 0 {
        ListCursor { selected: None }
    } else {
        ListCursor { selected: Some(0usize) }
    }
}

/// The cursor after a list shrank or grew to `count` rows.
pub open spec fn clamp_model(c: ListCursor, count: int) -> ListCursor {
    if count == 0 {
        ListCursor { selected: None }
    } else {
        match c.selected {
            Some(i) => if i < count {
                c
            } else {
                ListCursor { selected: Some((count - 1) as usize) }
            },
            None => ListCursor { selected: Some(0usize) },
        }
    }
}

impl ListCursor {
    /// The cursor is inside a list of `len` rows: empty lists have no
    /// selection, others select a valid row.
    pub open spec fn in_range(self, len: int) -> bool {
        match self.selected {
            Some(i) => len > 0 && i < len,
            None => len == 0,
        }
    }

    /// A cursor for a list of `len` rows, at the top.
    pub fn new(len: usize) -> (r: ListCursor)
        ensures
            r == top_model(len as int),
            r.in_range(len as int),
            len > 0 ==> r.selected == Some(0usize),
            len == 0 ==> r.selected is None,
    {
        if len == 0 {
            ListCursor { selected: None }
        } else {
            ListCursor { selected: Some(0) }
        }
    }

    /// Moves the selection one row up, saturating at the first row.
    pub fn up(&mut self)
        ensures
            *final(self) == up_model(*old(self)),
    {
        if let Some(i) = self.selected {
            if i > 0 {
                self.selected = Some(i - 1);
            }
        }
    }

    /// Moves the selection one row down, bounded by `count - 1`.
    pub fn down(&mut self, count: usize)
        ensures
            *final(self) == down_model(*old(self), count as int),
    {
        if let Some(i) = self.selected {
            if i < usize::MAX && i + 1 < count {
                self.selected = Some(i + 1);
            }
        }
    }

    /// Keeps the selection inside a list that now has `count` rows.
    pub fn clamp(&mut self, count: usize)
        ensures
            *final(self) == clamp_model(*old(self), count as int),
            final(self).in_range(count as int),
    {
        if count == 0 {
            self.selected = None;
        } else {
            match self.selected {
                Some(i) => {
                    if i >= count {
                        self.selected = Some(count - 1);
                    }
                },
                None => {
                    self.selected = Some(0);
                },
            }
        }
    }
}

/// Selection bounds: in a list of `count` rows a cursor in range stays in
/// range when moved up, down, or clamped, saturating at the ends; an
/// empty list's cursor is `None`.
pub proof fn lemma_cursor_bounds(c: ListCursor, count: int)
    requires
        c.in_range(count),
    ensures
        up_model(c).in_range(count),
        down_model(c, count).in_range(count),
        clamp_model(c, count).in_range(count),
        count == 0 ==> c.selected is None && up_model(c).selected is None && down_model(
            c,
            count,
        ).selected is None,
{
}

} // verus!
