//! Screen rectangles recorded while drawing, and the mouse hit tests that
//! map a click back to a list row or a cursor position.

use vstd::prelude::*;

verus! {

/// A screen rectangle in terminal cells. Rectangles handed out by the
/// terminal library never reach past the last cell coordinate.
#[derive(Clone, Copy, Debug, PartialEq, Eq)]
pub struct Rect {
    pub x: u16,
    pub y: u16,
    pub width: u16,
    pub height: u16,
}

impl Default for Rect {
    fn default() -> (r: Rect)
        ensures
            r == (Rect { x: 0, y: 0, width: 0, height: 0 }),
    {
        Rect { x: 0, y: 0, width: 0, height: 0 }
    }
}

impl Rect {
    /// The rectangle lies within the 16-bit coordinate space.
    pub open spec fn fits(&self) -> bool {
        self.x + self.width <= u16::MAX && self.y + self.height <= u16::MAX
    }

    /// The cell (`col`, `row`) lies inside the rectangle.
    pub open spec fn holds(&self, col: int, row: int) -> bool {
        self.x <= col < self.x + self.width && self.y <= row < self.y + self.height
    }
}

/// Where the jump screen's search field and result list were drawn.
#[derive(Clone, Copy, Debug)]
pub struct JumpLayout {
    pub search: Rect,
    pub list: Rect,
    /// Screen column where typed text begins inside the search field.
    pub search_text_x: u16,
}

impl Default for JumpLayout {
    fn default() -> (r: JumpLayout)
        ensures
            r.is_blank(),
    {
        JumpLayout { search: Rect::default(), list: Rect::default(), search_text_x: 0 }
    }
}

impl JumpLayout {
    /// Nothing has been drawn yet.
    pub open spec fn is_blank(&self) -> bool {
        &&& self.search == (Rect { x: 0, y: 0, width: 0, height: 0 })
        &&& self.list == (Rect { x: 0, y: 0, width: 0, height: 0 })
        &&& self.search_text_x == 0
    }

    /// The input position a click at (`col`, `row`) puts the cursor at: none
    /// outside the search field's rows (or when it was not drawn), 0 left of
    /// the text, else the clicked column's offset into the text, at most
    /// `input_len`.
    pub open spec fn search_hit(&self, col: u16, row: u16, input_len: usize) -> Option<usize> {
        if self.search.width == 0 || self.search.height == 0 || row < self.search.y || row >= self.search.y
            + self.search.height {
            None
        } else if col < self.search_text_x {
            Some(0usize)
        } else if col - self.search_text_x <= input_len {
            Some((col - self.search_text_x) as usize)
        } else {
            Some(input_len)
        }
    }

    /// The result row a click at (`col`, `row`) lands on: none outside the
    /// list (or when it was not drawn), else `scroll_offset` plus the row's
    /// offset into the list.
    pub open spec fn list_hit(&self, col: u16, row: u16, scroll_offset: usize) -> Option<usize> {
        if self.list.width == 0 || self.list.height == 0 || !self.list.holds(col as int, row as int) {
            None
        } else {
            Some((scroll_offset + row - self.list.y) as usize)
        }
    }

    /// The input position a click at (`col`, `row`) puts the cursor at: none
    /// outside the search field's rows (or when it was not drawn), 0 left of
    /// the text, else the clicked column's offset into the text, at most
    /// `input_len`.
    pub fn cursor_at_search_click(&self, col: u16, row: u16, input_len: usize) -> (r: Option<usize>)
        requires
            self.search.fits(),
        ensures
            r == self.search_hit(col, row, input_len),
    {
        if self.search.width == 0 || self.search.height == 0 {
            return None;
        }
        if row < self.search.y || row >= self.search.y + self.search.height {
            return None;
        }
        if col < self.search_text_x {
            return Some(0);
        }
        let rel = (col - self.search_text_x) as usize;
        Some(if rel <= input_len { rel } else { input_len })
    }

    /// The result row a click at (`col`, `row`) lands on: none outside the
    /// list (or when it was not drawn), else `scroll_offset` plus the row's
    /// offset into the list.
    pub fn row_at(&self, col: u16, row: u16, scroll_offset: usize) -> (r: Option<usize>)
        requires
            self.list.fits(),
            self.list.holds(col as int, row as int) ==> scroll_offset + row - self.list.y <= usize::MAX,
        ensures
            r == self.list_hit(col, row, scroll_offset),
    {
        if self.list.width == 0 || self.list.height == 0 {
            return None;
        }
        if col < self.list.x || col >= self.list.x + self.list.width || row < self.list.y || row
            >= self.list.y + self.list.height {
            return None;
        }
        Some(scroll_offset + (row - self.list.y) as usize)
    }
}

/// Where the explorer's file list was drawn, and how tall each row is.
#[derive(Clone, Copy, Debug)]
pub struct ExplorerLayout {
    pub file_list: Rect,
    pub row_height: u16,
}

impl Default for ExplorerLayout {
    fn default() -> (r: ExplorerLayout)
        ensures
            r.is_blank(),
    {
        ExplorerLayout { file_list: Rect::default(), row_height: 0 }
    }
}

impl ExplorerLayout {
    /// Nothing has been drawn yet.
    pub open spec fn is_blank(&self) -> bool {
        &&& self.file_list == (Rect { x: 0, y: 0, width: 0, height: 0 })
        &&& self.row_height == 0
    }

    /// The entry a click at (`col`, `row`) lands on: none outside the list
    /// (or when it was not drawn), else `scroll_offset` plus the number of
    /// whole rows between the list's top and the click.
    pub open spec fn hit_row(&self, col: u16, row: u16, scroll_offset: usize) -> Option<usize> {
        if self.file_list.width == 0 || self.file_list.height == 0 || self.row_height == 0
            || !self.file_list.holds(col as int, row as int) {
            None
        } else {
            Some((scroll_offset + (row - self.file_list.y) / (self.row_height as int)) as usize)
        }
    }

    /// The entry number of a click at (`col`, `row`) fits in a `usize`.
    pub open spec fn row_fits(&self, col: u16, row: u16, scroll_offset: usize) -> bool {
        self.file_list.holds(col as int, row as int) && self.row_height > 0 ==> scroll_offset + (row
            - self.file_list.y) / (self.row_height as int) <= usize::MAX
    }

    /// The entry a click at (`col`, `row`) lands on (see `hit_row`).
    pub fn row_at(&self, col: u16, row: u16, scroll_offset: usize) -> (r: Option<usize>)
        requires
            self.file_list.fits(),
            self.row_fits(col, row, scroll_offset),
        ensures
            r == self.hit_row(col, row, scroll_offset),
    {
        if self.file_list.width == 0 || self.file_list.height == 0 || self.row_height == 0 {
            return None;
        }
        if col < self.file_list.x || col >= self.file_list.x + self.file_list.width || row < self.file_list.y
            || row >= self.file_list.y + self.file_list.height {
            return None;
        }
        let rel = (row - self.file_list.y) / self.row_height;
        Some(scroll_offset + rel as usize)
    }
}

} // verus!
