use vstd::prelude::*;

verus! {

/// The selection of a scrolling text list: which entry is selected, which shown row stands for
/// it and whether that row is lit as selected. `scroll` is the first entry shown; `max_list`
/// rows show at most, out of `max_data` entries.
#[derive(Clone, Copy, PartialEq, Eq, Structural, Debug)]
pub struct ListSelection {
    pub visible: bool,
    pub scroll: usize,
    pub max_scroll: usize,
    pub max_list: usize,
    pub max_data: usize,
    pub selected_list: Option<usize>,
    pub current_selected: Option<usize>,
    pub lit: bool,
}

/// The shown row of entry `sel`, when it is shown.
pub open spec fn row_of(sel: int, scroll: int, max_list: int, max_data: int) -> Option<int> {
    let shown = if max_list < max_data {
        max_list
    } else {
        max_data
    };
    if 0 <= sel - scroll < shown {
        Some(sel - scroll)
    } else {
        None
    }
}

/// The shown row of entry `sel`, when it is shown.
fn shown_row(sel: usize, scroll: usize, max_list: usize, max_data: usize) -> (r: Option<usize>)
    ensures
        r == match row_of(sel as int, scroll as int, max_list as int, max_data as int) {
            Some(x) => Some(x as usize),
            None => None::<usize>,
        },
{
    let shown = if max_list < max_data {
        max_list
    } else {
        max_data
    };
    if sel >= scroll && sel - scroll < shown {
        Some(sel - scroll)
    } else {
        None
    }
}

impl ListSelection {
    /// A lit row is the row of the current selection.
    pub open spec fn wf(self) -> bool {
        self.lit ==> self.current_selected is Some
    }

    /// Selects entry `index` (none: clears the selection). A hidden list changes only when
    /// `forced`. The lit row goes dark; the entry's row lights when it is shown, unless the
    /// entry was selected already.
    pub fn set_select(&mut self, index: Option<usize>, forced: bool)
        requires
            old(self).wf(),
        ensures
            final(self).wf(),
            !old(self).visible && !forced ==> *final(self) == *old(self),
            old(self).visible || forced ==> match index {
                Some(set) => if old(self).selected_list == Some(set) {
                    *final(self) == (ListSelection { lit: false, ..*old(self) })
                } else {
                    match row_of(set as int, old(self).scroll as int, old(self).max_list as int, old(self).max_data as int) {
                        Some(r) => *final(self) == (ListSelection {
                            current_selected: Some(r as usize),
                            lit: true,
                            selected_list: index,
                            ..*old(self)
                        }),
                        None => *final(self) == (ListSelection { lit: false, selected_list: index, ..*old(self) }),
                    }
                },
                None => *final(self) == (ListSelection {
                    current_selected: None,
                    lit: false,
                    selected_list: None,
                    ..*old(self)
                }),
            },
    {
        if !self.visible && !forced {
            return;
        }
        self.lit = false;
        match index {
            Some(set) => {
                if let Some(selectedindex) = self.selected_list {
                    if selectedindex == set {
                        return;
                    }
                }
                if let Some(r) = shown_row(set, self.scroll, self.max_list, self.max_data) {
                    self.current_selected = Some(r);
                    self.lit = true;
                }
            },
            None => {
                self.current_selected = None;
            },
        }
        self.selected_list = index;
    }

    /// Clears the selection.
    pub fn unselect_list(&mut self)
        ensures
            *final(self) == (ListSelection { selected_list: None, current_selected: None, lit: false, ..*old(self) }),
    {
        self.lit = false;
        self.selected_list = None;
        self.current_selected = None;
    }

    /// The selection after a scroll: the selected entry's row lights when it is shown.
    pub open spec fn after_scroll(self) -> ListSelection {
        match self.selected_list {
            Some(s) => match row_of(s as int, self.scroll as int, self.max_list as int, self.max_data as int) {
                Some(r) => ListSelection { current_selected: Some(r as usize), lit: true, ..self },
                None => ListSelection { lit: false, ..self },
            },
            None => ListSelection { lit: false, ..self },
        }
    }

    /// After a scroll: the selected entry's row lights when it is shown.
    pub fn update_list_scroll(&mut self)
        requires
            old(self).wf(),
        ensures
            final(self).wf(),
            *final(self) == old(self).after_scroll(),
    {
        self.lit = false;
        if let Some(selectedindex) = self.selected_list {
            if let Some(r) = shown_row(selectedindex, self.scroll, self.max_list, self.max_data) {
                self.current_selected = Some(r);
                self.lit = true;
            }
        }
    }

    /// Scrolls so that entry `value` is the first shown, unless that is past the end, then
    /// updates the lit row.
    pub fn scroll_to(&mut self, value: usize)
        requires
            old(self).wf(),
        ensures
            final(self).wf(),
            value > old(self).max_scroll ==> *final(self) == *old(self),
            value <= old(self).max_scroll ==> {
                &&& final(self).scroll == value
                &&& final(self).selected_list == old(self).selected_list
                &&& final(self).lit == (old(self).selected_list matches Some(s) && row_of(
                    s as int,
                    value as int,
                    old(self).max_list as int,
                    old(self).max_data as int,
                ) is Some)
            },
    {
        if value > self.max_scroll {
            return;
        }
        self.scroll = value;
        self.update_list_scroll();
    }

    /// A click on shown row `index`: the entry it shows, selected (lighting the row) when
    /// `set_select`; nothing on a hidden list.
    pub fn select_row(&mut self, index: usize, set_select: bool) -> (r: Option<usize>)
        requires
            old(self).wf(),
            old(self).scroll + index <= usize::MAX,
        ensures
            final(self).wf(),
            !old(self).visible ==> r is None && *final(self) == *old(self),
            old(self).visible ==> r == Some((old(self).scroll + index) as usize),
            old(self).visible && set_select ==> *final(self) == (ListSelection {
                current_selected: Some(index),
                selected_list: Some((old(self).scroll + index) as usize),
                lit: true,
                ..*old(self)
            }),
            old(self).visible && !set_select ==> *final(self) == *old(self),
    {
        if !self.visible {
            return None;
        }
        let entry = self.scroll + index;
        if set_select {
            self.current_selected = Some(index);
            self.selected_list = Some(entry);
            self.lit = true;
            self.selected_list
        } else {
            Some(entry)
        }
    }

    /// Fills the list with `len` entries, scrolled to the top, and selects entry `selected`. The
    /// current row is the selected entry's row when it is shown; otherwise it keeps the entry's
    /// own number, as the list sets it before selecting.
    pub fn update_list(&mut self, len: usize, selected: Option<usize>)
        requires
            old(self).wf(),
        ensures
            final(self).wf(),
            final(self).scroll == 0,
            final(self).max_data == len,
            final(self).max_scroll == (if len > old(self).max_list {
                (len - old(self).max_list) as usize
            } else {
                0
            }),
            final(self).max_list == old(self).max_list,
            final(self).visible == old(self).visible,
            final(self).selected_list == (if old(self).selected_list == selected && selected is Some {
                old(self).selected_list
            } else {
                selected
            }),
            final(self).lit == (final(self).selected_list matches Some(s) && row_of(
                s as int,
                0,
                old(self).max_list as int,
                len as int,
            ) is Some),
            final(self).current_selected == match selected {
                Some(s) => match row_of(s as int, 0, old(self).max_list as int, len as int) {
                    Some(r) => Some(r as usize),
                    None => Some(s),
                },
                None => None::<usize>,
            },
    {
        self.scroll = 0;
        self.current_selected = selected;
        self.max_data = len;
        self.max_scroll = if len > self.max_list {
            len - self.max_list
        } else {
            0
        };
        self.lit = false;
        self.set_select(selected, true);
        self.update_list_scroll();
    }
}

/// After a scroll, the selected entry's row is lit exactly when the entry is shown, and then
/// the current row is that row.
pub proof fn law_scroll_keeps_selection_lit(before: ListSelection)
    requires
        before.selected_list is Some,
    ensures
        before.after_scroll().lit <==> row_of(
            before.selected_list.unwrap() as int,
            before.scroll as int,
            before.max_list as int,
            before.max_data as int,
        ) is Some,
        before.after_scroll().lit ==> before.after_scroll().current_selected.unwrap() + before.scroll
            == before.selected_list.unwrap(),
        before.after_scroll().selected_list == before.selected_list,
{
}

} // verus!
