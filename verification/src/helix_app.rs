//! The editor application as the logic sees it: the areas it draws in (a
//! change of either asks for a new render), the active search pattern, and
//! scrolling by a signed number of rows. The editor itself (documents, views,
//! the compositor) is the editor backend's; what the logic reads of it is
//! passed in as plain values.

use vstd::prelude::*;

use crate::strings::{decimal, push_decimal, push_str};

verus! {

/// A rectangle of cells.
#[derive(Clone, Copy, PartialEq, Eq, Debug, Structural)]
pub struct Rect {
    pub x: u16,
    pub y: u16,
    pub width: u16,
    pub height: u16,
}

/// The area of the editor, the area of the whole screen, and whether the
/// editor must render again.
#[derive(Clone, Copy, PartialEq, Eq, Debug, Structural)]
pub struct HelixApp {
    pub editor_area: Rect,
    pub screen_area: Rect,
    pub should_render: bool,
    pub active_document_changed: bool,
    pub idle_timeout_triggered: bool,
}

impl HelixApp {
    /// A new editor on a screen of `area`: the editor and the screen both
    /// take the whole area, nothing asks for a render yet, the active
    /// document has not changed and the idle timeout has not fired.
    pub fn new(area: Rect) -> (r: Self)
        ensures
            r.editor_area == area,
            r.screen_area == area,
            !r.should_render,
            !r.active_document_changed,
            !r.idle_timeout_triggered,
    {
        HelixApp {
            editor_area: area,
            screen_area: area,
            should_render: false,
            active_document_changed: false,
            idle_timeout_triggered: false,
        }
    }

    /// Whether the idle timeout has fired.
    pub fn idle_timeout_triggered(&self) -> (r: bool)
        ensures
            r == self.idle_timeout_triggered,
    {
        self.idle_timeout_triggered
    }

    /// Whether the editor must render again.
    pub fn should_render(&self) -> (r: bool)
        ensures
            r == self.should_render,
    {
        self.should_render
    }

    /// Sets the editor area; a change asks for a render.
    pub fn resize_editor(&mut self, editor_area: Rect)
        ensures
            *final(self) == if old(self).editor_area == editor_area {
                *old(self)
            } else {
                HelixApp { editor_area, should_render: true, ..*old(self) }
            },
    {
        if self.editor_area == editor_area {
            return;
        }
        self.editor_area = editor_area;
        self.should_render = true;
    }

    /// Sets the width of the editor area; a change asks for a render.
    pub fn resize_editor_width(&mut self, new_width: u16)
        ensures
            *final(self) == if old(self).editor_area.width == new_width {
                *old(self)
            } else {
                HelixApp { editor_area: Rect { width: new_width, ..old(self).editor_area }, should_render: true, ..*old(self) }
            },
    {
        if self.editor_area.width == new_width {
            return;
        }
        self.editor_area.width = new_width;
        self.should_render = true;
    }

    /// Sets the height of the editor area; a change asks for a render.
    pub fn resize_editor_height(&mut self, new_height: u16)
        ensures
            *final(self) == if old(self).editor_area.height == new_height {
                *old(self)
            } else {
                HelixApp { editor_area: Rect { height: new_height, ..old(self).editor_area }, should_render: true, ..*old(self) }
            },
    {
        if self.editor_area.height == new_height {
            return;
        }
        self.editor_area.height = new_height;
        self.should_render = true;
    }

    /// Sets the width of the screen area; a change asks for a render.
    pub fn resize_screen_width(&mut self, new_width: u16)
        ensures
            *final(self) == if old(self).screen_area.width == new_width {
                *old(self)
            } else {
                HelixApp { screen_area: Rect { width: new_width, ..old(self).screen_area }, should_render: true, ..*old(self) }
            },
    {
        if self.screen_area.width == new_width {
            return;
        }
        self.screen_area.width = new_width;
        self.should_render = true;
    }

    /// Sets the screen area; a change asks for a render.
    pub fn resize_screen(&mut self, screen_area: Rect)
        ensures
            *final(self) == if old(self).screen_area == screen_area {
                *old(self)
            } else {
                HelixApp { screen_area, should_render: true, ..*old(self) }
            },
    {
        if self.screen_area == screen_area {
            return;
        }
        self.screen_area = screen_area;
        self.should_render = true;
    }
}

/// Resizing is idempotent: setting the editor area twice to the same value
/// is setting it once.
pub proof fn lemma_resize_idempotent(v: HelixApp, area: Rect)
    ensures
        ({
            let once = if v.editor_area == area { v } else { HelixApp { editor_area: area, should_render: true, ..v } };
            let twice = if once.editor_area == area { once } else { HelixApp { editor_area: area, should_render: true, ..once } };
            twice == once
        }),
{
}

/// The search pattern being typed, from the prompt shown (its label and
/// line): the line of a `search:` prompt when it is not empty.
pub fn search_pattern_of_prompt(prompt: Option<(&str, &String)>) -> (r: Option<String>)
    ensures
        r matches Some(p) ==> prompt matches Some((label, line)) && p@ == line@,
        r is Some <==> (prompt matches Some((label, line)) && label@ == "search:"@ && line@.len() > 0),
{
    match prompt {
        Some((label, line)) => {
            let search = "search:".to_string();
            let is_search = label.to_string() == search;
            if is_search && line.as_str().unicode_len() > 0 {
                Some(line.clone())
            } else {
                None
            }
        },
        None => None,
    }
}

/// Which way a scroll moves the view.
#[derive(Clone, Copy, PartialEq, Eq, Debug, Structural)]
pub enum ScrollDirection {
    Backward,
    Forward,
}

/// A scroll by `scroll_offset` rows: backward for a negative offset, forward
/// otherwise, by its magnitude.
pub fn scroll_step(scroll_offset: i32) -> (r: (ScrollDirection, usize))
    requires
        scroll_offset != i32::MIN,
    ensures
        r.0 == if scroll_offset < 0 { ScrollDirection::Backward } else { ScrollDirection::Forward },
        r.1 == if scroll_offset < 0 { -scroll_offset } else { scroll_offset as int },
{
    let dir = if scroll_offset < 0 { ScrollDirection::Backward } else { ScrollDirection::Forward };
    let magnitude = if scroll_offset < 0 { -scroll_offset } else { scroll_offset };
    (dir, magnitude as usize)
}

impl HelixApp {
    /// The search pattern being typed in the prompt shown, if any; see
    /// `search_pattern_of_prompt`.
    pub fn active_search_pattern(&self, prompt: Option<(&str, &String)>) -> (r: Option<String>)
        ensures
            r matches Some(p) ==> prompt matches Some((label, line)) && p@ == line@,
            r is Some <==> (prompt matches Some((label, line)) && label@ == "search:"@ && line@.len() > 0),
    {
        search_pattern_of_prompt(prompt)
    }

    /// Scrolls the view by `scroll_offset` rows: returns the direction and
    /// number of rows to scroll the view by, and asks for a render.
    pub fn scroll(&mut self, scroll_offset_in: i32) -> (r: (ScrollDirection, usize))
        requires
            scroll_offset_in != i32::MIN,
        ensures
            r == scroll_step_spec(scroll_offset_in),
            *final(self) == (HelixApp { should_render: true, ..*old(self) }),
    {
        let step = scroll_step(scroll_offset_in);
        self.should_render = true;
        step
    }
}

/// The direction and size of a scroll by `scroll_offset` rows.
pub open spec fn scroll_step_spec(scroll_offset: i32) -> (ScrollDirection, usize) {
    (if scroll_offset < 0 { ScrollDirection::Backward } else { ScrollDirection::Forward },
        (if scroll_offset < 0 { -scroll_offset } else { scroll_offset as int }) as usize)
}

/// The status the editor starts with after opening `files` files named on
/// the command line: "Loaded 1 file." or "Loaded n files.".
pub open spec fn loaded_files_text(files: nat) -> Seq<char> {
    "Loaded "@ + decimal(files) + " file"@ + (if files == 1 { Seq::<char>::empty() } else { "s"@ }) + "."@
}

/// The status the editor starts with: when it opens neither the tutor nor a
/// directory but `files` (at least one) files named on the command line, it
/// tells how many were loaded (see `loaded_files_text`); otherwise it sets
/// none.
pub fn startup_status(load_tutor: bool, files: usize, first_is_dir: bool) -> (r: Option<String>)
    ensures
        r matches Some(t) ==> t@ == loaded_files_text(files as nat),
        r is Some <==> (!load_tutor && files > 0 && !first_is_dir),
{
    if load_tutor || files == 0 || first_is_dir {
        return None;
    }
    let mut status = "Loaded ".to_string();
    push_decimal(&mut status, files as u64);
    push_str(&mut status, " file");
    if files != 1 {
        push_str(&mut status, "s");
    }
    push_str(&mut status, ".");
    proof {
        if files == 1 {
            assert(status@ =~= loaded_files_text(files as nat));
        } else {
            assert(status@ =~= loaded_files_text(files as nat));
        }
    }
    Some(status)
}

} // verus!
