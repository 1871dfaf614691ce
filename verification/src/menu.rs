//! The ESC menu: its items, the actions it hands back to the main loop,
//! and its panel, laid out as terminal draw commands.
use crate::draw::{cmd_view, cmds_view, push_cmd, repeat, repeat_char, Cmd, DrawCmd};
use crate::fb::Pixel;
use crate::text::{chars_of, string_push_str};
use vstd::prelude::*;
use vstd::utf8::encode_utf8;

verus! {

#[derive(Clone, Copy, Debug, PartialEq, Eq, Structural)]
pub enum MenuItem {
    Resume,
    TogglePause,
    CopyConnect,
    CopyInstall,
    Quit,
}

impl MenuItem {
    pub open spec fn spec_label(self, paused: bool) -> Seq<char> {
        match self {
            MenuItem::Resume => "Resume"@,
            MenuItem::TogglePause => if paused {
                "Unpause run"@
            } else {
                "Pause run"@
            },
            MenuItem::CopyConnect => "Copy connect string"@,
            MenuItem::CopyInstall => "Copy install one-liner"@,
            MenuItem::Quit => "Quit"@,
        }
    }

    pub fn label(self, paused: bool) -> (s: &'static str)
        ensures
            s@ == self.spec_label(paused),
    {
        match self {
            MenuItem::Resume => "Resume",
            MenuItem::TogglePause => {
                if paused {
                    "Unpause run"
                } else {
                    "Pause run"
                }
            },
            MenuItem::CopyConnect => "Copy connect string",
            MenuItem::CopyInstall => "Copy install one-liner",
            MenuItem::Quit => "Quit",
        }
    }
}

#[derive(Clone, Debug)]
pub enum MenuAction {
    /// Nothing to do this frame.
    NoAction,
    Close,
    Quit,
    TogglePause,
    Copy(String),
}

/// The menu's items for the current context: authoritative peers (solo
/// and host) get the Pause toggle; clients don't.
pub open spec fn spec_menu_items(is_authoritative: bool) -> Seq<MenuItem> {
    if is_authoritative {
        seq![
            MenuItem::Resume,
            MenuItem::TogglePause,
            MenuItem::CopyConnect,
            MenuItem::CopyInstall,
            MenuItem::Quit,
        ]
    } else {
        seq![MenuItem::Resume, MenuItem::CopyConnect, MenuItem::CopyInstall, MenuItem::Quit]
    }
}

/// How long a feedback line stays up after an action (ms).
pub const FEEDBACK_MS: u32 = 2000;

/// The ESC menu: a small centered panel over the game. While it is open
/// keys go to the menu, and `activate` tells the main loop what to do.
/// Feedback lines fade after their time (milliseconds).
pub struct Menu {
    pub open: bool,
    pub selected: usize,
    pub feedback: String,
    pub feedback_ttl_ms: u32,
}

impl Default for Menu {
    fn default() -> (m: Self)
        ensures
            !m.open,
            m.selected == 0,
            m.feedback@ == Seq::<char>::empty(),
            m.feedback_ttl_ms == 0,
    {
        Menu { open: false, selected: 0, feedback: String::new(), feedback_ttl_ms: 0 }
    }
}

impl Menu {
    /// Open or close; feedback is cleared, and (re)opening puts the
    /// cursor back on the first item.
    pub fn toggle(&mut self)
        ensures
            final(self).open == !old(self).open,
            final(self).feedback@ == Seq::<char>::empty(),
            final(self).feedback_ttl_ms == 0,
            final(self).selected == (if final(self).open {
                0
            } else {
                old(self).selected
            }),
    {
        self.open = !self.open;
        self.feedback = String::new();
        self.feedback_ttl_ms = 0;
        if self.open {
            self.selected = 0;
        }
    }

    /// Age the feedback line by `dt_ms`; it disappears when its time runs
    /// out.
    pub fn tick(&mut self, dt_ms: u32)
        ensures
            final(self).open == old(self).open,
            final(self).selected == old(self).selected,
            old(self).feedback_ttl_ms == 0 ==> final(self).feedback@ == old(self).feedback@
                && final(self).feedback_ttl_ms == 0,
            (old(self).feedback_ttl_ms > 0 && dt_ms >= old(self).feedback_ttl_ms) ==> final(self).feedback@ == Seq::<char>::empty() && final(self).feedback_ttl_ms == 0,
            (old(self).feedback_ttl_ms > 0 && dt_ms < old(self).feedback_ttl_ms) ==> final(self).feedback@ == old(self).feedback@ && final(self).feedback_ttl_ms == old(self).feedback_ttl_ms - dt_ms,
    {
        if self.feedback_ttl_ms > 0 {
            if dt_ms >= self.feedback_ttl_ms {
                self.feedback = String::new();
                self.feedback_ttl_ms = 0;
            } else {
                self.feedback_ttl_ms = self.feedback_ttl_ms - dt_ms;
            }
        }
    }

    /// The items for the current context.
    pub fn items(&self, is_authoritative: bool) -> (items: Vec<MenuItem>)
        ensures
            items@ == spec_menu_items(is_authoritative),
    {
        let mut items: Vec<MenuItem> = Vec::new();
        items.push(MenuItem::Resume);
        if is_authoritative {
            items.push(MenuItem::TogglePause);
        }
        items.push(MenuItem::CopyConnect);
        items.push(MenuItem::CopyInstall);
        items.push(MenuItem::Quit);
        assert(items@ =~= spec_menu_items(is_authoritative));
        items
    }

    pub fn move_up(&mut self)
        ensures
            final(self).selected == (if old(self).selected > 0 {
                old(self).selected - 1
            } else {
                0
            }),
            final(self).open == old(self).open,
            final(self).feedback@ == old(self).feedback@,
            final(self).feedback_ttl_ms == old(self).feedback_ttl_ms,
    {
        if self.selected > 0 {
            self.selected = self.selected - 1;
        }
    }

    /// Move the cursor down, staying below `max`.
    pub fn move_down(&mut self, max: usize)
        ensures
            final(self).selected == (if old(self).selected + 1 < max {
                old(self).selected + 1
            } else {
                old(self).selected as int
            }),
            final(self).open == old(self).open,
            final(self).feedback@ == old(self).feedback@,
            final(self).feedback_ttl_ms == old(self).feedback_ttl_ms,
    {
        if self.selected < usize::MAX && self.selected + 1 < max {
            self.selected = self.selected + 1;
        }
    }

    pub fn set_feedback(&mut self, text: &str, ttl_ms: u32)
        ensures
            final(self).feedback@ == text@,
            final(self).feedback_ttl_ms == ttl_ms,
            final(self).open == old(self).open,
            final(self).selected == old(self).selected,
    {
        let mut f = String::new();
        crate::text::string_push_str(&mut f, text);
        self.feedback = f;
        self.feedback_ttl_ms = ttl_ms;
    }

    /// Act on the selected item: Resume closes the menu, Copy hands back
    /// the string to copy (or, while there is none, explains why for two
    /// seconds); a cursor past the items does nothing.
    pub fn activate(
        &mut self,
        is_authoritative: bool,
        connect_string: Option<&str>,
        install_one_liner: Option<&str>,
    ) -> (act: MenuAction)
        ensures
            final(self).selected == old(self).selected,
            ({
                let items = spec_menu_items(is_authoritative);
                if old(self).selected >= items.len() {
                    act is NoAction && *final(self) == *old(self)
                } else {
                    match items[old(self).selected as int] {
                        MenuItem::Resume => act is Close && !final(self).open
                            && final(self).feedback == old(self).feedback
                            && final(self).feedback_ttl_ms == old(self).feedback_ttl_ms,
                        MenuItem::TogglePause => act is TogglePause && *final(self) == *old(self),
                        MenuItem::Quit => act is Quit && *final(self) == *old(self),
                        MenuItem::CopyConnect => match connect_string {
                            Some(c) => (act matches MenuAction::Copy(t) && t@ == c@) && *final(self) == *old(self),
                            None => act is NoAction && final(self).feedback@ == "no share code yet"@
                                && final(self).feedback_ttl_ms == FEEDBACK_MS
                                && final(self).open == old(self).open,
                        },
                        MenuItem::CopyInstall => match install_one_liner {
                            Some(c) => (act matches MenuAction::Copy(t) && t@ == c@) && *final(self) == *old(self),
                            None => act is NoAction && final(self).feedback@ == "install server not ready yet"@
                                && final(self).feedback_ttl_ms == FEEDBACK_MS
                                && final(self).open == old(self).open,
                        },
                    }
                }
            }),
    {
        let items = self.items(is_authoritative);
        if self.selected >= items.len() {
            return MenuAction::NoAction;
        }
        let item = items[self.selected];
        match item {
            MenuItem::Resume => {
                self.open = false;
                MenuAction::Close
            },
            MenuItem::TogglePause => MenuAction::TogglePause,
            MenuItem::CopyConnect => match connect_string {
                Some(c) => {
                    let mut t = String::new();
                    crate::text::string_push_str(&mut t, c);
                    MenuAction::Copy(t)
                },
                None => {
                    self.set_feedback("no share code yet", FEEDBACK_MS);
                    MenuAction::NoAction
                },
            },
            MenuItem::CopyInstall => match install_one_liner {
                Some(c) => {
                    let mut t = String::new();
                    crate::text::string_push_str(&mut t, c);
                    MenuAction::Copy(t)
                },
                None => {
                    self.set_feedback("install server not ready yet", FEEDBACK_MS);
                    MenuAction::NoAction
                },
            },
            MenuItem::Quit => MenuAction::Quit,
        }
    }
}

pub const PANEL_W: u16 = 44;

pub const HINT: &'static str = "↑/↓ move   Enter select   Esc close";

pub open spec fn menu_fg() -> Pixel {
    Pixel { r: 255, g: 240, b: 150 }
}

pub open spec fn menu_bg() -> Pixel {
    Pixel { r: 20, g: 10, b: 30 }
}

pub open spec fn menu_border() -> Pixel {
    Pixel { r: 255, g: 180, b: 60 }
}

pub open spec fn selected_fg() -> Pixel {
    Pixel { r: 20, g: 10, b: 30 }
}

pub open spec fn selected_bg() -> Pixel {
    Pixel { r: 255, g: 220, b: 100 }
}

pub open spec fn hint_fg() -> Pixel {
    Pixel { r: 180, g: 180, b: 200 }
}

pub open spec fn feedback_fg() -> Pixel {
    Pixel { r: 120, g: 255, b: 200 }
}

pub open spec fn sat_sub(a: int, b: int) -> int {
    if a >= b {
        a - b
    } else {
        0
    }
}

/// Panel origin `(x, y)` and height for a terminal and an item count.
pub open spec fn menu_geometry(cols: u16, rows: u16, n: int) -> (int, int, int) {
    let ph = n + 6;
    (sat_sub(cols as int, 44) / 2, sat_sub(rows as int, ph) / 2, ph)
}

/// An item's line: marker (`▸` on the selected one), label, and spaces
/// up to the panel width less two, counted in bytes as the text is.
pub open spec fn item_text(item: MenuItem, selected: bool, paused: bool) -> Seq<char> {
    let text = " "@ + (if selected {
        "▸"@
    } else {
        " "@
    }) + " "@ + item.spec_label(paused);
    text + repeat_char(' ', sat_sub(42, encode_utf8(text).len() as int))
}

pub open spec fn wipe_cmds(x: int, y: int, ph: int) -> Seq<Cmd> {
    Seq::new(
        (ph * 4) as nat,
        |k: int|
            if k % 4 == 0 {
                Cmd::MoveTo(x as u16, (y + k / 4) as u16)
            } else if k % 4 == 1 {
                Cmd::Bg(menu_bg())
            } else if k % 4 == 2 {
                Cmd::Fg(menu_fg())
            } else {
                Cmd::Print(repeat_char(' ', 44))
            },
    )
}

pub open spec fn frame_cmds(x: int, y: int, ph: int) -> Seq<Cmd> {
    seq![
        Cmd::MoveTo(x as u16, y as u16),
        Cmd::Fg(menu_border()),
        Cmd::Print("┌"@ + repeat_char('─', 12) + " terminal_hell "@ + repeat_char('─', 14) + "┐"@),
        Cmd::MoveTo(x as u16, (y + ph - 1) as u16),
        Cmd::Print("└"@ + repeat_char('─', 42) + "┘"@),
    ] + Seq::new(
        ((ph - 2) * 4) as nat,
        |k: int|
            if k % 4 == 0 {
                Cmd::MoveTo(x as u16, (y + 1 + k / 4) as u16)
            } else if k % 4 == 1 {
                Cmd::Print("│"@)
            } else if k % 4 == 2 {
                Cmd::MoveTo((x + 43) as u16, (y + 1 + k / 4) as u16)
            } else {
                Cmd::Print("│"@)
            },
    )
}

pub open spec fn item_cmds(items: Seq<MenuItem>, sel: int, paused: bool, x: int, y: int, i: int) -> Seq<Cmd> {
    let full = item_text(items[i], i == sel, paused);
    if i == sel {
        seq![
            Cmd::MoveTo((x + 1) as u16, (y + 2 + i) as u16),
            Cmd::Bg(selected_bg()),
            Cmd::Fg(selected_fg()),
            Cmd::Print(full),
            Cmd::Bg(menu_bg()),
            Cmd::Fg(menu_fg()),
        ]
    } else {
        seq![Cmd::MoveTo((x + 1) as u16, (y + 2 + i) as u16), Cmd::Print(full)]
    }
}

pub open spec fn items_cmds(items: Seq<MenuItem>, sel: int, paused: bool, x: int, y: int, n: int) -> Seq<Cmd>
    decreases n,
{
    if n <= 0 {
        Seq::empty()
    } else {
        items_cmds(items, sel, paused, x, y, n - 1) + item_cmds(items, sel, paused, x, y, n - 1)
    }
}

/// The menu panel, command by command: the wiped background, the frame
/// with its title, one line per item, the key hint, the feedback line
/// (cut to forty characters) if any, and a color reset. Nothing while
/// the menu is closed.
pub open spec fn menu_cmds(
    open: bool,
    selected: int,
    feedback: Seq<char>,
    cols: u16,
    rows: u16,
    is_authoritative: bool,
    paused: bool,
) -> Seq<Cmd> {
    if !open {
        Seq::empty()
    } else {
        let items = spec_menu_items(is_authoritative);
        let (x, y, ph) = menu_geometry(cols, rows, items.len() as int);
        wipe_cmds(x, y, ph) + frame_cmds(x, y, ph) + items_cmds(
            items,
            selected,
            paused,
            x,
            y,
            items.len() as int,
        ) + seq![
            Cmd::MoveTo((x + 2) as u16, (y + ph - 3) as u16),
            Cmd::Fg(hint_fg()),
            Cmd::Print(HINT@),
        ] + (if feedback.len() > 0 {
            seq![
                Cmd::MoveTo((x + 2) as u16, (y + ph - 2) as u16),
                Cmd::Fg(feedback_fg()),
                Cmd::Print(if feedback.len() <= 40 {
                    feedback
                } else {
                    feedback.take(40)
                }),
            ]
        } else {
            Seq::empty()
        }) + seq![Cmd::ResetColor]
    }
}

fn push_wipe(cmds: &mut Vec<DrawCmd>, x: u16, y: u16, ph: u16)
    requires
        y + ph <= u16::MAX,
    ensures
        cmds_view(final(cmds)@) == cmds_view(old(cmds)@) + wipe_cmds(x as int, y as int, ph as int),
{
    let ghost start = cmds_view(cmds@);
    let mut r: u16 = 0;
    while r < ph
        invariant
            r <= ph,
            y + ph <= u16::MAX,
            cmds_view(cmds@) == start + wipe_cmds(x as int, y as int, ph as int).take(4 * r),
        decreases ph - r,
    {
        push_cmd(cmds, DrawCmd::MoveTo(x, y + r));
        push_cmd(cmds, DrawCmd::Bg(Pixel::rgb(20, 10, 30)));
        push_cmd(cmds, DrawCmd::Fg(Pixel::rgb(255, 240, 150)));
        push_cmd(cmds, DrawCmd::Print(repeat(' ', 44)));
        assert(wipe_cmds(x as int, y as int, ph as int).take(4 * (r + 1)) =~= wipe_cmds(x as int, y as int, ph as int).take(4 * r) + seq![
            Cmd::MoveTo(x, (y + r) as u16),
            Cmd::Bg(menu_bg()),
            Cmd::Fg(menu_fg()),
            Cmd::Print(repeat_char(' ', 44)),
        ]);
        r = r + 1;
    }
    assert(wipe_cmds(x as int, y as int, ph as int).take(4 * ph) =~= wipe_cmds(x as int, y as int, ph as int));
}

fn push_frame(cmds: &mut Vec<DrawCmd>, x: u16, y: u16, ph: u16)
    requires
        y + ph <= u16::MAX,
        x + 43 <= u16::MAX,
        ph >= 2,
    ensures
        cmds_view(final(cmds)@) == cmds_view(old(cmds)@) + frame_cmds(x as int, y as int, ph as int),
{
    let ghost start = cmds_view(cmds@);
    push_cmd(cmds, DrawCmd::MoveTo(x, y));
    push_cmd(cmds, DrawCmd::Fg(Pixel::rgb(255, 180, 60)));
    let mut top = String::new();
    string_push_str(&mut top, "┌");
    string_push_str(&mut top, repeat('─', 12).as_str());
    string_push_str(&mut top, " terminal_hell ");
    string_push_str(&mut top, repeat('─', 14).as_str());
    string_push_str(&mut top, "┐");
    push_cmd(cmds, DrawCmd::Print(top));
    push_cmd(cmds, DrawCmd::MoveTo(x, y + ph - 1));
    let mut bottom = String::new();
    string_push_str(&mut bottom, "└");
    string_push_str(&mut bottom, repeat('─', 42).as_str());
    string_push_str(&mut bottom, "┘");
    push_cmd(cmds, DrawCmd::Print(bottom));
    let ghost head = cmds_view(cmds@);
    let mut r: u16 = 1;
    while r < ph - 1
        invariant
            1 <= r <= ph - 1,
            ph >= 2,
            y + ph <= u16::MAX,
            x + 43 <= u16::MAX,
            cmds_view(cmds@) == head + Seq::new(
                ((ph - 2) * 4) as nat,
                |k: int|
                    if k % 4 == 0 {
                        Cmd::MoveTo(x as u16, (y + 1 + k / 4) as u16)
                    } else if k % 4 == 1 {
                        Cmd::Print("│"@)
                    } else if k % 4 == 2 {
                        Cmd::MoveTo((x + 43) as u16, (y + 1 + k / 4) as u16)
                    } else {
                        Cmd::Print("│"@)
                    },
            ).take(4 * (r - 1)),
        decreases ph - 1 - r,
    {
        let mut bar1 = String::new();
        string_push_str(&mut bar1, "│");
        let mut bar2 = String::new();
        string_push_str(&mut bar2, "│");
        push_cmd(cmds, DrawCmd::MoveTo(x, y + r));
        push_cmd(cmds, DrawCmd::Print(bar1));
        push_cmd(cmds, DrawCmd::MoveTo(x + 43, y + r));
        push_cmd(cmds, DrawCmd::Print(bar2));
        let ghost sides = Seq::new(
            ((ph - 2) * 4) as nat,
            |k: int|
                if k % 4 == 0 {
                    Cmd::MoveTo(x as u16, (y + 1 + k / 4) as u16)
                } else if k % 4 == 1 {
                    Cmd::Print("│"@)
                } else if k % 4 == 2 {
                    Cmd::MoveTo((x + 43) as u16, (y + 1 + k / 4) as u16)
                } else {
                    Cmd::Print("│"@)
                },
        );
        assert(sides.take(4 * r) =~= sides.take(4 * (r - 1)) + seq![
            Cmd::MoveTo(x, (y + r) as u16),
            Cmd::Print("│"@),
            Cmd::MoveTo((x + 43) as u16, (y + r) as u16),
            Cmd::Print("│"@),
        ]);
        r = r + 1;
    }
    proof {
        let sides = Seq::new(
            ((ph - 2) * 4) as nat,
            |k: int|
                if k % 4 == 0 {
                    Cmd::MoveTo(x as u16, (y + 1 + k / 4) as u16)
                } else if k % 4 == 1 {
                    Cmd::Print("│"@)
                } else if k % 4 == 2 {
                    Cmd::MoveTo((x + 43) as u16, (y + 1 + k / 4) as u16)
                } else {
                    Cmd::Print("│"@)
                },
        );
        assert(sides.take(4 * (ph - 2)) =~= sides);
        assert(cmds_view(cmds@) =~= cmds_view(old(cmds)@) + frame_cmds(x as int, y as int, ph as int));
    }
}

fn item_line(item: MenuItem, selected: bool, paused: bool) -> (s: String)
    ensures
        s@ == item_text(item, selected, paused),
{
    let mut text = String::new();
    string_push_str(&mut text, " ");
    if selected {
        string_push_str(&mut text, "▸");
    } else {
        string_push_str(&mut text, " ");
    }
    string_push_str(&mut text, " ");
    string_push_str(&mut text, item.label(paused));
    let blen = text.as_str().as_bytes().len();
    let pad: usize = if blen >= 42 {
        0
    } else {
        42 - blen
    };
    let spaces = repeat(' ', pad);
    string_push_str(&mut text, spaces.as_str());
    text
}

fn push_items(cmds: &mut Vec<DrawCmd>, items: &Vec<MenuItem>, sel: usize, paused: bool, x: u16, y: u16)
    requires
        y + 2 + items@.len() <= u16::MAX,
        x + 1 <= u16::MAX,
    ensures
        cmds_view(final(cmds)@) == cmds_view(old(cmds)@) + items_cmds(items@, sel as int, paused, x as int, y as int, items@.len() as int),
{
    let ghost start = cmds_view(cmds@);
    let mut i: usize = 0;
    while i < items.len()
        invariant
            i <= items@.len(),
            y + 2 + items@.len() <= u16::MAX,
            x + 1 <= u16::MAX,
            cmds_view(cmds@) == start + items_cmds(items@, sel as int, paused, x as int, y as int, i as int),
        decreases items@.len() - i,
    {
        let ghost before = cmds_view(cmds@);
        let row = y + 2 + i as u16;
        let is_sel = i == sel;
        let full = item_line(items[i], is_sel, paused);
        let ghost full_view = full@;
        push_cmd(cmds, DrawCmd::MoveTo(x + 1, row));
        if is_sel {
            push_cmd(cmds, DrawCmd::Bg(Pixel::rgb(255, 220, 100)));
            push_cmd(cmds, DrawCmd::Fg(Pixel::rgb(20, 10, 30)));
            push_cmd(cmds, DrawCmd::Print(full));
            push_cmd(cmds, DrawCmd::Bg(Pixel::rgb(20, 10, 30)));
            push_cmd(cmds, DrawCmd::Fg(Pixel::rgb(255, 240, 150)));
        } else {
            push_cmd(cmds, DrawCmd::Print(full));
        }
        assert(cmds_view(cmds@) =~= before + item_cmds(items@, sel as int, paused, x as int, y as int, i as int));
        assert(items_cmds(items@, sel as int, paused, x as int, y as int, i + 1) == items_cmds(
            items@,
            sel as int,
            paused,
            x as int,
            y as int,
            i as int,
        ) + item_cmds(items@, sel as int, paused, x as int, y as int, i as int));
        i = i + 1;
    }
}

fn push_tail(cmds: &mut Vec<DrawCmd>, x: u16, y: u16, ph: u16, feedback: &String)
    requires
        ph >= 3,
        y + ph <= u16::MAX,
        x + 2 <= u16::MAX,
    ensures
        cmds_view(final(cmds)@) == cmds_view(old(cmds)@) + seq![
            Cmd::MoveTo((x + 2) as u16, (y + ph - 3) as u16),
            Cmd::Fg(hint_fg()),
            Cmd::Print(HINT@),
        ] + (if feedback@.len() > 0 {
            seq![
                Cmd::MoveTo((x + 2) as u16, (y + ph - 2) as u16),
                Cmd::Fg(feedback_fg()),
                Cmd::Print(if feedback@.len() <= 40 {
                    feedback@
                } else {
                    feedback@.take(40)
                }),
            ]
        } else {
            Seq::empty()
        }) + seq![Cmd::ResetColor],
{
    let ghost start = cmds_view(cmds@);
    push_cmd(cmds, DrawCmd::MoveTo(x + 2, y + ph - 3));
    push_cmd(cmds, DrawCmd::Fg(Pixel::rgb(180, 180, 200)));
    let mut hint = String::new();
    string_push_str(&mut hint, HINT);
    push_cmd(cmds, DrawCmd::Print(hint));
    let ghost mid = cmds_view(cmds@);
    let fb_chars = chars_of(feedback.as_str());
    if fb_chars.len() > 0 {
        push_cmd(cmds, DrawCmd::MoveTo(x + 2, y + ph - 2));
        push_cmd(cmds, DrawCmd::Fg(Pixel::rgb(120, 255, 200)));
        let cut = if fb_chars.len() <= 40 {
            crate::text::string_from_chars(&fb_chars)
        } else {
            let t = crate::text::slice_chars(&fb_chars, 0, 40);
            assert(t@ =~= feedback@.take(40));
            crate::text::string_from_chars(&t)
        };
        push_cmd(cmds, DrawCmd::Print(cut));
    }
    push_cmd(cmds, DrawCmd::ResetColor);
    assert(cmds_view(cmds@) =~= start + seq![
        Cmd::MoveTo((x + 2) as u16, (y + ph - 3) as u16),
        Cmd::Fg(hint_fg()),
        Cmd::Print(HINT@),
    ] + (if feedback@.len() > 0 {
        seq![
            Cmd::MoveTo((x + 2) as u16, (y + ph - 2) as u16),
            Cmd::Fg(feedback_fg()),
            Cmd::Print(if feedback@.len() <= 40 {
                feedback@
            } else {
                feedback@.take(40)
            }),
        ]
    } else {
        Seq::empty()
    }) + seq![Cmd::ResetColor]);
}

impl Menu {
    /// The menu panel for a `cols` × `rows` terminal, as draw commands.
    #[verifier::rlimit(40)]
    pub fn render_cmds(&self, cols: u16, rows: u16, is_authoritative: bool, paused: bool) -> (cmds: Vec<DrawCmd>)
        ensures
            cmds_view(cmds@) == menu_cmds(
                self.open,
                self.selected as int,
                self.feedback@,
                cols,
                rows,
                is_authoritative,
                paused,
            ),
    {
        let mut cmds: Vec<DrawCmd> = Vec::new();
        if !self.open {
            assert(cmds_view(cmds@) =~= Seq::<Cmd>::empty());
            return cmds;
        }
        let items = self.items(is_authoritative);
        let n = items.len() as u16;
        let ph: u16 = n + 6;
        let x: u16 = (if cols >= 44 { cols - 44 } else { 0 }) / 2;
        let y: u16 = (if rows >= ph { rows - ph } else { 0 }) / 2;
        assert(menu_geometry(cols, rows, items@.len() as int) == (x as int, y as int, ph as int));
        assert(cmds_view(cmds@) =~= Seq::<Cmd>::empty());
        push_wipe(&mut cmds, x, y, ph);
        push_frame(&mut cmds, x, y, ph);
        push_items(&mut cmds, &items, self.selected, paused, x, y);
        push_tail(&mut cmds, x, y, ph, &self.feedback);
        assert(cmds_view(cmds@) =~= menu_cmds(
            self.open,
            self.selected as int,
            self.feedback@,
            cols,
            rows,
            is_authoritative,
            paused,
        ));
        cmds
    }
}

} // verus!
