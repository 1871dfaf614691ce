//! Terminal draw commands: overlays are laid out as a list of cursor
//! moves, color changes and text, which the caller queues to the
//! terminal in order.
use crate::fb::Pixel;
use vstd::prelude::*;

verus! {

#[derive(Clone, Debug, PartialEq, Eq)]
pub enum DrawCmd {
    MoveTo(u16, u16),
    Fg(Pixel),
    Bg(Pixel),
    Print(String),
    ResetColor,
}

/// A draw command with its text as characters.
pub enum Cmd {
    MoveTo(u16, u16),
    Fg(Pixel),
    Bg(Pixel),
    Print(Seq<char>),
    ResetColor,
}

pub open spec fn cmd_view(c: DrawCmd) -> Cmd {
    match c {
        DrawCmd::MoveTo(x, y) => Cmd::MoveTo(x, y),
        DrawCmd::Fg(p) => Cmd::Fg(p),
        DrawCmd::Bg(p) => Cmd::Bg(p),
        DrawCmd::Print(s) => Cmd::Print(s@),
        DrawCmd::ResetColor => Cmd::ResetColor,
    }
}

pub open spec fn cmds_view(cs: Seq<DrawCmd>) -> Seq<Cmd> {
    cs.map_values(|c: DrawCmd| cmd_view(c))
}

/// Append one command.
pub fn push_cmd(cmds: &mut Vec<DrawCmd>, c: DrawCmd)
    ensures
        cmds_view(final(cmds)@) == cmds_view(old(cmds)@).push(cmd_view(c)),
{
    let ghost c_view = cmd_view(c);
    cmds.push(c);
    assert(cmds_view(cmds@) =~= cmds_view(old(cmds)@).push(c_view));
}

/// `n` copies of `c`.
pub open spec fn repeat_char(c: char, n: int) -> Seq<char> {
    Seq::new(n as nat, |i: int| c)
}

/// A string of `n` copies of `c`.
pub fn repeat(c: char, n: usize) -> (s: String)
    ensures
        s@ == repeat_char(c, n as int),
{
    let mut s = String::new();
    let mut i: usize = 0;
    while i < n
        invariant
            i <= n,
            s@ == repeat_char(c, i as int),
        decreases n - i,
    {
        crate::text::string_push(&mut s, c);
        assert(s@ =~= repeat_char(c, i + 1));
        i = i + 1;
    }
    s
}

} // verus!
