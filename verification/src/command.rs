//! The command language of the text transport.
//!
//! A line that starts with `/` is a command: its first word selects it and
//! what follows the first space is its argument. Any other line is chat.

use crate::text::{first_space, same_text, split_word};
use vstd::prelude::*;

verus! {

/// What one line of text asks for.
#[derive(Debug, Clone, PartialEq, Eq)]
pub enum Command {
    /// `/list`: name all rooms.
    List,
    /// `/join <room>`: move to the room.
    Join(String),
    /// `/join` without a room.
    JoinWithoutRoom,
    /// `/name <name>`: take the display name.
    Name(String),
    /// `/name` without a name.
    NameWithoutName,
    /// Any other line that starts with `/`; it holds the whole line.
    Unknown(String),
    /// A line of chat.
    Say(String),
}

/// A command as a value.
pub enum CommandView {
    List,
    Join(Seq<char>),
    JoinWithoutRoom,
    Name(Seq<char>),
    NameWithoutName,
    Unknown(Seq<char>),
    Say(Seq<char>),
}

impl View for Command {
    type V = CommandView;

    open spec fn view(&self) -> CommandView {
        match self {
            Command::List => CommandView::List,
            Command::Join(room) => CommandView::Join(room@),
            Command::JoinWithoutRoom => CommandView::JoinWithoutRoom,
            Command::Name(name) => CommandView::Name(name@),
            Command::NameWithoutName => CommandView::NameWithoutName,
            Command::Unknown(line) => CommandView::Unknown(line@),
            Command::Say(line) => CommandView::Say(line@),
        }
    }
}

/// Whether `c` is whitespace: one of the 25 code points that have the
/// Unicode property White_Space.
pub open spec fn white_space(c: char) -> bool {
    let n = c as u32;
    ||| 0x0009 <= n <= 0x000D
    ||| n == 0x0020
    ||| n == 0x0085
    ||| n == 0x00A0
    ||| n == 0x1680
    ||| 0x2000 <= n <= 0x200A
    ||| n == 0x2028
    ||| n == 0x2029
    ||| n == 0x202F
    ||| n == 0x205F
    ||| n == 0x3000
}

/// `s` without the whitespace at its start.
pub open spec fn trim_start_of(s: Seq<char>) -> Seq<char>
    decreases s.len(),
{
    if s.len() > 0 && white_space(s[0]) {
        trim_start_of(s.skip(1))
    } else {
        s
    }
}

/// `s` without the whitespace at its end.
pub open spec fn trim_end_of(s: Seq<char>) -> Seq<char>
    decreases s.len(),
{
    if s.len() > 0 && white_space(s.last()) {
        trim_end_of(s.drop_last())
    } else {
        s
    }
}

/// `s` without the whitespace at its start and at its end.
pub open spec fn trim_of(s: Seq<char>) -> Seq<char> {
    trim_end_of(trim_start_of(s))
}

/// `char::is_whitespace`: whether `c` has the Unicode property White_Space,
/// which `white_space` spells out.
#[verifier::external_body]
fn is_space(c: char) -> (space: bool)
    ensures
        space == white_space(c),
{
    c.is_whitespace()
}

/// Where the whitespace at the start of a text ends.
proof fn lemma_trim_start(s: Seq<char>, first: int)
    requires
        0 <= first <= s.len(),
        forall|k: int| 0 <= k < first ==> white_space(s[k]),
        first < s.len() ==> !white_space(s[first]),
    ensures
        trim_start_of(s) == s.skip(first),
    decreases first,
{
    if first == 0 {
        assert(s.skip(0) =~= s);
    } else {
        assert(white_space(s[0]));
        lemma_trim_start(s.skip(1), first - 1);
        assert(s.skip(1).skip(first - 1) =~= s.skip(first));
    }
}

/// Where the whitespace at the end of a text begins.
proof fn lemma_trim_end(s: Seq<char>, end: int)
    requires
        0 <= end <= s.len(),
        forall|k: int| end <= k < s.len() ==> white_space(s[k]),
        end > 0 ==> !white_space(s[end - 1]),
    ensures
        trim_end_of(s) == s.take(end),
    decreases s.len() - end,
{
    if end == s.len() {
        assert(s.take(end) =~= s);
    } else {
        assert(white_space(s[s.len() - 1]));
        lemma_trim_end(s.drop_last(), end);
        assert(s.drop_last().take(end) =~= s.take(end));
    }
}

/// The line without the whitespace at its start and at its end.
pub fn trim(line: &str) -> (core: &str)
    ensures
        core@ == trim_of(line@),
{
    let n = line.unicode_len();
    let mut first: usize = 0;
    let mut end: usize = 0;
    let mut at: usize = 0;
    for c in it: line.chars()
        invariant
            at == it.index(),
            n == line@.len(),
            it.seq() == line@,
            first <= end <= at,
            forall|k: int| 0 <= k < first ==> white_space(line@[k]),
            forall|k: int| end <= k < at ==> white_space(line@[k]),
            first < end ==> !white_space(line@[first as int]) && !white_space(line@[end - 1]),
            first == end ==> first == at,
    {
        if !is_space(c) {
            if first == end {
                first = at;
            }
            end = at + 1;
        } else if first == end {
            first = at + 1;
            end = at + 1;
        }
        at += 1;
    }
    proof {
        lemma_trim_start(line@, first as int);
        lemma_trim_end(line@.skip(first as int), end - first);
        assert(line@.skip(first as int).take(end - first) =~= line@.subrange(
            first as int,
            end as int,
        ));
    }
    line.substring_char(first, end)
}

/// What a line asks for, once the whitespace around it is gone.
pub open spec fn command_of(line: Seq<char>) -> CommandView {
    if line.len() > 0 && line[0] == '/' {
        let cut = first_space(line);
        let word = line.take(cut);
        if word == "/list"@ {
            CommandView::List
        } else if word == "/join"@ {
            if cut < line.len() {
                CommandView::Join(line.skip(cut + 1))
            } else {
                CommandView::JoinWithoutRoom
            }
        } else if word == "/name"@ {
            if cut < line.len() {
                CommandView::Name(line.skip(cut + 1))
            } else {
                CommandView::NameWithoutName
            }
        } else {
            CommandView::Unknown(line)
        }
    } else {
        CommandView::Say(line)
    }
}

/// Reads a line that has no whitespace around it.
pub fn read(line: &str) -> (command: Command)
    ensures
        command@ == command_of(line@),
{
    if line.unicode_len() == 0 || line.get_char(0) != '/' {
        return Command::Say(line.to_owned());
    }
    let (word, arg) = split_word(line);
    if same_text(word, "/list") {
        Command::List
    } else if same_text(word, "/join") {
        match arg {
            Some(room) => Command::Join(room.to_owned()),
            None => Command::JoinWithoutRoom,
        }
    } else if same_text(word, "/name") {
        match arg {
            Some(name) => Command::Name(name.to_owned()),
            None => Command::NameWithoutName,
        }
    } else {
        Command::Unknown(line.to_owned())
    }
}

/// Reads one line of the text transport: the whitespace around it is
/// dropped, and what is left is read as a command or as chat.
pub fn parse(line: &str) -> (command: Command)
    ensures
        command@ == command_of(trim_of(line@)),
{
    read(trim(line))
}

} // verus!
