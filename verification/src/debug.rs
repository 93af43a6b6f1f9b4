//! The layout of a log line: `[time] [ TAG ] -> message`, with the tag
//! centred in the width of the widest tag and the arrow kept in one column.
use vstd::prelude::*;
use vstd::string::StringExecFns;
use crate::text::{byte_count, push_char};

verus! {

/// The kinds of log line.
#[derive(Debug, Clone, Copy, PartialEq, Eq, Structural)]
pub enum LogType {
    Success,
    Failed,
    Debug,
    LLM,
    Action,
}

/// The tag shown for `t`.
pub open spec fn tag_text(t: LogType) -> Seq<char> {
    match t {
        LogType::Success => "SUCCESS"@,
        LogType::Failed => "FAILED!"@,
        LogType::Debug => "DEBUG"@,
        LogType::LLM => "LLM"@,
        LogType::Action => "ACTION"@,
    }
}

/// The tag shown for `t`.
pub fn log_tag(t: LogType) -> (s: &'static str)
    ensures
        s@ == tag_text(t),
{
    match t {
        LogType::Success => "SUCCESS",
        LogType::Failed => "FAILED!",
        LogType::Debug => "DEBUG",
        LogType::LLM => "LLM",
        LogType::Action => "ACTION",
    }
}

/// The width of the widest tag.
pub const TAG_WIDTH: usize = 7;

/// The column at which the arrow of a log line stands.
pub const ARROW_COLUMN: usize = 20;

/// `n` spaces.
pub open spec fn spaces(n: nat) -> Seq<char> {
    Seq::new(n, |i: int| ' ')
}

/// `tag` centred in `width` bytes (a tag at least that many bytes long is kept
/// as it is).
pub open spec fn centered(tag: Seq<char>, width: nat) -> Seq<char> {
    if byte_count(tag) >= width {
        tag
    } else {
        let pad = (width - byte_count(tag)) as nat;
        spaces(pad / 2) + tag + spaces((pad - pad / 2) as nat)
    }
}

/// The spaces between the tag and the arrow of a line whose time is
/// `time_len` bytes and whose centred tag is `tag_len` bytes long.
pub open spec fn arrow_padding(time_len: nat, tag_len: nat) -> Seq<char> {
    let current = time_len + 2 + tag_len + 2;
    if ARROW_COLUMN > current {
        spaces((ARROW_COLUMN - current) as nat)
    } else {
        spaces(1)
    }
}

fn push_spaces(s: &mut String, n: usize)
    ensures
        final(s)@ == old(s)@ + spaces(n as nat),
{
    let ghost start = s@;
    for i in 0..n
        invariant
            s@ == start + spaces(i as nat),
    {
        push_char(s, ' ');
        assert(s@ =~= start + spaces((i + 1) as nat));
    }
}

/// `tag` centred in `width` bytes.
pub fn center_tag(tag: &str, width: usize) -> (r: String)
    ensures
        r@ == centered(tag@, width as nat),
{
    let len = tag.len();
    if len >= width {
        return tag.to_owned();
    }
    let pad = width - len;
    let left = pad / 2;
    let mut r = String::new();
    push_spaces(&mut r, left);
    r.append(tag);
    push_spaces(&mut r, pad - left);
    assert(r@ =~= centered(tag@, width as nat));
    r
}

/// How a log line is laid out: its centred tag and the spaces before the arrow.
#[derive(Debug, Clone, PartialEq, Eq)]
pub struct LogLayout {
    pub tag: String,
    pub padding: String,
}

/// The layout of a log line of kind `t` stamped with `time`.
pub fn log_layout(time: &str, t: LogType) -> (l: LogLayout)
    ensures
        l.tag@ == centered(tag_text(t), TAG_WIDTH as nat),
        l.padding@ == arrow_padding(byte_count(time@), byte_count(l.tag@)),
{
    let tag = center_tag(log_tag(t), TAG_WIDTH);
    let time_len = time.len();
    let tag_len = tag.as_str().len();
    let mut padding = String::new();
    if time_len <= ARROW_COLUMN && tag_len <= ARROW_COLUMN && time_len + 2 + tag_len + 2
        < ARROW_COLUMN {
        push_spaces(&mut padding, ARROW_COLUMN - (time_len + 2 + tag_len + 2));
    } else {
        push_spaces(&mut padding, 1);
    }
    assert(padding@ =~= arrow_padding(byte_count(time@), byte_count(tag@)));
    LogLayout { tag, padding }
}

} // verus!
