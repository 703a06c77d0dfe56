//! The task-file format and its parser.
//!
//! A task file is a sequence of lines. Blank lines and lines whose first
//! non-blank character is `#` are ignored. A line reading `[[task]]` (after
//! trimming) starts a new task entry. A line `key = "value"` assigns one of
//! the keys `name`, `show_if` or `command` of the current entry; the value is
//! a double-quoted string with the escapes `\"`, `\\`, `\n` and `\t`. Every
//! entry must assign `name` and `command` exactly once, `show_if` at most
//! once, and a file must contain at least one entry.

use vstd::prelude::*;

use crate::error::ParseError;
use crate::item::item_views;
use crate::item::str_views;
use crate::item::TaskItem;
use crate::item::TaskItemV;

verus! {

/// Blank characters that may surround the meaningful part of a line.
pub open spec fn is_blank(c: char) -> bool {
    c == ' ' || c == '\t' || c == '\r'
}

fn is_blank_char(c: char) -> (b: bool)
    ensures
        b == is_blank(c),
{
    c == ' ' || c == '\t' || c == '\r'
}

/// The lines of `s`, with `cur` the partial line read so far.
pub open spec fn spec_lines_from(s: Seq<char>, cur: Seq<char>) -> Seq<Seq<char>>
    decreases s.len(),
{
    if s.len() == 0 {
        seq![cur]
    } else if s[0] == '\n' {
        seq![cur] + spec_lines_from(s.drop_first(), Seq::empty())
    } else {
        spec_lines_from(s.drop_first(), cur.push(s[0]))
    }
}

/// `s` split at newline characters. The empty text is one empty line.
pub open spec fn spec_lines(s: Seq<char>) -> Seq<Seq<char>> {
    spec_lines_from(s, Seq::empty())
}

/// Split `s` at newline characters.
pub fn split_lines(s: &str) -> (r: Vec<String>)
    ensures
        str_views(r@) == spec_lines(s@),
{
    let n: usize = s.unicode_len();
    let mut out: Vec<String> = Vec::new();
    let mut start: usize = 0;
    let mut i: usize = 0;
    proof {
        assert(s@.skip(0) =~= s@);
        assert(s@.subrange(0, 0) =~= Seq::<char>::empty());
        assert(str_views(out@) =~= Seq::<Seq<char>>::empty());
    }
    while i < n
        invariant
            n == s@.len(),
            start <= i <= n,
            spec_lines(s@) == str_views(out@) + spec_lines_from(
                s@.skip(i as int),
                s@.subrange(start as int, i as int),
            ),
        decreases n - i,
    {
        let c = s.get_char(i);
        proof {
            assert(s@.skip(i as int)[0] == s@[i as int]);
            assert(s@.skip(i as int).drop_first() =~= s@.skip(i + 1));
        }
        if c == '\n' {
            let line = String::from_str(s.substring_char(start, i));
            proof {
                assert(str_views(out@.push(line)) =~= str_views(out@) + seq![line@]);
            }
            out.push(line);
            start = i + 1;
            proof {
                assert(s@.subrange(start as int, start as int) =~= Seq::<char>::empty());
            }
        } else {
            proof {
                assert(s@.subrange(start as int, i + 1) =~= s@.subrange(
                    start as int,
                    i as int,
                ).push(s@[i as int]));
            }
        }
        i = i + 1;
    }
    let line = String::from_str(s.substring_char(start, n));
    proof {
        assert(s@.skip(n as int) =~= Seq::<char>::empty());
        assert(str_views(out@.push(line)) =~= str_views(out@) + seq![line@]);
        assert(str_views(out@) + seq![line@] =~= str_views(out@.push(line)));
    }
    out.push(line);
    proof {
        assert(str_views(out@) =~= spec_lines(s@));
    }
    out
}

/// `s` without leading blank characters.
pub open spec fn spec_trim_start(s: Seq<char>) -> Seq<char>
    decreases s.len(),
{
    if s.len() > 0 && is_blank(s[0]) {
        spec_trim_start(s.drop_first())
    } else {
        s
    }
}

/// `s` without trailing blank characters.
pub open spec fn spec_trim_end(s: Seq<char>) -> Seq<char>
    decreases s.len(),
{
    if s.len() > 0 && is_blank(s.last()) {
        spec_trim_end(s.drop_last())
    } else {
        s
    }
}

/// `s` without leading and trailing blank characters.
pub open spec fn spec_trim(s: Seq<char>) -> Seq<char> {
    spec_trim_end(spec_trim_start(s))
}

/// Remove leading and trailing blank characters.
pub fn trim<'a>(s: &'a str) -> (r: &'a str)
    ensures
        r@ == spec_trim(s@),
{
    let n: usize = s.unicode_len();
    let mut a: usize = 0;
    proof {
        assert(s@.skip(0) =~= s@);
    }
    while a < n && is_blank_char(s.get_char(a))
        invariant
            n == s@.len(),
            a <= n,
            spec_trim_start(s@) == spec_trim_start(s@.skip(a as int)),
        decreases n - a,
    {
        proof {
            assert(s@.skip(a as int)[0] == s@[a as int]);
            assert(s@.skip(a as int).drop_first() =~= s@.skip(a + 1));
        }
        a = a + 1;
    }
    proof {
        assert(spec_trim_start(s@) == s@.skip(a as int)) by {
            if a < n {
                assert(s@.skip(a as int)[0] == s@[a as int]);
            } else {
                assert(s@.skip(a as int).len() == 0);
            }
        }
    }
    let mut b: usize = n;
    proof {
        assert(s@.subrange(a as int, n as int) =~= s@.skip(a as int));
    }
    while b > a && is_blank_char(s.get_char(b - 1))
        invariant
            n == s@.len(),
            a <= b <= n,
            spec_trim_start(s@) == s@.skip(a as int),
            spec_trim_end(s@.skip(a as int)) == spec_trim_end(s@.subrange(a as int, b as int)),
        decreases b,
    {
        proof {
            let t = s@.subrange(a as int, b as int);
            assert(t.last() == s@[b - 1]);
            assert(t.drop_last() =~= s@.subrange(a as int, b - 1));
        }
        b = b - 1;
    }
    proof {
        let t = s@.subrange(a as int, b as int);
        assert(spec_trim_end(t) == t) by {
            if b > a {
                assert(t.last() == s@[b - 1]);
            }
        }
    }
    s.substring_char(a, b)
}

/// The character an escape sequence `\c` stands for, if `c` is a recognized
/// escape character.
pub open spec fn spec_escape(c: char) -> Option<char> {
    if c == 'n' {
        Some('\n')
    } else if c == 't' {
        Some('\t')
    } else if c == '"' {
        Some('"')
    } else if c == '\\' {
        Some('\\')
    } else {
        None
    }
}

/// The value of the rest `s` of a quoted string (everything after the opening
/// quote), given the value `acc` decoded so far. The closing quote must be
/// the last character of `s`.
pub open spec fn spec_unquote_rest(s: Seq<char>, acc: Seq<char>) -> Option<Seq<char>>
    decreases s.len(),
{
    if s.len() == 0 {
        None
    } else if s[0] == '"' {
        if s.len() == 1 {
            Some(acc)
        } else {
            None
        }
    } else if s[0] == '\\' {
        if s.len() >= 2 {
            match spec_escape(s[1]) {
                Some(c) => spec_unquote_rest(s.skip(2), acc.push(c)),
                None => None,
            }
        } else {
            None
        }
    } else {
        spec_unquote_rest(s.drop_first(), acc.push(s[0]))
    }
}

/// The value of the quoted string `s`, or `None` if `s` is not exactly one
/// quoted string.
pub open spec fn spec_unquote(s: Seq<char>) -> Option<Seq<char>> {
    if s.len() >= 1 && s[0] == '"' {
        spec_unquote_rest(s.drop_first(), Seq::empty())
    } else {
        None
    }
}

/// Decode a quoted string value.
pub fn unquote(s: &str) -> (r: Option<String>)
    ensures
        match r {
            Some(v) => spec_unquote(s@) == Some(v@),
            None => spec_unquote(s@) is None,
        },
{
    let n: usize = s.unicode_len();
    if n == 0 || s.get_char(0) != '"' {
        return None;
    }
    let mut out = String::new();
    let mut i: usize = 1;
    proof {
        assert(s@.skip(1) =~= s@.drop_first());
    }
    while i < n
        invariant
            n == s@.len(),
            1 <= i <= n,
            s@[0] == '"',
            spec_unquote(s@) == spec_unquote_rest(s@.skip(i as int), out@),
        decreases n - i,
    {
        let c = s.get_char(i);
        proof {
            assert(s@.skip(i as int)[0] == s@[i as int]);
        }
        if c == '"' {
            if i == n - 1 {
                return Some(out);
            } else {
                return None;
            }
        } else if c == '\\' {
            if i + 1 >= n {
                proof {
                    assert(s@.skip(i as int).len() == n - i);
                }
                return None;
            }
            let c2 = s.get_char(i + 1);
            proof {
                assert(s@.skip(i as int)[1] == s@[i + 1]);
                assert(s@.skip(i as int).skip(2) =~= s@.skip(i + 2));
            }
            if c2 == 'n' {
                proof {
                    reveal_strlit("\n");
                    assert("\n"@ =~= seq!['\n']);
                    assert(out@ + seq!['\n'] =~= out@.push('\n'));
                }
                out.append("\n");
            } else if c2 == 't' {
                proof {
                    reveal_strlit("\t");
                    assert("\t"@ =~= seq!['\t']);
                    assert(out@ + seq!['\t'] =~= out@.push('\t'));
                }
                out.append("\t");
            } else if c2 == '"' {
                proof {
                    reveal_strlit("\"");
                    assert("\""@ =~= seq!['"']);
                    assert(out@ + seq!['"'] =~= out@.push('"'));
                }
                out.append("\"");
            } else if c2 == '\\' {
                proof {
                    reveal_strlit("\\");
                    assert("\\"@ =~= seq!['\\']);
                    assert(out@ + seq!['\\'] =~= out@.push('\\'));
                }
                out.append("\\");
            } else {
                return None;
            }
            i = i + 2;
        } else {
            proof {
                assert(s@.skip(i as int).drop_first() =~= s@.skip(i + 1));
                assert(s@.subrange(i as int, i + 1) =~= seq![s@[i as int]]);
                assert(out@ + seq![s@[i as int]] =~= out@.push(s@[i as int]));
            }
            out.append(s.substring_char(i, i + 1));
            i = i + 1;
        }
    }
    proof {
        assert(s@.skip(n as int).len() == 0);
    }
    None
}

fn str_eq(a: &str, b: &str) -> (r: bool)
    ensures
        r == (a@ == b@),
{
    let sa = String::from_str(a);
    let sb = String::from_str(b);
    sa.eq(&sb)
}

/// The keys a task entry can assign.
#[derive(Clone, Copy, Debug, PartialEq, Eq, Structural)]
pub enum TaskKey {
    Name,
    ShowIf,
    Command,
}

/// Which task key the text `s` names, if any.
pub open spec fn spec_key_of(s: Seq<char>) -> Option<TaskKey> {
    if s == "name"@ {
        Some(TaskKey::Name)
    } else if s == "show_if"@ {
        Some(TaskKey::ShowIf)
    } else if s == "command"@ {
        Some(TaskKey::Command)
    } else {
        None
    }
}

fn key_of(s: &str) -> (r: Option<TaskKey>)
    ensures
        r == spec_key_of(s@),
{
    if str_eq(s, "name") {
        Some(TaskKey::Name)
    } else if str_eq(s, "show_if") {
        Some(TaskKey::ShowIf)
    } else if str_eq(s, "command") {
        Some(TaskKey::Command)
    } else {
        None
    }
}

/// The index of the first `=` in `s`, or a negative value if there is none.
pub open spec fn spec_find_eq(s: Seq<char>) -> int
    decreases s.len(),
{
    if s.len() == 0 {
        -1
    } else if s[0] == '=' {
        0
    } else {
        let r = spec_find_eq(s.drop_first());
        if r < 0 {
            -1
        } else {
            r + 1
        }
    }
}

fn find_eq(s: &str) -> (r: Option<usize>)
    ensures
        match r {
            Some(j) => spec_find_eq(s@) == j as int && j < s@.len(),
            None => spec_find_eq(s@) < 0,
        },
{
    let n: usize = s.unicode_len();
    let mut i: usize = 0;
    proof {
        assert(s@.skip(0) =~= s@);
    }
    while i < n
        invariant
            n == s@.len(),
            i <= n,
            spec_find_eq(s@) == (if spec_find_eq(s@.skip(i as int)) < 0 {
                -1int
            } else {
                i + spec_find_eq(s@.skip(i as int))
            }),
        decreases n - i,
    {
        proof {
            assert(s@.skip(i as int)[0] == s@[i as int]);
            assert(s@.skip(i as int).drop_first() =~= s@.skip(i + 1));
        }
        if s.get_char(i) == '=' {
            return Some(i);
        }
        i = i + 1;
    }
    proof {
        assert(s@.skip(n as int).len() == 0);
    }
    None
}

/// The header line that starts a new task entry.
pub open spec fn header_text() -> Seq<char> {
    "[[task]]"@
}

/// What a line of a task file means (on its mathematical value).
pub enum LineCls {
    /// Nothing: empty, only blanks, or a comment.
    Blank,
    /// A `[[task]]` header.
    Header,
    /// A recognized `key = "value"` assignment.
    Pair(TaskKey, Seq<char>),
    /// Anything else: malformed.
    Bad,
}

/// Classify one raw line of a task file.
pub open spec fn spec_classify(raw: Seq<char>) -> LineCls {
    let t = spec_trim(raw);
    if t.len() == 0 || t[0] == '#' {
        LineCls::Blank
    } else if t == header_text() {
        LineCls::Header
    } else {
        let e = spec_find_eq(t);
        if e < 0 {
            LineCls::Bad
        } else {
            let key = spec_trim(t.take(e));
            let rest = spec_trim(t.skip(e + 1));
            match (spec_key_of(key), spec_unquote(rest)) {
                (Some(k), Some(v)) => LineCls::Pair(k, v),
                _ => LineCls::Bad,
            }
        }
    }
}

/// The executable counterpart of [`LineCls`].
enum LineClass {
    Blank,
    Header,
    Pair(TaskKey, String),
    Bad,
}

fn classify(raw: &str) -> (r: LineClass)
    ensures
        match r {
            LineClass::Blank => spec_classify(raw@) is Blank,
            LineClass::Header => spec_classify(raw@) is Header,
            LineClass::Pair(k, v) => spec_classify(raw@) == LineCls::Pair(k, v@),
            LineClass::Bad => spec_classify(raw@) is Bad,
        },
{
    let t = trim(raw);
    let n: usize = t.unicode_len();
    if n == 0 {
        return LineClass::Blank;
    }
    if t.get_char(0) == '#' {
        return LineClass::Blank;
    }
    if str_eq(t, "[[task]]") {
        return LineClass::Header;
    }
    match find_eq(t) {
        None => LineClass::Bad,
        Some(j) => {
            proof {
                assert(t@.subrange(0, j as int) =~= t@.take(j as int));
                assert(t@.subrange(j + 1, n as int) =~= t@.skip(j + 1));
            }
            let key_part = trim(t.substring_char(0, j));
            let rest_part = trim(t.substring_char(j + 1, n));
            match key_of(key_part) {
                None => LineClass::Bad,
                Some(k) => match unquote(rest_part) {
                    None => LineClass::Bad,
                    Some(v) => LineClass::Pair(k, v),
                },
            }
        },
    }
}

/// A task entry under construction: the keys assigned so far.
pub struct PartialV {
    pub name: Option<Seq<char>>,
    pub show_if: Option<Seq<char>>,
    pub command: Option<Seq<char>>,
}

/// A fresh entry, right after its `[[task]]` header.
pub open spec fn empty_partial() -> PartialV {
    PartialV { name: None, show_if: None, command: None }
}

/// Assign key `k` of entry `p` the value `v`.
pub open spec fn spec_set_key(p: PartialV, k: TaskKey, v: Seq<char>) -> Result<
    PartialV,
    ParseError,
> {
    match k {
        TaskKey::Name => if p.name is Some {
            Err(ParseError::DuplicateKey)
        } else {
            Ok(PartialV { name: Some(v), show_if: p.show_if, command: p.command })
        },
        TaskKey::ShowIf => if p.show_if is Some {
            Err(ParseError::DuplicateKey)
        } else {
            Ok(PartialV { name: p.name, show_if: Some(v), command: p.command })
        },
        TaskKey::Command => if p.command is Some {
            Err(ParseError::DuplicateKey)
        } else {
            Ok(PartialV { name: p.name, show_if: p.show_if, command: Some(v) })
        },
    }
}

/// Close entry `p`: `name` and `command` are required, `show_if` optional.
pub open spec fn spec_finalize(p: PartialV) -> Result<TaskItemV, ParseError> {
    match p.name {
        None => Err(ParseError::MissingName),
        Some(n) => match p.command {
            None => Err(ParseError::MissingCommand),
            Some(c) => Ok(TaskItemV { name: n, show_if: p.show_if, command: c }),
        },
    }
}

/// The meaning of the remaining `lines` of a task file, given the items
/// `acc` finished so far and the entry `cur` under construction (`None`
/// before the first `[[task]]` header).
pub open spec fn spec_parse_lines(
    lines: Seq<Seq<char>>,
    acc: Seq<TaskItemV>,
    cur: Option<PartialV>,
) -> Result<Seq<TaskItemV>, ParseError>
    decreases lines.len(),
{
    if lines.len() == 0 {
        match cur {
            None => if acc.len() == 0 {
                Err(ParseError::NoTasks)
            } else {
                Ok(acc)
            },
            Some(p) => match spec_finalize(p) {
                Ok(it) => Ok(acc.push(it)),
                Err(e) => Err(e),
            },
        }
    } else {
        match spec_classify(lines[0]) {
            LineCls::Blank => spec_parse_lines(lines.drop_first(), acc, cur),
            LineCls::Header => match cur {
                None => spec_parse_lines(lines.drop_first(), acc, Some(empty_partial())),
                Some(p) => match spec_finalize(p) {
                    Ok(it) => spec_parse_lines(
                        lines.drop_first(),
                        acc.push(it),
                        Some(empty_partial()),
                    ),
                    Err(e) => Err(e),
                },
            },
            LineCls::Pair(k, v) => match cur {
                None => Err(ParseError::KeyOutsideTask),
                Some(p) => match spec_set_key(p, k, v) {
                    Ok(p2) => spec_parse_lines(lines.drop_first(), acc, Some(p2)),
                    Err(e) => Err(e),
                },
            },
            LineCls::Bad => Err(ParseError::BadLine),
        }
    }
}

/// The meaning of a whole task file: its ordered items, or the first error.
pub open spec fn spec_parse_file(s: Seq<char>) -> Result<Seq<TaskItemV>, ParseError> {
    spec_parse_lines(spec_lines(s), Seq::empty(), None)
}

struct Partial {
    name: Option<String>,
    show_if: Option<String>,
    command: Option<String>,
}

spec fn partial_view(p: &Partial) -> PartialV {
    PartialV {
        name: match p.name {
            Some(s) => Some(s@),
            None => None,
        },
        show_if: match p.show_if {
            Some(s) => Some(s@),
            None => None,
        },
        command: match p.command {
            Some(s) => Some(s@),
            None => None,
        },
    }
}

spec fn opt_partial_view(c: Option<Partial>) -> Option<PartialV> {
    match c {
        Some(p) => Some(partial_view(&p)),
        None => None,
    }
}

fn set_key_exec(p: Partial, k: TaskKey, v: String) -> (r: Result<Partial, ParseError>)
    ensures
        match r {
            Ok(p2) => spec_set_key(partial_view(&p), k, v@) == Ok::<PartialV, ParseError>(partial_view(&p2)),
            Err(e) => spec_set_key(partial_view(&p), k, v@) == Err::<PartialV, ParseError>(e),
        },
{
    match k {
        TaskKey::Name => {
            if p.name.is_some() {
                Err(ParseError::DuplicateKey)
            } else {
                Ok(Partial { name: Some(v), show_if: p.show_if, command: p.command })
            }
        },
        TaskKey::ShowIf => {
            if p.show_if.is_some() {
                Err(ParseError::DuplicateKey)
            } else {
                Ok(Partial { name: p.name, show_if: Some(v), command: p.command })
            }
        },
        TaskKey::Command => {
            if p.command.is_some() {
                Err(ParseError::DuplicateKey)
            } else {
                Ok(Partial { name: p.name, show_if: p.show_if, command: Some(v) })
            }
        },
    }
}

fn finalize_exec(p: Partial) -> (r: Result<TaskItem, ParseError>)
    ensures
        match r {
            Ok(it) => spec_finalize(partial_view(&p)) == Ok::<TaskItemV, ParseError>(it@),
            Err(e) => spec_finalize(partial_view(&p)) == Err::<TaskItemV, ParseError>(e),
        },
{
    match p.name {
        None => Err(ParseError::MissingName),
        Some(n) => match p.command {
            None => Err(ParseError::MissingCommand),
            Some(c) => Ok(TaskItem { name: n, show_if: p.show_if, command: c }),
        },
    }
}

/// Parse the text of one task file into its ordered task items.
pub fn parse_task_file(s: &str) -> (r: Result<Vec<TaskItem>, ParseError>)
    ensures
        match r {
            Ok(items) => spec_parse_file(s@) == Ok::<Seq<TaskItemV>, ParseError>(
                item_views(items@),
            ),
            Err(e) => spec_parse_file(s@) == Err::<Seq<TaskItemV>, ParseError>(e),
        },
{
    let lines = split_lines(s);
    let ghost all: Seq<Seq<char>> = str_views(lines@);
    let mut items: Vec<TaskItem> = Vec::new();
    let mut cur: Option<Partial> = None;
    let mut i: usize = 0;
    proof {
        assert(all.skip(0) =~= all);
        assert(item_views(items@) =~= Seq::<TaskItemV>::empty());
    }
    while i < lines.len()
        invariant
            all == str_views(lines@),
            all == spec_lines(s@),
            i <= lines.len(),
            spec_parse_file(s@) == spec_parse_lines(
                all.skip(i as int),
                item_views(items@),
                opt_partial_view(cur),
            ),
        decreases lines.len() - i,
    {
        proof {
            assert(all.skip(i as int)[0] == all[i as int]);
            assert(all[i as int] == lines@[i as int]@);
            assert(all.skip(i as int).drop_first() =~= all.skip(i + 1));
        }
        let cls = classify(lines[i].as_str());
        match cls {
            LineClass::Blank => {},
            LineClass::Header => {
                let prev = cur;
                cur = Some(Partial { name: None, show_if: None, command: None });
                match prev {
                    None => {},
                    Some(p) => match finalize_exec(p) {
                        Ok(it) => {
                            proof {
                                assert(item_views(items@.push(it)) =~= item_views(
                                    items@,
                                ).push(it@));
                            }
                            items.push(it);
                        },
                        Err(e) => {
                            return Err(e);
                        },
                    },
                }
            },
            LineClass::Pair(k, v) => {
                let prev = cur;
                match prev {
                    None => {
                        return Err(ParseError::KeyOutsideTask);
                    },
                    Some(p) => match set_key_exec(p, k, v) {
                        Ok(p2) => {
                            cur = Some(p2);
                        },
                        Err(e) => {
                            return Err(e);
                        },
                    },
                }
            },
            LineClass::Bad => {
                return Err(ParseError::BadLine);
            },
        }
        i = i + 1;
    }
    proof {
        assert(all.skip(lines@.len() as int).len() == 0);
        assert(all.skip(lines@.len() as int) =~= Seq::<Seq<char>>::empty());
    }
    match cur {
        None => {
            if items.len() == 0 {
                Err(ParseError::NoTasks)
            } else {
                Ok(items)
            }
        },
        Some(p) => match finalize_exec(p) {
            Ok(it) => {
                proof {
                    assert(item_views(items@.push(it)) =~= item_views(items@).push(it@));
                }
                items.push(it);
                Ok(items)
            },
            Err(e) => Err(e),
        },
    }
}

} // verus!
