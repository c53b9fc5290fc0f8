//! Host control commands: the small command language that orchestrates
//! workspace components during a live run (`open editor [path]`,
//! `open cli`, `list`, `focus <id>`, `next`, `prev`, `close <id>`, `quit`).

use vstd::prelude::*;
use crate::text::{
    chars_of,
    eq_str,
    is_whitespace,
    is_whitespace_char,
    join,
    lowercase_chars,
    push_str,
    starts_with_seq,
    string_of,
    sub_chars,
    trim,
    trimmed_all,
    unicode_lowercase,
};

verus! {

/// Identifier of a workspace component: a UUID value.
#[derive(Debug, Clone, Copy, PartialEq, Eq, Hash, Structural)]
pub struct ComponentId(u128);

impl View for ComponentId {
    type V = u128;

    closed spec fn view(&self) -> u128 {
        self.0
    }
}

impl ComponentId {
    /// The component identifier with a UUID value.
    pub fn from_uuid(value: u128) -> (r: Self)
        ensures
            r@ == value,
    {
        ComponentId(value)
    }

    /// The UUID value.
    pub fn as_uuid(&self) -> (r: u128)
        ensures
            r == self@,
    {
        self.0
    }
}

/// Errors of command parsing.
#[derive(Debug, Clone, PartialEq, Eq)]
pub enum HostCommandError {
    InvalidCommand(String),
    InvalidComponentId(String),
    MissingArgument(String),
    UnknownCommand(String),
}

/// A parse error as values.
pub enum HostErrorView {
    InvalidCommand(Seq<char>),
    InvalidComponentId(Seq<char>),
    MissingArgument(Seq<char>),
    UnknownCommand(Seq<char>),
}

impl View for HostCommandError {
    type V = HostErrorView;

    open spec fn view(&self) -> HostErrorView {
        match self {
            HostCommandError::InvalidCommand(s) => HostErrorView::InvalidCommand(s@),
            HostCommandError::InvalidComponentId(s) => HostErrorView::InvalidComponentId(s@),
            HostCommandError::MissingArgument(s) => HostErrorView::MissingArgument(s@),
            HostCommandError::UnknownCommand(s) => HostErrorView::UnknownCommand(s@),
        }
    }
}

impl HostCommandError {
    /// The error's message.
    pub fn to_string(&self) -> (r: String)
        ensures
            r@ == match self@ {
                HostErrorView::InvalidCommand(s) => "Invalid command: "@ + s,
                HostErrorView::InvalidComponentId(s) => "Invalid component ID: "@ + s,
                HostErrorView::MissingArgument(s) => "Missing argument: "@ + s,
                HostErrorView::UnknownCommand(s) => "Unknown command: "@ + s,
            },
    {
        let mut out = String::new();
        match self {
            HostCommandError::InvalidCommand(s) => {
                push_str(&mut out, "Invalid command: ");
                push_str(&mut out, s.as_str());
            },
            HostCommandError::InvalidComponentId(s) => {
                push_str(&mut out, "Invalid component ID: ");
                push_str(&mut out, s.as_str());
            },
            HostCommandError::MissingArgument(s) => {
                push_str(&mut out, "Missing argument: ");
                push_str(&mut out, s.as_str());
            },
            HostCommandError::UnknownCommand(s) => {
                push_str(&mut out, "Unknown command: ");
                push_str(&mut out, s.as_str());
            },
        }
        out
    }
}

/// Host commands.
#[derive(Debug, Clone, PartialEq, Eq)]
pub enum HostCommand {
    /// Open an editor, on a file when a path is given.
    OpenEditor { path: Option<String> },
    /// Open a CLI console.
    OpenCli,
    /// List all components.
    List,
    /// Focus a component.
    Focus { component_id: ComponentId },
    /// Switch to the next component.
    Next,
    /// Switch to the previous component.
    Previous,
    /// Close a component.
    Close { component_id: ComponentId },
    /// Quit the host.
    Quit,
}

/// A host command as values.
pub enum HostCommandView {
    OpenEditor(Option<Seq<char>>),
    OpenCli,
    List,
    Focus(u128),
    Next,
    Previous,
    Close(u128),
    Quit,
}

impl View for HostCommand {
    type V = HostCommandView;

    open spec fn view(&self) -> HostCommandView {
        match self {
            HostCommand::OpenEditor { path } => HostCommandView::OpenEditor(
                match path {
                    Some(p) => Some(p@),
                    None => None,
                },
            ),
            HostCommand::OpenCli => HostCommandView::OpenCli,
            HostCommand::List => HostCommandView::List,
            HostCommand::Focus { component_id } => HostCommandView::Focus(component_id@),
            HostCommand::Next => HostCommandView::Next,
            HostCommand::Previous => HostCommandView::Previous,
            HostCommand::Close { component_id } => HostCommandView::Close(component_id@),
            HostCommand::Quit => HostCommandView::Quit,
        }
    }
}

/// The whitespace-separated words of a text, in order.
pub open spec fn words(s: Seq<char>) -> Seq<Seq<char>>
    decreases s.len(),
{
    if s.len() == 0 {
        Seq::empty()
    } else {
        let w = words(s.drop_last());
        let c = s.last();
        if is_whitespace(c) {
            w
        } else if s.len() >= 2 && !is_whitespace(s[s.len() - 2]) {
            w.update(w.len() - 1, w.last().push(c))
        } else {
            w.push(seq![c])
        }
    }
}

/// What `uuid::Uuid::parse_str` gives for a text: the value of the UUID
/// it denotes, if it is one.
pub uninterp spec fn uuid_parse(s: Seq<char>) -> Option<u128>;

/// Calls `uuid::Uuid::parse_str` and hands back the UUID's value.
#[verifier::external_body]
fn parse_uuid(s: &str) -> (r: Option<u128>)
    ensures
        r == uuid_parse(s@),
{
    match uuid::Uuid::parse_str(s) {
        Ok(u) => Some(u.as_u128()),
        Err(_) => None,
    }
}

/// A component identifier's text without a leading `comp:`.
pub open spec fn without_comp_prefix(s: Seq<char>) -> Seq<char> {
    if starts_with_seq(s, "comp:"@) {
        s.skip(5)
    } else {
        s
    }
}

/// The component identifier a word gives, where the UUID parse of its text
/// (after `comp:`) gave `parsed`: that value, or the word as an invalid
/// identifier.
pub open spec fn component_id_result(word: Seq<char>, parsed: Option<u128>) -> Result<u128, HostErrorView> {
    match parsed {
        Some(v) => Ok(v),
        None => Err(HostErrorView::InvalidComponentId(trim(word))),
    }
}

/// The command that `parse` gives for a text.
pub open spec fn host_command(input: Seq<char>) -> Result<HostCommandView, HostErrorView> {
    let ws = words(input);
    if ws.len() == 0 {
        Err(HostErrorView::InvalidCommand("Empty command"@))
    } else {
        let cmd = unicode_lowercase(ws[0]);
        let args = ws.drop_first();
        if cmd == "open"@ {
            if args.len() == 0 {
                Err(HostErrorView::MissingArgument("component type (editor, cli)"@))
            } else {
                let kind = unicode_lowercase(args[0]);
                if kind == "editor"@ {
                    Ok(
                        HostCommandView::OpenEditor(
                            if args.len() > 1 {
                                Some(join(args.drop_first(), " "@))
                            } else {
                                None
                            },
                        ),
                    )
                } else if kind == "cli"@ || kind == "console"@ {
                    Ok(HostCommandView::OpenCli)
                } else {
                    Err(HostErrorView::InvalidCommand("Unknown component type: "@ + kind))
                }
            }
        } else if cmd == "list"@ {
            Ok(HostCommandView::List)
        } else if cmd == "focus"@ || cmd == "close"@ {
            if args.len() == 0 {
                Err(HostErrorView::MissingArgument("component ID"@))
            } else {
                match component_id_result(args[0], uuid_parse(without_comp_prefix(trim(args[0])))) {
                    Ok(v) => Ok(
                        if cmd == "focus"@ {
                            HostCommandView::Focus(v)
                        } else {
                            HostCommandView::Close(v)
                        },
                    ),
                    Err(e) => Err(e),
                }
            }
        } else if cmd == "next"@ {
            Ok(HostCommandView::Next)
        } else if cmd == "prev"@ || cmd == "previous"@ {
            Ok(HostCommandView::Previous)
        } else if cmd == "quit"@ || cmd == "exit"@ {
            Ok(HostCommandView::Quit)
        } else {
            Err(HostErrorView::UnknownCommand(cmd))
        }
    }
}

/// The whitespace-separated words of the characters.
pub fn split_words(s: &Vec<char>) -> (r: Vec<Vec<char>>)
    ensures
        r@.len() == words(s@).len(),
        forall|i: int| 0 <= i < r@.len() ==> #[trigger] r@[i]@ == words(s@)[i],
{
    let mut done: Vec<Vec<char>> = Vec::new();
    let mut cur: Vec<char> = Vec::new();
    let mut in_word = false;
    let mut i: usize = 0;
    while i < s.len()
        invariant
            i <= s@.len(),
            in_word == (i > 0 && !is_whitespace(s@[i - 1])),
            in_word ==> cur@.len() > 0,
            !in_word ==> cur@.len() == 0,
            words(s@.take(i as int)).len() == done@.len() + (if in_word {
                1int
            } else {
                0int
            }),
            forall|k: int| 0 <= k < done@.len() ==> #[trigger] done@[k]@ == words(s@.take(i as int))[k],
            in_word ==> words(s@.take(i as int)).last() == cur@,
        decreases s.len() - i,
    {
        let c = s[i];
        let ghost prev = words(s@.take(i as int));
        assert(s@.take(i + 1).drop_last() =~= s@.take(i as int));
        assert(s@.take(i + 1).last() == c);
        if i > 0 {
            assert(s@.take(i + 1)[i - 1] == s@[i - 1]);
        }
        if is_whitespace_char(c) {
            if in_word {
                done.push(cur);
                cur = Vec::new();
                in_word = false;
            }
        } else {
            cur.push(c);
            in_word = true;
        }
        i = i + 1;
    }
    if in_word {
        done.push(cur);
    }
    assert(s@.take(s@.len() as int) =~= s@);
    done
}

/// The component identifier given by a word whose UUID text parsed to
/// `parsed`: `comp:` is optional before the UUID.
pub fn component_id_from(word: &Vec<char>, parsed: Option<u128>) -> (r: Result<ComponentId, HostCommandError>)
    ensures
        match component_id_result(word@, parsed) {
            Ok(v) => r matches Ok(id) && id@ == v,
            Err(e) => r matches Err(err) && err@ == e,
        },
{
    match parsed {
        Some(v) => Ok(ComponentId(v)),
        None => {
            let t = trimmed_all(word);
            Err(HostCommandError::InvalidComponentId(string_of(&t)))
        },
    }
}

/// Parses a component identifier: a UUID, optionally after `comp:`.
fn parse_component_id(word: &Vec<char>) -> (r: Result<ComponentId, HostCommandError>)
    ensures
        match component_id_result(word@, uuid_parse(without_comp_prefix(trim(word@)))) {
            Ok(v) => r matches Ok(id) && id@ == v,
            Err(e) => r matches Err(err) && err@ == e,
        },
{
    let t = trimmed_all(word);
    let prefix = chars_of("comp:");
    proof {
        reveal_strlit("comp:");
    }
    let body = if crate::text::starts_with_chars(&t, &prefix) {
        sub_chars(&t, 5, t.len())
    } else {
        sub_chars(&t, 0, t.len())
    };
    proof {
        assert(t@.subrange(0, t@.len() as int) =~= t@);
        if starts_with_seq(t@, "comp:"@) {
            assert(t@.subrange(5, t@.len() as int) =~= t@.skip(5));
        }
    }
    let text = string_of(&body);
    let parsed = parse_uuid(text.as_str());
    component_id_from(word, parsed)
}

/// Joins words with single spaces.
pub(crate) fn join_words(ws: &Vec<Vec<char>>, from: usize) -> (r: String)
    requires
        from <= ws@.len(),
    ensures
        r@ == join(ws@.skip(from as int).map_values(|w: Vec<char>| w@), " "@),
{
    let mut out = String::new();
    let mut i = from;
    let ghost parts = ws@.skip(from as int).map_values(|w: Vec<char>| w@);
    assert(parts.take(0) =~= Seq::<Seq<char>>::empty());
    while i < ws.len()
        invariant
            from <= i <= ws@.len(),
            parts == ws@.skip(from as int).map_values(|w: Vec<char>| w@),
            out@ == Seq::<char>::empty() + join(parts.take(i - from), " "@),
        decreases ws.len() - i,
    {
        let piece = string_of(&ws[i]);
        crate::text::push_joined(&mut out, Ghost(Seq::empty()), Ghost(parts.take(i - from)), i - from, " ", piece.as_str());
        assert(parts.take(i - from).push(piece@) =~= parts.take(i + 1 - from));
        i = i + 1;
    }
    assert(parts.take(ws@.len() - from) =~= parts);
    assert(Seq::<char>::empty() + join(parts, " "@) =~= join(parts, " "@));
    out
}

/// The host command parser.
pub struct HostCommandParser;

impl HostCommandParser {
    /// Parses a command line: its first word names the command, in any
    /// case; words are separated by whitespace.
    pub fn parse(input: &str) -> (r: Result<HostCommand, HostCommandError>)
        ensures
            match host_command(input@) {
                Ok(c) => r matches Ok(cmd) && cmd@ == c,
                Err(e) => r matches Err(err) && err@ == e,
            },
    {
        let chars = chars_of(input);
        let ws = split_words(&chars);
        proof {
            assert(ws@.map_values(|w: Vec<char>| w@) =~= words(input@));
        }
        if ws.len() == 0 {
            return Err(HostCommandError::InvalidCommand(crate::text::owned("Empty command")));
        }
        let cmd = lowercase_chars(&ws[0]);
        if eq_str(&cmd, "open") {
            return Self::parse_open(&ws);
        }
        if eq_str(&cmd, "list") {
            return Ok(HostCommand::List);
        }
        if eq_str(&cmd, "focus") || eq_str(&cmd, "close") {
            if ws.len() < 2 {
                return Err(HostCommandError::MissingArgument(crate::text::owned("component ID")));
            }
            let id = parse_component_id(&ws[1]);
            return match id {
                Ok(component_id) => {
                    if eq_str(&cmd, "focus") {
                        Ok(HostCommand::Focus { component_id })
                    } else {
                        Ok(HostCommand::Close { component_id })
                    }
                },
                Err(e) => Err(e),
            };
        }
        if eq_str(&cmd, "next") {
            return Ok(HostCommand::Next);
        }
        if eq_str(&cmd, "prev") || eq_str(&cmd, "previous") {
            return Ok(HostCommand::Previous);
        }
        if eq_str(&cmd, "quit") || eq_str(&cmd, "exit") {
            return Ok(HostCommand::Quit);
        }
        Err(HostCommandError::UnknownCommand(string_of(&cmd)))
    }

    /// Parses the arguments of `open`.
    fn parse_open(ws: &Vec<Vec<char>>) -> (r: Result<HostCommand, HostCommandError>)
        requires
            ws@.len() >= 1,
        ensures
            ({
                let args = ws@.map_values(|w: Vec<char>| w@).drop_first();
                if args.len() == 0 {
                    r matches Err(err) && err@ == HostErrorView::MissingArgument("component type (editor, cli)"@)
                } else {
                    let kind = unicode_lowercase(args[0]);
                    if kind == "editor"@ {
                        r matches Ok(cmd) && cmd@ == HostCommandView::OpenEditor(
                            if args.len() > 1 {
                                Some(join(args.drop_first(), " "@))
                            } else {
                                None
                            },
                        )
                    } else if kind == "cli"@ || kind == "console"@ {
                        r matches Ok(cmd) && cmd@ == HostCommandView::OpenCli
                    } else {
                        r matches Err(err) && err@ == HostErrorView::InvalidCommand(
                            "Unknown component type: "@ + kind,
                        )
                    }
                }
            }),
    {
        let ghost args = ws@.map_values(|w: Vec<char>| w@).drop_first();
        if ws.len() < 2 {
            return Err(
                HostCommandError::MissingArgument(crate::text::owned("component type (editor, cli)")),
            );
        }
        assert(args[0] == ws@[1]@);
        let kind = lowercase_chars(&ws[1]);
        if eq_str(&kind, "editor") {
            if ws.len() > 2 {
                let path = join_words(ws, 2);
                assert(ws@.skip(2).map_values(|w: Vec<char>| w@) =~= args.drop_first());
                return Ok(HostCommand::OpenEditor { path: Some(path) });
            }
            return Ok(HostCommand::OpenEditor { path: None });
        }
        if eq_str(&kind, "cli") || eq_str(&kind, "console") {
            return Ok(HostCommand::OpenCli);
        }
        let mut msg = String::new();
        push_str(&mut msg, "Unknown component type: ");
        let k = string_of(&kind);
        push_str(&mut msg, k.as_str());
        Err(HostCommandError::InvalidCommand(msg))
    }
}

} // verus!
