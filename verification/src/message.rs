//! The inter-domain message-file format and its parser.
//!
//! A message file is UTF-8 text of the shape
//! `<prefix> --- <header> --- <body>`: the header sits between the
//! first two `---` markers and is a flat key/value document, one
//! `key: value` pair per line, with keys `from`, `to`, `type` required
//! and `task`, `priority`, `artifacts` optional; `artifacts` is a
//! bracketed, comma-separated list of names. The body is free-form
//! text and is not structurally parsed.

use vstd::prelude::*;
use vstd::string::*;

use crate::errors::RouteError;
use crate::strutil::{
    find_char, find_char_from, find_marker, find_marker_from, spec_trim, str_eq, trim,
};
use crate::types::DomainId;

verus! {

/// A parsed inter-agent message.
pub struct Message {
    pub from: DomainId,
    pub to: DomainId,
    pub msg_type: String,
    pub task: String,
    pub priority: String,
    pub artifacts: Vec<String>,
    /// The free-form text after the header, trimmed.
    pub body: String,
}

/// Spec-level value of a parsed message.
pub struct MessageV {
    pub from: Seq<char>,
    pub to: Seq<char>,
    pub msg_type: Seq<char>,
    pub task: Seq<char>,
    pub priority: Seq<char>,
    pub artifacts: Seq<Seq<char>>,
    pub body: Seq<char>,
}

impl View for Message {
    type V = MessageV;

    open spec fn view(&self) -> MessageV {
        MessageV {
            from: self.from@,
            to: self.to@,
            msg_type: self.msg_type@,
            task: self.task@,
            priority: self.priority@,
            artifacts: self.artifacts.deep_view(),
            body: self.body@,
        }
    }
}

/// Header fields gathered line by line; `None` means not yet seen.
struct HeaderFields {
    from: Option<String>,
    to: Option<String>,
    msg_type: Option<String>,
    task: Option<String>,
    priority: Option<String>,
    artifacts: Option<Vec<String>>,
}

/// Spec-level value of the gathered header fields.
pub struct HeaderFieldsV {
    pub from: Option<Seq<char>>,
    pub to: Option<Seq<char>>,
    pub msg_type: Option<Seq<char>>,
    pub task: Option<Seq<char>>,
    pub priority: Option<Seq<char>>,
    pub artifacts: Option<Seq<Seq<char>>>,
}

impl View for HeaderFields {
    type V = HeaderFieldsV;

    closed spec fn view(&self) -> HeaderFieldsV {
        HeaderFieldsV {
            from: match self.from {
                None => None,
                Some(x) => Some(x@),
            },
            to: match self.to {
                None => None,
                Some(x) => Some(x@),
            },
            msg_type: match self.msg_type {
                None => None,
                Some(x) => Some(x@),
            },
            task: match self.task {
                None => None,
                Some(x) => Some(x@),
            },
            priority: match self.priority {
                None => None,
                Some(x) => Some(x@),
            },
            artifacts: match self.artifacts {
                None => None,
                Some(v) => Some(v.deep_view()),
            },
        }
    }
}

/// The header state before any line has been read.
pub open spec fn spec_empty_header() -> HeaderFieldsV {
    HeaderFieldsV {
        from: None,
        to: None,
        msg_type: None,
        task: None,
        priority: None,
        artifacts: None,
    }
}

/// Split the file at its first two `---` markers: the raw header text
/// between them and the raw body after the second.
pub open spec fn spec_split_message(s: Seq<char>) -> Option<(Seq<char>, Seq<char>)> {
    match find_marker_from(s, 0) {
        None => None,
        Some(i1) => match find_marker_from(s, i1 + 3) {
            None => None,
            Some(i2) => Some((s.subrange(i1 + 3, i2), s.subrange(i2 + 3, s.len() as int))),
        },
    }
}

/// A bracketed, comma-separated, non-empty list of non-empty items.
pub open spec fn spec_parse_items(s: Seq<char>) -> Option<Seq<Seq<char>>>
    decreases s.len(),
    via spec_parse_items_dec
{
    match find_char_from(s, ',', 0) {
        None => {
            let it = spec_trim(s);
            if it.len() == 0 {
                None
            } else {
                Some(seq![it])
            }
        },
        Some(i) => {
            let it = spec_trim(s.subrange(0, i));
            if it.len() == 0 {
                None
            } else {
                match spec_parse_items(s.subrange(i + 1, s.len() as int)) {
                    None => None,
                    Some(rest) => Some(seq![it] + rest),
                }
            }
        },
    }
}

#[via_fn]
proof fn spec_parse_items_dec(s: Seq<char>) {
    crate::strutil::lemma_find_char_from_bounds(s, ',', 0);
}

/// The value of an `artifacts` key: `[]` is the empty list, otherwise
/// the bracketed items, each trimmed.
pub open spec fn spec_parse_list(val: Seq<char>) -> Option<Seq<Seq<char>>> {
    if val.len() < 2 || val[0] != '[' || val.last() != ']' {
        None
    } else {
        let inner = val.subrange(1, val.len() - 1);
        if spec_trim(inner).len() == 0 {
            Some(Seq::empty())
        } else {
            spec_parse_items(inner)
        }
    }
}

/// One header line applied to the gathered fields: blank lines are
/// skipped, a line without `:` is malformed, a known key stores its
/// trimmed value (later occurrences superseding earlier ones), and an
/// unknown key is ignored.
pub open spec fn spec_parse_line(line: Seq<char>, acc: HeaderFieldsV) -> Option<HeaderFieldsV> {
    let t = spec_trim(line);
    if t.len() == 0 {
        Some(acc)
    } else {
        match find_char_from(t, ':', 0) {
            None => None,
            Some(i) => {
                let key = spec_trim(t.subrange(0, i));
                let val = spec_trim(t.subrange(i + 1, t.len() as int));
                if key == "from"@ {
                    Some(HeaderFieldsV { from: Some(val), ..acc })
                } else if key == "to"@ {
                    Some(HeaderFieldsV { to: Some(val), ..acc })
                } else if key == "type"@ {
                    Some(HeaderFieldsV { msg_type: Some(val), ..acc })
                } else if key == "task"@ {
                    Some(HeaderFieldsV { task: Some(val), ..acc })
                } else if key == "priority"@ {
                    Some(HeaderFieldsV { priority: Some(val), ..acc })
                } else if key == "artifacts"@ {
                    match spec_parse_list(val) {
                        None => None,
                        Some(items) => Some(HeaderFieldsV { artifacts: Some(items), ..acc }),
                    }
                } else {
                    Some(acc)
                }
            },
        }
    }
}

/// The header text applied line by line to the gathered fields.
pub open spec fn spec_parse_header(s: Seq<char>, acc: HeaderFieldsV) -> Option<HeaderFieldsV>
    decreases s.len(),
    via spec_parse_header_dec
{
    if s.len() == 0 {
        Some(acc)
    } else {
        match find_char_from(s, '\n', 0) {
            Some(i) => match spec_parse_line(s.subrange(0, i), acc) {
                None => None,
                Some(a2) => spec_parse_header(s.subrange(i + 1, s.len() as int), a2),
            },
            None => spec_parse_line(s, acc),
        }
    }
}

#[via_fn]
proof fn spec_parse_header_dec(s: Seq<char>, acc: HeaderFieldsV) {
    crate::strutil::lemma_find_char_from_bounds(s, '\n', 0);
}

/// The whole message a file's text parses to, if any: header between
/// the first two `---` markers, the required keys `from`, `to`, `type`
/// present, optional keys defaulted, and the body trimmed.
pub open spec fn spec_parse_message(s: Seq<char>) -> Option<MessageV> {
    match spec_split_message(s) {
        None => None,
        Some((fm, body_raw)) => match spec_parse_header(fm, spec_empty_header()) {
            None => None,
            Some(h) => match (h.from, h.to, h.msg_type) {
                (Some(f), Some(t), Some(ty)) => Some(
                    MessageV {
                        from: f,
                        to: t,
                        msg_type: ty,
                        task: match h.task {
                            Some(x) => x,
                            None => Seq::empty(),
                        },
                        priority: match h.priority {
                            Some(x) => x,
                            None => Seq::empty(),
                        },
                        artifacts: match h.artifacts {
                            Some(x) => x,
                            None => Seq::empty(),
                        },
                        body: spec_trim(body_raw),
                    },
                ),
                _ => None,
            },
        },
    }
}

spec fn opt_header_view(r: Option<HeaderFields>) -> Option<HeaderFieldsV> {
    match r {
        None => None,
        Some(h) => Some(h@),
    }
}

spec fn opt_items_view(r: Option<Vec<String>>) -> Option<Seq<Seq<char>>> {
    match r {
        None => None,
        Some(v) => Some(v.deep_view()),
    }
}

fn split_message(s: &str) -> (r: Option<(String, String)>)
    ensures
        match r {
            Some(p) => spec_split_message(s@) == Some((p.0@, p.1@)),
            None => spec_split_message(s@) is None,
        },
{
    let n = s.unicode_len();
    match find_marker(s, 0) {
        None => None,
        Some(i1) => match find_marker(s, i1 + 3) {
            None => None,
            Some(i2) => {
                let fm = s.substring_char(i1 + 3, i2);
                let body = s.substring_char(i2 + 3, n);
                Some((fm.to_owned(), body.to_owned()))
            },
        },
    }
}

fn parse_items(s: &str) -> (r: Option<Vec<String>>)
    ensures
        opt_items_view(r) == spec_parse_items(s@),
    decreases s@.len(),
{
    match find_char(s, ',', 0) {
        None => {
            let it = trim(s);
            if it.unicode_len() == 0 {
                None
            } else {
                let mut v: Vec<String> = Vec::new();
                v.push(it.to_owned());
                proof {
                    assert(v.deep_view() =~= seq![spec_trim(s@)]);
                }
                Some(v)
            }
        },
        Some(i) => {
            let head = trim(s.substring_char(0, i));
            if head.unicode_len() == 0 {
                None
            } else {
                let n = s.unicode_len();
                match parse_items(s.substring_char(i + 1, n)) {
                    None => None,
                    Some(rest) => {
                        let ghost rest0 = rest.deep_view();
                        let mut out = rest;
                        out.insert(0, head.to_owned());
                        proof {
                            assert(out.deep_view() =~= seq![head@] + rest0);
                        }
                        Some(out)
                    },
                }
            }
        },
    }
}

fn parse_list(val: &str) -> (r: Option<Vec<String>>)
    ensures
        opt_items_view(r) == spec_parse_list(val@),
{
    let n = val.unicode_len();
    if n < 2 {
        return None;
    }
    if val.get_char(0) != '[' || val.get_char(n - 1) != ']' {
        return None;
    }
    let inner = val.substring_char(1, n - 1);
    let it = trim(inner);
    if it.unicode_len() == 0 {
        let v: Vec<String> = Vec::new();
        proof {
            assert(v.deep_view() =~= Seq::<Seq<char>>::empty());
        }
        Some(v)
    } else {
        parse_items(inner)
    }
}

fn parse_line(line: &str, acc: HeaderFields) -> (r: Option<HeaderFields>)
    ensures
        opt_header_view(r) == spec_parse_line(line@, acc@),
{
    let t = trim(line);
    let tn = t.unicode_len();
    if tn == 0 {
        return Some(acc);
    }
    match find_char(t, ':', 0) {
        None => None,
        Some(i) => {
            let key = trim(t.substring_char(0, i));
            let val = trim(t.substring_char(i + 1, tn));
            if str_eq(key, "from") {
                Some(HeaderFields { from: Some(val.to_owned()), ..acc })
            } else if str_eq(key, "to") {
                Some(HeaderFields { to: Some(val.to_owned()), ..acc })
            } else if str_eq(key, "type") {
                Some(HeaderFields { msg_type: Some(val.to_owned()), ..acc })
            } else if str_eq(key, "task") {
                Some(HeaderFields { task: Some(val.to_owned()), ..acc })
            } else if str_eq(key, "priority") {
                Some(HeaderFields { priority: Some(val.to_owned()), ..acc })
            } else if str_eq(key, "artifacts") {
                match parse_list(val) {
                    None => None,
                    Some(items) => Some(HeaderFields { artifacts: Some(items), ..acc }),
                }
            } else {
                Some(acc)
            }
        },
    }
}

fn parse_header(s: &str, acc: HeaderFields) -> (r: Option<HeaderFields>)
    ensures
        opt_header_view(r) == spec_parse_header(s@, acc@),
    decreases s@.len(),
{
    let n = s.unicode_len();
    if n == 0 {
        Some(acc)
    } else {
        match find_char(s, '\n', 0) {
            Some(i) => {
                let line = s.substring_char(0, i);
                let rest = s.substring_char(i + 1, n);
                match parse_line(line, acc) {
                    None => None,
                    Some(a2) => parse_header(rest, a2),
                }
            },
            None => parse_line(s, acc),
        }
    }
}

impl Message {
    /// Parse a message file's text.
    ///
    /// Returns `MalformedMessage` exactly when the text has no two
    /// `---` markers, a header line is not a `key: value` pair, an
    /// `artifacts` value is not a well-formed list, or a required
    /// field is missing.
    pub fn parse(content: &str) -> (r: Result<Message, RouteError>)
        ensures
            match r {
                Ok(m) => spec_parse_message(content@) == Some(m@),
                Err(e) => e is MalformedMessage && spec_parse_message(content@) is None,
            },
    {
        let split = split_message(content);
        match split {
            None => Err(RouteError::MalformedMessage),
            Some((fm, body_raw)) => {
                let acc0 = HeaderFields {
                    from: None,
                    to: None,
                    msg_type: None,
                    task: None,
                    priority: None,
                    artifacts: None,
                };
                match parse_header(fm.as_str(), acc0) {
                    None => Err(RouteError::MalformedMessage),
                    Some(h) => match (h.from, h.to, h.msg_type) {
                        (Some(f), Some(t), Some(ty)) => {
                            let task = match h.task {
                                Some(x) => x,
                                None => String::new(),
                            };
                            let priority = match h.priority {
                                Some(x) => x,
                                None => String::new(),
                            };
                            let artifacts = match h.artifacts {
                                Some(x) => x,
                                None => Vec::new(),
                            };
                            proof {
                                assert(artifacts.deep_view() =~= match h@.artifacts {
                                    Some(x) => x,
                                    None => Seq::<Seq<char>>::empty(),
                                });
                            }
                            let body = trim(body_raw.as_str()).to_owned();
                            Ok(
                                Message {
                                    from: DomainId(f),
                                    to: DomainId(t),
                                    msg_type: ty,
                                    task,
                                    priority,
                                    artifacts,
                                    body,
                                },
                            )
                        },
                        _ => Err(RouteError::MalformedMessage),
                    },
                }
            },
        }
    }
}

} // verus!
