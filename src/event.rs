//! Classification of logical lines and the partial events they carry.
use vstd::prelude::*;
use crate::message::Message;

verus! {

/// A partial function call as streamed: either part may be absent.
#[derive(Debug)]
pub struct StreamingFunctionCall {
    pub name: Option<String>,
    pub arguments: Option<String>,
}

/// The incremental part of a streamed choice.
#[derive(Debug)]
pub struct Delta {
    pub content: Option<String>,
    pub role: Option<String>,
    pub function_call: Option<StreamingFunctionCall>,
}

#[derive(Debug)]
pub struct Choice {
    pub message: Option<Message>,
    pub delta: Option<Delta>,
    pub finish_reason: Option<String>,
    pub index: u64,
}

/// One decoded server envelope.
#[derive(Debug)]
pub struct OpenAiResponse {
    pub id: String,
    pub object: String,
    pub created: u64,
    pub model: String,
    pub choices: Vec<Choice>,
}

/// A partial reply: each present field is a fragment to fold in.
#[derive(Debug)]
pub struct ServerEvent {
    pub role: Option<String>,
    pub content: Option<String>,
    pub function_name: Option<String>,
    pub function_arguments: Option<String>,
    pub finish_reason: Option<String>,
}

pub struct ServerEventView {
    pub role: Option<Seq<char>>,
    pub content: Option<Seq<char>>,
    pub function_name: Option<Seq<char>>,
    pub function_arguments: Option<Seq<char>>,
    pub finish_reason: Option<Seq<char>>,
}

pub open spec fn opt_view(o: Option<String>) -> Option<Seq<char>> {
    match o {
        Some(s) => Some(s@),
        None => None,
    }
}

impl View for ServerEvent {
    type V = ServerEventView;

    open spec fn view(&self) -> ServerEventView {
        ServerEventView {
            role: opt_view(self.role),
            content: opt_view(self.content),
            function_name: opt_view(self.function_name),
            function_arguments: opt_view(self.function_arguments),
            finish_reason: opt_view(self.finish_reason),
        }
    }
}

/// The event that a decoded envelope stands for: the delta of its first
/// choice (nothing when there is no choice or the choice has no delta).
pub open spec fn event_of_response(resp: OpenAiResponse) -> ServerEventView {
    if resp.choices@.len() == 0 {
        ServerEventView {
            role: None,
            content: None,
            function_name: None,
            function_arguments: None,
            finish_reason: None,
        }
    } else {
        let c = resp.choices@[0];
        let finish_reason = opt_view(c.finish_reason);
        match c.delta {
            None => ServerEventView {
                role: None,
                content: None,
                function_name: None,
                function_arguments: None,
                finish_reason,
            },
            Some(d) => ServerEventView {
                role: opt_view(d.role),
                content: opt_view(d.content),
                function_name: match d.function_call {
                    Some(f) => opt_view(f.name),
                    None => None,
                },
                function_arguments: match d.function_call {
                    Some(f) => opt_view(f.arguments),
                    None => None,
                },
                finish_reason,
            },
        }
    }
}

fn clone_opt(o: &Option<String>) -> (r: Option<String>)
    ensures
        opt_view(r) == opt_view(*o),
{
    match o {
        Some(s) => Some(s.clone()),
        None => None,
    }
}

impl ServerEvent {
    /// The event carried by a decoded envelope (see `event_of_response`).
    pub fn from_response(resp: &OpenAiResponse) -> (r: ServerEvent)
        ensures
            r@ == event_of_response(*resp),
    {
        if resp.choices.len() == 0 {
            return ServerEvent {
                role: None,
                content: None,
                function_name: None,
                function_arguments: None,
                finish_reason: None,
            };
        }
        let c = &resp.choices[0];
        let finish_reason = clone_opt(&c.finish_reason);
        match &c.delta {
            None => ServerEvent {
                role: None,
                content: None,
                function_name: None,
                function_arguments: None,
                finish_reason,
            },
            Some(d) => {
                let (function_name, function_arguments) = match &d.function_call {
                    Some(f) => (clone_opt(&f.name), clone_opt(&f.arguments)),
                    None => (None, None),
                };
                ServerEvent {
                    role: clone_opt(&d.role),
                    content: clone_opt(&d.content),
                    function_name,
                    function_arguments,
                    finish_reason,
                }
            },
        }
    }
}

/// The bytes `data: ` that may open a line.
pub open spec fn data_prefix() -> Seq<u8> {
    seq![100u8, 97, 116, 97, 58, 32]
}

/// The bytes `[DONE]` of the terminal marker.
pub open spec fn done_marker() -> Seq<u8> {
    seq![91u8, 68, 79, 78, 69, 93]
}

/// The line with a leading `data: ` removed, if it has one.
pub open spec fn strip_data_prefix(line: Seq<u8>) -> Seq<u8> {
    if line.len() >= 6 && line.subrange(0, 6) == data_prefix() {
        line.subrange(6, line.len() as int)
    } else {
        line
    }
}

pub enum LineClass {
    Skip,
    Sentinel,
    Payload(Seq<u8>),
}

/// An empty line is skipped; a line that is the terminal marker once an
/// optional `data: ` is stripped ends the stream; any other line carries
/// that stripped text for decoding.
pub open spec fn classify(line: Seq<u8>) -> LineClass {
    if line.len() == 0 {
        LineClass::Skip
    } else if strip_data_prefix(line) == done_marker() {
        LineClass::Sentinel
    } else {
        LineClass::Payload(strip_data_prefix(line))
    }
}

/// What one logical line is, before any decoding.
#[derive(Debug)]
pub enum LineKind {
    Skip,
    Sentinel,
    /// The text to decode as a server envelope.
    Payload(Vec<u8>),
}

impl View for LineKind {
    type V = LineClass;

    open spec fn view(&self) -> LineClass {
        match self {
            LineKind::Skip => LineClass::Skip,
            LineKind::Sentinel => LineClass::Sentinel,
            LineKind::Payload(p) => LineClass::Payload(p@),
        }
    }
}

fn has_data_prefix(line: &[u8]) -> (r: bool)
    ensures
        r == (line@.len() >= 6 && line@.subrange(0, 6) == data_prefix()),
{
    if line.len() < 6 {
        return false;
    }
    let r = line[0] == 100 && line[1] == 97 && line[2] == 116 && line[3] == 97 && line[4]
        == 58 && line[5] == 32;
    proof {
        if r {
            assert(line@.subrange(0, 6) =~= data_prefix());
        } else {
            let sub = line@.subrange(0, 6);
            assert(sub[0] == line@[0] && sub[1] == line@[1] && sub[2] == line@[2] && sub[3]
                == line@[3] && sub[4] == line@[4] && sub[5] == line@[5]);
        }
    }
    r
}

fn is_done_marker(body: &Vec<u8>) -> (r: bool)
    ensures
        r == (body@ == done_marker()),
{
    if body.len() != 6 {
        return false;
    }
    let r = body[0] == 91 && body[1] == 68 && body[2] == 79 && body[3] == 78 && body[4]
        == 69 && body[5] == 93;
    proof {
        if r {
            assert(body@ =~= done_marker());
        } else {
            assert(exists|i: int| 0 <= i < 6 && body@[i] != done_marker()[i]);
        }
    }
    r
}

/// Classifies one logical line (see `classify`).
pub fn parse_line(line: &[u8]) -> (r: LineKind)
    ensures
        r@ == classify(line@),
{
    if line.len() == 0 {
        return LineKind::Skip;
    }
    let start: usize = if has_data_prefix(line) {
        6
    } else {
        0
    };
    let mut body: Vec<u8> = Vec::new();
    let mut j: usize = start;
    while j < line.len()
        invariant
            start <= j <= line@.len(),
            body@ == line@.subrange(start as int, j as int),
        decreases line@.len() - j,
    {
        body.push(line[j]);
        proof {
            assert(body@ =~= line@.subrange(start as int, j as int + 1));
        }
        j = j + 1;
    }
    proof {
        if start == 0 {
            assert(body@ =~= line@);
        }
    }
    if is_done_marker(&body) {
        LineKind::Sentinel
    } else {
        LineKind::Payload(body)
    }
}

/// A logical line once its payload, if any, has been decoded.
#[derive(Debug)]
pub enum ParsedLine {
    Skip,
    Sentinel,
    Event(ServerEvent),
}

pub enum ParsedLineView {
    Skip,
    Sentinel,
    Event(ServerEventView),
}

impl View for ParsedLine {
    type V = ParsedLineView;

    open spec fn view(&self) -> ParsedLineView {
        match self {
            ParsedLine::Skip => ParsedLineView::Skip,
            ParsedLine::Sentinel => ParsedLineView::Sentinel,
            ParsedLine::Event(e) => ParsedLineView::Event(e@),
        }
    }
}

impl ParsedLine {
    /// The outcome for a payload line: its event when the payload decoded,
    /// a skipped line when it did not.
    pub fn from_decoded(decoded: Option<&OpenAiResponse>) -> (r: ParsedLine)
        ensures
            match decoded {
                Some(resp) => r@ == ParsedLineView::Event(event_of_response(*resp)),
                None => r@ == ParsedLineView::Skip,
            },
    {
        match decoded {
            Some(resp) => ParsedLine::Event(ServerEvent::from_response(resp)),
            None => ParsedLine::Skip,
        }
    }
}

} // verus!
