//! Completed chat messages and the function calls they may carry.
use vstd::prelude::*;

verus! {

/// A name for what serde_json makes of `text` when asked for a JSON object
/// whose values are all strings: its entries in ascending key order, or
/// nothing when the text is not such an object.
pub uninterp spec fn string_map_of(text: Seq<char>) -> Option<Seq<(Seq<char>, Seq<char>)>>;

#[verifier::external_type_specification]
#[verifier::external_body]
pub struct ExJsonError(serde_json::Error);

/// Relies on `serde_json::from_str` decoding into a
/// `BTreeMap<String, String>`, whose entries are then handed out in the
/// map's (ascending key) order. The outcome depends on the text alone.
#[verifier::external_body]
fn decode_string_map(text: &str) -> (r: Result<Vec<(String, String)>, serde_json::Error>)
    ensures
        match r {
            Ok(v) => string_map_of(text@) == Some(pairs_view(v@)),
            Err(_) => string_map_of(text@) is None,
        },
{
    serde_json::from_str::<std::collections::BTreeMap<String, String>>(text).map(
        |m| m.into_iter().collect(),
    )
}

pub open spec fn pairs_view(v: Seq<(String, String)>) -> Seq<(Seq<char>, Seq<char>)> {
    v.map_values(|p: (String, String)| (p.0@, p.1@))
}

/// Why a named argument could not be extracted from a function call.
#[derive(Debug, Clone, Copy, PartialEq, Eq, Structural)]
pub enum ArgumentError {
    /// The accumulated argument text is not a JSON object of strings.
    Unparsable,
    /// The arguments parsed, but hold no entry under the requested key.
    Missing,
}

/// A function call carried by an assistant reply.
#[derive(Debug, Clone)]
pub struct FunctionCall {
    pub name: String,
    /// The argument mapping in iteration order; `None` when `raw_arguments`
    /// did not parse as a JSON object of strings.
    pub arguments: Option<Vec<(String, String)>>,
    /// The argument text exactly as it was streamed.
    pub raw_arguments: String,
}

pub struct FunctionCallView {
    pub name: Seq<char>,
    pub arguments: Option<Seq<(Seq<char>, Seq<char>)>>,
    pub raw_arguments: Seq<char>,
}

impl View for FunctionCall {
    type V = FunctionCallView;

    open spec fn view(&self) -> FunctionCallView {
        FunctionCallView {
            name: self.name@,
            arguments: match self.arguments {
                Some(v) => Some(pairs_view(v@)),
                None => None,
            },
            raw_arguments: self.raw_arguments@,
        }
    }
}

/// The value of the first entry under `key`.
pub open spec fn lookup(args: Seq<(Seq<char>, Seq<char>)>, key: Seq<char>) -> Option<Seq<char>>
    decreases args.len(),
{
    if args.len() == 0 {
        None
    } else if args[0].0 == key {
        Some(args[0].1)
    } else {
        lookup(args.drop_first(), key)
    }
}

/// `key:value`
pub open spec fn argument_text(arg: (Seq<char>, Seq<char>)) -> Seq<char> {
    arg.0 + seq![':'] + arg.1
}

/// The entries as `key:value`, separated by `", "`.
pub open spec fn arguments_text(args: Seq<(Seq<char>, Seq<char>)>) -> Seq<char>
    decreases args.len(),
{
    if args.len() == 0 {
        Seq::empty()
    } else if args.len() == 1 {
        argument_text(args[0])
    } else {
        arguments_text(args.drop_last()) + seq![',', ' '] + argument_text(args.last())
    }
}

/// `name(key:value, ...)`, or `name(raw text)` when the arguments did not parse.
pub open spec fn call_text(c: FunctionCallView) -> Seq<char> {
    c.name + seq!['('] + match c.arguments {
        Some(args) => arguments_text(args),
        None => c.raw_arguments,
    } + seq![')']
}

/// The function call that finalizing a stream yields from its accumulated
/// name and argument text, given what the argument text parsed to.
pub open spec fn call_of(
    name: Seq<char>,
    raw: Seq<char>,
    parsed: Option<Seq<(Seq<char>, Seq<char>)>>,
) -> Option<FunctionCallView> {
    if name.len() == 0 {
        None
    } else {
        Some(FunctionCallView { name, arguments: parsed, raw_arguments: raw })
    }
}

impl FunctionCall {
    /// Builds a call from its name and raw argument text, parsing the text as
    /// a JSON object of strings.
    pub fn parse(name: String, raw_arguments: String) -> (r: FunctionCall)
        ensures
            r@ == (FunctionCallView {
                name: name@,
                arguments: string_map_of(raw_arguments@),
                raw_arguments: raw_arguments@,
            }),
    {
        let arguments = match decode_string_map(raw_arguments.as_str()) {
            Ok(v) => Some(v),
            Err(_) => None,
        };
        FunctionCall { name, arguments, raw_arguments }
    }

    /// The value of the argument named `key`; fails when the argument text
    /// did not parse or holds no such entry.
    pub fn get_argument(&self, key: &str) -> (r: Result<String, ArgumentError>)
        ensures
            match self@.arguments {
                None => r == Err::<String, ArgumentError>(ArgumentError::Unparsable),
                Some(args) => match lookup(args, key@) {
                    None => r == Err::<String, ArgumentError>(ArgumentError::Missing),
                    Some(v) => r matches Ok(s) && s@ == v,
                },
            },
    {
        match &self.arguments {
            None => Err(ArgumentError::Unparsable),
            Some(args) => {
                let wanted = String::from_str(key);
                let mut i: usize = 0;
                proof {
                    assert(pairs_view(args@).subrange(0, args@.len() as int) =~= pairs_view(args@));
                }
                while i < args.len()
                    invariant
                        i <= args@.len(),
                        wanted@ == key@,
                        self.arguments == Some(*args),
                        lookup(pairs_view(args@), key@) == lookup(
                            pairs_view(args@).subrange(i as int, args@.len() as int),
                            key@,
                        ),
                    decreases args@.len() - i,
                {
                    let ghost rest = pairs_view(args@).subrange(i as int, args@.len() as int);
                    proof {
                        assert(rest.drop_first() =~= pairs_view(args@).subrange(
                            i as int + 1,
                            args@.len() as int,
                        ));
                    }
                    if args[i].0 == wanted {
                        return Ok(args[i].1.clone());
                    }
                    i = i + 1;
                }
                Err(ArgumentError::Missing)
            },
        }
    }

    /// `name(key:value, ...)`, or the raw argument text between the
    /// parentheses when it did not parse.
    pub fn render(&self) -> (r: String)
        ensures
            r@ == call_text(self@),
    {
        let mut out = self.name.clone();
        out.append("(");
        match &self.arguments {
            Some(args) => {
                let text = render_arguments(args);
                out.append(text.as_str());
            },
            None => {
                out.append(self.raw_arguments.as_str());
            },
        }
        out.append(")");
        proof {
            reveal_strlit("(");
            reveal_strlit(")");
        }
        out
    }
}

fn render_arguments(args: &Vec<(String, String)>) -> (r: String)
    ensures
        r@ == arguments_text(pairs_view(args@)),
{
    let mut out = String::new();
    let mut i: usize = 0;
    proof {
        assert(pairs_view(args@).subrange(0, 0) =~= Seq::<(Seq<char>, Seq<char>)>::empty());
    }
    while i < args.len()
        invariant
            i <= args@.len(),
            out@ == arguments_text(pairs_view(args@).subrange(0, i as int)),
        decreases args@.len() - i,
    {
        let ghost done = pairs_view(args@).subrange(0, i as int + 1);
        proof {
            reveal_strlit(":");
            reveal_strlit(", ");
            assert(done.drop_last() =~= pairs_view(args@).subrange(0, i as int));
            assert(done.last() == (args@[i as int].0@, args@[i as int].1@));
        }
        if i > 0 {
            out.append(", ");
        }
        out.append(args[i].0.as_str());
        out.append(":");
        out.append(args[i].1.as_str());
        proof {
            if i == 0 {
                assert(out@ =~= argument_text(done[0]));
            } else {
                assert(out@ =~= arguments_text(done.drop_last()) + seq![',', ' '] + argument_text(
                    done.last(),
                ));
            }
        }
        i = i + 1;
    }
    proof {
        assert(pairs_view(args@).subrange(0, args@.len() as int) =~= pairs_view(args@));
    }
    out
}

/// One entry of a conversation.
#[derive(Debug, Clone)]
pub struct Message {
    pub content: String,
    pub role: String,
    pub function_call: Option<FunctionCall>,
}

pub struct MessageView {
    pub role: Seq<char>,
    pub content: Seq<char>,
    pub function_call: Option<FunctionCallView>,
}

impl View for Message {
    type V = MessageView;

    open spec fn view(&self) -> MessageView {
        MessageView {
            role: self.role@,
            content: self.content@,
            function_call: match self.function_call {
                Some(c) => Some(c@),
                None => None,
            },
        }
    }
}

pub open spec fn is_system_role(role: Seq<char>) -> bool {
    role == "system"@
}

/// A plain message without a function call.
pub open spec fn plain_message(role: Seq<char>, content: Seq<char>) -> MessageView {
    MessageView { role, content, function_call: None }
}

/// `role:content`, then the function call if there is one, then a line break.
pub open spec fn message_text(m: MessageView) -> Seq<char> {
    m.role + seq![':'] + m.content + match m.function_call {
        Some(c) => call_text(c),
        None => Seq::empty(),
    } + seq!['\n']
}

impl Message {
    pub fn new(role: &str, content: &str) -> (r: Message)
        ensures
            r@ == plain_message(role@, content@),
    {
        Message { content: String::from_str(content), role: String::from_str(role), function_call: None }
    }

    pub fn is_system(&self) -> (r: bool)
        ensures
            r == is_system_role(self.role@),
    {
        self.role == String::from_str("system")
    }

    /// The message as one line of text (see `message_text`).
    pub fn render(&self) -> (r: String)
        ensures
            r@ == message_text(self@),
    {
        let mut out = self.role.clone();
        out.append(":");
        out.append(self.content.as_str());
        match &self.function_call {
            Some(c) => {
                let call = c.render();
                out.append(call.as_str());
            },
            None => {},
        }
        out.append("\n");
        proof {
            reveal_strlit(":");
            reveal_strlit("\n");
            assert(out@ =~= message_text(self@));
        }
        out
    }
}

/// The text under which a file joins the conversation: its name, a colon
/// and a line break, then its contents.
pub fn file_message_text(file_name: &str, contents: &str) -> (r: String)
    ensures
        r@ == file_name@ + seq![':', '\n'] + contents@,
{
    let mut r = String::from_str(file_name);
    r.append(":\n");
    r.append(contents);
    proof {
        reveal_strlit(":\n");
    }
    r
}

} // verus!
