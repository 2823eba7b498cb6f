//! Folding partial events into one completed message.
use vstd::prelude::*;
use crate::event::{
    ServerEvent, ServerEventView, ParsedLine, ParsedLineView, LineClass, classify, data_prefix,
    done_marker,
};
use crate::message::{
    FunctionCall, Message, MessageView, call_of, pairs_view, string_map_of,
};

verus! {

/// The fold state of one assembly: the last role seen and the text
/// buffers, each the concatenation of its fragments in arrival order.
#[derive(Debug)]
pub struct AccumulatorState {
    pub role: String,
    pub content: String,
    pub function_name: String,
    pub function_arguments: String,
}

pub struct AccumulatorView {
    pub role: Seq<char>,
    pub content: Seq<char>,
    pub function_name: Seq<char>,
    pub function_arguments: Seq<char>,
}

impl View for AccumulatorState {
    type V = AccumulatorView;

    open spec fn view(&self) -> AccumulatorView {
        AccumulatorView {
            role: self.role@,
            content: self.content@,
            function_name: self.function_name@,
            function_arguments: self.function_arguments@,
        }
    }
}

pub open spec fn empty_state() -> AccumulatorView {
    AccumulatorView {
        role: Seq::empty(),
        content: Seq::empty(),
        function_name: Seq::empty(),
        function_arguments: Seq::empty(),
    }
}

/// The fragment, or nothing.
pub open spec fn fragment(o: Option<Seq<char>>) -> Seq<char> {
    match o {
        Some(s) => s,
        None => Seq::empty(),
    }
}

/// A present role overwrites; present text fragments are appended;
/// `finish_reason` changes nothing.
pub open spec fn fold_event(s: AccumulatorView, e: ServerEventView) -> AccumulatorView {
    AccumulatorView {
        role: match e.role {
            Some(r) => r,
            None => s.role,
        },
        content: s.content + fragment(e.content),
        function_name: s.function_name + fragment(e.function_name),
        function_arguments: s.function_arguments + fragment(e.function_arguments),
    }
}

/// The message that a fold state finalizes to, given what its argument
/// text parsed to: a function call exactly when a function name was seen.
pub open spec fn finalized(
    s: AccumulatorView,
    parsed: Option<Seq<(Seq<char>, Seq<char>)>>,
) -> MessageView {
    MessageView {
        role: s.role,
        content: s.content,
        function_call: call_of(s.function_name, s.function_arguments, parsed),
    }
}

fn append_fragment(buf: &mut String, o: &Option<String>)
    ensures
        final(buf)@ == old(buf)@ + fragment(crate::event::opt_view(*o)),
{
    match o {
        Some(s) => buf.append(s.as_str()),
        None => {
            assert(old(buf)@ + Seq::<char>::empty() =~= old(buf)@);
        },
    }
}

impl AccumulatorState {
    pub fn new() -> (r: AccumulatorState)
        ensures
            r@ == empty_state(),
    {
        AccumulatorState {
            role: String::new(),
            content: String::new(),
            function_name: String::new(),
            function_arguments: String::new(),
        }
    }

    /// Folds one event into the state (see `fold_event`).
    pub fn fold(&mut self, ev: &ServerEvent)
        ensures
            final(self)@ == fold_event(old(self)@, ev@),
    {
        match &ev.role {
            Some(r) => {
                self.role = r.clone();
            },
            None => {},
        }
        append_fragment(&mut self.content, &ev.content);
        append_fragment(&mut self.function_name, &ev.function_name);
        append_fragment(&mut self.function_arguments, &ev.function_arguments);
    }

    /// Finalizes with `parsed` standing for what the argument text parsed to.
    pub fn finish_with(self, parsed: Option<Vec<(String, String)>>) -> (r: Message)
        ensures
            r@ == finalized(
                self@,
                match parsed {
                    Some(v) => Some(pairs_view(v@)),
                    None => None,
                },
            ),
    {
        let function_call = if self.function_name.as_str().is_empty() {
            None
        } else {
            Some(
                FunctionCall {
                    name: self.function_name,
                    arguments: parsed,
                    raw_arguments: self.function_arguments,
                },
            )
        };
        Message { content: self.content, role: self.role, function_call }
    }

    /// Finalizes the fold: the role and content as accumulated, and a
    /// function call when a function name was seen, its argument text parsed
    /// as a JSON object of strings (the raw text is kept either way).
    pub fn finalize(self) -> (r: Message)
        ensures
            r@ == finalized(self@, string_map_of(self.function_arguments@)),
    {
        if self.function_name.as_str().is_empty() {
            Message { content: self.content, role: self.role, function_call: None }
        } else {
            let call = FunctionCall::parse(self.function_name, self.function_arguments);
            Message { content: self.content, role: self.role, function_call: Some(call) }
        }
    }
}

pub struct AssemblyView {
    pub state: AccumulatorView,
    pub finished: bool,
}

/// One line's effect on an assembly: nothing once the stream has ended or
/// for a skipped line; the sentinel ends the stream; an event is folded in.
pub open spec fn step(a: AssemblyView, line: ParsedLineView) -> AssemblyView {
    if a.finished {
        a
    } else {
        match line {
            ParsedLineView::Skip => a,
            ParsedLineView::Sentinel => AssemblyView { state: a.state, finished: true },
            ParsedLineView::Event(e) => AssemblyView {
                state: fold_event(a.state, e),
                finished: false,
            },
        }
    }
}

/// The assembly after each of the lines in turn.
pub open spec fn assemble(a: AssemblyView, lines: Seq<ParsedLineView>) -> AssemblyView
    decreases lines.len(),
{
    if lines.len() == 0 {
        a
    } else {
        step(assemble(a, lines.drop_last()), lines.last())
    }
}

/// The assembly of one reply from its parsed lines.
pub struct Assembly {
    state: AccumulatorState,
    finished: bool,
}

impl View for Assembly {
    type V = AssemblyView;

    closed spec fn view(&self) -> AssemblyView {
        AssemblyView { state: self.state@, finished: self.finished }
    }
}

impl Assembly {
    pub fn new() -> (r: Assembly)
        ensures
            r@ == (AssemblyView { state: empty_state(), finished: false }),
    {
        Assembly { state: AccumulatorState::new(), finished: false }
    }

    /// Takes the next line of the stream (see `step`).
    pub fn accept(&mut self, line: ParsedLine)
        ensures
            final(self)@ == step(old(self)@, line@),
    {
        if self.finished {
            return;
        }
        match line {
            ParsedLine::Skip => {},
            ParsedLine::Sentinel => {
                self.finished = true;
            },
            ParsedLine::Event(e) => {
                self.state.fold(&e);
            },
        }
    }

    /// Whether the terminal marker has been seen.
    pub fn is_finished(&self) -> (r: bool)
        ensures
            r == self@.finished,
    {
        self.finished
    }

    /// The completed message, whether the stream ended by its marker or by
    /// running out of data.
    pub fn into_message(self) -> (r: Message)
        ensures
            r@ == finalized(self@.state, string_map_of(self@.state.function_arguments)),
    {
        self.state.finalize()
    }
}

/// A line that is the terminal marker, with or without `data: `, is
/// classified as the end of the stream, never as a payload to decode; once
/// it is taken, no later line adds anything to the reply.
pub proof fn lemma_sentinel_ends_assembly(
    line: Seq<u8>,
    start: AssemblyView,
    before: Seq<ParsedLineView>,
    after: Seq<ParsedLineView>,
)
    requires
        line == done_marker() || line == data_prefix() + done_marker(),
    ensures
        classify(line) == LineClass::Sentinel,
        assemble(start, before + seq![ParsedLineView::Sentinel] + after).state == assemble(
            start,
            before,
        ).state,
        assemble(start, before + seq![ParsedLineView::Sentinel] + after).finished,
{
    if line == data_prefix() + done_marker() {
        assert(line.subrange(0, 6) =~= data_prefix());
        assert(line.subrange(6, line.len() as int) =~= done_marker());
    } else {
        assert(line.subrange(0, 6) != data_prefix()) by {
            assert(line[0] != data_prefix()[0]);
        }
    }
    lemma_finished_stays(start, before, after);
}

proof fn lemma_finished_stays(
    start: AssemblyView,
    before: Seq<ParsedLineView>,
    after: Seq<ParsedLineView>,
)
    ensures
        assemble(start, before + seq![ParsedLineView::Sentinel] + after).state == assemble(
            start,
            before,
        ).state,
        assemble(start, before + seq![ParsedLineView::Sentinel] + after).finished,
    decreases after.len(),
{
    let with = before + seq![ParsedLineView::Sentinel];
    assert(with.drop_last() =~= before);
    if after.len() == 0 {
        assert(with + after =~= with);
    } else {
        lemma_finished_stays(start, before, after.drop_last());
        assert((with + after).drop_last() =~= with + after.drop_last());
    }
}

/// A skipped line, such as one whose payload failed to decode, changes
/// nothing: the reply is the one assembled with that line removed.
pub proof fn lemma_skipped_line_invisible(
    start: AssemblyView,
    before: Seq<ParsedLineView>,
    after: Seq<ParsedLineView>,
)
    ensures
        assemble(start, before + seq![ParsedLineView::Skip] + after) == assemble(
            start,
            before + after,
        ),
        finalized(assemble(start, before + seq![ParsedLineView::Skip] + after).state, string_map_of(
            assemble(start, before + seq![ParsedLineView::Skip] + after).state.function_arguments,
        )) == finalized(
            assemble(start, before + after).state,
            string_map_of(assemble(start, before + after).state.function_arguments),
        ),
    decreases after.len(),
{
    let with = before + seq![ParsedLineView::Skip];
    assert(with.drop_last() =~= before);
    if after.len() == 0 {
        assert(with + after =~= with);
        assert(before + after =~= before);
    } else {
        lemma_skipped_line_invisible(start, before, after.drop_last());
        assert((with + after).drop_last() =~= with + after.drop_last());
        assert((before + after).drop_last() =~= before + after.drop_last());
    }
}

} // verus!
