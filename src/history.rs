//! The ordered conversation log with its single pinned system message.
use vstd::prelude::*;
use crate::message::{
    ArgumentError, Message, MessageView, is_system_role, lookup, message_text, plain_message,
};

verus! {

pub open spec fn is_system(m: MessageView) -> bool {
    is_system_role(m.role)
}

/// The entries whose role is not `system`, in order.
pub open spec fn without_system(s: Seq<MessageView>) -> Seq<MessageView>
    decreases s.len(),
{
    if s.len() == 0 {
        Seq::empty()
    } else if is_system(s.last()) {
        without_system(s.drop_last())
    } else {
        without_system(s.drop_last()).push(s.last())
    }
}

/// The entries whose role is `system`, in order.
pub open spec fn system_entries(s: Seq<MessageView>) -> Seq<MessageView>
    decreases s.len(),
{
    if s.len() == 0 {
        Seq::empty()
    } else if is_system(s.last()) {
        system_entries(s.drop_last()).push(s.last())
    } else {
        system_entries(s.drop_last())
    }
}

/// The log after pinning `text` as its one system message.
pub open spec fn with_system(s: Seq<MessageView>, text: Seq<char>) -> Seq<MessageView> {
    seq![plain_message("system"@, text)] + without_system(s)
}

/// At most one entry has role `system`, and only at position 0.
pub open spec fn system_pinned(s: Seq<MessageView>) -> bool {
    forall|i: int| 0 < i < s.len() ==> !is_system(#[trigger] s[i])
}

/// The display text: each non-system entry's line, in order.
pub open spec fn rendered(s: Seq<MessageView>) -> Seq<char>
    decreases s.len(),
{
    if s.len() == 0 {
        Seq::empty()
    } else if is_system(s.last()) {
        rendered(s.drop_last())
    } else {
        rendered(s.drop_last()) + message_text(s.last())
    }
}

pub open spec fn messages_view(v: Seq<Message>) -> Seq<MessageView> {
    v.map_values(|m: Message| m@)
}

pub open spec fn refs_view(v: Seq<&Message>) -> Seq<MessageView> {
    v.map_values(|m: &Message| m@)
}

/// The operations of a conversation log.
pub trait ChatHistory: Sized {
    spec fn entries(&self) -> Seq<MessageView>;

    fn last(&self) -> (r: Option<&Message>)
        ensures
            r is None <==> self.entries().len() == 0,
            r matches Some(m) ==> m@ == self.entries().last(),
    ;

    fn push(&mut self, msg: Message)
        ensures
            final(self).entries() == old(self).entries().push(msg@),
    ;

    fn add_user_message(&mut self, msg: &str)
        ensures
            final(self).entries() == old(self).entries().push(plain_message("user"@, msg@)),
    ;

    /// Removes every system message, then puts one holding `msg` first.
    fn set_system_message(&mut self, msg: &str)
        ensures
            final(self).entries() == with_system(old(self).entries(), msg@),
            system_pinned(final(self).entries()),
            system_entries(final(self).entries()) == seq![plain_message("system"@, msg@)],
    ;

    fn add_message(&mut self, role: &str, msg: &str)
        ensures
            final(self).entries() == old(self).entries().push(plain_message(role@, msg@)),
    ;

    /// Appends the output of an executed command as a `function` message.
    fn add_powershell_message(&mut self, msg: &str)
        ensures
            final(self).entries() == old(self).entries().push(plain_message("function"@, msg@)),
    ;

    fn from(openai_message: Message) -> (r: Messages)
        ensures
            messages_view(r.0@) == seq![openai_message@],
    {
        Messages(vec![openai_message])
    }

    fn new() -> (r: Messages)
        ensures
            r.0@.len() == 0,
    {
        Messages(Vec::new())
    }

    fn clear_system_messages(&mut self)
        ensures
            final(self).entries() == without_system(old(self).entries()),
    ;

    /// All entries with role `system`, in order, whatever their number.
    fn get_system_messages(&self) -> (r: Vec<&Message>)
        ensures
            refs_view(r@) == system_entries(self.entries()),
    ;
}

/// A conversation: its messages in insertion order.
#[derive(Debug, Clone)]
pub struct Messages(pub Vec<Message>);

pub proof fn lemma_without_system_has_none(s: Seq<MessageView>)
    ensures
        system_entries(without_system(s)) == Seq::<MessageView>::empty(),
        forall|i: int| 0 <= i < without_system(s).len() ==> !is_system(#[trigger] without_system(s)[i]),
    decreases s.len(),
{
    if s.len() > 0 {
        lemma_without_system_has_none(s.drop_last());
        let w = without_system(s.drop_last());
        if !is_system(s.last()) {
            assert(w.push(s.last()).drop_last() =~= w);
        }
    }
}

proof fn lemma_system_entries_prepend(m: MessageView, s: Seq<MessageView>)
    requires
        system_entries(s) == Seq::<MessageView>::empty(),
        is_system(m),
    ensures
        system_entries(seq![m] + s) == seq![m],
    decreases s.len(),
{
    if s.len() == 0 {
        assert(seq![m] + s =~= seq![m]);
        assert(seq![m].drop_last() =~= Seq::<MessageView>::empty());
        assert(Seq::<MessageView>::empty().push(m) =~= seq![m]);
        assert(seq![m].last() == m);
        assert(system_entries(seq![m].drop_last()) == Seq::<MessageView>::empty());
        assert(system_entries(seq![m]) == system_entries(seq![m].drop_last()).push(m));
    } else {
        assert((seq![m] + s).drop_last() =~= seq![m] + s.drop_last());
        assert((seq![m] + s).last() == s.last());
        if is_system(s.last()) {
            assert(system_entries(s).len() > 0);
        }
        lemma_system_entries_prepend(m, s.drop_last());
        assert(system_entries(seq![m] + s) == system_entries(seq![m] + s.drop_last()));
    }
}

/// The guarantees of pinning a system message, for any log and text.
proof fn lemma_with_system(s: Seq<MessageView>, text: Seq<char>)
    ensures
        system_pinned(with_system(s, text)),
        system_entries(with_system(s, text)) == seq![plain_message("system"@, text)],
        with_system(s, text)[0] == plain_message("system"@, text),
{
    lemma_without_system_has_none(s);
    let w = without_system(s);
    let h = with_system(s, text);
    assert forall|i: int| 0 < i < h.len() implies !is_system(#[trigger] h[i]) by {
        assert(h[i] == w[i - 1]);
    }
    lemma_system_entries_prepend(plain_message("system"@, text), w);
}

/// Pinning a system message twice leaves exactly one system entry, first,
/// holding the second text.
pub proof fn lemma_set_system_twice(s: Seq<MessageView>, first: Seq<char>, second: Seq<char>)
    ensures
        system_entries(with_system(with_system(s, first), second)) == seq![
            plain_message("system"@, second),
        ],
        with_system(with_system(s, first), second)[0] == plain_message("system"@, second),
        system_pinned(with_system(with_system(s, first), second)),
{
    lemma_with_system(with_system(s, first), second);
}

impl ChatHistory for Messages {
    open spec fn entries(&self) -> Seq<MessageView> {
        messages_view(self.0@)
    }

    fn last(&self) -> (r: Option<&Message>) {
        let n = self.0.len();
        if n == 0 {
            None
        } else {
            Some(&self.0[n - 1])
        }
    }

    fn push(&mut self, msg: Message) {
        self.0.push(msg);
        proof {
            assert(messages_view(self.0@) =~= messages_view(old(self).0@).push(msg@));
        }
    }

    fn add_user_message(&mut self, msg: &str) {
        self.add_message("user", msg)
    }

    fn set_system_message(&mut self, msg: &str) {
        self.clear_system_messages();
        let m = Message::new("system", msg);
        self.0.insert(0, m);
        proof {
            assert(messages_view(self.0@) =~= seq![m@] + messages_view(old(self).0@).take(0)
                + without_system(messages_view(old(self).0@)));
            lemma_with_system(messages_view(old(self).0@), msg@);
            assert(messages_view(self.0@) =~= with_system(messages_view(old(self).0@), msg@));
        }
    }

    fn add_message(&mut self, role: &str, msg: &str) {
        let m = Message::new(role, msg);
        self.push(m);
    }

    fn add_powershell_message(&mut self, msg: &str) {
        self.add_message("function", msg)
    }

    fn clear_system_messages(&mut self) {
        let ghost orig = messages_view(self.0@);
        let ghost mut j: int = 0;
        let mut i: usize = 0;
        proof {
            assert(orig.subrange(0, 0) =~= Seq::<MessageView>::empty());
            assert(messages_view(self.0@).subrange(0, 0) =~= Seq::<MessageView>::empty());
            assert(messages_view(self.0@).subrange(0, self.0@.len() as int) =~= orig.subrange(
                0,
                orig.len() as int,
            ));
        }
        while i < self.0.len()
            invariant
                0 <= i <= self.0@.len(),
                0 <= j <= orig.len(),
                self.0@.len() - i == orig.len() - j,
                messages_view(self.0@).subrange(0, i as int) == without_system(
                    orig.subrange(0, j),
                ),
                messages_view(self.0@).subrange(i as int, self.0@.len() as int) == orig.subrange(
                    j,
                    orig.len() as int,
                ),
            decreases self.0@.len() - i,
        {
            let ghost cur = messages_view(self.0@);
            proof {
                assert(cur[i as int] == orig[j]) by {
                    assert(cur.subrange(i as int, cur.len() as int)[0] == orig.subrange(
                        j,
                        orig.len() as int,
                    )[0]);
                }
                assert(orig.subrange(0, j + 1).drop_last() =~= orig.subrange(0, j));
                assert(orig.subrange(0, j + 1).last() == orig[j]);
                assert(cur.subrange(i as int + 1, cur.len() as int) =~= cur.subrange(
                    i as int,
                    cur.len() as int,
                ).drop_first());
                assert(orig.subrange(j + 1, orig.len() as int) =~= orig.subrange(
                    j,
                    orig.len() as int,
                ).drop_first());
            }
            if self.0[i].is_system() {
                self.0.remove(i);
                proof {
                    let now = messages_view(self.0@);
                    assert(now =~= cur.remove(i as int));
                    assert(now.subrange(0, i as int) =~= cur.subrange(0, i as int));
                    assert(now.subrange(i as int, now.len() as int) =~= orig.subrange(
                        j + 1,
                        orig.len() as int,
                    ));
                    j = j + 1;
                }
            } else {
                proof {
                    assert(cur.subrange(0, i as int + 1) =~= cur.subrange(0, i as int).push(
                        cur[i as int],
                    ));
                    assert(cur.subrange(i as int + 1, cur.len() as int) =~= orig.subrange(
                        j + 1,
                        orig.len() as int,
                    ));
                    j = j + 1;
                }
                i = i + 1;
            }
        }
        proof {
            assert(orig.subrange(j, orig.len() as int).len() == 0);
            assert(orig.subrange(0, j) =~= orig);
            assert(messages_view(self.0@).subrange(0, i as int) =~= messages_view(self.0@));
        }
    }

    fn get_system_messages(&self) -> (r: Vec<&Message>) {
        let mut out: Vec<&Message> = Vec::new();
        let mut i: usize = 0;
        proof {
            assert(messages_view(self.0@).subrange(0, 0) =~= Seq::<MessageView>::empty());
        }
        while i < self.0.len()
            invariant
                i <= self.0@.len(),
                refs_view(out@) == system_entries(messages_view(self.0@).subrange(0, i as int)),
            decreases self.0@.len() - i,
        {
            let ghost done = messages_view(self.0@).subrange(0, i as int + 1);
            proof {
                assert(done.drop_last() =~= messages_view(self.0@).subrange(0, i as int));
                assert(done.last() == self.0@[i as int]@);
            }
            let m = &self.0[i];
            if m.is_system() {
                out.push(m);
                proof {
                    assert(refs_view(out@) =~= refs_view(out@.drop_last()).push(m@));
                }
            }
            i = i + 1;
        }
        proof {
            assert(messages_view(self.0@).subrange(0, i as int) =~= messages_view(self.0@));
        }
        out
    }
}

impl Messages {

    /// The command that the last entry asks to run: the `command` argument of
    /// its function call. Nothing when there is no entry, no function call,
    /// or no such argument; an error when the arguments did not parse.
    pub fn command_to_run(&self) -> (r: Result<Option<String>, ArgumentError>)
        ensures
            self.entries().len() == 0 ==> r == Ok::<Option<String>, ArgumentError>(None),
            self.entries().len() > 0 ==> match self.entries().last().function_call {
                None => r == Ok::<Option<String>, ArgumentError>(None),
                Some(c) => match c.arguments {
                    None => r == Err::<Option<String>, ArgumentError>(ArgumentError::Unparsable),
                    Some(args) => match lookup(args, "command"@) {
                        None => r == Ok::<Option<String>, ArgumentError>(None),
                        Some(v) => r matches Ok(Some(s)) && s@ == v,
                    },
                },
            },
    {
        match self.last() {
            None => Ok(None),
            Some(msg) => match &msg.function_call {
                None => Ok(None),
                Some(call) => match call.get_argument("command") {
                    Ok(cmd) => Ok(Some(cmd)),
                    Err(ArgumentError::Missing) => Ok(None),
                    Err(ArgumentError::Unparsable) => Err(ArgumentError::Unparsable),
                },
            },
        }
    }
    /// The conversation for display: every non-system entry's line, in order.
    pub fn render(&self) -> (r: String)
        ensures
            r@ == rendered(self.entries()),
    {
        let mut out = String::new();
        let mut i: usize = 0;
        proof {
            assert(messages_view(self.0@).subrange(0, 0) =~= Seq::<MessageView>::empty());
        }
        while i < self.0.len()
            invariant
                i <= self.0@.len(),
                out@ == rendered(messages_view(self.0@).subrange(0, i as int)),
            decreases self.0@.len() - i,
        {
            let ghost done = messages_view(self.0@).subrange(0, i as int + 1);
            proof {
                assert(done.drop_last() =~= messages_view(self.0@).subrange(0, i as int));
                assert(done.last() == self.0@[i as int]@);
            }
            let m = &self.0[i];
            if !m.is_system() {
                let line = m.render();
                out.append(line.as_str());
            }
            i = i + 1;
        }
        proof {
            assert(messages_view(self.0@).subrange(0, i as int) =~= messages_view(self.0@));
        }
        out
    }
}

} // verus!
