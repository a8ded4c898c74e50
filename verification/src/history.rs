//! The conversation history: an ordered, append-only log of messages that is
//! the single source of truth sent to the model on every turn.

use vstd::prelude::*;

verus! {

/// Who spoke a message: the fixed instructions, the operator, or the model.
#[derive(Clone, Copy, PartialEq, Eq, Structural, Debug)]
pub enum Role {
    System,
    User,
    Assistant,
}

/// One turn of the conversation: a role and its text.
#[derive(Clone, Debug, PartialEq, Eq)]
pub struct Message {
    pub role: Role,
    pub content: String,
}

impl View for Message {
    type V = (Role, Seq<char>);

    open spec fn view(&self) -> (Role, Seq<char>) {
        (self.role, self.content@)
    }
}

/// The abstract content of a sequence of messages.
pub open spec fn msgs_view(ms: Seq<Message>) -> Seq<(Role, Seq<char>)> {
    ms.map(|i: int, m: Message| m@)
}

/// The history a session starts from: the fixed instructions, the ambient
/// directory context, and, when text was piped in, that text as one more
/// user message.
pub open spec fn seed_view(
    system: Seq<char>,
    context: Seq<char>,
    piped: Option<Seq<char>>,
) -> Seq<(Role, Seq<char>)> {
    let base = seq![(Role::System, system), (Role::User, context)];
    match piped {
        Some(p) => base.push((Role::User, p)),
        None => base,
    }
}

/// The ordered message log. It grows only by appending; nothing is ever
/// edited, reordered or removed, since the order is the model's only memory.
pub struct ConversationState {
    messages: Vec<Message>,
}

impl View for ConversationState {
    type V = Seq<(Role, Seq<char>)>;

    closed spec fn view(&self) -> Seq<(Role, Seq<char>)> {
        msgs_view(self.messages@)
    }
}

impl ConversationState {
    /// Starts a history with the seed messages of a session.
    pub fn seed(system: String, context: String, piped: Option<String>) -> (s: Self)
        ensures
            s@ == seed_view(system@, context@, piped.deep_view()),
    {
        let ghost sysv = system@;
        let ghost ctxv = context@;
        let ghost pipv = piped.deep_view();
        let mut messages: Vec<Message> = Vec::new();
        messages.push(Message { role: Role::System, content: system });
        messages.push(Message { role: Role::User, content: context });
        match piped {
            Some(p) => {
                messages.push(Message { role: Role::User, content: p });
                let s = ConversationState { messages };
                proof {
                    assert(s@ =~= seed_view(sysv, ctxv, pipv));
                }
                s
            },
            None => {
                let s = ConversationState { messages };
                proof {
                    assert(s@ =~= seed_view(sysv, ctxv, pipv));
                }
                s
            },
        }
    }

    /// Appends one message at the end; the log before it is untouched.
    pub fn append(&mut self, m: Message)
        ensures
            final(self)@ == old(self)@.push(m@),
    {
        let ghost prev = self.messages@;
        self.messages.push(m);
        proof {
            assert(self@ =~= msgs_view(prev).push(self.messages@.last()@));
        }
    }

    /// Appends an operator turn.
    pub fn append_user(&mut self, content: String)
        ensures
            final(self)@ == old(self)@.push((Role::User, content@)),
    {
        self.append(Message { role: Role::User, content });
    }

    /// Appends a model turn.
    pub fn append_assistant(&mut self, content: String)
        ensures
            final(self)@ == old(self)@.push((Role::Assistant, content@)),
    {
        self.append(Message { role: Role::Assistant, content });
    }

    /// The full ordered sequence, for submission to the model.
    pub fn snapshot(&self) -> (r: &Vec<Message>)
        ensures
            msgs_view(r@) == self@,
    {
        &self.messages
    }

    /// How many messages the log holds.
    pub fn len(&self) -> (n: usize)
        ensures
            n == self@.len(),
    {
        self.messages.len()
    }
}

/// The history after a run of plain turns, each of which appends the
/// operator's input and then the model's reply.
pub open spec fn after_turns(
    h: Seq<(Role, Seq<char>)>,
    turns: Seq<(Seq<char>, Seq<char>)>,
) -> Seq<(Role, Seq<char>)>
    decreases turns.len(),
{
    if turns.len() == 0 {
        h
    } else {
        after_turns(
            h.push((Role::User, turns[0].0)).push((Role::Assistant, turns[0].1)),
            turns.drop_first(),
        )
    }
}

/// A run of turns only appends: the starting history stays in place, and each
/// turn contributes exactly its user message and its assistant message, in
/// insertion order.
pub proof fn lemma_after_turns_shape(h: Seq<(Role, Seq<char>)>, turns: Seq<(Seq<char>, Seq<char>)>)
    ensures
        after_turns(h, turns).len() == h.len() + 2 * turns.len(),
        forall|i: int| 0 <= i < h.len() ==> after_turns(h, turns)[i] == h[i],
        forall|i: int|
            0 <= i < turns.len() ==> after_turns(h, turns)[h.len() + 2 * i] == (
            Role::User,
            #[trigger] turns[i].0,
            ),
        forall|i: int|
            0 <= i < turns.len() ==> after_turns(h, turns)[h.len() + 2 * i + 1] == (
            Role::Assistant,
            #[trigger] turns[i].1,
            ),
    decreases turns.len(),
{
    if turns.len() == 0 {
    } else {
        let h1 = h.push((Role::User, turns[0].0)).push((Role::Assistant, turns[0].1));
        let rest = turns.drop_first();
        lemma_after_turns_shape(h1, rest);
        assert(after_turns(h, turns) == after_turns(h1, rest));
        assert forall|i: int| 0 <= i < h.len() implies after_turns(h, turns)[i] == h[i] by {
            assert(after_turns(h1, rest)[i] == h1[i]);
            assert(h1[i] == h[i]);
        }
        assert forall|i: int|
            0 <= i < turns.len() implies after_turns(h, turns)[h.len() + 2 * i] == (
            Role::User,
            #[trigger] turns[i].0,
            ) by {
            if i == 0 {
                assert(after_turns(h1, rest)[h.len() as int] == h1[h.len() as int]);
            } else {
                assert(rest[i - 1].0 == turns[i].0);
                assert(after_turns(h1, rest)[h1.len() + 2 * (i - 1)] == (Role::User, rest[i - 1].0));
            }
        }
        assert forall|i: int|
            0 <= i < turns.len() implies after_turns(h, turns)[h.len() + 2 * i + 1] == (
            Role::Assistant,
            #[trigger] turns[i].1,
            ) by {
            if i == 0 {
                assert(after_turns(h1, rest)[h.len() as int + 1] == h1[h.len() as int + 1]);
            } else {
                assert(rest[i - 1].1 == turns[i].1);
                assert(after_turns(h1, rest)[h1.len() + 2 * (i - 1) + 1] == (
                    Role::Assistant,
                    rest[i - 1].1,
                ));
            }
        }
    }
}

/// Law: after any N well-formed turns the history holds the seed messages
/// followed by one user and one assistant message per turn, so its length is
/// 2 + 2N, or 3 + 2N when piped input joined the seed.
pub proof fn lemma_history_growth(
    system: Seq<char>,
    context: Seq<char>,
    piped: Option<Seq<char>>,
    turns: Seq<(Seq<char>, Seq<char>)>,
)
    ensures
        seed_view(system, context, piped).len() == if piped is Some {
            3int
        } else {
            2int
        },
        after_turns(seed_view(system, context, piped), turns).len() == seed_view(
            system,
            context,
            piped,
        ).len() + 2 * turns.len(),
{
    lemma_after_turns_shape(seed_view(system, context, piped), turns);
}

} // verus!
