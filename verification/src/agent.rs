//! The participants and the turn-passing protocol.
//!
//! A model-backed agent, on receiving the turn, first lets its notification
//! hook observe the conversation, stops if the conversation has terminated,
//! and otherwise asks its model client for the next content.  Free text is
//! signed to the counterpart and the turn passes.  A function call is
//! recorded self-addressed, resolved through the agent's own registry, its
//! result recorded self-addressed too, and a fresh content is requested
//! with the result as context.  A call that resolves to no registered
//! function ends the dialogue: the raw call is never forwarded to the
//! counterpart.  Turn-passing is naturally recursive; to bound stack
//! growth under long conversations it is carried here as an explicit loop
//! over `(active speaker, passive speaker, conversation)`.

use vstd::prelude::*;
use crate::conversation::Conversation;
use crate::errors::EngineError;
use crate::function::FunctionBehavior;
use crate::instruction::Instruction;
use crate::message::{Content, Message, MessageView};

verus! {

/// Whether a message's provenance names only the two given parties.
pub open spec fn between(m: MessageView, a: Seq<char>, b: Seq<char>) -> bool {
    (m.from == a || m.from == b) && (m.to == a || m.to == b)
}

/// Every message at position `lo` or later is between the two parties.
pub open spec fn provenanced(h: Seq<MessageView>, lo: int, a: Seq<char>, b: Seq<char>) -> bool {
    forall|i: int| lo <= i < h.len() ==> between(#[trigger] h[i], a, b)
}

/// Every function-call message at position `lo` or later is addressed from
/// its speaker to itself.
pub open spec fn calls_self_addressed(h: Seq<MessageView>, lo: int) -> bool {
    forall|i: int|
        lo <= i < h.len() && (#[trigger] h[i]).content is FunctionCall ==> h[i].from == h[i].to
}

/// Every function-call message at position `lo` or later that has a
/// successor is followed by a text from the same speaker to itself: its
/// result record.
pub open spec fn results_follow_calls(h: Seq<MessageView>, lo: int) -> bool {
    forall|i: int|
        lo <= i < h.len() - 1 && (#[trigger] h[i]).content is FunctionCall ==> h[i + 1].content
            is Text && h[i + 1].from == h[i].from && h[i + 1].to == h[i].from
}

/// `h2` begins with exactly `h1`: history is append-only.
pub open spec fn extends(h2: Seq<MessageView>, h1: Seq<MessageView>) -> bool {
    h1.len() <= h2.len() && h2.subrange(0, h1.len() as int) == h1
}

/// Every history extends itself.
pub proof fn lemma_extends_refl(h: Seq<MessageView>)
    ensures
        extends(h, h),
{
    assert(h.subrange(0, h.len() as int) =~= h);
}

/// An extension leaves every already-recorded message in place.
pub proof fn lemma_extends_index(h2: Seq<MessageView>, h1: Seq<MessageView>)
    requires
        extends(h2, h1),
    ensures
        forall|i: int| 0 <= i < h1.len() ==> h2[i] == #[trigger] h1[i],
{
    assert forall|i: int| 0 <= i < h1.len() implies h2[i] == #[trigger] h1[i] by {
        assert(h2.subrange(0, h1.len() as int)[i] == h2[i]);
    }
}

/// Extension is transitive.
pub proof fn lemma_extends_trans(h3: Seq<MessageView>, h2: Seq<MessageView>, h1: Seq<MessageView>)
    requires
        extends(h3, h2),
        extends(h2, h1),
    ensures
        extends(h3, h1),
{
    lemma_extends_index(h3, h2);
    lemma_extends_index(h2, h1);
    assert(h3.subrange(0, h1.len() as int) =~= h1);
}

/// Appending one more message extends a history.
pub proof fn lemma_extends_push(h2: Seq<MessageView>, h1: Seq<MessageView>, m: MessageView)
    requires
        extends(h2, h1),
    ensures
        extends(h2.push(m), h1),
{
    lemma_extends_index(h2, h1);
    assert(h2.push(m).subrange(0, h1.len() as int) =~= h1);
}

/// Appending a message keeps the window facts, provided the message is
/// between the parties, self-addressed if it is a function call, and a
/// self-addressed result text whenever it directly follows a pending call
/// record.
pub proof fn lemma_window_push(
    h: Seq<MessageView>,
    lo: int,
    a: Seq<char>,
    b: Seq<char>,
    m: MessageView,
)
    requires
        0 <= lo <= h.len(),
        provenanced(h, lo, a, b),
        calls_self_addressed(h, lo),
        results_follow_calls(h, lo),
        between(m, a, b),
        m.content is FunctionCall ==> m.from == m.to,
        (h.len() > lo && h.last().content is FunctionCall) ==> (m.content is Text && m.from
            == h.last().from && m.to == h.last().from),
    ensures
        provenanced(h.push(m), lo, a, b),
        calls_self_addressed(h.push(m), lo),
        results_follow_calls(h.push(m), lo),
{
    let h2 = h.push(m);
    assert forall|i: int| lo <= i < h2.len() implies between(#[trigger] h2[i], a, b) by {
        if i < h.len() {
            assert(h2[i] == h[i]);
        } else {
            assert(h2[i] == m);
        }
    }
    assert forall|i: int|
        lo <= i < h2.len() && (#[trigger] h2[i]).content is FunctionCall implies h2[i].from
        == h2[i].to by {
        if i < h.len() {
            assert(h2[i] == h[i]);
        } else {
            assert(h2[i] == m);
        }
    }
    assert forall|i: int|
        lo <= i < h2.len() - 1 && (#[trigger] h2[i]).content is FunctionCall implies h2[i
        + 1].content is Text && h2[i + 1].from == h2[i].from && h2[i + 1].to == h2[i].from by {
        if i < h.len() - 1 {
            assert(h2[i] == h[i]);
            assert(h2[i + 1] == h[i + 1]);
        } else {
            assert(h2[i] == h[i]);
            assert(h[i] == h.last());
            assert(h2[i + 1] == m);
        }
    }
}

/// The window facts of a history and of a later extension, taken over the
/// two stretches, hold over the whole, provided no call record was left
/// pending at the seam.
pub proof fn lemma_window_extend(
    h2: Seq<MessageView>,
    h1: Seq<MessageView>,
    lo: int,
    a: Seq<char>,
    b: Seq<char>,
)
    requires
        0 <= lo <= h1.len() <= h2.len(),
        extends(h2, h1),
        provenanced(h1, lo, a, b),
        calls_self_addressed(h1, lo),
        results_follow_calls(h1, lo),
        provenanced(h2, h1.len() as int, a, b),
        calls_self_addressed(h2, h1.len() as int),
        results_follow_calls(h2, h1.len() as int),
        (h1.len() > lo && h2.len() > h1.len()) ==> h1.last().content is Text,
    ensures
        provenanced(h2, lo, a, b),
        calls_self_addressed(h2, lo),
        results_follow_calls(h2, lo),
{
    lemma_extends_index(h2, h1);
    let n = h1.len() as int;
    assert forall|i: int| lo <= i < h2.len() implies between(#[trigger] h2[i], a, b) by {
        if i < n {
            assert(h2[i] == h1[i]);
        }
    }
    assert forall|i: int|
        lo <= i < h2.len() && (#[trigger] h2[i]).content is FunctionCall implies h2[i].from
        == h2[i].to by {
        if i < n {
            assert(h2[i] == h1[i]);
        }
    }
    assert forall|i: int|
        lo <= i < h2.len() - 1 && (#[trigger] h2[i]).content is FunctionCall implies h2[i
        + 1].content is Text && h2[i + 1].from == h2[i].from && h2[i + 1].to == h2[i].from by {
        if i < n - 1 {
            assert(h2[i] == h1[i]);
            assert(h2[i + 1] == h1[i + 1]);
        } else if i == n - 1 {
            assert(h2[i] == h1[i]);
            assert(h1[i] == h1.last());
        }
    }
}

/// A seeded dialogue's window facts, stitched together from the seed
/// message and the turns that followed it.
pub proof fn lemma_seed_stitch(
    h0: Seq<MessageView>,
    h2: Seq<MessageView>,
    mv: MessageView,
    a: Seq<char>,
    b: Seq<char>,
)
    requires
        extends(h2, h0.push(mv)),
        mv.from == a,
        mv.to == b,
        provenanced(h2, h0.len() as int + 1, a, b),
        calls_self_addressed(h2, h0.len() as int + 1),
        results_follow_calls(h2, h0.len() as int + 1),
    ensures
        extends(h2, h0),
        h2[h0.len() as int] == mv,
        provenanced(h2, h0.len() as int, a, b),
        mv.content is Text ==> calls_self_addressed(h2, h0.len() as int),
        mv.content is Text ==> results_follow_calls(h2, h0.len() as int),
{
    let lo = h0.len() as int;
    let h1 = h0.push(mv);
    lemma_extends_refl(h0);
    lemma_extends_push(h0, h0, mv);
    lemma_extends_trans(h2, h1, h0);
    lemma_extends_index(h2, h1);
    assert(h2[lo] == h1[lo]);
    assert forall|i: int| lo <= i < h2.len() implies between(#[trigger] h2[i], a, b) by {
        if i == lo {
            assert(h2[i] == mv);
        }
    }
    if mv.content is Text {
        assert forall|i: int|
            lo <= i < h2.len() && (#[trigger] h2[i]).content is FunctionCall implies h2[i].from
            == h2[i].to by {
            if i == lo {
                assert(h2[i] == mv);
            }
        }
        assert forall|i: int|
            lo <= i < h2.len() - 1 && (#[trigger] h2[i]).content is FunctionCall implies h2[i
            + 1].content is Text && h2[i + 1].from == h2[i].from && h2[i + 1].to == h2[i].from by {
            if i == lo {
                assert(h2[i] == mv);
            }
        }
    }
}

/// Being between two parties does not depend on their order.
pub proof fn lemma_provenanced_sym(h: Seq<MessageView>, lo: int, a: Seq<char>, b: Seq<char>)
    requires
        provenanced(h, lo, a, b),
    ensures
        provenanced(h, lo, b, a),
{
    assert forall|i: int| lo <= i < h.len() implies between(#[trigger] h[i], b, a) by {
        assert(between(h[i], a, b));
    }
}

/// The caller-supplied termination checker, invoked for its side effect on
/// every receive: it observes the live conversation and may terminate it.
/// It never rewrites history and never revives a terminated conversation.
pub trait Notification {
    fn notify(&mut self, conversation: &mut Conversation)
        ensures
            final(conversation)@.history == old(conversation)@.history,
            old(conversation)@.terminated ==> final(conversation)@.terminated,
    ;
}

/// A termination checker that stops the conversation once its history
/// holds at least `limit` messages.
pub struct LengthLimit {
    pub limit: usize,
}

impl Notification for LengthLimit {
    fn notify(&mut self, conversation: &mut Conversation) {
        if conversation.history().len() >= self.limit {
            conversation.terminate();
        }
    }
}

/// Whether `needle` occurs in `hay` starting at position `i`.
pub open spec fn occurs_at(hay: Seq<char>, needle: Seq<char>, i: int) -> bool {
    0 <= i && i + needle.len() <= hay.len() && hay.subrange(i, i + needle.len()) == needle
}

/// Whether `needle` occurs anywhere in `hay`.
pub open spec fn occurs_in(hay: Seq<char>, needle: Seq<char>) -> bool {
    exists|i: int| occurs_at(hay, needle, i)
}

/// Whether the marker text occurs in the given text.
pub fn text_contains(hay: &str, needle: &str) -> (r: bool)
    ensures
        r == occurs_in(hay@, needle@),
{
    let n = hay.unicode_len();
    let m = needle.unicode_len();
    if m > n {
        proof {
            assert forall|i: int| !occurs_at(hay@, needle@, i) by {}
        }
        return false;
    }
    if m == 0 {
        proof {
            assert(hay@.subrange(0, 0) =~= needle@);
            assert(occurs_at(hay@, needle@, 0));
        }
        return true;
    }
    let mut i: usize = 0;
    while i <= n - m
        invariant
            1 <= m <= n,
            n as nat == hay@.len(),
            m as nat == needle@.len(),
            i <= n - m + 1,
            forall|k: int| 0 <= k < i as int ==> !occurs_at(hay@, needle@, k),
        decreases n - m - i + 1,
    {
        let mut j: usize = 0;
        let mut matched = true;
        while j < m
            invariant
                matched ==> forall|k: int| 0 <= k < j as int ==> hay@[i as int + k]
                    == needle@[k],
                !matched ==> !occurs_at(hay@, needle@, i as int),
                i + m <= n,
                j <= m,
                n as nat == hay@.len(),
                m as nat == needle@.len(),
            decreases m - j,
        {
            if matched && hay.get_char(i + j) != needle.get_char(j) {
                proof {
                    assert(hay@.subrange(i as int, i as int + m as int)[j as int] == hay@[i
                        as int + j as int]);
                }
                matched = false;
            }
            j = j + 1;
        }
        if matched {
            proof {
                assert(hay@.subrange(i as int, i as int + m as int) =~= needle@);
                assert(occurs_at(hay@, needle@, i as int));
            }
            return true;
        }
        i = i + 1;
    }
    proof {
        assert forall|k: int| !occurs_at(hay@, needle@, k) by {
            if 0 <= k < i as int {
            }
        }
    }
    false
}

/// A termination checker that stops the conversation once the most
/// recent message is a text in which a marker occurs.
pub struct MarkerLimit {
    pub marker: String,
}

impl Notification for MarkerLimit {
    fn notify(&mut self, conversation: &mut Conversation) {
        let seen = match conversation.last_message() {
            Some(m) => match m.content.as_text() {
                Some(t) => text_contains(t.as_str(), self.marker.as_str()),
                None => false,
            },
            None => false,
        };
        if seen {
            conversation.terminate();
        }
    }
}

/// The external model client: turns an instruction plus the full ordered
/// history into the single next content.  An error is fatal to the turn
/// that asked.
pub trait ModelClient<C: FunctionBehavior> {
    fn complete(&mut self, instruction: &Instruction<C>, conversation: &Conversation) -> Result<
        Content,
        String,
    >;
}

/// A named participant: its identity and its optional notification hook.
pub struct Agent<N: Notification> {
    pub name: String,
    pub notifications: Option<N>,
}

impl<N: Notification> Agent<N> {
    /// A participant with the given name and no notification hook.
    pub fn new(name: &str) -> (r: Agent<N>)
        ensures
            r.name@ == name@,
            r.notifications is None,
    {
        Agent { name: name.to_owned(), notifications: None }
    }

    /// This participant's identity.
    pub fn name(&self) -> (r: &str)
        ensures
            r@ == self.name@,
    {
        self.name.as_str()
    }

    /// The same participant with its notification hook replaced.
    pub fn with_notifications(self, notifications: Option<N>) -> (r: Agent<N>)
        ensures
            r.name == self.name,
            r.notifications == notifications,
    {
        Agent { notifications, ..self }
    }
}

/// How one turn of the active speaker ended.
enum TurnOutcome {
    /// The conversation was already terminated when the turn began (the
    /// hook still ran); nothing was appended.
    Terminated,
    /// A text was signed to the counterpart and appended: the turn passes.
    Passed,
    /// A function call matched no registered function; its record is the
    /// last message and the dialogue stops here.
    Unresolved,
}

/// A model-backed participant: an identity with hook, a model client, and
/// the instruction shaping every completion it requests.
pub struct AutoAgent<C: FunctionBehavior, M: ModelClient<C>, N: Notification> {
    pub agent: Agent<N>,
    pub model: M,
    pub instruction: Instruction<C>,
}

impl<C: FunctionBehavior, M: ModelClient<C>, N: Notification> AutoAgent<C, M, N> {
    /// A participant with the given model and name, no hook and an empty
    /// instruction.
    pub fn new(model: M, name: &str) -> (r: AutoAgent<C, M, N>)
        ensures
            r.agent.name@ == name@,
            r.agent.notifications is None,
            r.model == model,
            r.instruction.message@.len() == 0,
            r.instruction.functions.registry@.len() == 0,
    {
        proof {
            reveal_strlit("");
        }
        AutoAgent { agent: Agent::new(name), model, instruction: Instruction::new("") }
    }

    /// This participant's identity.
    pub fn name(&self) -> (r: &str)
        ensures
            r@ == self.agent.name@,
    {
        self.agent.name.as_str()
    }

    /// The same participant with its notification hook replaced.
    pub fn with_notifications(self, notifications: Option<N>) -> (r: AutoAgent<C, M, N>)
        ensures
            r.agent.name == self.agent.name,
            r.agent.notifications == notifications,
            r.model == self.model,
            r.instruction == self.instruction,
    {
        AutoAgent { agent: self.agent.with_notifications(notifications), ..self }
    }

    /// The same participant with its instruction replaced.
    pub fn with_instruction(self, instruction: Instruction<C>) -> (r: AutoAgent<C, M, N>)
        ensures
            r.agent == self.agent,
            r.model == self.model,
            r.instruction == instruction,
    {
        AutoAgent { instruction, ..self }
    }

    /// One turn of this participant as the active speaker.
    #[verifier::loop_isolation(false)]
    fn take_turn(&mut self, other_name: &str, conversation: &mut Conversation) -> (r: Result<
        TurnOutcome,
        EngineError,
    >)
        ensures
            final(self).agent.name == old(self).agent.name,
            extends(final(conversation)@.history, old(conversation)@.history),
            old(conversation)@.terminated ==> final(conversation)@.terminated,
            old(conversation)@.terminated ==> final(conversation)@.history == old(conversation)@.history && r == Ok::<TurnOutcome, EngineError>(TurnOutcome::Terminated),
            provenanced(
                final(conversation)@.history,
                old(conversation)@.history.len() as int,
                old(self).agent.name@,
                other_name@,
            ),
            calls_self_addressed(
                final(conversation)@.history,
                old(conversation)@.history.len() as int,
            ),
            results_follow_calls(
                final(conversation)@.history,
                old(conversation)@.history.len() as int,
            ),
            match r {
                Ok(outcome) => match outcome {
                    TurnOutcome::Terminated => final(conversation)@.terminated && final(conversation)@.history == old(conversation)@.history,
                    TurnOutcome::Passed => final(conversation)@.history.len() > old(conversation)@.history.len() && final(conversation)@.history.last().content is Text
                        && final(conversation)@.history.last().from == old(self).agent.name@
                        && final(conversation)@.history.last().to == other_name@,
                    TurnOutcome::Unresolved => final(conversation)@.history.len() > old(conversation)@.history.len() && final(conversation)@.history.last().content
                        is FunctionCall && final(conversation)@.history.last().from == old(self).agent.name@ && final(conversation)@.history.last().to == old(self).agent.name@,
                },
                Err(e) => e matches EngineError::SchemaMismatch(_) ==> final(conversation)@.history.len() > old(conversation)@.history.len() && final(conversation)@.history.last().content is FunctionCall,
            },
    {
        if let Some(n) = &mut self.agent.notifications {
            n.notify(conversation);
        }
        proof {
            lemma_extends_refl(conversation@.history);
            lemma_extends_refl(old(conversation)@.history);
        }
        if conversation.has_terminated() {
            return Ok(TurnOutcome::Terminated);
        }
        let mut content = match self.model.complete(&self.instruction, conversation) {
            Ok(c) => c,
            Err(report) => {
                return Err(EngineError::ModelClientFailure(report));
            },
        };
        proof {
            conversation.lemma_history_fits();
        }
        loop
            invariant
                self.agent.name == old(self).agent.name,
                self.instruction == old(self).instruction,
                extends(conversation@.history, old(conversation)@.history),
                provenanced(
                    conversation@.history,
                    old(conversation)@.history.len() as int,
                    old(self).agent.name@,
                    other_name@,
                ),
                calls_self_addressed(
                    conversation@.history,
                    old(conversation)@.history.len() as int,
                ),
                results_follow_calls(
                    conversation@.history,
                    old(conversation)@.history.len() as int,
                ),
                conversation@.history.len() > old(conversation)@.history.len()
                    ==> conversation@.history.last().content is Text,
                !conversation@.terminated,
                conversation@.history.len() <= usize::MAX,
            decreases usize::MAX - conversation@.history.len(),
        {
            match content {
                Content::Text(t) => {
                    let m = Message {
                        from: self.agent.name.clone(),
                        to: other_name.to_owned(),
                        content: Content::Text(t),
                    };
                    proof {
                        lemma_window_push(
                            conversation@.history,
                            old(conversation)@.history.len() as int,
                            old(self).agent.name@,
                            other_name@,
                            m@,
                        );
                        lemma_extends_push(
                            conversation@.history,
                            old(conversation)@.history,
                            m@,
                        );
                    }
                    conversation.add_message(m);
                    return Ok(TurnOutcome::Passed);
                },
                Content::FunctionCall(fc) => {
                    let outcome = self.instruction.functions.call(&fc);
                    let record = Message {
                        from: self.agent.name.clone(),
                        to: self.agent.name.clone(),
                        content: Content::FunctionCall(fc),
                    };
                    proof {
                        lemma_window_push(
                            conversation@.history,
                            old(conversation)@.history.len() as int,
                            old(self).agent.name@,
                            other_name@,
                            record@,
                        );
                        lemma_extends_push(
                            conversation@.history,
                            old(conversation)@.history,
                            record@,
                        );
                    }
                    conversation.add_message(record);
                    proof {
                        conversation.lemma_history_fits();
                    }
                    match outcome {
                        Err(e) => {
                            return Err(e);
                        },
                        Ok(None) => {
                            return Ok(TurnOutcome::Unresolved);
                        },
                        Ok(Some(result)) => {
                            let reply = Message {
                                from: self.agent.name.clone(),
                                to: self.agent.name.clone(),
                                content: Content::Text(result),
                            };
                            proof {
                                lemma_window_push(
                                    conversation@.history,
                                    old(conversation)@.history.len() as int,
                                    old(self).agent.name@,
                                    other_name@,
                                    reply@,
                                );
                                lemma_extends_push(
                                    conversation@.history,
                                    old(conversation)@.history,
                                    reply@,
                                );
                            }
                            conversation.add_message(reply);
                            proof {
                                conversation.lemma_history_fits();
                            }
                            content = match self.model.complete(&self.instruction, conversation) {
                                Ok(c) => c,
                                Err(report) => {
                                    return Err(EngineError::ModelClientFailure(report));
                                },
                            };
                        },
                    }
                },
            }
        }
    }

    /// Drive the dialogue with this participant as the active speaker,
    /// alternating turns with `sender`, until the conversation terminates,
    /// a function call stays unresolved, or an error aborts it.
    ///
    /// Every message the dialogue appends is between the two participants;
    /// function-call records and their results are self-addressed.
    #[verifier::loop_isolation(false)]
    pub fn receive(&mut self, sender: &mut AutoAgent<C, M, N>, conversation: &mut Conversation)
        -> (r: Result<(), EngineError>)
        ensures
            final(self).agent.name == old(self).agent.name,
            final(sender).agent.name == old(sender).agent.name,
            extends(final(conversation)@.history, old(conversation)@.history),
            old(conversation)@.terminated ==> final(conversation)@.terminated && final(conversation)@.history == old(conversation)@.history,
            provenanced(
                final(conversation)@.history,
                old(conversation)@.history.len() as int,
                old(self).agent.name@,
                old(sender).agent.name@,
            ),
            calls_self_addressed(
                final(conversation)@.history,
                old(conversation)@.history.len() as int,
            ),
            results_follow_calls(
                final(conversation)@.history,
                old(conversation)@.history.len() as int,
            ),
            old(conversation)@.terminated ==> r is Ok,
            r is Ok ==> final(conversation)@.terminated || (final(conversation)@.history.len()
                > old(conversation)@.history.len() && final(conversation)@.history.last().content is FunctionCall),
    {
        let ghost lo = old(conversation)@.history.len() as int;
        let mut mine = true;
        proof {
            conversation.lemma_history_fits();
            lemma_extends_refl(conversation@.history);
        }
        loop
            invariant
                self.agent.name == old(self).agent.name,
                sender.agent.name == old(sender).agent.name,
                extends(conversation@.history, old(conversation)@.history),
                old(conversation)@.terminated ==> conversation@.terminated
                    && conversation@.history == old(conversation)@.history,
                provenanced(
                    conversation@.history,
                    lo,
                    old(self).agent.name@,
                    old(sender).agent.name@,
                ),
                calls_self_addressed(conversation@.history, lo),
                results_follow_calls(conversation@.history, lo),
                conversation@.history.len() > lo ==> conversation@.history.last().content
                    is Text,
                conversation@.history.len() <= usize::MAX,
            decreases usize::MAX - conversation@.history.len(),
        {
            let ghost h1 = conversation@.history;
            let r = if mine {
                self.take_turn(sender.agent.name.as_str(), conversation)
            } else {
                sender.take_turn(self.agent.name.as_str(), conversation)
            };
            proof {
                let h2 = conversation@.history;
                lemma_extends_trans(h2, h1, old(conversation)@.history);
                if !mine {
                    lemma_provenanced_sym(
                        h2,
                        h1.len() as int,
                        old(sender).agent.name@,
                        old(self).agent.name@,
                    );
                }
                lemma_window_extend(
                    h2,
                    h1,
                    lo,
                    old(self).agent.name@,
                    old(sender).agent.name@,
                );
                conversation.lemma_history_fits();
            }
            match r {
                Err(e) => {
                    return Err(e);
                },
                Ok(TurnOutcome::Terminated) => {
                    return Ok(());
                },
                Ok(TurnOutcome::Unresolved) => {
                    return Ok(());
                },
                Ok(TurnOutcome::Passed) => {
                    mine = !mine;
                },
            }
        }
    }

    /// Sign the given content from this participant to the recipient,
    /// append it, and hand the turn to the recipient.
    #[verifier::rlimit(50)]
    pub fn send(
        &mut self,
        recipient: &mut AutoAgent<C, M, N>,
        conversation: &mut Conversation,
        content: Content,
    ) -> (r: Result<(), EngineError>)
        ensures
            final(self).agent.name == old(self).agent.name,
            final(recipient).agent.name == old(recipient).agent.name,
            extends(final(conversation)@.history, old(conversation)@.history),
            final(conversation)@.history.len() > old(conversation)@.history.len(),
            final(conversation)@.history[old(conversation)@.history.len() as int] == (MessageView {
                from: old(self).agent.name@,
                to: old(recipient).agent.name@,
                content: content@,
            }),
            old(conversation)@.terminated ==> final(conversation)@.terminated,
            provenanced(
                final(conversation)@.history,
                old(conversation)@.history.len() as int,
                old(self).agent.name@,
                old(recipient).agent.name@,
            ),
            calls_self_addressed(
                final(conversation)@.history,
                old(conversation)@.history.len() as int + 1,
            ),
            results_follow_calls(
                final(conversation)@.history,
                old(conversation)@.history.len() as int + 1,
            ),
            content@ is Text ==> calls_self_addressed(
                final(conversation)@.history,
                old(conversation)@.history.len() as int,
            ) && results_follow_calls(
                final(conversation)@.history,
                old(conversation)@.history.len() as int,
            ),
            old(conversation)@.terminated ==> r is Ok,
            r is Ok ==> final(conversation)@.terminated
                || final(conversation)@.history.last().content is FunctionCall,
    {
        let ghost lo = old(conversation)@.history.len() as int;
        let m = Message {
            from: self.agent.name.clone(),
            to: recipient.agent.name.clone(),
            content,
        };
        let ghost mv = m@;
        conversation.add_message(m);
        let ghost h1 = conversation@.history;
        let r = recipient.receive(self, conversation);
        proof {
            let h2 = conversation@.history;
            assert(h1 == old(conversation)@.history.push(mv));
            lemma_provenanced_sym(h2, lo + 1, old(recipient).agent.name@, old(self).agent.name@);
            lemma_seed_stitch(
                old(conversation)@.history,
                h2,
                mv,
                old(self).agent.name@,
                old(recipient).agent.name@,
            );
        }
        r
    }

    /// Open a fresh conversation and ask this participant for its first
    /// content exactly as for any later turn.
    pub fn talk_to(&mut self, recipient: &mut AutoAgent<C, M, N>) -> (r: Result<(), EngineError>)
        ensures
            final(self).agent.name == old(self).agent.name,
            final(recipient).agent.name == old(recipient).agent.name,
    {
        let mut conversation = Conversation::new();
        self.receive(recipient, &mut conversation)
    }

    /// Open a fresh conversation with a seed message: sign it from this
    /// participant to the recipient, append it, and hand the turn to the
    /// recipient.  The initiator never asks its model for the first turn.
    pub fn initiate_chat(&mut self, recipient: &mut AutoAgent<C, M, N>, message: Message) -> (r:
        Result<(), EngineError>)
        ensures
            final(self).agent.name == old(self).agent.name,
            final(recipient).agent.name == old(recipient).agent.name,
    {
        let mut conversation = Conversation::new();
        let mut m = message;
        m.sign(self.agent.name.as_str(), recipient.agent.name.as_str());
        conversation.add_message(m);
        recipient.receive(self, &mut conversation)
    }
}

} // verus!
