//! The decisions of the dispatch loop: which messages are taken up, which
//! ordering gate a chat has, and what is to be delivered under that gate.
//! Receiving, running tasks, waiting for a gate and sending are for the
//! caller, who follows these decisions.

use crate::command_processor::{requested, Handled};
use crate::commands::github::opt_call;
use crate::model::{
    outs_view, Address, ChatPlatform, MessageIn, MessageInView, MessageOut, MessageOutView,
};
use crate::pipeline_processor::PipelineProcessor;
use crate::text::{chars_of, starts_with, trim, trimmed};
use std::collections::HashMap;
use std::sync::Arc;
use vstd::prelude::*;

verus! {

/// The number of a platform.
pub open spec fn platform_code(p: ChatPlatform) -> int {
    match p {
        ChatPlatform::Telegram => 0,
        ChatPlatform::Discord => 1,
        ChatPlatform::Onebot => 2,
    }
}

/// The key of a chat: one integer made of its platform and its number on
/// that platform, so that two chats have the same key only if they are the
/// same chat.
pub open spec fn chat_key(platform: ChatPlatform, chat_id: i64) -> i128 {
    (platform_code(platform) * 0x1_0000_0000_0000_0000 + chat_id) as i128
}

/// The key of the chat that `addr` names.
pub fn key_of(addr: &Address) -> (k: i128)
    ensures
        k == chat_key(addr.platform, addr.chat_id),
{
    let code: i128 = match addr.platform {
        ChatPlatform::Telegram => 0,
        ChatPlatform::Discord => 1,
        ChatPlatform::Onebot => 2,
    };
    code * 0x1_0000_0000_0000_0000 + addr.chat_id as i128
}

/// Every chat has a gate of its own, by the key of the chat: the gates are
/// numbered from 0 without a gap, and no two keys have the same.
pub open spec fn gates_distinct(gates: Map<i128, usize>) -> bool {
    &&& gates.dom().finite()
    &&& forall|c: i128| gates.contains_key(c) ==> (#[trigger] gates[c]) < gates.len()
    &&& forall|a: i128, b: i128|
        gates.contains_key(a) && gates.contains_key(b) && a != b ==> (#[trigger] gates[a]) != (
        #[trigger] gates[b])
}

/// The table of ordering gates after the chat with the key `chat` asked for
/// its gate: as it was if the chat has one, else with the next number given
/// to the chat.
pub open spec fn gates_after(gates: Map<i128, usize>, chat: i128) -> Map<i128, usize> {
    if gates.contains_key(chat) {
        gates
    } else {
        gates.insert(chat, gates.len() as usize)
    }
}

/// The ordering gates: for the key of each chat seen so far, the number of
/// its gate.
pub struct GateTable {
    map: HashMap<i128, usize>,
}

impl GateTable {
    /// For the key of each chat, the number of its ordering gate.
    pub closed spec fn gates(&self) -> Map<i128, usize> {
        self.map@
    }

    #[verifier::type_invariant]
    spec fn inv(self) -> bool {
        gates_distinct(self.map@)
    }

    /// A table without a gate.
    pub fn new() -> (t: Self)
        ensures
            t.gates() == Map::<i128, usize>::empty(),
            gates_distinct(t.gates()),
    {
        GateTable { map: HashMap::new() }
    }

    /// How many gates there are.
    pub fn len(&self) -> (n: usize)
        ensures
            n == self.gates().len(),
            gates_distinct(self.gates()),
    {
        proof {
            use_type_invariant(self);
        }
        self.map.len()
    }

    /// The ordering gate of the chat with the key `chat`: the one it has,
    /// or a new one with the next number. No chat ever loses its gate or
    /// gets another.
    pub fn gate_for(&mut self, chat: i128) -> (gate: usize)
        ensures
            final(self).gates() == gates_after(old(self).gates(), chat),
            final(self).gates().contains_key(chat),
            final(self).gates()[chat] == gate,
            gates_distinct(final(self).gates()),
    {
        proof {
            use_type_invariant(&*self);
        }
        match self.map.get(&chat) {
            Some(g) => *g,
            None => {
                let mut taken = GateTable::new();
                std::mem::swap(self, &mut taken);
                let GateTable { mut map } = taken;
                let gate = map.len();
                map.insert(chat, gate);
                *self = GateTable { map };
                gate
            },
        }
    }
}

/// Whether a message with `text` is taken up: with a prefix set, its
/// trimmed text has to start with the prefix.
pub open spec fn passes_filter(prefix: Option<Seq<char>>, text: Seq<char>) -> bool {
    match prefix {
        Some(p) => p.is_prefix_of(trimmed(text)),
        None => true,
    }
}

/// What the loop got from its channel.
pub enum Inbound {
    /// A message arrived.
    Message(MessageIn),
    /// All producers are gone: nothing will arrive any more.
    Closed,
}

/// What the loop does with what it got.
pub enum Intake {
    /// Leave the loop.
    Exit,
    /// Drop the message and receive the next.
    Discard,
    /// Start a task of its own for `input`, with the ordering gate `gate`
    /// of its chat, and receive the next without waiting for the task.
    Spawn { gate: usize, input: MessageIn },
}

/// What a task does once the pipeline has run.
pub enum Batch {
    /// Nothing to deliver: the task ends, and takes no gate.
    Nothing,
    /// Take the ordering gate of the chat, hand `outputs` to the sender hub
    /// in this order, one after the other, then release it.
    Deliver { outputs: Vec<MessageOut> },
}

impl Batch {
    /// What a task does with the `outputs` of the pipeline: nothing if there
    /// are none, else deliver them under the ordering gate of the chat.
    pub fn of(outputs: Vec<MessageOut>) -> (batch: Batch)
        ensures
            match batch {
                Batch::Nothing => outputs@.len() == 0,
                Batch::Deliver { outputs: o } => outputs@.len() > 0 && o == outputs,
            },
    {
        if outputs.len() == 0 {
            Batch::Nothing
        } else {
            Batch::Deliver { outputs }
        }
    }
}

/// The state of the dispatch loop: whether it still runs, and the table of
/// ordering gates, one per chat seen so far.
pub struct MessageDispatcher {
    pipeline: Arc<PipelineProcessor>,
    prefix: Option<String>,
    running: bool,
    table: GateTable,
}

impl MessageDispatcher {
    /// The pipeline that the tasks run.
    pub closed spec fn pipeline(&self) -> PipelineProcessor {
        *self.pipeline
    }

    /// The prefix of the filter, if one is set.
    pub closed spec fn spec_prefix(&self) -> Option<Seq<char>> {
        crate::model::opt_text(self.prefix)
    }

    /// Whether the loop still receives.
    pub closed spec fn spec_running(&self) -> bool {
        self.running
    }

    /// The number of the ordering gate of each chat seen so far, by the key
    /// of the chat.
    pub closed spec fn gates(&self) -> Map<i128, usize> {
        self.table.gates()
    }

    /// A running dispatcher that filters by `prefix` and has no gate yet.
    pub fn new(pipeline: PipelineProcessor, prefix: String) -> (d: Self)
        ensures
            d.pipeline() == pipeline,
            d.spec_prefix() == Some(prefix@),
            d.spec_running(),
            d.gates() == Map::<i128, usize>::empty(),
    {
        Self {
            pipeline: Arc::new(pipeline),
            prefix: Some(prefix),
            running: true,
            table: GateTable::new(),
        }
    }

    /// The pipeline, to be shared with the tasks: they run it without
    /// holding on to the dispatcher.
    pub fn shared_pipeline(&self) -> (p: Arc<PipelineProcessor>)
        ensures
            *p == self.pipeline(),
    {
        self.pipeline.clone()
    }

    /// Stops the intake, for good. Gates, filter and pipeline stay, so tasks
    /// that were started go on to their end.
    pub fn stop(&mut self)
        ensures
            !final(self).spec_running(),
            final(self).gates() == old(self).gates(),
            final(self).spec_prefix() == old(self).spec_prefix(),
            final(self).pipeline() == old(self).pipeline(),
    {
        self.running = false;
    }

    /// Whether the loop still receives.
    pub fn is_running(&self) -> (b: bool)
        ensures
            b == self.spec_running(),
    {
        self.running
    }

    /// How many gates there are.
    pub fn gate_count(&self) -> (n: usize)
        ensures
            n == self.gates().len(),
            gates_distinct(self.gates()),
    {
        self.table.len()
    }

    /// Whether `input` passes the filter.
    pub fn accepts(&self, input: &MessageIn) -> (b: bool)
        ensures
            b == passes_filter(self.spec_prefix(), input@.text),
    {
        match &self.prefix {
            None => true,
            Some(p) => {
                let t = trim(input.text.as_str());
                let tv = chars_of(t.as_str());
                let pv = chars_of(p.as_str());
                starts_with(tv.as_slice(), pv.as_slice())
            },
        }
    }

    /// The ordering gate of the chat that `addr` names, by platform and
    /// number: the one it has, or a new one with the next number. No chat
    /// ever loses its gate or gets another.
    pub fn gate_for(&mut self, addr: &Address) -> (gate: usize)
        ensures
            final(self).spec_running() == old(self).spec_running(),
            final(self).spec_prefix() == old(self).spec_prefix(),
            final(self).pipeline() == old(self).pipeline(),
            final(self).gates() == gates_after(
                old(self).gates(),
                chat_key(addr.platform, addr.chat_id),
            ),
            final(self).gates().contains_key(chat_key(addr.platform, addr.chat_id)),
            final(self).gates()[chat_key(addr.platform, addr.chat_id)] == gate,
            gates_distinct(final(self).gates()),
    {
        self.table.gate_for(key_of(addr))
    }

    /// One turn of the loop. A closed channel ends it; a message that does
    /// not pass the filter is dropped before anything else is done; any
    /// other message gets the ordering gate of its chat and a task of its own.
    pub fn step(&mut self, event: Inbound) -> (intake: Intake)
        ensures
            final(self).spec_running() == old(self).spec_running(),
            final(self).spec_prefix() == old(self).spec_prefix(),
            final(self).pipeline() == old(self).pipeline(),
            match event {
                Inbound::Closed => intake is Exit && final(self).gates() == old(self).gates(),
                Inbound::Message(m) => if passes_filter(old(self).spec_prefix(), m@.text) {
                    &&& intake matches Intake::Spawn { gate, input }
                    &&& input == m
                    &&& final(self).gates() == gates_after(
                        old(self).gates(),
                        chat_key(m@.addr.platform, m@.addr.chat_id),
                    )
                    &&& final(self).gates()[chat_key(m@.addr.platform, m@.addr.chat_id)] == gate
                    &&& gates_distinct(final(self).gates())
                } else {
                    intake is Discard && final(self).gates() == old(self).gates()
                },
            },
    {
        match event {
            Inbound::Closed => Intake::Exit,
            Inbound::Message(input) => {
                if !self.accepts(&input) {
                    return Intake::Discard;
                }
                let gate = self.gate_for(&input.addr);
                Intake::Spawn { gate, input }
            },
        }
    }

    /// The work of one task: runs the pipeline on `input` to its end and
    /// says what is to be delivered under the ordering gate of the chat.
    pub fn process(&self, input: MessageIn) -> (batch: Batch)
        ensures
            match batch {
                Batch::Nothing => self.pipeline().spec_handle(input@).len() == 0,
                Batch::Deliver { outputs } => outputs@.len() > 0 && outs_view(outputs@)
                    == self.pipeline().spec_handle(input@),
            },
    {
        Batch::of(self.pipeline.handle(input))
    }

    /// The work of one task, with the request of the GitHub API that the
    /// command makes, if it makes one.
    pub fn process_with_call(&self, input: MessageIn) -> (r: Handled)
        ensures
            outs_view(r.outputs@) == self.pipeline().spec_handle(input@),
            opt_call(r.call) == requested(
                input@,
                self.pipeline().processor().spec_prefix(),
                self.pipeline().processor().grammar(),
            ),
    {
        self.pipeline.handle_with_call(input)
    }
}

/// Two chats have the same key only if they are on the same platform and
/// have the same number there.
pub proof fn lemma_chat_key_injective(p: ChatPlatform, c: i64, q: ChatPlatform, d: i64)
    ensures
        chat_key(p, c) == chat_key(q, d) <==> p == q && c == d,
{
}

/// Two chats never share a gate, be it that they differ in platform or in
/// number.
pub proof fn lemma_distinct_chats_distinct_gates(gates: Map<i128, usize>, a: Address, b: Address)
    requires
        gates_distinct(gates),
        gates.contains_key(chat_key(a.platform, a.chat_id)),
        gates.contains_key(chat_key(b.platform, b.chat_id)),
        a.platform != b.platform || a.chat_id != b.chat_id,
    ensures
        gates[chat_key(a.platform, a.chat_id)] != gates[chat_key(b.platform, b.chat_id)],
{
    lemma_chat_key_injective(a.platform, a.chat_id, b.platform, b.chat_id);
}

/// A chat keeps its gate whichever chat asks for a gate after it.
pub proof fn lemma_gate_is_kept(gates: Map<i128, usize>, chat: i128, later: i128)
    requires
        gates.contains_key(chat),
    ensures
        gates_after(gates, later).contains_key(chat),
        gates_after(gates, later)[chat] == gates[chat],
{
}

/// New gates keep the gates distinct.
pub proof fn lemma_gates_stay_distinct(gates: Map<i128, usize>, chat_id: i128)
    requires
        gates_distinct(gates),
        gates.len() < usize::MAX,
    ensures
        gates_distinct(gates_after(gates, chat_id)),
{
    if !gates.contains_key(chat_id) {
        let n = gates_after(gates, chat_id);
        assert(n.len() == gates.len() + 1);
        assert forall|c: i128| n.contains_key(c) implies (#[trigger] n[c]) < n.len() by {
            if c != chat_id {
                assert(gates.contains_key(c));
                assert(gates[c] < gates.len());
            }
        }
        assert forall|a: i128, b: i128|
            n.contains_key(a) && n.contains_key(b) && a != b implies (#[trigger] n[a]) != (
        #[trigger] n[b]) by {
            if a != chat_id {
                assert(gates.contains_key(a));
                assert(gates[a] < gates.len());
            }
            if b != chat_id {
                assert(gates.contains_key(b));
                assert(gates[b] < gates.len());
            }
        }
    }
}

} // verus!
