//! `ping`: answers `PONG`.

use crate::command_registry::{BotCommand, Handler};
use crate::command_source::{CommandSource, CommandSourceView};
use crate::dispatcher::{CommandDispatcher, GrammarError, MatcherView, Node, NodeView};
use vstd::prelude::*;

verus! {

/// The command `ping`.
#[derive(Debug, Clone, Copy)]
pub struct PingCommand;

impl PingCommand {
    /// The grammar of `ping`: the one literal, which runs the handler.
    pub open spec fn spec_subtree() -> NodeView<Handler> {
        NodeView {
            matcher: MatcherView::Literal("ping"@),
            handler: Some(Handler::Ping),
            children: Seq::empty(),
        }
    }

    /// What the handler does: one reply, `PONG`.
    pub open spec fn spec_run(before: CommandSourceView) -> CommandSourceView {
        before.replied("PONG"@)
    }

    /// The handler: replies `PONG` to the chat that asked.
    pub fn run(source: &mut CommandSource) -> (count: i32)
        ensures
            count == 1,
            final(source)@ == Self::spec_run(old(source)@),
    {
        source.reply("PONG");
        1
    }

    /// The grammar of `ping`.
    pub fn subtree() -> (r: Result<Node<Handler>, GrammarError>)
        ensures
            r matches Ok(n) && n@ == Self::spec_subtree(),
    {
        proof {
            lemma_ping_is_word();
        }
        match Node::literal("ping") {
            Ok(n) => Ok(n.executes(Handler::Ping)),
            Err(e) => Err(e),
        }
    }
}

/// `ping` is one word.
pub proof fn lemma_ping_is_word()
    ensures
        crate::text::is_word("ping"@),
{
    reveal_strlit("ping");
    assert("ping"@.len() == 4);
}

impl BotCommand for PingCommand {
    open spec fn spec_name(&self) -> Seq<char> {
        "ping"@
    }

    open spec fn spec_description(&self) -> Seq<char> {
        "Ping command"@
    }

    open spec fn spec_usage(&self) -> Seq<char> {
        "ping"@
    }

    open spec fn spec_visible(&self) -> bool {
        true
    }

    open spec fn spec_subtree(&self) -> NodeView<Handler> {
        PingCommand::spec_subtree()
    }

    fn name(&self) -> &'static str {
        "ping"
    }

    fn description(&self) -> &'static str {
        "Ping command"
    }

    fn usage(&self) -> &'static str {
        "ping"
    }

    fn visible(&self) -> bool {
        true
    }

    fn register(&self, d: &mut CommandDispatcher<Handler>) -> (r: Result<(), GrammarError>) {
        match PingCommand::subtree() {
            Ok(n) => d.register(n),
            Err(e) => Err(e),
        }
    }
}

} // verus!
