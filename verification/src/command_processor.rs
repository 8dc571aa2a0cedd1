//! From an inbound message to its replies: strips the prefix, has the
//! grammar find the handler, runs it and gathers what it replied.

use crate::command_registry::{BotCommand, Command, CommandRegistry, Handler};
use crate::command_source::{CommandSource, CommandSourceView};
use crate::commands::github::{call_of, github_usage, opt_call, GitHubCommand, GithubCall, GithubCallView};
use crate::commands::help::{help_text, HelpCommand};
use crate::commands::ping::PingCommand;
use crate::config::AppProperties;
use crate::dispatcher::{
    clash_error, resolve_line, CommandDispatcher, CommandExecutor, GrammarError, Invocation,
    InvocationView, MatcherView, NodeView,
};
use crate::model::{outs_view, MessageIn, MessageInView, MessageOut, MessageOutView};
use crate::text::{chars_of, starts_with, string_of, trim, trimmed};
use vstd::prelude::*;

verus! {

/// The command line in `text`: what follows the prefix, without the white
/// space around either; none if the trimmed text does not start with the
/// prefix.
pub open spec fn command_line(text: Seq<char>, prefix: Seq<char>) -> Option<Seq<char>> {
    let t = trimmed(text);
    if prefix.is_prefix_of(t) {
        Some(trimmed(t.skip(prefix.len() as int)))
    } else {
        None
    }
}

/// The grammar with no command.
pub open spec fn empty_grammar() -> NodeView<Handler> {
    NodeView { matcher: MatcherView::Root, handler: None, children: Seq::empty() }
}

/// The grammar after the commands `cmds` were registered in order, or the
/// error of the first of them that clashes with one before it.
pub open spec fn registered(cmds: Seq<Command>) -> Result<NodeView<Handler>, GrammarError>
    decreases cmds.len(),
{
    if cmds.len() == 0 {
        Ok(empty_grammar())
    } else {
        match registered(cmds.drop_last()) {
            Ok(g) => if g.has_clash(cmds.last().spec_subtree().matcher) {
                Err(clash_error(cmds.last().spec_subtree().matcher))
            } else {
                Ok(g.with_child(cmds.last().spec_subtree()))
            },
            Err(e) => Err(e),
        }
    }
}

/// What a handler does to the source, for listings made with `prefix` of the
/// commands `cmds`: the count it returns and the source it leaves.
pub open spec fn handler_outcome(
    inv: InvocationView<Handler>,
    before: CommandSourceView,
    prefix: Seq<char>,
    cmds: Seq<Command>,
) -> (i32, CommandSourceView) {
    match inv.handler {
        Handler::Ping => (1, PingCommand::spec_run(before)),
        Handler::Help => (1, HelpCommand::spec_run(before, Some(cmds), prefix)),
        Handler::GithubUsage => (1, before.replied(github_usage())),
        Handler::GithubUser => (1, before),
        Handler::GithubRepo => (1, before),
        Handler::GithubSearch => (1, before),
    }
}

/// The text of the reply to a line that led to no handler.
pub open spec fn error_reply(message: Seq<char>) -> Seq<char> {
    "命令错误: "@ + message
}

/// What `handle` makes of `input`, for a processor with the given prefix,
/// grammar and commands: the replies, in order.
pub open spec fn handled(
    input: MessageInView,
    prefix: Seq<char>,
    grammar: NodeView<Handler>,
    cmds: Seq<Command>,
) -> Seq<MessageOutView> {
    match command_line(input.text, prefix) {
        None => Seq::empty(),
        Some(line) => {
            let source = CommandSourceView { in_msg: input, outs: Seq::empty() };
            match resolve_line(grammar, line) {
                Ok(inv) => handler_outcome(inv, source, prefix, cmds).1.outs,
                Err(e) => source.replied(error_reply(e.message())).outs,
            }
        },
    }
}

/// The request of the API that `input` asks for, if any.
pub open spec fn requested(input: MessageInView, prefix: Seq<char>, grammar: NodeView<Handler>)
    -> Option<GithubCallView> {
    match command_line(input.text, prefix) {
        None => None,
        Some(line) => match resolve_line(grammar, line) {
            Ok(inv) => call_of(inv),
            Err(e) => None,
        },
    }
}

/// The replies to a message and the request that its command makes of the
/// GitHub API, if it makes one.
pub struct Handled {
    pub outputs: Vec<MessageOut>,
    pub call: Option<GithubCall>,
}

/// Turns inbound messages into replies.
pub struct CommandProcessor {
    prefix: String,
    dispatcher: CommandDispatcher<Handler>,
    registry: CommandRegistry,
}

impl CommandExecutor<Handler> for CommandProcessor {
    open spec fn outcome(&self, inv: InvocationView<Handler>, before: CommandSourceView) -> (
        i32,
        CommandSourceView,
    ) {
        handler_outcome(inv, before, self.spec_prefix(), self.commands())
    }

    fn run(&self, inv: &Invocation<Handler>, source: &mut CommandSource) -> (count: i32) {
        match inv.handler {
            Handler::Ping => PingCommand::run(source),
            Handler::Help => HelpCommand::run(source, self.prefix.as_str(), Some(&self.registry)),
            Handler::GithubUsage => {
                source.reply(GitHubCommand::usage_text());
                1
            },
            Handler::GithubUser => 1,
            Handler::GithubRepo => 1,
            Handler::GithubSearch => 1,
        }
    }
}

impl CommandProcessor {
    /// The prefix that marks a message as a command.
    pub closed spec fn spec_prefix(&self) -> Seq<char> {
        self.prefix@
    }

    /// The grammar of the registered commands.
    pub closed spec fn grammar(&self) -> NodeView<Handler> {
        self.dispatcher@
    }

    /// The commands, in the order of the registry.
    pub closed spec fn commands(&self) -> Seq<Command> {
        self.registry.commands()
    }

    /// A processor for the prefix of `props`, with every command of
    /// `registry` registered in order. Refused if two commands clash.
    pub fn new(props: &AppProperties, registry: CommandRegistry) -> (r: Result<Self, GrammarError>)
        ensures
            match r {
                Ok(p) => registered(registry.commands()) == Ok::<NodeView<Handler>, GrammarError>(
                    p.grammar(),
                ) && p.spec_prefix() == props.prefix@ && p.commands() == registry.commands(),
                Err(e) => registered(registry.commands()) == Err::<
                    NodeView<Handler>,
                    GrammarError,
                >(e),
            },
    {
        let mut dispatcher = CommandDispatcher::<Handler>::new();
        let cmds = registry.all();
        let mut i: usize = 0;
        assert(cmds@.take(0) =~= Seq::<Command>::empty());
        while i < cmds.len()
            invariant
                i <= cmds@.len(),
                cmds@ == registry.commands(),
                registered(cmds@.take(i as int)) == Ok::<NodeView<Handler>, GrammarError>(
                    dispatcher@,
                ),
            decreases cmds@.len() - i,
        {
            let ghost next = cmds@.take(i as int + 1);
            assert(next.drop_last() =~= cmds@.take(i as int));
            assert(next.last() == cmds@[i as int]);
            match cmds[i].register(&mut dispatcher) {
                Ok(()) => {},
                Err(e) => {
                    proof {
                        lemma_registered_fails_on(cmds@, i as int + 1);
                    }
                    return Err(e);
                },
            }
            i += 1;
        }
        assert(cmds@.take(i as int) =~= cmds@);
        Ok(Self { prefix: props.prefix.clone(), dispatcher, registry })
    }

    /// The command line in `text`, if `text` is a command.
    pub fn command_line_of(&self, text: &str) -> (r: Option<String>)
        ensures
            crate::model::opt_text(r) == command_line(text@, self.spec_prefix()),
    {
        let t = trim(text);
        let tv = chars_of(t.as_str());
        let pv = chars_of(self.prefix.as_str());
        if !starts_with(tv.as_slice(), pv.as_slice()) {
            return None;
        }
        let rest = string_of(tv.as_slice(), pv.len(), tv.len());
        Some(trim(rest.as_str()))
    }

    /// Replies to `input`. A message that is no command gets no reply; a
    /// command line that leads to no handler gets one reply that says why;
    /// otherwise the handler runs once and what it replied is returned.
    pub fn handle(&self, input: MessageIn) -> (outs: Vec<MessageOut>)
        ensures
            outs_view(outs@) == handled(
                input@,
                self.spec_prefix(),
                self.grammar(),
                self.commands(),
            ),
    {
        let line = match self.command_line_of(input.text.as_str()) {
            Some(line) => line,
            None => {
                let outs: Vec<MessageOut> = Vec::new();
                assert(outs_view(outs@) =~= Seq::empty());
                return outs;
            },
        };
        let mut source = CommandSource::new(input);
        match self.dispatcher.execute(line.as_str(), self, &mut source) {
            Ok(_) => {},
            Err(e) => {
                let mut text = "命令错误: ".to_owned();
                text.append(e.message().as_str());
                source.reply(text.as_str());
            },
        }
        source.take_outs()
    }

    /// Replies to `input` as `handle` does, and says which request of the
    /// GitHub API the command makes, if it makes one.
    pub fn handle_with_call(&self, input: MessageIn) -> (r: Handled)
        ensures
            outs_view(r.outputs@) == handled(
                input@,
                self.spec_prefix(),
                self.grammar(),
                self.commands(),
            ),
            opt_call(r.call) == requested(input@, self.spec_prefix(), self.grammar()),
    {
        let line = match self.command_line_of(input.text.as_str()) {
            Some(line) => line,
            None => {
                let outputs: Vec<MessageOut> = Vec::new();
                assert(outs_view(outputs@) =~= Seq::empty());
                return Handled { outputs, call: None };
            },
        };
        let mut source = CommandSource::new(input);
        let call = match self.dispatcher.parse(line.as_str()) {
            Ok(inv) => {
                let _ = self.run(&inv, &mut source);
                GitHubCommand::pending_call(&inv)
            },
            Err(e) => {
                let mut text = "命令错误: ".to_owned();
                text.append(e.message().as_str());
                source.reply(text.as_str());
                None
            },
        };
        Handled { outputs: source.take_outs(), call }
    }
}

/// Once a command clashes, registering more commands does not help: the
/// error stays that of the first clash.
pub proof fn lemma_registered_fails_on(cmds: Seq<Command>, n: int)
    requires
        0 <= n <= cmds.len(),
        registered(cmds.take(n)) is Err,
    ensures
        registered(cmds) == registered(cmds.take(n)),
    decreases cmds.len() - n,
{
    if n < cmds.len() {
        assert(cmds.take(n + 1).drop_last() =~= cmds.take(n));
        assert(registered(cmds.take(n + 1)) == registered(cmds.take(n)));
        lemma_registered_fails_on(cmds, n + 1);
    } else {
        assert(cmds.take(n) =~= cmds);
    }
}

} // verus!
