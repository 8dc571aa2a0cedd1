//! A dispatcher that knows `ping` alone, with errors as plain text.

use crate::command_processor::empty_grammar;
use crate::command_registry::{BotCommand, Handler};
use crate::command_source::{CommandSource, CommandSourceView};
use crate::commands::ping::PingCommand;
use crate::dispatcher::{
    resolve_line, CommandDispatcher, CommandExecutor, Invocation, InvocationView, NodeView,
};
use vstd::prelude::*;

verus! {

/// The text of the error for a line that led to no handler.
pub open spec fn failure_text(message: Seq<char>) -> Seq<char> {
    "Command execution failed: "@ + message
}

/// A grammar that holds `ping` and nothing else.
pub struct CommandDispatcherWrapper {
    dispatcher: CommandDispatcher<Handler>,
}

impl CommandExecutor<Handler> for CommandDispatcherWrapper {
    open spec fn outcome(&self, inv: InvocationView<Handler>, before: CommandSourceView) -> (
        i32,
        CommandSourceView,
    ) {
        match inv.handler {
            Handler::Ping => (1, PingCommand::spec_run(before)),
            _ => (1, before),
        }
    }

    fn run(&self, inv: &Invocation<Handler>, source: &mut CommandSource) -> (count: i32) {
        match inv.handler {
            Handler::Ping => PingCommand::run(source),
            _ => 1,
        }
    }
}

impl CommandDispatcherWrapper {
    /// The grammar.
    pub closed spec fn grammar(&self) -> NodeView<Handler> {
        self.dispatcher@
    }

    /// A dispatcher with `ping` registered.
    pub fn new() -> (w: Self)
        ensures
            w.grammar() == empty_grammar().with_child(PingCommand::spec_subtree()),
    {
        let mut dispatcher = CommandDispatcher::<Handler>::new();
        let ghost before = dispatcher@;
        assert(!before.has_clash(PingCommand::spec_subtree().matcher));
        let _ = PingCommand.register(&mut dispatcher);
        Self { dispatcher }
    }

    /// Runs the handler that `cmd_line` leads to, once, on `source`. A line
    /// that leads to none runs nothing and is answered with the reason.
    pub fn execute(&self, cmd_line: &str, source: &mut CommandSource) -> (r: Result<i32, String>)
        ensures
            match resolve_line(self.grammar(), cmd_line@) {
                Ok(inv) => r == Ok::<i32, String>(self.outcome(inv, old(source)@).0)
                    && final(source)@ == self.outcome(inv, old(source)@).1,
                Err(e) => (r matches Err(m) && m@ == failure_text(e.message())) && final(source)@
                    == old(source)@,
            },
    {
        match self.dispatcher.execute(cmd_line, self, source) {
            Ok(n) => Ok(n),
            Err(e) => {
                let mut m = "Command execution failed: ".to_owned();
                m.append(e.message().as_str());
                Err(m)
            },
        }
    }
}

} // verus!
