//! The stages between an inbound message and its replies. There is one
//! today, the command processor; others would be put before or after it.

use crate::command_processor::{handled, registered, requested, CommandProcessor, Handled};
use crate::command_registry::{Command, CommandRegistry, Handler};
use crate::commands::github::opt_call;
use crate::config::AppProperties;
use crate::dispatcher::{GrammarError, NodeView};
use crate::model::{outs_view, MessageIn, MessageInView, MessageOut, MessageOutView};
use vstd::prelude::*;

verus! {

/// Runs an inbound message through the stages.
pub struct PipelineProcessor {
    cmd: CommandProcessor,
}

impl PipelineProcessor {
    /// The command stage.
    pub closed spec fn processor(&self) -> CommandProcessor {
        self.cmd
    }

    /// What the pipeline replies to `input`.
    pub open spec fn spec_handle(&self, input: MessageInView) -> Seq<MessageOutView> {
        handled(
            input,
            self.processor().spec_prefix(),
            self.processor().grammar(),
            self.processor().commands(),
        )
    }

    /// A pipeline whose command stage is `CommandProcessor::new(props,
    /// registry)`; refused when that is refused.
    pub fn new(props: &AppProperties, registry: CommandRegistry) -> (r: Result<Self, GrammarError>)
        ensures
            match r {
                Ok(p) => registered(registry.commands()) == Ok::<NodeView<Handler>, GrammarError>(
                    p.processor().grammar(),
                ) && p.processor().spec_prefix() == props.prefix@ && p.processor().commands()
                    == registry.commands(),
                Err(e) => registered(registry.commands()) == Err::<
                    NodeView<Handler>,
                    GrammarError,
                >(e),
            },
    {
        match CommandProcessor::new(props, registry) {
            Ok(cmd) => Ok(Self { cmd }),
            Err(e) => Err(e),
        }
    }

    /// Replies to `input` as the command stage does.
    pub fn handle(&self, input: MessageIn) -> (outs: Vec<MessageOut>)
        ensures
            outs_view(outs@) == self.spec_handle(input@),
    {
        self.cmd.handle(input)
    }

    /// Replies to `input` as `handle` does, and says which request of the
    /// GitHub API the command makes, if it makes one.
    pub fn handle_with_call(&self, input: MessageIn) -> (r: Handled)
        ensures
            outs_view(r.outputs@) == self.spec_handle(input@),
            opt_call(r.call) == requested(
                input@,
                self.processor().spec_prefix(),
                self.processor().grammar(),
            ),
    {
        self.cmd.handle_with_call(input)
    }
}

} // verus!
