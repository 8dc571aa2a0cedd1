//! The commands of the gateway, built once and read from then on.

use crate::commands::github::GitHubCommand;
use crate::commands::help::HelpCommand;
use crate::commands::ping::PingCommand;
use crate::config::AppProperties;
use crate::dispatcher::{clash_error, CommandDispatcher, GrammarError, NodeView};
use vstd::prelude::*;

verus! {

/// The handlers that the grammar of the built-in commands names.
#[derive(Debug, Clone, Copy, PartialEq, Eq, Structural)]
pub enum Handler {
    Ping,
    Help,
    GithubUsage,
    GithubUser,
    GithubRepo,
    GithubSearch,
}

/// What a command tells about itself, and how it enters the grammar.
pub trait BotCommand {
    spec fn spec_name(&self) -> Seq<char>;

    spec fn spec_description(&self) -> Seq<char>;

    spec fn spec_usage(&self) -> Seq<char>;

    spec fn spec_visible(&self) -> bool;

    /// The grammar of the command.
    spec fn spec_subtree(&self) -> NodeView<Handler>;

    fn name(&self) -> (r: &'static str)
        ensures
            r@ == self.spec_name(),
    ;

    fn description(&self) -> (r: &'static str)
        ensures
            r@ == self.spec_description(),
    ;

    fn usage(&self) -> (r: &'static str)
        ensures
            r@ == self.spec_usage(),
    ;

    /// Whether listings show the command.
    fn visible(&self) -> (r: bool)
        ensures
            r == self.spec_visible(),
    ;

    /// Adds the grammar of the command to `d`. Refused, and `d` stays as it
    /// was, if `d` already holds a command that clashes with it.
    fn register(&self, d: &mut CommandDispatcher<Handler>) -> (r: Result<(), GrammarError>)
        ensures
            final(d)@.wf(),
            match r {
                Ok(()) => !old(d)@.has_clash(self.spec_subtree().matcher)
                    && final(d)@ == old(d)@.with_child(self.spec_subtree()),
                Err(e) => old(d)@.has_clash(self.spec_subtree().matcher) && final(d)@ == old(d)@
                    && e == clash_error(self.spec_subtree().matcher),
            },
    ;
}

/// One of the built-in commands.
#[derive(Debug, Clone)]
pub enum Command {
    Ping(PingCommand),
    GitHub(GitHubCommand),
    Help(HelpCommand),
}

impl BotCommand for Command {
    open spec fn spec_name(&self) -> Seq<char> {
        match self {
            Command::Ping(c) => c.spec_name(),
            Command::GitHub(c) => c.spec_name(),
            Command::Help(c) => c.spec_name(),
        }
    }

    open spec fn spec_description(&self) -> Seq<char> {
        match self {
            Command::Ping(c) => c.spec_description(),
            Command::GitHub(c) => c.spec_description(),
            Command::Help(c) => c.spec_description(),
        }
    }

    open spec fn spec_usage(&self) -> Seq<char> {
        match self {
            Command::Ping(c) => c.spec_usage(),
            Command::GitHub(c) => c.spec_usage(),
            Command::Help(c) => c.spec_usage(),
        }
    }

    open spec fn spec_visible(&self) -> bool {
        match self {
            Command::Ping(c) => c.spec_visible(),
            Command::GitHub(c) => c.spec_visible(),
            Command::Help(c) => c.spec_visible(),
        }
    }

    open spec fn spec_subtree(&self) -> NodeView<Handler> {
        match self {
            Command::Ping(c) => c.spec_subtree(),
            Command::GitHub(c) => c.spec_subtree(),
            Command::Help(c) => c.spec_subtree(),
        }
    }

    fn name(&self) -> &'static str {
        match self {
            Command::Ping(c) => c.name(),
            Command::GitHub(c) => c.name(),
            Command::Help(c) => c.name(),
        }
    }

    fn description(&self) -> &'static str {
        match self {
            Command::Ping(c) => c.description(),
            Command::GitHub(c) => c.description(),
            Command::Help(c) => c.description(),
        }
    }

    fn usage(&self) -> &'static str {
        match self {
            Command::Ping(c) => c.usage(),
            Command::GitHub(c) => c.usage(),
            Command::Help(c) => c.usage(),
        }
    }

    fn visible(&self) -> bool {
        match self {
            Command::Ping(c) => c.visible(),
            Command::GitHub(c) => c.visible(),
            Command::Help(c) => c.visible(),
        }
    }

    fn register(&self, d: &mut CommandDispatcher<Handler>) -> (r: Result<(), GrammarError>) {
        match self {
            Command::Ping(c) => c.register(d),
            Command::GitHub(c) => c.register(d),
            Command::Help(c) => c.register(d),
        }
    }
}

/// What listings show of one command.
#[derive(Debug, Clone, Copy)]
pub struct CommandDescriptor {
    pub name: &'static str,
    pub description: &'static str,
    pub usage: &'static str,
    pub visible: bool,
}

impl CommandDescriptor {
    /// Whether this is the descriptor of `c`.
    pub open spec fn describes(self, c: Command) -> bool {
        &&& self.name@ == c.spec_name()
        &&& self.description@ == c.spec_description()
        &&& self.usage@ == c.spec_usage()
        &&& self.visible == c.spec_visible()
    }
}

/// The names of `cmds`, in order.
pub open spec fn names(cmds: Seq<Command>) -> Seq<Seq<char>> {
    cmds.map_values(|c: Command| c.spec_name())
}

/// The commands of the gateway, in the order in which they are listed and
/// registered.
pub struct CommandRegistry {
    cmds: Vec<Command>,
}

impl CommandRegistry {
    /// The commands, in order.
    pub closed spec fn commands(&self) -> Seq<Command> {
        self.cmds@
    }

    /// A registry without commands.
    pub fn new() -> (r: Self)
        ensures
            r.commands() == Seq::<Command>::empty(),
    {
        Self { cmds: Vec::new() }
    }

    /// The registry of the built-in commands: `ping`, `github` with the
    /// token of the settings, and `help`, which lists with the prefix of the
    /// settings.
    pub fn build(props: &AppProperties) -> (r: Self)
        ensures
            r.commands().len() == 3,
            r.commands()[0] is Ping,
            r.commands()[1] matches Command::GitHub(g) && g.spec_token()
                == crate::commands::github::GitHubApi::normalized_token(
                Some(props.commands.github.token@),
            ),
            r.commands()[2] matches Command::Help(h) && h.spec_prefix() == props.prefix@,
    {
        let help = HelpCommand::new(props.prefix.as_str());
        let github = GitHubCommand::new(Some(props.commands.github.token.clone()));
        let mut cmds: Vec<Command> = Vec::new();
        cmds.push(Command::Ping(PingCommand));
        cmds.push(Command::GitHub(github));
        cmds.push(Command::Help(help));
        Self { cmds }
    }

    /// The commands, in order.
    pub fn all(&self) -> (r: &Vec<Command>)
        ensures
            r@ == self.commands(),
    {
        &self.cmds
    }

    /// What listings show of each command, in order.
    pub fn descriptors(&self) -> (r: Vec<CommandDescriptor>)
        ensures
            r@.len() == self.commands().len(),
            forall|i: int| 0 <= i < r@.len() ==> (#[trigger] r@[i]).describes(self.commands()[i]),
    {
        let mut r: Vec<CommandDescriptor> = Vec::new();
        let mut i: usize = 0;
        while i < self.cmds.len()
            invariant
                i <= self.cmds@.len(),
                r@.len() == i,
                forall|k: int| 0 <= k < i ==> (#[trigger] r@[k]).describes(self.cmds@[k]),
            decreases self.cmds@.len() - i,
        {
            let c = &self.cmds[i];
            r.push(
                CommandDescriptor {
                    name: c.name(),
                    description: c.description(),
                    usage: c.usage(),
                    visible: c.visible(),
                },
            );
            i += 1;
        }
        r
    }

    /// The names of the commands, in order, with `, ` between them.
    pub fn list_commands(&self) -> (r: String)
        ensures
            r@ == crate::text::joined(names(self.commands()), ", "@),
    {
        let mut r = String::new();
        let mut i: usize = 0;
        assert(names(self.cmds@).take(0) =~= Seq::empty());
        while i < self.cmds.len()
            invariant
                i <= self.cmds@.len(),
                r@ == crate::text::joined(names(self.cmds@).take(i as int), ", "@),
            decreases self.cmds@.len() - i,
        {
            let ghost done = names(self.cmds@).take(i as int);
            let ghost next = names(self.cmds@).take(i as int + 1);
            assert(next.drop_last() =~= done);
            assert(next.last() == self.cmds@[i as int].spec_name());
            if i > 0 {
                r.append(", ");
            }
            r.append(self.cmds[i].name());
            assert(r@ =~= crate::text::joined(next, ", "@));
            i += 1;
        }
        assert(names(self.cmds@).take(i as int) =~= names(self.cmds@));
        r
    }
}

} // verus!
