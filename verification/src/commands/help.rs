//! `help`: lists the visible commands.

use crate::command_registry::{BotCommand, Command, CommandRegistry, Handler};
use crate::command_source::{CommandSource, CommandSourceView};
use crate::dispatcher::{CommandDispatcher, GrammarError, MatcherView, Node, NodeView};
use crate::text::{chars_of, string_of, trim_bounds, trimmed};
use vstd::prelude::*;

verus! {

/// The line of `c` in the listing: prefix, name, ` - `, description and a
/// line feed; nothing for a command that is not visible.
pub open spec fn help_line(c: Command, prefix: Seq<char>) -> Seq<char> {
    if c.spec_visible() {
        prefix + c.spec_name() + " - "@ + c.spec_description() + "\n"@
    } else {
        Seq::empty()
    }
}

/// The lines of `cmds` in the listing, in order.
pub open spec fn help_lines(cmds: Seq<Command>, prefix: Seq<char>) -> Seq<char>
    decreases cmds.len(),
{
    if cmds.len() == 0 {
        Seq::empty()
    } else {
        help_lines(cmds.drop_last(), prefix) + help_line(cmds.last(), prefix)
    }
}

/// The reply of `help`: the listing of `cmds`, or, without a registry, the
/// note that there is none.
pub open spec fn help_text(cmds: Option<Seq<Command>>, prefix: Seq<char>) -> Seq<char> {
    match cmds {
        None => "命令系统未初始化。"@,
        Some(cmds) => trimmed(
            "可用命令：\n"@ + help_lines(cmds, prefix)
                + "\n使用 `/help <command>` 查看具体命令的用法。"@,
        ),
    }
}

/// The command `help`.
#[derive(Debug, Clone)]
pub struct HelpCommand {
    prefix: String,
}

impl HelpCommand {
    /// The prefix that the listing puts before each name.
    pub closed spec fn spec_prefix(&self) -> Seq<char> {
        self.prefix@
    }

    /// The grammar of `help`: the one literal, which runs the handler.
    pub open spec fn spec_subtree() -> NodeView<Handler> {
        NodeView {
            matcher: MatcherView::Literal("help"@),
            handler: Some(Handler::Help),
            children: Seq::empty(),
        }
    }

    /// A `help` that lists with `prefix`.
    pub fn new(prefix: &str) -> (h: Self)
        ensures
            h.spec_prefix() == prefix@,
    {
        Self { prefix: prefix.to_owned() }
    }

    /// The prefix that the listing puts before each name.
    pub fn prefix(&self) -> (p: &str)
        ensures
            p@ == self.spec_prefix(),
    {
        self.prefix.as_str()
    }

    /// The reply of `help` for the commands of `registry`, listed with
    /// `prefix`.
    pub fn render(prefix: &str, registry: Option<&CommandRegistry>) -> (r: String)
        ensures
            r@ == help_text(
                match registry {
                    Some(reg) => Some(reg.commands()),
                    None => None,
                },
                prefix@,
            ),
    {
        let reg = match registry {
            Some(reg) => reg,
            None => {
                return "命令系统未初始化。".to_owned();
            },
        };
        let cmds = reg.all();
        let mut sb = "可用命令：\n".to_owned();
        let mut i: usize = 0;
        assert(cmds@.take(0) =~= Seq::<Command>::empty());
        while i < cmds.len()
            invariant
                i <= cmds@.len(),
                sb@ == "可用命令：\n"@ + help_lines(cmds@.take(i as int), prefix@),
            decreases cmds@.len() - i,
        {
            let c = &cmds[i];
            let ghost next = cmds@.take(i as int + 1);
            assert(next.drop_last() =~= cmds@.take(i as int));
            assert(next.last() == cmds@[i as int]);
            if c.visible() {
                sb.append(prefix);
                sb.append(c.name());
                sb.append(" - ");
                sb.append(c.description());
                sb.append("\n");
            }
            assert(sb@ =~= "可用命令：\n"@ + help_lines(next, prefix@));
            i += 1;
        }
        assert(cmds@.take(i as int) =~= cmds@);
        sb.append("\n使用 `/help <command>` 查看具体命令的用法。");
        let v = chars_of(sb.as_str());
        let (from, to) = trim_bounds(v.as_slice());
        string_of(v.as_slice(), from, to)
    }

    /// What the handler does: one reply, the listing.
    pub open spec fn spec_run(
        before: CommandSourceView,
        cmds: Option<Seq<Command>>,
        prefix: Seq<char>,
    ) -> CommandSourceView {
        before.replied(help_text(cmds, prefix))
    }

    /// The handler: replies with the listing of the commands of `registry`.
    pub fn run(source: &mut CommandSource, prefix: &str, registry: Option<&CommandRegistry>) -> (count:
        i32)
        ensures
            count == 1,
            final(source)@ == Self::spec_run(
                old(source)@,
                match registry {
                    Some(reg) => Some(reg.commands()),
                    None => None,
                },
                prefix@,
            ),
    {
        let text = Self::render(prefix, registry);
        source.reply(text.as_str());
        1
    }

    /// The grammar of `help`.
    pub fn subtree() -> (r: Result<Node<Handler>, GrammarError>)
        ensures
            r matches Ok(n) && n@ == Self::spec_subtree(),
    {
        proof {
            lemma_help_is_word();
        }
        match Node::literal("help") {
            Ok(n) => Ok(n.executes(Handler::Help)),
            Err(e) => Err(e),
        }
    }
}

/// `help` is one word.
pub proof fn lemma_help_is_word()
    ensures
        crate::text::is_word("help"@),
{
    reveal_strlit("help");
    assert("help"@.len() == 4);
}

impl BotCommand for HelpCommand {
    open spec fn spec_name(&self) -> Seq<char> {
        "help"@
    }

    open spec fn spec_description(&self) -> Seq<char> {
        "列出可用命令或其详细用法"@
    }

    open spec fn spec_usage(&self) -> Seq<char> {
        "用法：\n`/help`           # 列出所有可用命令\n`/help <command>` # 显示指定命令的用法\n"@
    }

    open spec fn spec_visible(&self) -> bool {
        true
    }

    open spec fn spec_subtree(&self) -> NodeView<Handler> {
        HelpCommand::spec_subtree()
    }

    fn name(&self) -> &'static str {
        "help"
    }

    fn description(&self) -> &'static str {
        "列出可用命令或其详细用法"
    }

    fn usage(&self) -> &'static str {
        "用法：\n`/help`           # 列出所有可用命令\n`/help <command>` # 显示指定命令的用法\n"
    }

    fn visible(&self) -> bool {
        true
    }

    fn register(&self, d: &mut CommandDispatcher<Handler>) -> (r: Result<(), GrammarError>) {
        match HelpCommand::subtree() {
            Ok(n) => d.register(n),
            Err(e) => Err(e),
        }
    }
}

} // verus!
