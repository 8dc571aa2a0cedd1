use azalea_brigadier::prelude::{argument, get_string, greedy_string, literal};
use lukosbot::command_registry::{BotCommand, CommandRegistry, Handler};
use lukosbot::commands::github::GitHubCommand;
use lukosbot::commands::help::HelpCommand;
use lukosbot::commands::ping::PingCommand;
use lukosbot::config::AppProperties;
use lukosbot::dispatcher::{CommandDispatcher, Invocation};
use std::sync::Mutex;

type Seen = Mutex<Vec<(Handler, Option<String>)>>;

fn sub(
    token: &str,
    arg: &'static str,
    h: Handler,
) -> azalea_brigadier::builder::argument_builder::ArgumentBuilder<Seen> {
    literal(token).then_built(
        argument(arg, greedy_string())
            .executes(move |ctx: &azalea_brigadier::context::CommandContext<Seen>| {
                ctx.source.lock().unwrap().push((h, get_string(ctx, arg)));
                1
            })
            .build(),
    )
}

fn tree_walker() -> azalea_brigadier::command_dispatcher::CommandDispatcher<Seen> {
    let mut d = azalea_brigadier::command_dispatcher::CommandDispatcher::<Seen>::new();
    d.register(literal("ping").executes(|ctx: &azalea_brigadier::context::CommandContext<Seen>| {
        ctx.source.lock().unwrap().push((Handler::Ping, None));
        1
    }));
    d.register(literal("help").executes(|ctx: &azalea_brigadier::context::CommandContext<Seen>| {
        ctx.source.lock().unwrap().push((Handler::Help, None));
        1
    }));
    d.register(
        literal("github")
            .then_built(sub("user", "username", Handler::GithubUser).build())
            .then_built(sub("repo", "repo", Handler::GithubRepo).build())
            .then_built(sub("search", "query", Handler::GithubSearch).build())
            .executes(|ctx: &azalea_brigadier::context::CommandContext<Seen>| {
                ctx.source.lock().unwrap().push((Handler::GithubUsage, None));
                1
            }),
    );
    d
}

fn grammar() -> CommandDispatcher<Handler> {
    let mut d = CommandDispatcher::new();
    d.register(PingCommand::subtree().unwrap()).unwrap();
    d.register(GitHubCommand::subtree().unwrap()).unwrap();
    d.register(HelpCommand::subtree().unwrap()).unwrap();
    d
}

fn seen(inv: &Invocation<Handler>) -> (Handler, Option<String>) {
    (inv.handler, inv.args.last().map(|p| p.1.clone()))
}

#[test]
fn walk_agrees_with_brigadier_on_single_spaced_lines() {
    let theirs = tree_walker();
    let ours = grammar();
    for line in [
        "ping",
        "help",
        "github",
        "github user octocat",
        "github user The Octo Cat",
        "github repo rust-lang/rust",
        "github search lukosbot --top=5 --lang=java",
        "github user",
        "github nope",
        "github userx y",
        "ping pong",
        "pin",
        "pingg",
        "Ping",
        "unknown-cmd",
        "",
    ] {
        let expected = theirs.execute(line, Mutex::new(Vec::new())).is_ok();
        assert_eq!(ours.parse(line).is_ok(), expected, "{:?}", line);
    }
}

#[test]
fn handlers_and_bindings_agree_with_brigadier() {
    let theirs = tree_walker();
    let ours = grammar();
    for (line, expected) in [
        ("ping", (Handler::Ping, None)),
        ("help", (Handler::Help, None)),
        ("github", (Handler::GithubUsage, None)),
        ("github user octocat", (Handler::GithubUser, Some("octocat".to_string()))),
        ("github user The Octo Cat", (Handler::GithubUser, Some("The Octo Cat".to_string()))),
        ("github repo rust-lang/rust", (Handler::GithubRepo, Some("rust-lang/rust".to_string()))),
        ("github search a --top=5", (Handler::GithubSearch, Some("a --top=5".to_string()))),
    ] {
        let parse = theirs.parse(line.into(), Mutex::new(Vec::new()));
        let source = parse.context.source.clone();
        assert_eq!(theirs.execute_parsed(parse).ok(), Some(1), "{:?}", line);
        assert_eq!(*source.lock().unwrap(), vec![expected.clone()], "{:?}", line);
        assert_eq!(seen(&ours.parse(line).unwrap()), expected, "{:?}", line);
    }
}

#[test]
fn built_in_commands_register_without_clash() {
    let props = AppProperties::default();
    let registry = CommandRegistry::build(&props);
    let mut d = CommandDispatcher::<Handler>::new();
    for c in registry.all() {
        c.register(&mut d).unwrap();
    }
    assert_eq!(d.parse("ping").unwrap().handler, Handler::Ping);
    assert_eq!(d.parse("github").unwrap().handler, Handler::GithubUsage);
    let mut twice = CommandDispatcher::<Handler>::new();
    PingCommand.register(&mut twice).unwrap();
    assert!(PingCommand.register(&mut twice).is_err());
}
