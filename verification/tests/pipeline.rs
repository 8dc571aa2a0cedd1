use lukosbot::command_processor::CommandProcessor;
use lukosbot::command_registry::{BotCommand, Command, CommandRegistry};
use lukosbot::commands::github::GithubCall;
use lukosbot::config::AppProperties;
use lukosbot::model::{Address, ChatPlatform, MessageIn, MessageOut};
use lukosbot::pipeline_processor::PipelineProcessor;

fn inbound(text: &str) -> MessageIn {
    MessageIn::new(Address::new(ChatPlatform::Telegram, 42, true), Some(7), text.to_string())
}

fn pipeline() -> PipelineProcessor {
    let props = AppProperties::default();
    let registry = CommandRegistry::build(&props);
    PipelineProcessor::new(&props, registry).unwrap()
}

fn texts(outs: &[MessageOut]) -> Vec<String> {
    outs.iter().map(|o| o.text.clone().unwrap_or_default()).collect()
}

#[test]
fn ping_replies_pong_to_the_same_address() {
    let outs = pipeline().handle(inbound("/ping"));
    assert_eq!(texts(&outs), vec!["PONG".to_string()]);
    assert_eq!(outs[0].addr, Address::new(ChatPlatform::Telegram, 42, true));
    assert!(outs[0].attachments.is_empty());
}

#[test]
fn ping_with_outer_white_space() {
    let outs = pipeline().handle(inbound("  \t/  ping \n"));
    assert_eq!(texts(&outs), vec!["PONG".to_string()]);
}

#[test]
fn help_lists_every_visible_command_with_prefix() {
    let outs = pipeline().handle(inbound("/help"));
    assert_eq!(outs.len(), 1);
    let expected = "可用命令：\n/ping - Ping command\n/github - GitHub 查询工具\n/help - 列出可用命令或其详细用法\n\n使用 `/help <command>` 查看具体命令的用法。";
    assert_eq!(outs[0].text.as_deref(), Some(expected));
}

#[test]
fn help_uses_the_configured_prefix() {
    let mut props = AppProperties::default();
    props.prefix = "!".to_string();
    let registry = CommandRegistry::build(&props);
    let p = CommandProcessor::new(&props, registry).unwrap();
    let outs = p.handle(inbound("!help"));
    let text = outs[0].text.clone().unwrap();
    assert!(text.contains("\n!ping - Ping command\n"));
    assert!(p.handle(inbound("/help")).is_empty());
}

#[test]
fn text_without_prefix_gets_no_output() {
    assert!(pipeline().handle(inbound("not a command")).is_empty());
    assert!(pipeline().handle(inbound("")).is_empty());
    assert!(pipeline().handle(inbound("ping")).is_empty());
}

#[test]
fn unknown_command_gets_one_error_reply() {
    let outs = pipeline().handle(inbound("/unknown-cmd"));
    assert_eq!(texts(&outs), vec!["命令错误: Unknown command: unknown-cmd".to_string()]);
    assert_eq!(outs[0].addr, Address::new(ChatPlatform::Telegram, 42, true));
}

#[test]
fn prefix_alone_is_an_unknown_command() {
    let outs = pipeline().handle(inbound("/"));
    assert_eq!(texts(&outs), vec!["命令错误: Unknown command: ".to_string()]);
}

#[test]
fn extra_argument_is_a_syntax_error() {
    let outs = pipeline().handle(inbound("/ping now"));
    assert_eq!(texts(&outs), vec!["命令错误: Unexpected argument: now".to_string()]);
}

#[test]
fn subcommand_without_argument_is_incomplete() {
    let outs = pipeline().handle(inbound("/github user"));
    assert_eq!(texts(&outs), vec!["命令错误: Incomplete command after: user".to_string()]);
}

#[test]
fn literal_match_is_case_sensitive() {
    let outs = pipeline().handle(inbound("/PING"));
    assert_eq!(texts(&outs), vec!["命令错误: Unknown command: PING".to_string()]);
}

#[test]
fn github_alone_shows_usage() {
    let outs = pipeline().handle(inbound("/github"));
    assert_eq!(outs.len(), 1);
    let text = outs[0].text.clone().unwrap();
    assert!(text.starts_with("用法：\n`/github user <username>`"));
    assert!(text.ends_with("--order=desc`\n"));
}

#[test]
fn github_user_defers_to_the_api() {
    let r = pipeline().handle_with_call(inbound("/github user   octo   cat "));
    assert!(r.outputs.is_empty());
    match r.call {
        Some(GithubCall::User(name)) => assert_eq!(name, "octo cat"),
        other => panic!("unexpected call: {:?}", other),
    }
    assert!(pipeline().handle(inbound("/github user octocat")).is_empty());
}

#[test]
fn github_repo_and_search_defer_to_the_api() {
    match pipeline().handle_with_call(inbound("/github repo rust-lang/rust")).call {
        Some(GithubCall::Repo(arg)) => assert_eq!(arg, "rust-lang/rust"),
        other => panic!("unexpected call: {:?}", other),
    }
    match pipeline().handle_with_call(inbound("/github search verus --top=5")).call {
        Some(GithubCall::Search(arg)) => assert_eq!(arg, "verus --top=5"),
        other => panic!("unexpected call: {:?}", other),
    }
    assert!(pipeline().handle_with_call(inbound("/ping")).call.is_none());
    assert!(pipeline().handle_with_call(inbound("hello")).call.is_none());
}

#[test]
fn registry_lists_the_built_in_commands_in_order() {
    let props = AppProperties::default();
    let registry = CommandRegistry::build(&props);
    assert_eq!(registry.list_commands(), "ping, github, help");
    let d = registry.descriptors();
    assert_eq!(d.len(), 3);
    assert_eq!(d[0].name, "ping");
    assert_eq!(d[0].description, "Ping command");
    assert_eq!(d[0].usage, "ping");
    assert!(d.iter().all(|x| x.visible));
    assert_eq!(registry.all().len(), 3);
    assert!(matches!(registry.all()[1], Command::GitHub(_)));
    assert_eq!(registry.all()[2].name(), "help");
}

#[test]
fn empty_registry_knows_no_command() {
    let props = AppProperties::default();
    let registry = CommandRegistry::new();
    assert_eq!(registry.list_commands(), "");
    let p = CommandProcessor::new(&props, registry).unwrap();
    let outs = p.handle(inbound("/ping"));
    assert_eq!(texts(&outs), vec!["命令错误: Unknown command: ping".to_string()]);
}

#[test]
fn command_line_strips_prefix_and_white_space() {
    let props = AppProperties::default();
    let p = CommandProcessor::new(&props, CommandRegistry::build(&props)).unwrap();
    assert_eq!(p.command_line_of("  /  github   user x  "), Some("github   user x".to_string()));
    assert_eq!(p.command_line_of("/"), Some(String::new()));
    assert_eq!(p.command_line_of("x/ping"), None);
    assert_eq!(p.command_line_of(""), None);
}
