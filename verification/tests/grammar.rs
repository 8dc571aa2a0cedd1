use lukosbot::command_source::{CommandSource, CommandSourceView};
use lukosbot::dispatcher::{
    is_one_word, ArgKind, CommandDispatcher, CommandExecutor, DispatchError, GrammarError,
    Invocation, InvocationView, Node,
};
use lukosbot::model::{Address, ChatPlatform, MessageIn};

#[derive(Clone, Copy, Debug, PartialEq, Eq)]
enum H {
    Echo,
    Say,
    Pair,
    Root,
}

fn grammar() -> CommandDispatcher<H> {
    let mut d = CommandDispatcher::<H>::new();
    d.register(
        Node::literal("echo")
            .unwrap()
            .followed_by(Node::argument("text", ArgKind::Greedy).executes(H::Echo))
            .unwrap(),
    )
    .unwrap();
    d.register(
        Node::literal("say")
            .unwrap()
            .executes(H::Say)
            .followed_by(Node::literal("twice").unwrap().executes(H::Pair))
            .unwrap()
            .followed_by(
                Node::argument("word", ArgKind::Word)
                    .followed_by(Node::argument("other", ArgKind::Word).executes(H::Pair))
                    .unwrap(),
            )
            .unwrap(),
    )
    .unwrap();
    d
}

fn args(inv: &Invocation<H>) -> Vec<(String, String)> {
    inv.args.clone()
}

fn pair(a: &str, b: &str) -> (String, String) {
    (a.to_string(), b.to_string())
}

#[test]
fn literal_path_reaches_its_handler() {
    let inv = grammar().parse("say").unwrap();
    assert_eq!(inv.handler, H::Say);
    assert!(inv.args.is_empty());
    let inv = grammar().parse("  say   twice ").unwrap();
    assert_eq!(inv.handler, H::Pair);
    assert!(inv.args.is_empty());
}

#[test]
fn greedy_argument_takes_the_rest_of_the_line() {
    let inv = grammar().parse("echo rest of the line").unwrap();
    assert_eq!(inv.handler, H::Echo);
    assert_eq!(args(&inv), vec![pair("text", "rest of the line")]);
}

#[test]
fn greedy_argument_collapses_inner_white_space() {
    let inv = grammar().parse("echo   a \t b\u{3000}c  ").unwrap();
    assert_eq!(args(&inv), vec![pair("text", "a b c")]);
    assert_eq!(inv.get_string("text"), Some("a b c".to_string()));
    assert_eq!(inv.get_string("other"), None);
}

#[test]
fn word_arguments_bind_one_word_each() {
    let inv = grammar().parse("say hello world").unwrap();
    assert_eq!(inv.handler, H::Pair);
    assert_eq!(args(&inv), vec![pair("word", "hello"), pair("other", "world")]);
}

#[test]
fn literal_is_preferred_to_argument() {
    let inv = grammar().parse("say twice").unwrap();
    assert_eq!(inv.handler, H::Pair);
    assert!(inv.args.is_empty());
}

fn message(e: DispatchError) -> (bool, String) {
    match e {
        DispatchError::Unknown(m) => (true, m),
        DispatchError::Syntax(m) => (false, m),
    }
}

#[test]
fn unknown_and_syntax_errors() {
    let g = grammar();
    assert_eq!(message(g.parse("nope").unwrap_err()), (true, "Unknown command: nope".to_string()));
    assert_eq!(message(g.parse("").unwrap_err()), (true, "Unknown command: ".to_string()));
    assert_eq!(message(g.parse("   ").unwrap_err()), (true, "Unknown command: ".to_string()));
    assert_eq!(
        message(g.parse("echo").unwrap_err()),
        (false, "Incomplete command after: echo".to_string())
    );
    assert_eq!(
        message(g.parse("say one").unwrap_err()),
        (false, "Incomplete command after: one".to_string())
    );
    assert_eq!(
        message(g.parse("say one two three").unwrap_err()),
        (false, "Unexpected argument: three".to_string())
    );
    assert_eq!(g.parse("Echo x").unwrap_err().message(), "Unknown command: Echo");
}

#[test]
fn ambiguous_grammars_are_refused() {
    let mut d = grammar();
    let again: Node<H> = Node::literal("echo").unwrap();
    assert_eq!(d.register(again).unwrap_err(), GrammarError::DuplicateLiteral);
    assert_eq!(d.parse("echo x").unwrap().handler, H::Echo);
    d.register(Node::argument("any", ArgKind::Word).executes(H::Root)).unwrap();
    assert_eq!(
        d.register(Node::argument("more", ArgKind::Greedy)).unwrap_err(),
        GrammarError::AmbiguousArgument
    );
    assert_eq!(d.parse("zzz").unwrap().handler, H::Root);
    let n: Node<H> = Node::literal("a").unwrap();
    let n = n.followed_by(Node::literal("b").unwrap()).unwrap();
    assert_eq!(
        n.followed_by(Node::literal("b").unwrap()).unwrap_err(),
        GrammarError::DuplicateLiteral
    );
}

#[test]
fn nothing_follows_a_greedy_argument() {
    let greedy: Node<H> = Node::argument("rest", ArgKind::Greedy).executes(H::Echo);
    assert_eq!(
        greedy.followed_by(Node::literal("more").unwrap()).unwrap_err(),
        GrammarError::AfterGreedy
    );
    let greedy: Node<H> = Node::argument("rest", ArgKind::Greedy);
    assert_eq!(
        greedy.followed_by(Node::argument("more", ArgKind::Word)).unwrap_err(),
        GrammarError::AfterGreedy
    );
    let word: Node<H> = Node::argument("one", ArgKind::Word);
    assert!(word.followed_by(Node::argument("rest", ArgKind::Greedy)).is_ok());
}

#[test]
fn literal_tokens_must_be_one_word() {
    assert_eq!(Node::<H>::literal("").unwrap_err(), GrammarError::InvalidLiteral);
    assert_eq!(Node::<H>::literal("two words").unwrap_err(), GrammarError::InvalidLiteral);
    assert_eq!(Node::<H>::literal("tab\t").unwrap_err(), GrammarError::InvalidLiteral);
    assert!(Node::<H>::literal("ok").is_ok());
    assert!(is_one_word("命令"));
    assert!(!is_one_word(" x"));
}

struct Counting;

impl CommandExecutor<H> for Counting {
    fn outcome(&self, _: InvocationView<H>, _: CommandSourceView) -> (i32, CommandSourceView) {
        unreachable!()
    }

    fn run(&self, inv: &Invocation<H>, source: &mut CommandSource) -> i32 {
        source.reply(&format!("{:?}", inv.handler));
        7
    }
}

fn source() -> CommandSource {
    CommandSource::new(MessageIn::new(
        Address::new(ChatPlatform::Discord, -5, false),
        None,
        "x".to_string(),
    ))
}

#[test]
fn execute_runs_the_handler_exactly_once() {
    let mut src = source();
    assert_eq!(grammar().execute("say twice", &Counting, &mut src).unwrap(), 7);
    let outs = src.take_outs();
    assert_eq!(outs.len(), 1);
    assert_eq!(outs[0].text.as_deref(), Some("Pair"));
}

#[test]
fn execute_runs_nothing_for_an_unregistered_line() {
    let mut src = source();
    assert!(grammar().execute("nope at all", &Counting, &mut src).is_err());
    assert!(grammar().execute("echo", &Counting, &mut src).is_err());
    assert!(src.take_outs().is_empty());
}
