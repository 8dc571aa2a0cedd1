use lukosbot::model::{Address, Attachment, ChatPlatform, MessageOut, OutContentType};
use lukosbot::platform::discord::{
    fmt_cmd_value, CommandValue, DiscordEmbed, DiscordEvent, DiscordReceiver, DiscordSender,
    DiscordStack, DiscordTarget, MAX_CONTENT, MAX_EMBED_DESC,
};
use lukosbot::platform::telegram::{
    CloseAction, StartAction, StartError, TelegramCall, TelegramReceiver, TelegramSender,
    TelegramUpdate,
};

fn update(text: Option<&str>) -> TelegramUpdate {
    TelegramUpdate {
        text: text.map(|s| s.to_string()),
        chat_id: -100123,
        is_group: false,
        is_supergroup: true,
        from: Some(42),
    }
}

#[test]
fn telegram_updates_with_text_become_messages() {
    let m = TelegramReceiver::inbound_of(update(Some(" /ping "))).unwrap();
    assert_eq!(m.addr, Address::new(ChatPlatform::Telegram, -100123, true));
    assert_eq!(m.user_id, Some(42));
    assert_eq!(m.text, " /ping ");
    assert!(TelegramReceiver::inbound_of(update(None)).is_none());
    let mut u = update(Some("x"));
    u.is_supergroup = false;
    u.from = None;
    let m = TelegramReceiver::inbound_of(u).unwrap();
    assert!(!m.addr.is_group);
    assert_eq!(m.user_id, None);
}

#[test]
fn telegram_receiver_starts_once_and_only_when_bound() {
    let mut r = TelegramReceiver::new();
    assert_eq!(r.start(), Err(StartError::NotBound));
    assert_eq!(StartError::NotBound.message(), "TelegramReceiver.start() called before bind()");
    assert_eq!(r.close(), CloseAction::Nothing);
    r.bind();
    assert_eq!(r.start(), Ok(StartAction::Launch));
    assert_eq!(r.start(), Ok(StartAction::AlreadyStarted));
    assert_eq!(r.close(), CloseAction::Abort);
    assert_eq!(r.close(), CloseAction::Nothing);
    assert_eq!(r.start(), Ok(StartAction::Launch));
}

fn message(text: Option<&str>, attachments: Vec<Attachment>) -> MessageOut {
    MessageOut {
        addr: Address::new(ChatPlatform::Telegram, 9, true),
        text: text.map(|s| s.to_string()),
        attachments,
    }
}

fn bare(ty: OutContentType) -> Attachment {
    Attachment { ty, name: None, url: None, bytes: None, mime: None }
}

#[test]
fn telegram_plan_sends_text_then_attachments() {
    let mut nameless = Attachment::image_bytes("x", vec![9], "m");
    nameless.name = None;
    let mut nameless_file = Attachment::file_bytes("x", vec![8], "m");
    nameless_file.name = None;
    let plan = TelegramSender::plan(&message(
        Some("hi"),
        vec![
            Attachment::image_url("https://e.x/a.png"),
            Attachment::image_bytes("b.png", vec![1], "image/png"),
            bare(OutContentType::Image),
            Attachment::file_url("c.txt", "https://e.x/c.txt"),
            Attachment::file_bytes("d.bin", vec![2, 3], "x/y"),
            nameless,
            nameless_file,
        ],
    ));
    assert_eq!(plan.bad_url, None);
    assert_eq!(plan.calls.len(), 7);
    assert!(matches!(&plan.calls[0], TelegramCall::Text(t) if t == "hi"));
    assert!(matches!(&plan.calls[1], TelegramCall::PhotoUrl(u) if u == "https://e.x/a.png"));
    assert!(matches!(&plan.calls[2], TelegramCall::PhotoBytes { name, bytes } if name == "b.png" && **bytes == vec![1]));
    assert!(matches!(&plan.calls[3], TelegramCall::DocumentUrl(u) if u == "https://e.x/c.txt"));
    assert!(matches!(&plan.calls[4], TelegramCall::DocumentBytes { name, bytes } if name == "d.bin" && **bytes == vec![2, 3]));
    assert!(matches!(&plan.calls[5], TelegramCall::PhotoBytes { name, .. } if name == "image.bin"));
    assert!(matches!(&plan.calls[6], TelegramCall::DocumentBytes { name, .. } if name == "file.bin"));
}

#[test]
fn telegram_plan_skips_empty_text_and_stops_at_a_bad_url() {
    let plan = TelegramSender::plan(&message(Some(""), vec![]));
    assert!(plan.calls.is_empty() && plan.bad_url.is_none());
    let plan = TelegramSender::plan(&message(None, vec![]));
    assert!(plan.calls.is_empty());
    let plan = TelegramSender::plan(&message(
        Some("t"),
        vec![
            Attachment::image_url("https://e.x/ok.png"),
            Attachment::file_url("f", "not a url"),
            Attachment::image_url("https://e.x/never.png"),
        ],
    ));
    assert_eq!(plan.calls.len(), 2);
    assert_eq!(plan.bad_url.as_deref(), Some("not a url"));
    assert!(matches!(&plan.calls[1], TelegramCall::PhotoUrl(u) if u == "https://e.x/ok.png"));
}

fn event(content: &str, in_guild: bool) -> DiscordEvent {
    DiscordEvent {
        author_is_bot: false,
        content: content.to_string(),
        in_guild,
        channel_id: 555,
        author_id: 777,
    }
}

#[test]
fn discord_events_become_trimmed_messages() {
    let m = DiscordReceiver::inbound_of(event("  /ping  ", true)).unwrap();
    assert_eq!(m.addr, Address::new(ChatPlatform::Discord, 555, true));
    assert_eq!(m.user_id, Some(777));
    assert_eq!(m.text, "/ping");
    let m = DiscordReceiver::inbound_of(event("hi", false)).unwrap();
    assert_eq!(m.addr, Address::new(ChatPlatform::Discord, 777, false));
    assert!(DiscordReceiver::inbound_of(event("   ", true)).is_none());
    let mut bot = event("/ping", true);
    bot.author_is_bot = true;
    assert!(DiscordReceiver::inbound_of(bot).is_none());
    let mut big = event("x", true);
    big.channel_id = u64::MAX;
    assert_eq!(DiscordReceiver::inbound_of(big).unwrap().addr.chat_id, -1);
}

#[test]
fn discord_option_values_read_as_text() {
    assert_eq!(fmt_cmd_value(&CommandValue::Text("a b".into())), "a b");
    assert_eq!(fmt_cmd_value(&CommandValue::Boolean(true)), "true");
    assert_eq!(fmt_cmd_value(&CommandValue::Boolean(false)), "false");
    assert_eq!(fmt_cmd_value(&CommandValue::Integer(-12)), "-12");
    assert_eq!(fmt_cmd_value(&CommandValue::Id(18446744073709551615)), "18446744073709551615");
    assert_eq!(fmt_cmd_value(&CommandValue::Unknown(200)), "unknown(200)");
    assert_eq!(fmt_cmd_value(&CommandValue::Unsupported), "<unsupported>");
    let group = CommandValue::Group(vec![
        CommandValue::Text("user".into()),
        CommandValue::Group(vec![CommandValue::Integer(1), CommandValue::Text(" x ".into())]),
        CommandValue::Group(vec![]),
        CommandValue::Boolean(true),
    ]);
    assert_eq!(fmt_cmd_value(&group), "user 1  x  true");
    assert_eq!(fmt_cmd_value(&CommandValue::Group(vec![])), "");
}

#[test]
fn discord_slash_commands_read_as_command_lines() {
    assert_eq!(DiscordReceiver::interaction_line("ping", &vec![]), "/ping");
    assert_eq!(
        DiscordReceiver::interaction_line(
            "github",
            &vec![CommandValue::Group(vec![CommandValue::Text("octocat".into())]), CommandValue::Integer(3)]
        ),
        "/github octocat 3"
    );
}

#[test]
fn discord_stack_starts_once() {
    let mut s = DiscordStack::new();
    assert!(s.ensure_started());
    assert!(!s.ensure_started());
    assert!(s.started);
}

#[test]
fn discord_plan_for_short_content() {
    let mut nameless = Attachment::file_bytes("x", vec![7], "m");
    nameless.name = None;
    let mut out = message(
        Some("hello"),
        vec![
            Attachment::image_url("https://e.x/a.png"),
            Attachment::image_url("   "),
            Attachment::file_url("f", "https://e.x/f"),
            Attachment::image_bytes("b.png", vec![1], "image/png"),
            nameless,
        ],
    );
    out.addr = Address::new(ChatPlatform::Discord, 123, true);
    let m = DiscordSender::plan(&out);
    assert_eq!(m.target, DiscordTarget::Channel(123));
    assert_eq!(m.content, "hello");
    assert_eq!(m.embeds.len(), 1);
    assert!(matches!(&m.embeds[0], DiscordEmbed::Image(u) if u == "https://e.x/a.png"));
    assert_eq!(m.files.len(), 2);
    assert_eq!(m.files[0].name, "b.png");
    assert_eq!(m.files[1].name, "file.bin");
    out.addr = Address::new(ChatPlatform::Discord, 456, false);
    out.text = None;
    let m = DiscordSender::plan(&out);
    assert_eq!(m.target, DiscordTarget::DirectMessage(456));
    assert_eq!(m.content, "");
}

#[test]
fn discord_plan_cuts_long_content_into_embeds() {
    let exact: String = "é".repeat(MAX_CONTENT);
    let m = DiscordSender::plan(&message(Some(&exact), vec![]));
    assert_eq!(m.content, exact);
    assert!(m.embeds.is_empty());
    let long: String = "ab".repeat(MAX_EMBED_DESC + 1);
    let m = DiscordSender::plan(&message(Some(&long), vec![Attachment::image_url("u")]));
    assert_eq!(m.content, "");
    assert_eq!(m.embeds.len(), 4);
    assert!(matches!(&m.embeds[0], DiscordEmbed::Image(u) if u == "u"));
    let mut joined = String::new();
    for (i, e) in m.embeds[1..].iter().enumerate() {
        match e {
            DiscordEmbed::Description(t) => {
                assert_eq!(t.chars().count(), if i < 2 { MAX_EMBED_DESC } else { 2 });
                joined.push_str(t);
            }
            DiscordEmbed::Image(_) => panic!("image among descriptions"),
        }
    }
    assert_eq!(joined, long);
    let just_over: String = "x".repeat(MAX_CONTENT + 1);
    let m = DiscordSender::plan(&message(Some(&just_over), vec![]));
    assert_eq!(m.embeds.len(), 1);
    assert!(matches!(&m.embeds[0], DiscordEmbed::Description(t) if *t == just_over));
}
