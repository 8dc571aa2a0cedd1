use lukosbot::command_registry::CommandRegistry;
use lukosbot::command_source::CommandSource;
use lukosbot::config::AppProperties;
use lukosbot::dispatcher_wrapper::CommandDispatcherWrapper;
use lukosbot::lifecycle::{BaseCloseable, CloseCount, Closeable, GuardError, PlatformGuard};
use lukosbot::message_dispatcher::{key_of, Batch, Inbound, Intake, MessageDispatcher};
use lukosbot::message_sender_hub::{Delivery, MessageSenderHub, SendError, SendLog, Sender};
use lukosbot::model::{Address, Attachment, ChatPlatform, MessageIn, MessageOut, OutContentType};
use lukosbot::pipeline_processor::PipelineProcessor;
use lukosbot::striped_executor::{lane_index, StripedExecutor};
use std::cell::RefCell;
use std::rc::Rc;

fn inbound(chat: i64, text: &str) -> MessageIn {
    MessageIn::new(Address::new(ChatPlatform::Discord, chat, false), Some(1), text.to_string())
}

fn dispatcher() -> MessageDispatcher {
    let props = AppProperties::default();
    let pipeline = PipelineProcessor::new(&props, CommandRegistry::build(&props)).unwrap();
    MessageDispatcher::new(pipeline, props.prefix.clone())
}

fn gate_of(i: Intake) -> usize {
    match i {
        Intake::Spawn { gate, .. } => gate,
        Intake::Discard => panic!("discarded"),
        Intake::Exit => panic!("exit"),
    }
}

#[test]
fn loop_discards_what_does_not_start_with_the_prefix() {
    let mut d = dispatcher();
    assert!(matches!(d.step(Inbound::Message(inbound(1, "hello"))), Intake::Discard));
    assert!(matches!(d.step(Inbound::Message(inbound(1, ""))), Intake::Discard));
    assert_eq!(d.gate_count(), 0);
    assert!(d.accepts(&inbound(1, "  /anything")));
    assert!(!d.accepts(&inbound(1, "x /ping")));
}

#[test]
fn loop_gives_each_chat_one_gate_for_good() {
    let mut d = dispatcher();
    let a = gate_of(d.step(Inbound::Message(inbound(10, "/ping"))));
    let b = gate_of(d.step(Inbound::Message(inbound(20, "/ping"))));
    let a2 = gate_of(d.step(Inbound::Message(inbound(10, "/help"))));
    let c = gate_of(d.step(Inbound::Message(inbound(-3, "/x"))));
    let b2 = gate_of(d.step(Inbound::Message(inbound(20, "/y"))));
    assert_eq!((a, b, a2, c, b2), (0, 1, 0, 2, 1));
    assert_eq!(d.gate_count(), 3);
    assert_eq!(d.gate_for(&Address::new(ChatPlatform::Discord, 20, false)), 1);
    assert_eq!(d.gate_for(&Address::new(ChatPlatform::Discord, 20, true)), 1);
    assert_eq!(d.gate_for(&Address::new(ChatPlatform::Discord, 99, false)), 3);
    assert_eq!(d.gate_count(), 4);
}

#[test]
fn chats_with_one_number_on_two_platforms_have_two_gates() {
    let mut d = dispatcher();
    let on = |platform, chat| {
        MessageIn::new(Address::new(platform, chat, false), None, "/ping".to_string())
    };
    let telegram = gate_of(d.step(Inbound::Message(on(ChatPlatform::Telegram, 5))));
    let discord = gate_of(d.step(Inbound::Message(on(ChatPlatform::Discord, 5))));
    let onebot = gate_of(d.step(Inbound::Message(on(ChatPlatform::Onebot, 5))));
    assert_eq!((telegram, discord, onebot), (0, 1, 2));
    assert_eq!(gate_of(d.step(Inbound::Message(on(ChatPlatform::Telegram, 5)))), 0);
    assert_eq!(gate_of(d.step(Inbound::Message(on(ChatPlatform::Discord, 5)))), 1);
    assert_eq!(gate_of(d.step(Inbound::Message(on(ChatPlatform::Telegram, i64::MIN)))), 3);
    assert_eq!(gate_of(d.step(Inbound::Message(on(ChatPlatform::Discord, i64::MIN)))), 4);
    assert_eq!(gate_of(d.step(Inbound::Message(on(ChatPlatform::Telegram, i64::MAX)))), 5);
    assert_eq!(gate_of(d.step(Inbound::Message(on(ChatPlatform::Onebot, i64::MAX)))), 6);
    assert_eq!(gate_of(d.step(Inbound::Message(on(ChatPlatform::Telegram, -1)))), 7);
    assert_eq!(gate_of(d.step(Inbound::Message(on(ChatPlatform::Discord, -1)))), 8);
    assert_eq!(d.gate_count(), 9);
    assert_eq!(key_of(&Address::new(ChatPlatform::Telegram, 5, false)), 5);
    assert_eq!(key_of(&Address::new(ChatPlatform::Discord, 5, true)), (1i128 << 64) + 5);
    assert_eq!(key_of(&Address::new(ChatPlatform::Onebot, -1, true)), (2i128 << 64) - 1);
}

#[test]
fn loop_hands_the_message_on_unchanged() {
    let mut d = dispatcher();
    match d.step(Inbound::Message(inbound(5, " /ping "))) {
        Intake::Spawn { gate, input } => {
            assert_eq!(gate, 0);
            assert_eq!(input.text, " /ping ");
            assert_eq!(input.addr.chat_id, 5);
            assert_eq!(input.user_id, Some(1));
        }
        _ => panic!("not spawned"),
    }
}

#[test]
fn loop_ends_when_the_channel_closes_or_on_stop() {
    let mut d = dispatcher();
    assert!(d.is_running());
    assert!(matches!(d.step(Inbound::Closed), Intake::Exit));
    assert!(d.is_running());
    d.stop();
    assert!(!d.is_running());
    d.stop();
    assert!(!d.is_running());
    assert!(matches!(d.step(Inbound::Message(inbound(1, "/ping"))), Intake::Spawn { .. }));
}

#[test]
fn task_delivers_only_what_is_not_empty() {
    let d = dispatcher();
    match d.process(inbound(1, "/ping")) {
        Batch::Deliver { outputs } => {
            assert_eq!(outputs.len(), 1);
            assert_eq!(outputs[0].text.as_deref(), Some("PONG"));
            assert_eq!(outputs[0].addr, Address::new(ChatPlatform::Discord, 1, false));
        }
        Batch::Nothing => panic!("nothing to deliver"),
    }
    assert!(matches!(d.process(inbound(1, "no command")), Batch::Nothing));
    assert!(matches!(d.process(inbound(1, "/github user x")), Batch::Nothing));
    let r = d.process_with_call(inbound(1, "/github user x"));
    assert!(r.outputs.is_empty() && r.call.is_some());
}

#[derive(Clone)]
struct Recorder {
    tag: &'static str,
    log: Rc<RefCell<Vec<String>>>,
    fail_on: Option<&'static str>,
    calls: usize,
}

impl Sender for Recorder {
    fn handed(&self) -> SendLog {
        unreachable!()
    }

    fn send(&mut self, out: MessageOut) -> Result<(), SendError> {
        let text = out.text.clone().unwrap_or_default();
        self.calls += 1;
        self.log.borrow_mut().push(format!("{}:{}", self.tag, text));
        if self.fail_on == Some(text.as_str()) {
            return Err(SendError { reason: format!("{} refused {}", self.tag, text) });
        }
        Ok(())
    }
}

fn recorder(tag: &'static str, log: &Rc<RefCell<Vec<String>>>, fail_on: Option<&'static str>) -> Recorder {
    Recorder { tag, log: log.clone(), fail_on, calls: 0 }
}

fn out(platform: ChatPlatform, text: &str) -> MessageOut {
    MessageOut::text(Address::new(platform, 1, true), text)
}

#[test]
fn hub_sends_in_order_and_swallows_failures() {
    let log = Rc::new(RefCell::new(Vec::new()));
    let mut hub = MessageSenderHub::new();
    assert!(hub.sender_for(ChatPlatform::Telegram).is_none());
    hub.register(ChatPlatform::Telegram, recorder("tg", &log, Some("b")));
    hub.register(ChatPlatform::Discord, recorder("dc", &log, None));
    let batch = vec![
        out(ChatPlatform::Telegram, "a"),
        out(ChatPlatform::Onebot, "lost"),
        out(ChatPlatform::Telegram, "b"),
        out(ChatPlatform::Discord, "c"),
        out(ChatPlatform::Telegram, "d"),
    ];
    let report = hub.send_batch(batch, true);
    assert_eq!(report.len(), 5);
    assert!(matches!(report[0], Delivery::Sent));
    assert!(matches!(report[1], Delivery::NoSender));
    match &report[2] {
        Delivery::Failed(e) => assert_eq!(e.reason, "tg refused b"),
        _ => panic!("not failed"),
    }
    assert!(matches!(report[3], Delivery::Sent));
    assert!(matches!(report[4], Delivery::Sent));
    assert_eq!(*log.borrow(), vec!["tg:a", "tg:b", "dc:c", "tg:d"]);
    assert_eq!(hub.sender_for(ChatPlatform::Telegram).unwrap().calls, 3);
    assert_eq!(hub.sender_for(ChatPlatform::Discord).unwrap().calls, 1);
    assert!(hub.send_batch(Vec::new(), false).is_empty());
    assert_eq!(log.borrow().len(), 4);
}

#[test]
fn hub_hands_each_message_over_once_without_order_too() {
    let log = Rc::new(RefCell::new(Vec::new()));
    let mut hub = MessageSenderHub::new();
    hub.register(ChatPlatform::Onebot, recorder("ob", &log, Some("x")));
    let batch = vec![
        out(ChatPlatform::Onebot, "x"),
        out(ChatPlatform::Discord, "lost"),
        out(ChatPlatform::Onebot, "y"),
        out(ChatPlatform::Onebot, "x"),
    ];
    let report = hub.send_batch(batch, false);
    assert!(matches!(report[0], Delivery::Failed(_)));
    assert!(matches!(report[1], Delivery::NoSender));
    assert!(matches!(report[2], Delivery::Sent));
    assert!(matches!(report[3], Delivery::Failed(_)));
    assert_eq!(*log.borrow(), vec!["ob:x", "ob:y", "ob:x"]);
    assert_eq!(hub.sender_for(ChatPlatform::Onebot).unwrap().calls, 3);
}

#[test]
fn hub_last_registration_wins() {
    let log = Rc::new(RefCell::new(Vec::new()));
    let mut hub = MessageSenderHub::new();
    hub.register(ChatPlatform::Discord, recorder("old", &log, None));
    hub.register(ChatPlatform::Discord, recorder("new", &log, None));
    assert_eq!(hub.sender_for(ChatPlatform::Discord).unwrap().tag, "new");
    assert_eq!(hub.route(&out(ChatPlatform::Discord, "x")).unwrap().tag, "new");
    assert!(hub.route(&out(ChatPlatform::Telegram, "x")).is_none());
    assert!(matches!(hub.send_one(out(ChatPlatform::Discord, "x")), Delivery::Sent));
    assert!(matches!(hub.send_one(out(ChatPlatform::Onebot, "x")), Delivery::NoSender));
    assert_eq!(*log.borrow(), vec!["new:x"]);
}

#[test]
fn lanes_are_first_in_first_out() {
    let mut e: StripedExecutor<&'static str> = StripedExecutor::new(4);
    assert_eq!(e.lane_count(), 4);
    let a = e.submit(b"chat-1", "a1");
    let b = e.submit(b"chat-2", "b1");
    assert_eq!(e.submit(b"chat-1", "a2"), a);
    assert_eq!(e.submit(b"chat-1", "a3"), a);
    assert_eq!(e.submit(b"chat-2", "b2"), b);
    assert_eq!(a, lane_index(b"chat-1", 4));
    assert!(a < 4 && b < 4);
    let mut seen_a = Vec::new();
    let mut seen_b = Vec::new();
    for lane in 0..4 {
        while let Some(w) = e.take_next(lane) {
            if w.starts_with('a') {
                seen_a.push(w);
            } else {
                seen_b.push(w);
            }
        }
    }
    assert_eq!(seen_a, vec!["a1", "a2", "a3"]);
    assert_eq!(seen_b, vec!["b1", "b2"]);
    assert_eq!(e.take_next(0), None);
    assert_eq!(e.take_next(17), None);
}

#[test]
fn one_lane_serialises_everything() {
    let mut e: StripedExecutor<u32> = StripedExecutor::new(1);
    for i in 0..10u32 {
        assert_eq!(e.submit(&i.to_le_bytes(), i), 0);
    }
    let got: Vec<u32> = std::iter::from_fn(|| e.take_next(0)).collect();
    assert_eq!(got, (0..10).collect::<Vec<u32>>());
    let none: StripedExecutor<u32> = StripedExecutor::new(0);
    assert_eq!(none.lane_count(), 0);
}

struct Named {
    name: &'static str,
    log: Rc<RefCell<Vec<&'static str>>>,
    times: usize,
}

impl Closeable for Named {
    fn closed(&self) -> CloseCount {
        unreachable!()
    }

    fn close(&mut self) {
        self.times += 1;
        self.log.borrow_mut().push(self.name);
    }
}

#[test]
fn closes_in_reverse_order_and_once() {
    let log = Rc::new(RefCell::new(Vec::new()));
    let mut all = BaseCloseable::new();
    assert_eq!(all.len(), 0);
    all.add(Named { name: "telegram", log: log.clone(), times: 0 });
    all.add(Named { name: "discord", log: log.clone(), times: 0 });
    all.add(Named { name: "onebot", log: log.clone(), times: 0 });
    assert_eq!((all.len(), all.closed_len()), (3, 0));
    all.close();
    assert_eq!(*log.borrow(), vec!["onebot", "discord", "telegram"]);
    assert_eq!((all.len(), all.closed_len()), (0, 3));
    all.close();
    assert_eq!(log.borrow().len(), 3);
    all.add(Named { name: "late", log: log.clone(), times: 0 });
    all.close();
    assert_eq!(*log.borrow(), vec!["onebot", "discord", "telegram", "late"]);
    assert_eq!((all.len(), all.closed_len()), (0, 4));
}

#[test]
fn guard_wants_a_platform() {
    assert_eq!(PlatformGuard::ensure(true), Ok(()));
    assert_eq!(PlatformGuard::ensure(false), Err(GuardError::NoPlatformEnabled));
    assert_eq!(
        GuardError::NoPlatformEnabled.message(),
        "No platform enabled! Please enable them in /config/application.toml"
    );
}

fn source() -> CommandSource {
    CommandSource::new(MessageIn::new(
        Address::new(ChatPlatform::Onebot, 77, true),
        None,
        "/x".to_string(),
    ))
}

#[test]
fn source_buffers_replies_in_order() {
    let mut s = source();
    assert_eq!(s.in_msg().text, "/x");
    s.reply("one");
    s.reply_image_url("https://e.x/i.png");
    s.reply_image_bytes("i.png", vec![1, 2], "image/png");
    s.reply_file_url("f.txt", "https://e.x/f.txt");
    s.reply_file_bytes("f.bin", vec![3], "application/octet-stream");
    s.reply_out(MessageOut::text(Address::new(ChatPlatform::Telegram, 1, false), "elsewhere"));
    s.reply_with_attachment(Attachment::image_url("u"));
    let outs = s.take_outs();
    assert_eq!(outs.len(), 7);
    let here = Address::new(ChatPlatform::Onebot, 77, true);
    assert_eq!(outs[0].addr, here);
    assert_eq!(outs[0].text.as_deref(), Some("one"));
    assert!(outs[0].attachments.is_empty());
    for o in &outs[1..5] {
        assert_eq!(o.addr, here);
        assert_eq!(o.text, None);
        assert_eq!(o.attachments.len(), 1);
    }
    let a = &outs[1].attachments[0];
    assert_eq!((a.ty, a.name.clone(), a.url.as_deref()), (OutContentType::Image, None, Some("https://e.x/i.png")));
    assert!(a.bytes.is_none() && a.mime.is_none());
    let a = &outs[2].attachments[0];
    assert_eq!((a.ty, a.name.as_deref(), a.mime.as_deref()), (OutContentType::Image, Some("i.png"), Some("image/png")));
    assert_eq!(a.bytes.as_deref(), Some(&vec![1u8, 2]));
    assert!(a.url.is_none());
    let a = &outs[3].attachments[0];
    assert_eq!((a.ty, a.name.as_deref(), a.url.as_deref()), (OutContentType::File, Some("f.txt"), Some("https://e.x/f.txt")));
    let a = &outs[4].attachments[0];
    assert_eq!((a.ty, a.name.as_deref()), (OutContentType::File, Some("f.bin")));
    assert_eq!(a.bytes.as_deref(), Some(&vec![3u8]));
    assert_eq!(outs[5].addr, Address::new(ChatPlatform::Telegram, 1, false));
    assert_eq!(outs[6].attachments[0].url.as_deref(), Some("u"));
}

#[test]
fn taking_twice_gives_the_buffer_once() {
    let mut s = source();
    s.reply("a");
    s.reply("b");
    let first = s.take_outs();
    assert_eq!(first.len(), 2);
    assert!(s.take_outs().is_empty());
    assert!(s.take_outs().is_empty());
    s.reply("c");
    let again = s.take_outs();
    assert_eq!(again.len(), 1);
    assert_eq!(again[0].text.as_deref(), Some("c"));
}

#[test]
fn wrapper_knows_ping_only() {
    let w = CommandDispatcherWrapper::new();
    let mut s = source();
    assert_eq!(w.execute("ping", &mut s), Ok(1));
    assert_eq!(
        w.execute("help", &mut s),
        Err("Command execution failed: Unknown command: help".to_string())
    );
    let outs = s.take_outs();
    assert_eq!(outs.len(), 1);
    assert_eq!(outs[0].text.as_deref(), Some("PONG"));
}
