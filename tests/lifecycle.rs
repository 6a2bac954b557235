use acton_core::agent::{Action, Event, Hook, ManagedAgent, Stage, Started};
use acton_core::broker::broker_route;
use acton_core::mailbox::{Mailbox, SendError};
use acton_core::message::{Envelope, InternalMessage, OutboundEnvelope, Payload, ReturnAddress, SystemSignal};
use acton_core::reactor::{unwrap_broker_request, Route};
use acton_core::system::{AgentConfig, SystemReady, BROKER_KEY};

const PING: u64 = 1;
const PONG: u64 = 2;
const NOVEL: u64 = 99;

/// What a simulated runtime observed while draining one agent.
#[derive(Debug, PartialEq)]
enum Seen {
    Hook(Hook),
    Reactor(u64, u32),
    Dropped,
    Shutdown,
    Finished,
}

/// Runs `agent` over everything queued in `mailbox` the way the runtime
/// does, recording each hook, each reactor call (slot and body) and the end.
fn drive(agent: &mut ManagedAgent<Started>, first: Action, mailbox: &mut Mailbox<Envelope<u32>>) -> Vec<Seen> {
    let mut seen = Vec::new();
    let mut action = first;
    let mut current: Option<Envelope<u32>> = None;
    loop {
        action = match action {
            Action::RunHook(h) => {
                seen.push(Seen::Hook(h));
                agent.step(Event::HookDone)
            }
            Action::Receive | Action::Discard | Action::Control(_) | Action::Publish(_) => match mailbox.recv() {
                Some(env) => {
                    let env = unwrap_broker_request(env);
                    let a = agent.deliver(&env.payload);
                    if a == Action::Discard {
                        seen.push(Seen::Dropped);
                    }
                    current = Some(env);
                    a
                }
                None => return seen,
            },
            Action::Invoke(slot) => {
                let body = match current.take().map(|e| e.payload) {
                    Some(Payload::Message { body, .. }) => body,
                    other => panic!("reactor invoked on {:?}", other),
                };
                seen.push(Seen::Reactor(slot, body));
                agent.step(Event::ReactorDone)
            }
            Action::Shutdown => {
                mailbox.close();
                seen.push(Seen::Shutdown);
                agent.step(Event::ChildrenStopped)
            }
            Action::Finish => {
                seen.push(Seen::Finished);
                return seen;
            }
            Action::Ignore => panic!("the runtime reported an event out of turn"),
        };
    }
}

fn message(type_tag: u64, body: u32) -> Payload<u32> {
    Payload::Message { type_tag, body }
}

fn terminate() -> Payload<u32> {
    Payload::Signal(SystemSignal::Terminate)
}

#[test]
fn hooks_run_in_order_around_reactors() {
    let (mut sys, _, _) = SystemReady::launch();
    let mut idle = sys.spawn_agent(&AgentConfig::new("worker".to_string(), None, None)).unwrap();
    idle.on_message(PING, 7);
    let (mut agent, first) = idle.activate();
    assert_eq!(first, Action::RunHook(Hook::BeforeStart));
    let mut mb: Mailbox<Envelope<u32>> = Mailbox::new(8);
    mb.try_send(Envelope::new(message(PING, 1), None)).ok().unwrap();
    mb.try_send(Envelope::new(terminate(), None)).ok().unwrap();
    let seen = drive(&mut agent, first, &mut mb);
    assert_eq!(
        seen,
        vec![
            Seen::Hook(Hook::BeforeStart),
            Seen::Hook(Hook::AfterStart),
            Seen::Reactor(7, 1),
            Seen::Hook(Hook::BeforeStop),
            Seen::Shutdown,
            Seen::Hook(Hook::AfterStop),
            Seen::Finished,
        ]
    );
    assert_eq!(agent.stage(), Stage::Stopped);
}

#[test]
fn events_out_of_turn_are_ignored() {
    let (mut sys, _, _) = SystemReady::launch();
    let idle = sys.spawn_agent(&AgentConfig::new("a".to_string(), None, None)).unwrap();
    let (mut agent, _) = idle.activate();
    assert_eq!(agent.step(Event::ReactorDone), Action::Ignore);
    assert_eq!(agent.step(Event::Delivered(Route::Reactor(3))), Action::Ignore);
    assert_eq!(agent.stage(), Stage::BeforeStart);
    assert_eq!(agent.step(Event::HookDone), Action::RunHook(Hook::AfterStart));
    assert_eq!(agent.step(Event::HookDone), Action::Receive);
    assert_eq!(agent.step(Event::Delivered(Route::Reactor(3))), Action::Invoke(3));
    // While a reactor runs, no second envelope is accepted.
    assert_eq!(agent.step(Event::Delivered(Route::Reactor(4))), Action::Ignore);
    assert_eq!(agent.stage(), Stage::Reacting);
    assert_eq!(agent.step(Event::ReactorDone), Action::Receive);
}

#[test]
fn terminate_drains_pending() {
    let (mut sys, _, _) = SystemReady::launch();
    let mut idle = sys.spawn_agent(&AgentConfig::new("drainer".to_string(), None, None)).unwrap();
    idle.on_message(PING, 0);
    let (mut agent, first) = idle.activate();
    let mut mb: Mailbox<Envelope<u32>> = Mailbox::new(255);
    for i in 0..10u32 {
        mb.try_send(Envelope::new(message(PING, i), None)).ok().unwrap();
    }
    mb.try_send(Envelope::new(terminate(), None)).ok().unwrap();
    let seen = drive(&mut agent, first, &mut mb);
    let before_stop = seen.iter().position(|s| *s == Seen::Hook(Hook::BeforeStop)).unwrap();
    let handled: Vec<u32> = seen[..before_stop]
        .iter()
        .filter_map(|s| match s {
            Seen::Reactor(_, b) => Some(*b),
            _ => None,
        })
        .collect();
    assert_eq!(handled, (0..10).collect::<Vec<u32>>());
    assert!(seen[before_stop..].iter().all(|s| !matches!(s, Seen::Reactor(..))));
}

#[test]
fn messages_after_terminate_are_not_processed() {
    let (mut sys, _, _) = SystemReady::launch();
    let mut idle = sys.spawn_agent(&AgentConfig::new("late".to_string(), None, None)).unwrap();
    idle.on_message(PING, 0);
    let (mut agent, first) = idle.activate();
    let mut mb: Mailbox<Envelope<u32>> = Mailbox::new(8);
    mb.try_send(Envelope::new(terminate(), None)).ok().unwrap();
    mb.try_send(Envelope::new(message(PING, 5), None)).ok().unwrap();
    let seen = drive(&mut agent, first, &mut mb);
    assert!(!seen.contains(&Seen::Reactor(0, 5)));
    assert!(mb.is_closed());
    assert!(matches!(mb.try_send(Envelope::new(message(PING, 6), None)), Err(SendError::Closed(_))));
}

#[test]
fn unknown_message_dropped() {
    let (mut sys, _, _) = SystemReady::launch();
    let idle = sys.spawn_agent(&AgentConfig::new("quiet".to_string(), None, None)).unwrap();
    let (mut agent, first) = idle.activate();
    let mut mb: Mailbox<Envelope<u32>> = Mailbox::new(4);
    mb.try_send(Envelope::new(message(NOVEL, 3), None)).ok().unwrap();
    mb.try_send(Envelope::new(terminate(), None)).ok().unwrap();
    let seen = drive(&mut agent, first, &mut mb);
    assert!(seen.contains(&Seen::Dropped));
    assert_eq!(seen.last(), Some(&Seen::Finished));
}

#[test]
fn replacing_a_reactor() {
    let (mut sys, _, _) = SystemReady::launch();
    let mut idle = sys.spawn_agent(&AgentConfig::new("replaced".to_string(), None, None)).unwrap();
    idle.on_message(PING, 10);
    idle.on_message(PING, 11);
    let (mut agent, first) = idle.activate();
    let mut mb: Mailbox<Envelope<u32>> = Mailbox::new(4);
    mb.try_send(Envelope::new(message(PING, 1), None)).ok().unwrap();
    mb.try_send(Envelope::new(terminate(), None)).ok().unwrap();
    let seen = drive(&mut agent, first, &mut mb);
    assert!(seen.contains(&Seen::Reactor(11, 1)));
    assert!(!seen.iter().any(|s| matches!(s, Seen::Reactor(10, _))));
}

#[test]
fn bounded_mailbox_back_pressure() {
    let n = 4usize;
    let mut mb: Mailbox<Envelope<u32>> = Mailbox::new(n);
    for i in 0..n as u32 {
        assert!(mb.try_send(Envelope::new(message(PING, i), None)).is_ok());
    }
    match mb.try_send(Envelope::new(message(PING, 100), None)) {
        Err(SendError::Full(env)) => assert!(matches!(env.payload, Payload::Message { body: 100, .. })),
        _ => panic!("the mailbox took more than its capacity"),
    }
    assert_eq!(mb.len(), n);
    let first = mb.recv().unwrap();
    assert!(matches!(first.payload, Payload::Message { body: 0, .. }));
    assert!(mb.try_send(Envelope::new(message(PING, 100), None)).is_ok());
    assert_eq!(mb.capacity(), n);
}

#[test]
fn ping_pong_via_broker() {
    let (mut sys, broker_idle, mut table) = SystemReady::launch();
    assert_eq!(broker_idle.key(), BROKER_KEY);
    let mut comedian = sys.spawn_agent(&AgentConfig::new("improve_show".to_string(), None, None)).unwrap();
    comedian.on_message(PING, 0);
    comedian.on_message(PONG, 1);
    let comedian_key = comedian.key();
    assert_eq!(comedian.broker(), Some(BROKER_KEY));
    table.apply(InternalMessage::Subscribe { type_tag: PING, subscriber: comedian_key });
    table.apply(InternalMessage::Subscribe { type_tag: PONG, subscriber: comedian_key });

    // The broker hands each request on to every subscriber of its type.
    let mut inbox: Mailbox<Envelope<u32>> = Mailbox::new(255);
    let broker_address = OutboundEnvelope::new(Some(comedian_key), table.key());
    for (tag, body) in [(PING, 1u32), (PONG, 2u32)] {
        let to = table.fan_out(tag);
        assert_eq!(to, vec![comedian_key]);
        broker_address.reply(&mut inbox, Payload::BrokerRequest { type_tag: tag, body }).ok().unwrap();
    }
    inbox.try_send(Envelope::new(terminate(), None)).ok().unwrap();
    let (mut agent, first) = comedian.activate();
    let seen = drive(&mut agent, first, &mut inbox);
    let reactors: Vec<&Seen> = seen.iter().filter(|s| matches!(s, Seen::Reactor(..))).collect();
    assert_eq!(reactors, vec![&Seen::Reactor(0, 1), &Seen::Reactor(1, 2)]);
}

#[test]
fn test_launchpad() {
    let (mut sys, _, mut table) = SystemReady::launch();
    let mut comedian = sys.spawn_agent(&AgentConfig::new("improve_show".to_string(), None, Some(BROKER_KEY))).unwrap();
    comedian.on_message(PING, 0);
    comedian.on_message(PONG, 1);
    let mut counter = sys.spawn_agent(&AgentConfig::new("counter".to_string(), None, None)).unwrap();
    counter.on_message(PONG, 0);
    table.subscribe(PING, comedian.key());
    table.subscribe(PONG, comedian.key());
    table.subscribe(PONG, counter.key());
    assert_eq!(table.fan_out(PING), vec![comedian.key()]);
    assert_eq!(table.fan_out(PONG), vec![comedian.key(), counter.key()]);
    let (mut c1, f1) = comedian.activate();
    let (mut c2, f2) = counter.activate();
    let mut m1: Mailbox<Envelope<u32>> = Mailbox::new(255);
    let mut m2: Mailbox<Envelope<u32>> = Mailbox::new(255);
    let from_broker = Some(ReturnAddress { sender: BROKER_KEY });
    m1.try_send(Envelope::new(Payload::BrokerRequest { type_tag: PING, body: 1 }, from_broker)).ok().unwrap();
    m1.try_send(Envelope::new(Payload::BrokerRequest { type_tag: PONG, body: 2 }, from_broker)).ok().unwrap();
    m2.try_send(Envelope::new(Payload::BrokerRequest { type_tag: PONG, body: 2 }, from_broker)).ok().unwrap();
    m1.try_send(Envelope::new(terminate(), None)).ok().unwrap();
    m2.try_send(Envelope::new(terminate(), None)).ok().unwrap();
    let s1 = drive(&mut c1, f1, &mut m1);
    let s2 = drive(&mut c2, f2, &mut m2);
    assert!(s1.contains(&Seen::Reactor(0, 1)) && s1.contains(&Seen::Reactor(1, 2)));
    assert!(s2.contains(&Seen::Reactor(0, 2)));
    assert_eq!(s1.last(), Some(&Seen::Finished));
    assert_eq!(s2.last(), Some(&Seen::Finished));
}

#[test]
fn parent_child_shutdown() {
    let (mut sys, _, mut table) = SystemReady::launch();
    let parent_idle = sys.spawn_agent(&AgentConfig::new("parent".to_string(), None, None)).unwrap();
    let parent_key = parent_idle.key();
    let (mut parent, pf) = parent_idle.activate();
    // In the parent's after_start, a child subscribed to Pong is spawned.
    let mut child_idle = sys
        .spawn_agent(&AgentConfig::new("child".to_string(), Some(parent_key), None))
        .unwrap();
    child_idle.on_message(PONG, 0);
    assert_eq!(child_idle.id().render(), "parent/child".to_string());
    let child_key = child_idle.key();
    parent.add_child(child_key, 0);
    table.subscribe(PONG, child_key);
    let (mut child, cf) = child_idle.activate();

    let mut child_box: Mailbox<Envelope<u32>> = Mailbox::new(16);
    for to in table.fan_out(PONG) {
        assert_eq!(to, child_key);
        child_box.try_send(Envelope::new(Payload::BrokerRequest { type_tag: PONG, body: 9 }, None)).ok().unwrap();
    }
    let mut parent_box: Mailbox<Envelope<u32>> = Mailbox::new(16);
    parent_box.try_send(Envelope::new(terminate(), None)).ok().unwrap();

    // The parent runs until it asks for its children to be stopped.
    let mut action = pf;
    loop {
        action = match action {
            Action::RunHook(_) => parent.step(Event::HookDone),
            Action::Receive => {
                let env = parent_box.recv().unwrap();
                parent.deliver(&env.payload)
            }
            Action::Shutdown => break,
            other => panic!("unexpected {:?}", other),
        };
    }
    assert_eq!(parent.children(), vec![(child_key, 0)]);
    // Stopping the child: Terminate into its mailbox, and it drains to the end.
    child_box.try_send(Envelope::new(terminate(), None)).ok().unwrap();
    let seen = drive(&mut child, cf, &mut child_box);
    assert!(seen.contains(&Seen::Reactor(0, 9)));
    assert_eq!(seen.last(), Some(&Seen::Finished));
    assert_eq!(sys.record_stopped(child_key).unwrap(), Vec::<u64>::new());
    assert_eq!(parent.remove_child(child_key), Some(0));
    assert_eq!(parent.step(Event::ChildrenStopped), Action::RunHook(Hook::AfterStop));
    assert_eq!(parent.step(Event::HookDone), Action::Finish);
    assert_eq!(sys.record_stopped(parent_key).unwrap(), Vec::<u64>::new());
    assert_eq!(sys.registry().is_stopped(child_key), Some(true));
    assert_eq!(sys.registry().is_stopped(parent_key), Some(true));
}

#[test]
fn broker_agent_publishes_and_applies_subscriptions() {
    let (_sys, broker_idle, mut table) = SystemReady::launch();
    let (mut broker, first) = broker_idle.activate();
    assert_eq!(broker.step(Event::HookDone), Action::RunHook(Hook::AfterStart));
    assert_eq!(first, Action::RunHook(Hook::BeforeStart));
    assert_eq!(broker.step(Event::HookDone), Action::Receive);
    let sub: Payload<u32> = Payload::Internal(InternalMessage::Subscribe { type_tag: PONG, subscriber: 5 });
    match broker.step(Event::Delivered(broker_route(&sub))) {
        Action::Control(msg) => table.apply(msg),
        other => panic!("unexpected {:?}", other),
    }
    let req: Payload<u32> = Payload::BrokerRequest { type_tag: PONG, body: 3 };
    assert_eq!(broker.step(Event::Delivered(broker_route(&req))), Action::Publish(PONG));
    assert_eq!(table.fan_out(PONG), vec![5]);
    let plain: Payload<u32> = Payload::Message { type_tag: PONG, body: 3 };
    assert_eq!(broker.step(Event::Delivered(broker_route(&plain))), Action::Discard);
    assert_eq!(broker.step(Event::Delivered(broker_route(&terminate()))), Action::RunHook(Hook::BeforeStop));
}
