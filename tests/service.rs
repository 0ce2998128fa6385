use rustyfications::{
    Closed, Controller, Details, Effect, HintValue, ImageSource, Message, Reason, Server,
    ServerInfo, Timeout,
};

fn server() -> Server {
    Server::new(ServerInfo::new("rustyfications", "bzglve", "0.1.0", "1.2"))
}

fn plain(server: &mut Server, replaces_id: u32, body: &str) -> (u32, Message) {
    server.notify("mail", replaces_id, "", "Hello", body, vec![], vec![], 5000)
}

fn details(m: &Message) -> &Details {
    match m {
        Message::New(d) | Message::Replace(d) => d,
        Message::Close(_) => panic!("a close carries no details"),
    }
}

#[test]
fn scenario_first_notify_is_new() {
    let mut s = server();
    let (id, m) = plain(&mut s, 0, "World");
    assert_eq!(id, 1);
    assert!(matches!(m, Message::New(_)));
    let d = details(&m);
    assert_eq!(d.id, 1);
    assert_eq!(d.expire_timeout, Timeout::After(5000));
    assert_eq!(d.app_name.as_deref(), Some("mail"));
    assert_eq!(d.app_icon, None);
    assert_eq!(d.summary, "<b>Hello</b>");
    assert_eq!(d.body.as_deref(), Some("World"));
    assert!(d.actions.is_empty());
}

#[test]
fn scenario_replace_keeps_id() {
    let mut s = server();
    plain(&mut s, 0, "World");
    let (id, m) = plain(&mut s, 1, "World2");
    assert_eq!(id, 1);
    assert!(matches!(m, Message::Replace(_)));
    assert_eq!(details(&m).body.as_deref(), Some("World2"));
}

#[test]
fn scenario_close_notification_signals_at_once() {
    let mut s = server();
    let mut c = Controller::new(5000);
    let (_, m) = plain(&mut s, 0, "World");
    c.handle(m);
    let (_, m) = plain(&mut s, 1, "World2");
    c.handle(m);
    let (m, signal) = s.close_notification(1);
    assert!(matches!(m, Message::Close(1)));
    assert_eq!(signal, Closed { id: 1, reason: Reason::Closed });
    assert_eq!(signal.reason.code(), 3);
    let effects = c.handle(m);
    assert_eq!(
        effects,
        vec![Effect::StopTimer(1), Effect::Teardown(1), Effect::Relayout]
    );
    assert!(!c.contains(1));
}

#[test]
fn scenario_timer_expiry_closes() {
    let mut s = server();
    let mut c = Controller::new(5000);
    for _ in 0..2 {
        let (_, m) = plain(&mut s, 0, "World");
        c.handle(m);
    }
    assert!(c.contains(2));
    let effects = c.close(2, Reason::Expired);
    assert_eq!(
        effects,
        vec![
            Effect::StopTimer(2),
            Effect::Teardown(2),
            Effect::EmitClosed(Closed { id: 2, reason: Reason::Expired }),
            Effect::Relayout,
        ]
    );
    assert_eq!(Reason::Expired.code(), 1);
    assert!(!c.contains(2));
    assert!(c.contains(1));
}

#[test]
fn fresh_ids_strictly_increase() {
    let mut s = server();
    let mut last = 0;
    for _ in 0..10 {
        let (id, m) = plain(&mut s, 0, "x");
        assert!(id > last);
        assert!(matches!(m, Message::New(_)));
        last = id;
    }
    assert_eq!(last, 10);
}

#[test]
fn replace_of_active_id_is_replace() {
    let mut s = server();
    let mut c = Controller::new(5000);
    for _ in 0..3 {
        let (_, m) = plain(&mut s, 0, "x");
        c.handle(m);
    }
    assert!(c.contains(2));
    let (id, m) = plain(&mut s, 2, "y");
    assert_eq!(id, 2);
    assert!(matches!(m, Message::Replace(_)));
    let effects = c.handle(m);
    assert_eq!(
        effects,
        vec![
            Effect::StopTimer(2),
            Effect::Update(2),
            Effect::StartTimer { id: 2, millis: 5000 },
            Effect::Relayout,
        ]
    );
    assert_eq!(c.get(2).unwrap().body.as_deref(), Some("y"));
    assert_eq!(c.display_order(false), vec![1, 2, 3]);
}

#[test]
fn unissued_replace_id_gets_fresh_id() {
    let mut s = server();
    plain(&mut s, 0, "x");
    let (id, m) = plain(&mut s, 7, "y");
    assert_eq!(id, 2);
    assert!(matches!(m, Message::New(_)));
}

#[test]
fn replace_of_closed_id_is_recreated() {
    let mut s = server();
    let mut c = Controller::new(5000);
    let (_, m) = plain(&mut s, 0, "x");
    c.handle(m);
    c.close(1, Reason::Dismissed);
    let (id, m) = plain(&mut s, 1, "y");
    assert_eq!(id, 1);
    let effects = c.handle(m);
    assert_eq!(
        effects,
        vec![Effect::Create(1), Effect::StartTimer { id: 1, millis: 5000 }, Effect::Relayout]
    );
}

#[test]
fn close_is_signalled_once() {
    let mut c = Controller::new(5000);
    let mut s = server();
    let (_, m) = plain(&mut s, 0, "x");
    c.handle(m);
    let first = c.close(1, Reason::Dismissed);
    assert_eq!(
        first.iter().filter(|e| matches!(e, Effect::EmitClosed(_))).count(),
        1
    );
    assert!(first.contains(&Effect::EmitClosed(Closed { id: 1, reason: Reason::Dismissed })));
    assert!(c.close(1, Reason::Expired).is_empty());
    assert!(c.handle(Message::Close(1)).is_empty());
}

#[test]
fn new_for_active_id_updates_in_place() {
    let mut s = server();
    let mut c = Controller::new(3000);
    let (_, m) = s.notify("a", 0, "", "s", "", vec![], vec![], -1);
    assert_eq!(
        c.handle(m),
        vec![Effect::Create(1), Effect::StartTimer { id: 1, millis: 3000 }, Effect::Relayout]
    );
    let (_, m) = s.notify("a", 0, "", "s", "", vec![], vec![], 0);
    assert_eq!(c.handle(m), vec![Effect::Create(2), Effect::Relayout]);
    let again = match c.get(2) {
        Some(d) => Message::New(d.clone()),
        None => panic!("id 2 is active"),
    };
    assert_eq!(c.handle(again), vec![Effect::Update(2), Effect::Relayout]);
    assert_eq!(c.display_order(true), vec![2, 1]);
}

#[test]
fn pause_and_resume_timer() {
    let mut s = server();
    let mut c = Controller::new(5000);
    let (_, m) = s.notify("a", 0, "", "s", "", vec![], vec![], 1200);
    c.handle(m);
    assert!(c.resume(1).is_empty());
    assert_eq!(c.pause(1), vec![Effect::StopTimer(1)]);
    assert!(c.pause(1).is_empty());
    assert_eq!(c.resume(1), vec![Effect::StartTimer { id: 1, millis: 1200 }]);
    assert!(c.pause(9).is_empty());
}

#[test]
fn expire_timeout_decoding() {
    assert_eq!(Timeout::from_request(-1), Timeout::UseDefault);
    assert_eq!(Timeout::from_request(0), Timeout::Never);
    assert_eq!(Timeout::from_request(250), Timeout::After(250));
    assert_eq!(Timeout::UseDefault.millis(5000), Some(5000));
    assert_eq!(Timeout::Never.millis(5000), None);
}

#[test]
fn markup_is_escaped() {
    let mut s = server();
    let (_, m) = s.notify("", 0, "icon", "Tom & Jerry", "a&b&&", vec![], vec![], 1);
    let d = details(&m);
    assert_eq!(d.summary, "<b>Tom &amp; Jerry</b>");
    assert_eq!(d.body.as_deref(), Some("a&amp;b&amp;&amp;"));
    assert_eq!(d.app_name, None);
    assert_eq!(d.app_icon.as_deref(), Some("icon"));
    assert_eq!(rustyfications::escape("no amp"), "no amp");
}

#[test]
fn actions_are_paired() {
    let mut s = server();
    let hints = vec![("action-icons".to_string(), HintValue::Bool(true))];
    let (_, m) = s.notify(
        "",
        0,
        "",
        "s",
        "",
        vec!["default", "Open", "inline-reply", "Reply", "dangling"],
        hints,
        1,
    );
    let d = details(&m);
    assert_eq!(d.actions.len(), 2);
    assert_eq!(d.actions[0].key, "default");
    assert_eq!(d.actions[0].text, "Open");
    assert!(d.actions[0].is_default());
    assert_eq!(d.actions[1].key, "inline-reply");
    assert_eq!(d.actions[1].to_string(), "Reply");
    assert!(d.actions[1].is_inline_reply());
    assert!(d.actions.iter().all(|a| a.icon));
}

#[test]
fn capabilities_and_server_information() {
    let s = server();
    assert_eq!(
        s.get_capabilities(),
        vec![
            "action-icons",
            "actions",
            "body",
            "body-hyperlinks",
            "body-markup",
            "icon-static",
            "inline-reply"
        ]
    );
    let (name, vendor, version, spec) = s.get_server_information();
    assert_eq!(name, "rustyfications");
    assert_eq!(vendor, "bzglve");
    assert_eq!(version, "0.1.0");
    assert_eq!(spec, "1.2");
}

#[test]
fn reason_codes_are_fixed() {
    assert_eq!(Reason::Expired.code(), 1);
    assert_eq!(Reason::Dismissed.code(), 2);
    assert_eq!(Reason::Closed.code(), 3);
    assert_eq!(Reason::Undefined.code(), 4);
}

#[test]
fn presentation_choices() {
    let mut s = server();
    let hints = vec![
        ("image-path".to_string(), HintValue::Str("/x.png".to_string())),
        ("desktop-entry".to_string(), HintValue::Str(String::new())),
    ];
    let (_, m) = s.notify(
        "a",
        0,
        "icon",
        "s",
        "",
        vec!["open", "Open", "default", "Go", "default", "Second", "inline-reply", "R"],
        hints,
        1,
    );
    let d = details(&m);
    assert_eq!(d.default_action().map(|a| a.text.as_str()), Some("Go"));
    assert!(d.wants_reply());
    assert_eq!(d.image_sources(), vec![ImageSource::ImagePath, ImageSource::AppIcon]);
    assert_eq!(d.hints.desktop_entry, None);
    let (_, m) = s.notify("a", 0, "", "s", "", vec!["open", "Open"], vec![], 1);
    let d = details(&m);
    assert!(d.default_action().is_none());
    assert!(!d.wants_reply());
    assert!(d.image_sources().is_empty());
}

#[test]
fn current_id_follows_allocation() {
    let mut s = server();
    assert_eq!(s.current_id(), 0);
    plain(&mut s, 0, "x");
    plain(&mut s, 0, "x");
    plain(&mut s, 1, "x");
    assert_eq!(s.current_id(), 2);
}
