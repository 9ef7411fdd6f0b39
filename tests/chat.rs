use rust_chat::{
    broadcast, handle_line, normalize_line, parse_command, ChatError, Command, Delivery,
    Directory, Info, Outcome, Session,
};

fn s(t: &str) -> String {
    t.to_string()
}

fn session(conn: u64) -> Session {
    Session { name: String::new(), conn }
}

fn ok(r: Result<Outcome, ChatError>) -> Outcome {
    match r {
        Ok(o) => o,
        Err(e) => panic!("unexpected error {:?}", e),
    }
}

fn err(r: Result<Outcome, ChatError>) -> ChatError {
    match r {
        Ok(o) => panic!("unexpected success {:?}", o),
        Err(e) => e,
    }
}

fn texts_to(ds: &[Delivery], conn: u64) -> Vec<String> {
    ds.iter().filter(|d| d.conn == conn).map(|d| d.text.clone()).collect()
}

#[test]
fn scenario_register_login_changepass() {
    let mut dir = Directory::new();
    let mut a = session(1);
    let o = ok(handle_line(&mut dir, &mut a, "#setname alice\n"));
    assert_eq!(o.reply, "nickname set, default credential is 123\n");
    assert_eq!(a.name, "alice");
    let o = ok(handle_line(&mut dir, &mut a, "#login alice 123\n"));
    assert_eq!(o.reply, "login succeeded\n");
    let mut other = session(2);
    assert_eq!(err(handle_line(&mut dir, &mut other, "#setname alice\n")), ChatError::AlreadyExists);
    // alice is online here, and an online handle is refused before its credential is read
    assert_eq!(err(handle_line(&mut dir, &mut other, "#login alice wrong\n")), ChatError::AlreadyOnline);
    let o = ok(handle_line(&mut dir, &mut a, "#changepass 123 456\n"));
    assert_eq!(o.reply, "credential changed, please re-login\n");
    assert_eq!(err(handle_line(&mut dir, &mut a, "#login alice 123\n")), ChatError::WrongCredential);
    let o = ok(handle_line(&mut dir, &mut a, "#login alice 456\n"));
    assert_eq!(o.reply, "login succeeded\n");
    assert!(dir.snapshot_online().iter().any(|(h, c)| h == "alice" && *c == 1));
}

#[test]
fn scenario_wrong_credential_while_offline() {
    let mut dir = Directory::new();
    let mut a = session(1);
    ok(handle_line(&mut dir, &mut a, "#setname alice"));
    assert_eq!(err(handle_line(&mut dir, &mut a, "#login alice wrong")), ChatError::WrongCredential);
    assert!(dir.snapshot_online().is_empty());
}

#[test]
fn scenario_broadcast_two_handles() {
    let mut dir = Directory::new();
    let mut a = session(1);
    let mut b = session(2);
    ok(handle_line(&mut dir, &mut a, "#setname a\n"));
    ok(handle_line(&mut dir, &mut a, "#login a 123\n"));
    ok(handle_line(&mut dir, &mut b, "#setname b\n"));
    ok(handle_line(&mut dir, &mut b, "#login b 123\n"));
    let o = ok(handle_line(&mut dir, &mut a, "#broadcast hello\n"));
    assert_eq!(o.reply, "");
    assert!(o.bind.is_none());
    assert_eq!(o.deliveries.len(), 1);
    assert_eq!(o.deliveries[0].to, "b");
    assert_eq!(o.deliveries[0].conn, 2);
    assert_eq!(o.deliveries[0].text, "From User a: hello\n");
    assert!(texts_to(&o.deliveries, 1).is_empty());
}

#[test]
fn register_many_times_one_success() {
    let mut dir = Directory::new();
    let mut oks = 0;
    let mut taken = 0;
    for _ in 0..8 {
        match dir.register(&s("h"), &s("123")) {
            Ok(()) => oks += 1,
            Err(ChatError::AlreadyExists) => taken += 1,
            Err(e) => panic!("unexpected error {:?}", e),
        }
    }
    assert_eq!(oks, 1);
    assert_eq!(taken, 7);
}

#[test]
fn wrong_credential_never_goes_online() {
    let mut dir = Directory::new();
    dir.register(&s("bob"), &s("123")).unwrap();
    for _ in 0..3 {
        assert_eq!(dir.authenticate(&s("bob"), &s("nope"), 5), Err(ChatError::WrongCredential));
    }
    assert!(dir.snapshot_online().is_empty());
    assert_eq!(dir.authenticate(&s("bob"), &s("123"), 5), Ok(()));
    assert_eq!(dir.authenticate(&s("bob"), &s("123"), 6), Err(ChatError::AlreadyOnline));
    assert_eq!(dir.authenticate(&s("carol"), &s("123"), 6), Err(ChatError::NotFound));
}

#[test]
fn change_credential_logs_out() {
    let mut dir = Directory::new();
    dir.register(&s("bob"), &s("123")).unwrap();
    assert_eq!(dir.change_credential(&s("bob"), &s("123"), &s("456")), Err(ChatError::NotLoggedIn));
    dir.authenticate(&s("bob"), &s("123"), 3).unwrap();
    assert_eq!(dir.change_credential(&s("bob"), &s("999"), &s("456")), Err(ChatError::WrongCredential));
    assert_eq!(dir.change_credential(&s("bob"), &s("123"), &s("456")), Ok(()));
    assert!(dir.snapshot_online().is_empty());
    assert_eq!(dir.authenticate(&s("bob"), &s("123"), 3), Err(ChatError::WrongCredential));
    assert_eq!(dir.authenticate(&s("bob"), &s("456"), 3), Ok(()));
}

#[test]
fn logout_without_login_keeps_failing() {
    let mut dir = Directory::new();
    let mut a = session(1);
    assert_eq!(err(handle_line(&mut dir, &mut a, "#logout")), ChatError::NotLoggedIn);
    ok(handle_line(&mut dir, &mut a, "#setname zed"));
    for _ in 0..3 {
        assert_eq!(err(handle_line(&mut dir, &mut a, "#logout")), ChatError::NotLoggedIn);
    }
    ok(handle_line(&mut dir, &mut a, "#login zed 123"));
    let o = ok(handle_line(&mut dir, &mut a, "#logout"));
    assert_eq!(o.reply, "logout succeeded\n");
    assert_eq!(err(handle_line(&mut dir, &mut a, "#logout")), ChatError::NotLoggedIn);
}

#[test]
fn broadcast_reaches_every_other_online_handle() {
    let mut dir = Directory::new();
    for (i, h) in ["s", "p", "q", "r", "off"].iter().enumerate() {
        dir.register(&s(h), &s("123")).unwrap();
        if *h != "off" {
            dir.authenticate(&s(h), &s("123"), i as u64 + 10).unwrap();
        }
    }
    let ds = broadcast(&dir, &s("s"), 10, &s("hi"));
    assert_eq!(ds.len(), 3);
    let mut tos: Vec<String> = ds.iter().map(|d| d.to.clone()).collect();
    tos.sort();
    assert_eq!(tos, vec![s("p"), s("q"), s("r")]);
    for d in &ds {
        assert_eq!(d.text, "From User s: hi\n");
        assert_ne!(d.conn, 10);
    }
    assert!(texts_to(&ds, 14).is_empty());
}

#[test]
fn broadcast_with_no_or_one_recipient() {
    let mut dir = Directory::new();
    assert!(broadcast(&dir, &s("s"), 1, &s("hi")).is_empty());
    dir.register(&s("s"), &s("123")).unwrap();
    dir.authenticate(&s("s"), &s("123"), 1).unwrap();
    assert!(broadcast(&dir, &s("s"), 1, &s("hi")).is_empty());
    dir.register(&s("t"), &s("123")).unwrap();
    dir.authenticate(&s("t"), &s("123"), 2).unwrap();
    let ds = broadcast(&dir, &s("s"), 1, &s("hi"));
    assert_eq!(ds.len(), 1);
    assert_eq!(ds[0].conn, 2);
    assert_eq!(ds[0].text, "From User s: hi\n");
}

#[test]
fn broadcast_alias_joins_words() {
    let mut dir = Directory::new();
    let mut a = session(1);
    let mut b = session(2);
    ok(handle_line(&mut dir, &mut b, "#setname b"));
    ok(handle_line(&mut dir, &mut b, "#login b 123"));
    let o = ok(handle_line(&mut dir, &mut a, "#B   Hello\t  World  \n"));
    assert_eq!(texts_to(&o.deliveries, 2), vec![s("From User : hello world\n")]);
}

#[test]
fn parse_errors() {
    assert!(matches!(parse_command(""), Err(ChatError::EmptyInput)));
    assert!(matches!(parse_command("hello"), Err(ChatError::MalformedCommand)));
    assert!(matches!(parse_command("#foo bar"), Err(ChatError::UnknownCommand)));
    assert!(matches!(parse_command("#setname"), Err(ChatError::UsageError)));
    assert!(matches!(parse_command("#setname a b"), Err(ChatError::UsageError)));
    assert!(matches!(parse_command("#login a"), Err(ChatError::UsageError)));
    assert!(matches!(parse_command("#logout now"), Err(ChatError::UsageError)));
    assert!(matches!(parse_command("#changepass 1"), Err(ChatError::UsageError)));
    assert!(matches!(parse_command("#broadcast"), Err(ChatError::UsageError)));
    assert!(matches!(parse_command("#b \n"), Err(ChatError::UsageError)));
    assert!(matches!(parse_command("#help me"), Err(ChatError::UsageError)));
}

#[test]
fn parse_commands() {
    match parse_command("#login  bob   pw\r\n") {
        Ok(Command::Login(h, c)) => {
            assert_eq!(h, "bob");
            assert_eq!(c, "pw");
        }
        other => panic!("{:?}", other),
    }
    match parse_command("#changepass 1 2") {
        Ok(Command::ChangePass(o, n)) => {
            assert_eq!(o, "1");
            assert_eq!(n, "2");
        }
        other => panic!("{:?}", other),
    }
    match parse_command("#broadcast a  b c") {
        Ok(Command::Broadcast(m)) => assert_eq!(m, "a b c"),
        other => panic!("{:?}", other),
    }
    assert!(matches!(parse_command("#logout\n"), Ok(Command::Logout)));
    assert!(matches!(parse_command("#help"), Ok(Command::Help)));
    match parse_command("#setname x") {
        Ok(Command::SetName(h)) => assert_eq!(h, "x"),
        other => panic!("{:?}", other),
    }
}

#[test]
fn lines_are_normalized() {
    assert_eq!(normalize_line("  \t#LOGIN Alice ABC\n"), "#login alice abc\n");
    assert_eq!(normalize_line("ABC"), "abc");
    assert_eq!(normalize_line(" \n"), "");
    let mut dir = Directory::new();
    let mut a = session(1);
    assert_eq!(err(handle_line(&mut dir, &mut a, "   \r\n")), ChatError::EmptyInput);
    assert_eq!(err(handle_line(&mut dir, &mut a, "say hi\n")), ChatError::MalformedCommand);
    ok(handle_line(&mut dir, &mut a, "  #SETNAME Alice"));
    assert_eq!(a.name, "alice");
}

#[test]
fn errors_leave_session_unbound() {
    let mut dir = Directory::new();
    let mut a = session(1);
    ok(handle_line(&mut dir, &mut a, "#setname one"));
    assert_eq!(err(handle_line(&mut dir, &mut a, "#login two 123")), ChatError::NotFound);
    assert_eq!(a.name, "one");
    let o = ok(handle_line(&mut dir, &mut a, "#help"));
    assert!(o.reply.contains("#setname"));
    assert!(o.bind.is_none());
    assert_eq!(a.name, "one");
}

#[test]
fn error_messages() {
    assert_eq!(ChatError::EmptyInput.message(), "\n");
    assert_eq!(ChatError::UnknownCommand.message(), "unknown command\n");
    assert_eq!(ChatError::AlreadyExists.message(), "nickname already taken\n");
    assert_eq!(ChatError::NotLoggedIn.message(), "not logged in\n");
}

#[test]
fn load_and_go_offline() {
    let mut dir = Directory::new();
    let recs = vec![
        Info { name: s("ann"), pass: s("1"), state: true, conn: Some(4) },
        Info { name: s("ben"), pass: s("2"), state: false, conn: None },
        Info { name: s("ann"), pass: s("3"), state: false, conn: None },
    ];
    dir.load(&recs);
    assert!(dir.snapshot_online().is_empty());
    assert_eq!(dir.authenticate(&s("ann"), &s("1"), 4), Err(ChatError::WrongCredential));
    assert_eq!(dir.authenticate(&s("ann"), &s("3"), 4), Ok(()));
    assert_eq!(dir.snapshot_online(), vec![(s("ann"), 4)]);
    let rec = dir.go_offline(&s("ann")).unwrap();
    assert_eq!(rec.name, "ann");
    assert_eq!(rec.pass, "3");
    assert!(!rec.state);
    assert!(rec.conn.is_none());
    assert!(dir.snapshot_online().is_empty());
    assert!(dir.go_offline(&s("nobody")).is_none());
}

#[test]
fn changepass_needs_a_bound_handle() {
    let mut dir = Directory::new();
    dir.register(&s(""), &s("123")).unwrap();
    dir.authenticate(&s(""), &s("123"), 1).unwrap();
    let mut a = session(1);
    assert_eq!(err(handle_line(&mut dir, &mut a, "#changepass 123 456")), ChatError::NotLoggedIn);
    assert_eq!(dir.snapshot_online(), vec![(s(""), 1)]);
    assert_eq!(dir.deauthenticate(&s("")), Ok(()));
    assert_eq!(dir.authenticate(&s(""), &s("123"), 1), Ok(()));
}
