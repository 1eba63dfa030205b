use abbs::service::{
    run_agw_listener, session_options, ConfigError, Entrance, ListenerAction, ListenerEvent, Login,
    LoginStep, RadioAction, RadioConfig, RadioEvent, RadioKind, RadioOptions, Supervisor,
};
use abbs::session::SessionRadio;
use abbs::terminal::{Terminal, TerminalError};
use abbs::Callsign;

#[test]
fn radio_defaults_and_mercury_endpoints() {
    let options = RadioOptions::default();
    assert!(matches!(
        options.radio_config().unwrap(),
        RadioConfig::Agw {
            port: 1,
            connect_via: false,
            ..
        }
    ));
    assert!(
        matches!(options.radio_config().unwrap(), RadioConfig::Agw { addr, .. } if addr == "127.0.0.1:8010")
    );
    let options = RadioOptions {
        radio: RadioKind::Mercury,
        ..RadioOptions::default()
    };
    assert!(
        matches!(options.radio_config().unwrap(), RadioConfig::Mercury { host, control_port: 8300, data_port: 8301 } if host == "127.0.0.1")
    );
    let options = RadioOptions {
        radio: RadioKind::Mercury,
        mercury_host: "modem.local".into(),
        mercury_control_port: 9000,
        mercury_data_port: 9100,
        ..RadioOptions::default()
    };
    assert!(
        matches!(options.radio_config().unwrap(), RadioConfig::Mercury { host, control_port: 9000, data_port: 9100 } if host == "modem.local")
    );
}

#[test]
fn mercury_rejects_outgoing_agw_flags() {
    for flag in ["--connect-via", "--allow-tcp-connect"] {
        let options = RadioOptions {
            radio: RadioKind::Mercury,
            connect_via: flag == "--connect-via",
            allow_tcp_connect: flag == "--allow-tcp-connect",
            ..RadioOptions::default()
        };
        assert!(options.radio_config().is_err());
    }
    let options = RadioOptions {
        radio: RadioKind::Mercury,
        connect_via: true,
        allow_tcp_connect: true,
        ..RadioOptions::default()
    };
    let error = options.radio_config().unwrap_err();
    assert_eq!(error, ConfigError::ConnectVia);
    assert_eq!(error.message(), "--connect-via is unsupported with Mercury");
    assert_eq!(
        ConfigError::AllowTcpConnect.message(),
        "--allow-tcp-connect is unsupported with Mercury"
    );
    let options = RadioOptions {
        connect_via: true,
        allow_tcp_connect: true,
        ..RadioOptions::default()
    };
    assert!(matches!(
        options.radio_config().unwrap().clone(),
        RadioConfig::Agw {
            connect_via: true,
            ..
        }
    ));
}

#[test]
fn session_options_follow_the_entrance() {
    let agw = RadioOptions::default().radio_config().unwrap();
    let mercury = RadioConfig::Mercury {
        host: "h".into(),
        control_port: 1,
        data_port: 2,
    };
    let tcp = Entrance::Tcp {
        allow_connect: false,
    };
    let options = session_options(&agw, tcp, "> ", "body> ");
    assert_eq!(options.prompt, "> ");
    assert_eq!(options.body_prompt, "body> ");
    assert!(!options.show_bbs_welcome);
    assert_eq!(options.radio, SessionRadio::Agw { connect: false });
    let allowed = Entrance::Tcp {
        allow_connect: true,
    };
    assert_eq!(
        session_options(&agw, allowed, "", "").radio,
        SessionRadio::Agw { connect: true }
    );
    let options = session_options(&agw, Entrance::Radio, "", "");
    assert!(options.show_bbs_welcome);
    assert_eq!(options.radio, SessionRadio::Agw { connect: true });
    for entrance in [tcp, allowed, Entrance::Radio] {
        assert_eq!(
            session_options(&mercury, entrance, "", "").radio,
            SessionRadio::Mercury
        );
    }
}

fn greeted() -> (Login, Terminal) {
    let mut terminal = Terminal::new();
    let login = Login::new(Callsign::parse("M0BBS").unwrap(), &mut terminal);
    assert_eq!(
        terminal.take_output(),
        b"Welcome to M0BBS amateur radio BBS.\r\nCallsign: "
    );
    (login, terminal)
}

#[test]
fn tcp_callers_have_three_attempts() {
    let (mut login, mut terminal) = greeted();
    assert!(matches!(
        login.handle_tcp_session(&mut terminal),
        LoginStep::Wait
    ));
    terminal.feed(b"\r\nM0 ABC\rTOO-LONG-11\r");
    assert!(matches!(
        login.handle_tcp_session(&mut terminal),
        LoginStep::Retry
    ));
    assert_eq!(
        terminal.take_output(),
        b"Invalid callsign: callsign cannot be empty\r\nCallsign: "
    );
    assert!(matches!(
        login.handle_tcp_session(&mut terminal),
        LoginStep::Retry
    ));
    let output = String::from_utf8(terminal.take_output()).unwrap();
    assert!(output.starts_with("Invalid callsign: invalid callsign: "));
    assert!(output.ends_with("\r\nCallsign: "));
    assert!(matches!(
        login.handle_tcp_session(&mut terminal),
        LoginStep::Refused
    ));
    let output = String::from_utf8(terminal.take_output()).unwrap();
    assert!(output.ends_with("\r\nToo many invalid login attempts.\r\n"));
}

#[test]
fn tcp_callers_log_in_with_a_callsign() {
    let (mut login, mut terminal) = greeted();
    terminal.feed(b"?\r m0alice-1 \r");
    assert!(matches!(
        login.handle_tcp_session(&mut terminal),
        LoginStep::Retry
    ));
    let _ = terminal.take_output();
    match login.handle_tcp_session(&mut terminal) {
        LoginStep::Accepted(callsign) => assert_eq!(callsign.as_str(), "M0ALICE-1"),
        step => panic!("unexpected {step:?}"),
    }
    assert!(terminal.take_output().is_empty());
}

#[test]
fn tcp_callers_may_leave_before_they_log_in() {
    let (mut login, mut terminal) = greeted();
    terminal.feed_end();
    assert!(matches!(
        login.handle_tcp_session(&mut terminal),
        LoginStep::Gone
    ));
    let (mut login, mut terminal) = greeted();
    terminal.feed(b"\xff\r");
    assert!(matches!(
        login.handle_tcp_session(&mut terminal),
        LoginStep::Failed(TerminalError::NotUtf8)
    ));
}

#[test]
fn mercury_setup_failure_is_retried_and_shutdown_interrupts_retry() {
    let mut supervisor = Supervisor::new();
    assert_eq!(
        supervisor.supervise(RadioEvent::Failed),
        RadioAction::Wait(5000)
    );
    assert_eq!(
        supervisor.supervise(RadioEvent::Waited),
        RadioAction::Listen
    );
    assert_eq!(
        supervisor.supervise(RadioEvent::Failed),
        RadioAction::Wait(5000)
    );
    assert_eq!(
        supervisor.supervise(RadioEvent::ShutDown),
        RadioAction::Exit
    );
    assert_eq!(supervisor.supervise(RadioEvent::Waited), RadioAction::Exit);
}

#[test]
fn ax25_callers_are_known_by_their_station() {
    match run_agw_listener(ListenerEvent::Accepted("m0remote".into())) {
        ListenerAction::Record(callsign) => assert_eq!(callsign.as_str(), "M0REMOTE"),
        action => panic!("unexpected {action:?}"),
    }
    assert!(matches!(
        run_agw_listener(ListenerEvent::Accepted("TOO-LONG-11".into())),
        ListenerAction::InvalidCallsign
    ));
    assert!(matches!(
        run_agw_listener(ListenerEvent::Recorded(true)),
        ListenerAction::Serve
    ));
    assert!(matches!(
        run_agw_listener(ListenerEvent::Recorded(false)),
        ListenerAction::Leave
    ));
    assert!(matches!(
        run_agw_listener(ListenerEvent::AcceptFailed),
        ListenerAction::GiveUp
    ));
}
