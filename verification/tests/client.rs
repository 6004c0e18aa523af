use mpvipc::{
    position_result, reply_result, Command, ErrorCode, Event, EventKind, Json, Mpv, Number, State,
    Step,
};

fn connected() -> Mpv {
    Mpv::connect("/tmp/mpv.sock", Ok(())).unwrap().0
}

fn position(event: &Event) -> f64 {
    match event {
        Event::Seek(number) | Event::Pause(number) | Event::Play(number) => {
            number.literal().parse().unwrap()
        }
        Event::Unimplemented => panic!("no position"),
    }
}

#[test]
fn connect_records_the_socket() {
    let mpv = connected();
    assert_eq!(mpv.name(), "/tmp/mpv.sock");
    assert_eq!(mpv.state(), State::Ready);
}

#[test]
fn connect_hands_the_stream_back() {
    let (mpv, stream) = Mpv::connect("/run/mpv", Ok(vec![1u8, 2, 3])).unwrap();
    assert_eq!(mpv.name(), "/run/mpv");
    assert_eq!(stream, vec![1u8, 2, 3]);
}

#[test]
fn connect_failure_carries_the_message() {
    let failed =
        Mpv::connect::<()>("/nowhere", Err("No such file or directory (os error 2)".to_string()));
    match failed {
        Err(error) => assert_eq!(
            error,
            ErrorCode::ConnectError("No such file or directory (os error 2)".to_string())
        ),
        Ok(_) => panic!("connected"),
    }
}

#[test]
fn run_command_float_reply() {
    let mut mpv = connected();
    let line = mpv.run_command(&Command::GetProperty("time-pos".to_string())).unwrap();
    assert_eq!(line, "{\"command\": [\"get_property\", \"time-pos\"]}\n");
    assert_eq!(mpv.state(), State::AwaitingReply);
    match mpv.reply::<Number>("{\"error\":\"success\",\"data\":3.5}") {
        Step::Done(Ok(number)) => {
            assert_eq!(number.literal(), "3.5");
            assert_eq!(number.literal().parse::<f64>().unwrap(), 3.5);
        }
        other => panic!("{:?}", other),
    }
    assert_eq!(mpv.state(), State::Ready);
}

#[test]
fn run_command_string_where_float_expected() {
    let mut mpv = connected();
    mpv.run_command(&Command::GetProperty("time-pos".to_string())).unwrap();
    assert_eq!(
        mpv.reply::<Number>("{\"error\":\"success\",\"data\":\"x\"}"),
        Step::Done(Err(ErrorCode::ValueDoesNotContainF64))
    );
    assert_eq!(mpv.state(), State::Ready);
}

#[test]
fn run_command_player_error() {
    let mut mpv = connected();
    mpv.run_command(&Command::GetProperty("nothing".to_string())).unwrap();
    assert_eq!(
        mpv.reply::<()>("{\"error\":\"property not found\"}"),
        Step::Done(Err(ErrorCode::MpvError("property not found".to_string())))
    );
    assert_eq!(mpv.state(), State::Ready);
}

#[test]
fn run_command_malformed_line() {
    let mut mpv = connected();
    mpv.pause().unwrap();
    match mpv.reply::<()>("not json") {
        Step::Done(Err(ErrorCode::JsonParseError(message))) => {
            assert!(message.starts_with("expected ident"));
        }
        other => panic!("{:?}", other),
    }
    assert_eq!(mpv.state(), State::Ready);
}

#[test]
fn run_command_success_without_payload() {
    let mut mpv = connected();
    assert_eq!(mpv.pause().unwrap(), "{\"command\": [\"set\", \"pause\", \"yes\"]}\n");
    assert_eq!(mpv.reply::<()>("{\"error\":\"success\"}"), Step::Done(Ok(())));
    assert_eq!(mpv.play().unwrap(), "{\"command\": [\"set\", \"pause\", \"no\"]}\n");
    assert_eq!(mpv.reply::<()>("{\"data\":null,\"error\":\"success\"}"), Step::Done(Ok(())));
}

#[test]
fn run_command_missing_payload_is_null() {
    let mut mpv = connected();
    mpv.run_command(&Command::GetProperty("pause".to_string())).unwrap();
    assert_eq!(
        mpv.reply::<bool>("{\"error\":\"success\"}"),
        Step::Done(Err(ErrorCode::ValueDoesNotContainBool))
    );
}

#[test]
fn run_command_typed_payloads() {
    let mut mpv = connected();
    mpv.run_command(&Command::GetProperty("pause".to_string())).unwrap();
    assert_eq!(mpv.reply::<bool>("{\"error\":\"success\",\"data\":true}"), Step::Done(Ok(true)));
    mpv.run_command(&Command::GetProperty("path".to_string())).unwrap();
    assert_eq!(
        mpv.reply::<String>("{\"error\":\"success\",\"data\":\"a.mkv\"}"),
        Step::Done(Ok("a.mkv".to_string()))
    );
    mpv.run_command(&Command::GetProperty("playlist".to_string())).unwrap();
    assert_eq!(
        mpv.reply::<Vec<Json>>("{\"error\":\"success\",\"data\":[{\"filename\":\"a\"}]}"),
        Step::Done(Ok(vec![Json::Object(vec![(
            "filename".to_string(),
            Json::String("a".to_string())
        )])]))
    );
    mpv.run_command(&Command::GetProperty("metadata".to_string())).unwrap();
    assert_eq!(
        mpv.reply::<Vec<(String, Json)>>("{\"error\":\"success\",\"data\":{\"title\":\"t\"}}"),
        Step::Done(Ok(vec![("title".to_string(), Json::String("t".to_string()))]))
    );
}

#[test]
fn reply_with_error_that_is_no_string() {
    let mut mpv = connected();
    mpv.pause().unwrap();
    assert_eq!(mpv.reply::<()>("{\"error\":0}"), Step::Done(Err(ErrorCode::UnexpectedResult)));
    mpv.pause().unwrap();
    assert_eq!(mpv.reply::<()>("{\"error\":null}"), Step::Done(Err(ErrorCode::UnexpectedResult)));
}

#[test]
fn line_that_is_neither_reply_nor_event() {
    let mut mpv = connected();
    mpv.pause().unwrap();
    assert_eq!(mpv.reply::<()>("{\"data\":1}"), Step::Done(Err(ErrorCode::UnexpectedResult)));
    assert_eq!(mpv.state(), State::Ready);
}

#[test]
fn events_before_the_reply_are_dropped() {
    let mut mpv = connected();
    mpv.run_command(&Command::GetProperty("pause".to_string())).unwrap();
    assert_eq!(mpv.reply::<bool>("{\"event\":\"seek\"}"), Step::Skip);
    assert_eq!(mpv.state(), State::AwaitingReply);
    assert_eq!(mpv.reply::<bool>("{\"event\":\"playback-restart\"}"), Step::Skip);
    assert_eq!(mpv.state(), State::AwaitingReply);
    assert_eq!(mpv.reply::<bool>("{\"data\":false,\"error\":\"success\"}"), Step::Done(Ok(false)));
    assert_eq!(mpv.state(), State::Ready);
}

#[test]
fn reply_outside_a_command() {
    let mut mpv = connected();
    assert_eq!(
        mpv.reply::<()>("{\"error\":\"success\"}"),
        Step::Done(Err(ErrorCode::UnexpectedResult))
    );
    assert_eq!(mpv.state(), State::Ready);
}

#[test]
fn listen_seek_event() {
    let mut mpv = connected();
    assert_eq!(mpv.listen(), Ok(()));
    assert_eq!(mpv.state(), State::AwaitingEvent);
    assert_eq!(
        mpv.event("{\"event\":\"seek\"}"),
        Step::Send("{\"command\": [\"get_property\", \"time-pos\"]}\n".to_string())
    );
    assert_eq!(mpv.state(), State::AwaitingPosition(EventKind::Seek));
    match mpv.event("{\"error\":\"success\",\"data\":12.0}") {
        Step::Done(Ok(event)) => {
            assert!(matches!(event, Event::Seek(_)));
            assert_eq!(position(&event), 12.0);
        }
        other => panic!("{:?}", other),
    }
    assert_eq!(mpv.state(), State::Ready);
}

#[test]
fn listen_pause_and_unpause_events() {
    let mut mpv = connected();
    mpv.listen().unwrap();
    assert!(matches!(mpv.event("{\"event\":\"pause\"}"), Step::Send(_)));
    assert_eq!(mpv.state(), State::AwaitingPosition(EventKind::Pause));
    match mpv.event("{\"error\":\"success\",\"data\":1.25}") {
        Step::Done(Ok(event)) => {
            assert!(matches!(event, Event::Pause(_)));
            assert_eq!(position(&event), 1.25);
        }
        other => panic!("{:?}", other),
    }
    mpv.listen().unwrap();
    assert!(matches!(mpv.event("{\"event\":\"unpause\"}"), Step::Send(_)));
    assert_eq!(mpv.state(), State::AwaitingPosition(EventKind::Play));
    match mpv.event("{\"error\":\"success\",\"data\":7}") {
        Step::Done(Ok(event)) => {
            assert!(matches!(event, Event::Play(_)));
            assert_eq!(position(&event), 7.0);
        }
        other => panic!("{:?}", other),
    }
}

#[test]
fn listen_unknown_event() {
    let mut mpv = connected();
    mpv.listen().unwrap();
    assert_eq!(mpv.event("{\"event\":\"idle\"}"), Step::Done(Ok(Event::Unimplemented)));
    assert_eq!(mpv.state(), State::Ready);
}

#[test]
fn listen_reply_is_cross_talk() {
    let mut mpv = connected();
    mpv.listen().unwrap();
    assert_eq!(
        mpv.event("{\"error\":\"success\",\"data\":1}"),
        Step::Done(Err(ErrorCode::UnexpectedResult))
    );
    assert_eq!(mpv.state(), State::Ready);
}

#[test]
fn listen_malformed_line() {
    let mut mpv = connected();
    mpv.listen().unwrap();
    assert!(matches!(mpv.event("{"), Step::Done(Err(ErrorCode::JsonParseError(_)))));
    assert_eq!(mpv.state(), State::Ready);
}

#[test]
fn listen_event_name_that_is_no_string() {
    let mut mpv = connected();
    mpv.listen().unwrap();
    assert_eq!(
        mpv.event("{\"event\":5}"),
        Step::Done(Err(ErrorCode::JsonContainsUnexptectedType))
    );
}

#[test]
fn listen_position_query_fails() {
    let mut mpv = connected();
    mpv.listen().unwrap();
    assert!(matches!(mpv.event("{\"event\":\"seek\"}"), Step::Send(_)));
    assert_eq!(
        mpv.event("{\"error\":\"property unavailable\"}"),
        Step::Done(Err(ErrorCode::MpvError("property unavailable".to_string())))
    );
    assert_eq!(mpv.state(), State::Ready);
}

#[test]
fn listen_position_that_is_no_number() {
    let mut mpv = connected();
    mpv.listen().unwrap();
    assert!(matches!(mpv.event("{\"event\":\"pause\"}"), Step::Send(_)));
    assert_eq!(
        mpv.event("{\"error\":\"success\",\"data\":\"12.0\"}"),
        Step::Done(Err(ErrorCode::ValueDoesNotContainF64))
    );
}

#[test]
fn listen_events_before_the_position_are_dropped() {
    let mut mpv = connected();
    mpv.listen().unwrap();
    assert!(matches!(mpv.event("{\"event\":\"seek\"}"), Step::Send(_)));
    assert_eq!(mpv.event("{\"event\":\"playback-restart\"}"), Step::Skip);
    assert_eq!(mpv.state(), State::AwaitingPosition(EventKind::Seek));
    match mpv.event("{\"error\":\"success\",\"data\":0.5}") {
        Step::Done(Ok(event)) => assert_eq!(position(&event), 0.5),
        other => panic!("{:?}", other),
    }
}

#[test]
fn listen_again_after_an_event() {
    let mut mpv = connected();
    for _ in 0..3 {
        mpv.listen().unwrap();
        assert_eq!(mpv.event("{\"event\":\"tick\"}"), Step::Done(Ok(Event::Unimplemented)));
    }
}

#[test]
fn event_outside_a_listener() {
    let mut mpv = connected();
    assert_eq!(
        mpv.event("{\"event\":\"seek\"}"),
        Step::Done(Err(ErrorCode::UnexpectedResult))
    );
    mpv.pause().unwrap();
    assert_eq!(
        mpv.event("{\"event\":\"seek\"}"),
        Step::Done(Err(ErrorCode::UnexpectedResult))
    );
    assert_eq!(mpv.state(), State::AwaitingReply);
}

#[test]
fn one_call_at_a_time() {
    let mut mpv = connected();
    mpv.listen().unwrap();
    assert_eq!(mpv.pause(), Err(ErrorCode::UnexpectedResult));
    assert_eq!(mpv.listen(), Err(ErrorCode::UnexpectedResult));
    assert_eq!(mpv.state(), State::AwaitingEvent);
    assert_eq!(mpv.event("{\"event\":\"idle\"}"), Step::Done(Ok(Event::Unimplemented)));
    mpv.pause().unwrap();
    assert_eq!(mpv.play(), Err(ErrorCode::UnexpectedResult));
    assert_eq!(mpv.listen(), Err(ErrorCode::UnexpectedResult));
    assert_eq!(mpv.state(), State::AwaitingReply);
}

#[test]
fn interleaved_commands_and_events_are_told_apart() {
    let mut mpv = connected();
    let mut replies = 0;
    let mut events = 0;
    for round in 0..200 {
        mpv.run_command(&Command::GetProperty("volume".to_string())).unwrap();
        for _ in 0..(round % 4) {
            assert_eq!(mpv.reply::<Number>("{\"event\":\"tick\"}"), Step::Skip);
        }
        let line = format!("{{\"error\":\"success\",\"data\":{}}}", round);
        match mpv.reply::<Number>(&line) {
            Step::Done(Ok(number)) => {
                assert_eq!(number.literal(), round.to_string());
                replies += 1;
            }
            other => panic!("{:?}", other),
        }
        mpv.listen().unwrap();
        assert_eq!(mpv.event("{\"event\":\"tick\"}"), Step::Done(Ok(Event::Unimplemented)));
        events += 1;
    }
    assert_eq!((replies, events), (200, 200));
}

#[test]
fn seek_sends_the_position() {
    let mut mpv = connected();
    let line = mpv.seek(Number::new("90.5").unwrap()).unwrap();
    assert_eq!(line, "{\"command\": [\"seek\", \"90.5\", \"absolute\"]}\n");
    assert_eq!(mpv.reply::<()>("{\"error\":\"success\"}"), Step::Done(Ok(())));
}

#[test]
fn seek_to_a_negative_position() {
    let mut mpv = connected();
    assert_eq!(mpv.seek(Number::new("-1").unwrap()), Err(ErrorCode::UnexpectedValue));
    assert_eq!(mpv.state(), State::Ready);
    assert_eq!(mpv.seek(Number::new("-0.001").unwrap()), Err(ErrorCode::UnexpectedValue));
    assert_eq!(mpv.seek(Number::new("-0.1e-5").unwrap()), Err(ErrorCode::UnexpectedValue));
    assert_eq!(mpv.state(), State::Ready);
    assert!(!Command::Seek(Number::new("-0.5").unwrap()).is_valid());
    assert!(Command::Seek(Number::new("0").unwrap()).is_valid());
    assert!(Command::Pause.is_valid());
}

#[test]
fn seek_to_negative_zero() {
    for literal in ["-0", "-0.0", "-0e3", "-0.000E-7", "-0.0e9"] {
        let mut mpv = connected();
        assert!(Command::Seek(Number::new(literal).unwrap()).is_valid(), "{}", literal);
        let line = mpv.seek(Number::new(literal).unwrap()).unwrap();
        assert_eq!(line, format!("{{\"command\": [\"seek\", \"{}\", \"absolute\"]}}\n", literal));
        assert_eq!(mpv.state(), State::AwaitingReply);
        assert_eq!(mpv.reply::<()>("{\"error\":\"success\"}"), Step::Done(Ok(())));
    }
}

#[test]
fn seek_to_the_literal_of_a_float() {
    for position in [0.0f64, -0.0, 12.5, 1e21, 0.000001] {
        let number = Number::new(&position.to_string()).unwrap();
        let mut mpv = connected();
        let line = mpv.seek(number).unwrap();
        let document: serde_json::Value = serde_json::from_str(&line).unwrap();
        let sent: f64 = document["command"][1].as_str().unwrap().parse().unwrap();
        assert_eq!(sent.to_bits(), position.to_bits());
    }
}

#[test]
fn transport_failure_is_fatal() {
    let mut mpv = connected();
    mpv.pause().unwrap();
    let error = mpv.fail("Broken pipe (os error 32)");
    assert_eq!(error, ErrorCode::ConnectError("Broken pipe (os error 32)".to_string()));
    assert!(error.is_fatal());
    assert_eq!(mpv.state(), State::Failed);
    assert_eq!(mpv.pause(), Err(ErrorCode::ConnectError("connection closed".to_string())));
    assert_eq!(mpv.listen(), Err(ErrorCode::ConnectError("connection closed".to_string())));
    assert_eq!(
        mpv.reply::<()>("{\"error\":\"success\"}"),
        Step::Done(Err(ErrorCode::UnexpectedResult))
    );
    assert_eq!(mpv.state(), State::Failed);
}

#[test]
fn protocol_errors_are_not_fatal() {
    assert!(!ErrorCode::MpvError("x".to_string()).is_fatal());
    assert!(!ErrorCode::JsonParseError("x".to_string()).is_fatal());
    assert!(!ErrorCode::UnexpectedResult.is_fatal());
    assert!(!ErrorCode::ValueDoesNotContainF64.is_fatal());
    let mut mpv = connected();
    mpv.pause().unwrap();
    assert!(matches!(mpv.reply::<()>("]"), Step::Done(Err(ErrorCode::JsonParseError(_)))));
    mpv.pause().unwrap();
    assert_eq!(mpv.reply::<()>("{\"error\":\"success\"}"), Step::Done(Ok(())));
}

#[test]
fn disconnect_twice() {
    let mut mpv = connected();
    assert!(mpv.disconnect());
    assert_eq!(mpv.state(), State::Closed);
    assert!(!mpv.disconnect());
    assert!(!mpv.disconnect());
    assert_eq!(mpv.state(), State::Closed);
    assert_eq!(mpv.pause(), Err(ErrorCode::ConnectError("connection closed".to_string())));
}

#[test]
fn disconnect_after_a_failure() {
    let mut mpv = connected();
    mpv.listen().unwrap();
    mpv.fail("Connection reset by peer (os error 104)");
    assert!(mpv.disconnect());
    assert!(!mpv.disconnect());
    assert_eq!(mpv.state(), State::Closed);
}

#[test]
fn failure_after_disconnect_stays_closed() {
    let mut mpv = connected();
    mpv.disconnect();
    mpv.fail("Transport endpoint is not connected (os error 107)");
    assert_eq!(mpv.state(), State::Closed);
    assert!(!mpv.disconnect());
}

#[test]
fn disconnect_in_the_middle_of_a_call() {
    let mut mpv = connected();
    mpv.pause().unwrap();
    assert!(mpv.disconnect());
    assert_eq!(
        mpv.reply::<()>("{\"error\":\"success\"}"),
        Step::Done(Err(ErrorCode::UnexpectedResult))
    );
    assert_eq!(mpv.state(), State::Closed);
}

#[test]
fn reply_result_reads_the_status() {
    let reply = |status: Json| Json::Object(vec![("error".to_string(), status)]);
    assert_eq!(reply_result::<()>(reply(Json::String("success".to_string()))), Ok(()));
    assert_eq!(
        reply_result::<()>(reply(Json::String("invalid parameter".to_string()))),
        Err(ErrorCode::MpvError("invalid parameter".to_string()))
    );
    assert_eq!(
        reply_result::<()>(reply(Json::String(String::new()))),
        Err(ErrorCode::MpvError(String::new()))
    );
    assert_eq!(reply_result::<()>(reply(Json::Bool(true))), Err(ErrorCode::UnexpectedResult));
    assert_eq!(reply_result::<()>(Json::Object(vec![])), Err(ErrorCode::UnexpectedResult));
    assert_eq!(reply_result::<()>(Json::Null), Err(ErrorCode::UnexpectedResult));
}

#[test]
fn position_result_makes_the_event() {
    let reply = || {
        Json::Object(vec![
            ("error".to_string(), Json::String("success".to_string())),
            ("data".to_string(), Json::Number("2.5".to_string())),
        ])
    };
    assert_eq!(
        position_result(EventKind::Seek, reply()),
        Ok(Event::Seek(Number::new("2.5").unwrap()))
    );
    assert_eq!(
        position_result(EventKind::Pause, reply()),
        Ok(Event::Pause(Number::new("2.5").unwrap()))
    );
    assert_eq!(
        position_result(EventKind::Play, reply()),
        Ok(Event::Play(Number::new("2.5").unwrap()))
    );
    assert_eq!(position_result(EventKind::Unimplemented, reply()), Ok(Event::Unimplemented));
}

#[test]
fn event_kind_by_name() {
    assert_eq!(EventKind::from_name(&"seek".to_string()), EventKind::Seek);
    assert_eq!(EventKind::from_name(&"pause".to_string()), EventKind::Pause);
    assert_eq!(EventKind::from_name(&"unpause".to_string()), EventKind::Play);
    assert_eq!(EventKind::from_name(&"idle".to_string()), EventKind::Unimplemented);
    assert_eq!(EventKind::from_name(&"Seek".to_string()), EventKind::Unimplemented);
    assert_eq!(EventKind::from_name(&String::new()), EventKind::Unimplemented);
}
