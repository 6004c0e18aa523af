use mpvipc::number::parse_natural;
use mpvipc::{ErrorCode, FromValue, Json, Mpv, Step, Command};

#[test]
fn natural_numbers() {
    assert_eq!(parse_natural("0"), Some(0));
    assert_eq!(parse_natural("7"), Some(7));
    assert_eq!(parse_natural("1234567890"), Some(1234567890));
    assert_eq!(parse_natural(&usize::MAX.to_string()), Some(usize::MAX));
}

#[test]
fn natural_number_too_large() {
    assert_eq!(parse_natural("18446744073709551616"), None);
    assert_eq!(parse_natural("99999999999999999999999999999"), None);
    assert_eq!(parse_natural("184467440737095516150"), None);
}

#[test]
fn texts_that_are_no_natural_number() {
    for text in ["", "00", "007", "-1", "+1", "1.0", "1e3", "12a", " 1", "1 ", "٣"] {
        assert_eq!(parse_natural(text), None, "{}", text);
    }
}

#[test]
fn usize_from_value() {
    assert_eq!(usize::get_value(Json::Number("42".to_string())), Ok(42));
    assert_eq!(usize::get_value(Json::Number("0".to_string())), Ok(0));
    assert_eq!(
        usize::get_value(Json::Number("-1".to_string())),
        Err(ErrorCode::ValueDoesNotContainUsize)
    );
    assert_eq!(
        usize::get_value(Json::Number("1.5".to_string())),
        Err(ErrorCode::ValueDoesNotContainUsize)
    );
    assert_eq!(
        usize::get_value(Json::String("42".to_string())),
        Err(ErrorCode::ValueDoesNotContainUsize)
    );
    assert_eq!(usize::get_value(Json::Null), Err(ErrorCode::ValueDoesNotContainUsize));
}

#[test]
fn run_command_count_reply() {
    let mut mpv = Mpv::connect("/tmp/mpv.sock", Ok(())).unwrap().0;
    mpv.run_command(&Command::GetProperty("playlist-count".to_string())).unwrap();
    assert_eq!(mpv.reply::<usize>("{\"error\":\"success\",\"data\":3}"), Step::Done(Ok(3)));
    mpv.run_command(&Command::GetProperty("playlist-count".to_string())).unwrap();
    assert_eq!(
        mpv.reply::<usize>("{\"error\":\"success\",\"data\":3.0}"),
        Step::Done(Err(ErrorCode::ValueDoesNotContainUsize))
    );
}
