use votrans::api::{
    after_stt_request, SttStep, expired_token_error, sign_in_url, transcript_from_reply, SttResp, N0, N1, JWT_EXPIRED,
};
use votrans::errors::{internal_error, AppErr, INTERNAL_SERVER_ERROR};
use votrans::jobs::{
    downloaded_file_path, ext_by_name, extension_result, ffmpeg_args, is_upload_field,
    temp_file_name, upload_file_path, wav_file_name, wav_file_path, TempCounter, NO_EXTENSION,
    NO_FILE,
};

fn reply(text: &str) -> SttResp {
    SttResp {
        ch1: N0 { file_name: "temp1.wav".into(), text: text.into() },
        ch2: Some(N1 { file_name: "temp1.wav".into(), text: "other".into() }),
    }
}

#[test]
fn errors_are_answered_with_their_status_and_message() {
    let e = AppErr::new(404, "gone".to_string());
    let (code, body) = e.into_parts();
    assert_eq!(code, 404);
    assert_eq!(body.msg, "gone");
    let i = internal_error("boom");
    assert_eq!(i.code, INTERNAL_SERVER_ERROR);
    assert_eq!(i.msg, "boom");
}

#[test]
fn transcript_is_the_first_channel() {
    match transcript_from_reply(Ok(reply("привет"))) {
        Ok(t) => assert_eq!(t, "привет"),
        Err(e) => panic!("{e:?}"),
    }
    match transcript_from_reply(Err("bad json".to_string())) {
        Err(e) => {
            assert_eq!(e.code, 500);
            assert_eq!(e.msg, "bad json");
        }
        Ok(t) => panic!("{t}"),
    }
}

#[test]
fn expired_token() {
    let e = expired_token_error();
    assert_eq!(e.code, 500);
    assert_eq!(e.msg, JWT_EXPIRED);
    assert_eq!(JWT_EXPIRED, "jwt expired");
}

#[test]
fn sign_in_address() {
    assert_eq!(
        sign_in_url("me", "pw"),
        "http://asrdemo.devmachine.tech/auth/sign-in?username=me&password=pw"
    );
}

#[test]
fn jobs_are_numbered_from_one() {
    let mut c = TempCounter::new();
    assert_eq!(c.next(), 1);
    assert_eq!(c.next(), 2);
    assert_eq!(c.value, 2);
}

#[test]
fn job_names() {
    assert_eq!(temp_file_name(0), "temp0");
    assert_eq!(temp_file_name(42), "temp42");
    assert_ne!(temp_file_name(1), temp_file_name(11));
    let mut c = TempCounter::new();
    let a = temp_file_name(c.next());
    let b = temp_file_name(c.next());
    assert_ne!(a, b);
}

#[test]
fn job_paths() {
    assert_eq!(upload_file_path("tmp", "temp3"), "./tmp/temp3");
    assert_eq!(downloaded_file_path("tmp", "temp3", "webm"), "./tmp/temp3.webm");
    assert_eq!(wav_file_path("tmp", "temp3"), "./tmp/temp3.wav");
    assert_eq!(wav_file_name("temp3"), "temp3.wav");
}

#[test]
fn conversion_command() {
    assert_eq!(
        ffmpeg_args("in.webm", "out.wav"),
        vec!["-y", "-i", "in.webm", "-ac", "1", "-loglevel", "quiet", "out.wav"]
    );
}

#[test]
fn upload_field() {
    assert!(is_upload_field("file"));
    assert!(!is_upload_field("files"));
}

#[test]
fn extension_of_the_downloaded_file() {
    let paths = vec!["./tmp/temp2.m4a".to_string(), "./tmp/temp1.webm".to_string()];
    match ext_by_name(&paths, "temp1") {
        Ok(e) => assert_eq!(e, "webm"),
        Err(e) => panic!("{e:?}"),
    }
}

#[test]
fn first_matching_file_wins() {
    let paths = vec!["./tmp/temp1.opus".to_string(), "./tmp/temp1.webm".to_string()];
    match ext_by_name(&paths, "temp1") {
        Ok(e) => assert_eq!(e, "opus"),
        Err(e) => panic!("{e:?}"),
    }
}

#[test]
fn missing_file() {
    let paths = vec!["./tmp/temp2.m4a".to_string()];
    match ext_by_name(&paths, "temp1") {
        Err(e) => {
            assert_eq!(e.code, 500);
            assert_eq!(e.msg, NO_FILE);
        }
        Ok(x) => panic!("{x}"),
    }
    assert!(ext_by_name(&Vec::new(), "temp1").is_err());
}

#[test]
fn file_without_extension() {
    for p in ["./tmp/temp1", "./tmp/.temp1"] {
        match ext_by_name(&vec![p.to_string()], "temp1") {
            Err(e) => assert_eq!(e.msg, NO_EXTENSION),
            Ok(x) => panic!("{x}"),
        }
    }
    match extension_result(Some("mp3".to_string())) {
        Ok(x) => assert_eq!(x, "mp3"),
        Err(e) => panic!("{e:?}"),
    }
    assert!(extension_result(None).is_err());
}

#[test]
fn after_a_request_to_the_recognition_service() {
    match after_stt_request(None) {
        SttStep::RenewTokenThenFail(e) => {
            assert_eq!(e.code, 500);
            assert_eq!(e.msg, "jwt expired");
        }
        other => panic!("{other:?}"),
    }
    match after_stt_request(Some(Ok(reply("текст")))) {
        SttStep::Answer(Ok(t)) => assert_eq!(t, "текст"),
        other => panic!("{other:?}"),
    }
    match after_stt_request(Some(Err("unreadable".to_string()))) {
        SttStep::Answer(Err(e)) => {
            assert_eq!(e.code, 500);
            assert_eq!(e.msg, "unreadable");
        }
        other => panic!("{other:?}"),
    }
}

#[test]
fn successive_jobs_get_consecutive_distinct_numbers() {
    let mut c = TempCounter { value: 7 };
    let got: Vec<u64> = (0..5).map(|_| c.next()).collect();
    assert_eq!(got, vec![8, 9, 10, 11, 12]);
    assert_eq!(c.value, 12);
    let names: std::collections::HashSet<String> = got.iter().map(|n| temp_file_name(*n)).collect();
    assert_eq!(names.len(), 5);
}
