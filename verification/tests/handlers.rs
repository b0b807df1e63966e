use fomoxa_interop::handlers::{Chat, Counter, Shout, Step, Ticks, Upload};
use fomoxa_interop::interop::{
    answer_count, answer_say, checked_answer_say, decode_count_item, decode_done,
    decode_echo_response, decode_heard, decode_tick, encode_chunk, encode_count, encode_echo,
    encode_said,
};
use fomoxa_interop::proto::{checked_respond_say, decode_response, respond_count, respond_say};
use fomoxa_interop::status::{INTERNAL, INVALID_ARGUMENT};

fn item_u32(step: Step, decode: fn(&[u8]) -> u32) -> u32 {
    match step {
        Step::Item(body) => decode(&body),
        other => panic!("expected an item, got {other:?}"),
    }
}

#[test]
fn say_answers_upper_case() {
    let reply = answer_say(&encode_echo("xin chao")).expect("a reply");
    assert_eq!(decode_echo_response(&reply), "XIN CHAO");
    let reply = checked_answer_say(&encode_echo("straße")).expect("it fits").expect("a reply");
    assert_eq!(decode_echo_response(&reply), "STRASSE");
}

#[test]
fn say_refuses_an_empty_text() {
    let status = answer_say(&encode_echo("")).expect_err("refused");
    assert_eq!(status.code, INVALID_ARGUMENT);
    assert_eq!(status.message, "Echo.Say needs a non-empty text");
    let status = answer_say(&[]).expect_err("refused");
    assert_eq!(status.code, INVALID_ARGUMENT);
}

#[test]
fn count_streams_one_to_count_then_ends() {
    let mut counter = answer_count(&encode_count(5)).expect("a counter");
    let mut seen = Vec::new();
    loop {
        match counter.poll() {
            Step::Item(body) => seen.push(decode_count_item(&body)),
            Step::End => break,
            other => panic!("unexpected {other:?}"),
        }
    }
    assert_eq!(seen, [1, 2, 3, 4, 5]);
    assert!(matches!(counter.poll(), Step::End));
}

#[test]
fn count_of_zero_ends_at_once() {
    let mut counter = Counter::new(0);
    assert!(matches!(counter.poll(), Step::End));
    assert_eq!(counter.next, 0);
}

#[test]
fn count_is_capped_at_100() {
    let status = answer_count(&encode_count(101)).expect_err("refused");
    assert_eq!(status.code, INVALID_ARGUMENT);
    assert_eq!(status.message, "Echo.Count is capped at 100");
    let counter = answer_count(&encode_count(100)).expect("accepted");
    assert_eq!(counter.count, 100);
    assert!(respond_count(&encode_count(101)).is_err());
    assert_eq!(respond_count(&encode_count(3)).expect("accepted").count, 3);
}

#[test]
fn shout_answers_once_then_fails() {
    let mut shout = respond_say(&encode_echo("hello")).expect("a handler");
    match shout.poll() {
        Step::Respond(body) => assert_eq!(decode_response(&body).text, "HELLO"),
        other => panic!("unexpected {other:?}"),
    }
    match shout.poll() {
        Step::Fail(status) => {
            assert_eq!(status.code, INTERNAL);
            assert_eq!(status.message, "polled after completion");
        }
        other => panic!("unexpected {other:?}"),
    }
    let status = respond_say(&encode_echo("")).expect_err("refused");
    assert_eq!(status.code, INVALID_ARGUMENT);
    assert!(checked_respond_say(&encode_echo("x")).expect("fits").is_ok());
    let mut direct = Shout::new("ok".to_owned());
    assert!(matches!(direct.poll(), Step::Respond(_)));
}

#[test]
fn upload_summarises_its_chunks() {
    let mut upload = Upload::new();
    assert!(matches!(upload.poll(), Step::Pending));
    for size in [4_096u32, 8_192, 1_024] {
        assert!(upload.item(&encode_chunk(size)).is_ok());
    }
    assert!(matches!(upload.poll(), Step::Pending));
    upload.end_of_stream();
    match upload.poll() {
        Step::Respond(body) => assert_eq!(decode_done(&body), "3 chunks, 13312 bytes"),
        other => panic!("unexpected {other:?}"),
    }
}

#[test]
fn upload_refuses_an_empty_chunk() {
    let mut upload = Upload::new();
    let status = upload.item(&encode_chunk(0)).expect_err("refused");
    assert_eq!(status.code, INVALID_ARGUMENT);
    assert_eq!(status.message, "an empty chunk is not accepted");
    assert_eq!(upload.chunks, 0);
    assert_eq!(upload.bytes, 0);
}

#[test]
fn upload_of_nothing_says_so() {
    let mut upload = Upload::new();
    upload.end_of_stream();
    match upload.poll() {
        Step::Respond(body) => assert_eq!(decode_done(&body), "0 chunks, 0 bytes"),
        other => panic!("unexpected {other:?}"),
    }
}

#[test]
fn upload_counts_wrap_as_in_a_release_build() {
    let mut upload = Upload { bytes: u32::MAX, chunks: u32::MAX, closed: false };
    assert!(upload.item(&encode_chunk(2)).is_ok());
    assert_eq!(upload.chunks, 0);
    assert_eq!(upload.bytes, 1);
}

#[test]
fn chat_echoes_in_order_then_ends() {
    let mut chat = Chat::new();
    assert!(matches!(chat.poll(), Step::Pending));
    for line in ["hello", "still here", "bye"] {
        assert!(chat.item(&encode_said(line)).is_ok());
    }
    for line in ["HELLO", "STILL HERE", "BYE"] {
        match chat.poll() {
            Step::Item(body) => assert_eq!(decode_heard(&body), line),
            other => panic!("unexpected {other:?}"),
        }
    }
    assert!(matches!(chat.poll(), Step::Pending));
    assert_eq!(chat.checked_item(&encode_said("x")).map(|r| r.is_ok()), Some(true));
    chat.end_of_stream();
    assert!(matches!(chat.poll(), Step::Item(_)));
    assert!(matches!(chat.poll(), Step::End));
}

#[test]
fn ticks_count_up() {
    let mut ticks = Ticks::new();
    let seen: Vec<u32> = (0..5).map(|_| item_u32(ticks.poll(), decode_tick)).collect();
    assert_eq!(seen, [1, 2, 3, 4, 5]);
    let mut last = Ticks { next: u32::MAX };
    assert_eq!(item_u32(last.poll(), decode_tick), 0);
}
