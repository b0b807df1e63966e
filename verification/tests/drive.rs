use fomoxa_interop::drive::{
    chat_echoed, check_line, closing_line, count_step, drive_exit_status, tally, expect_status, failed_with, one_to_five, open_step, position_of, say_uppercased,
    send_step, tick_of, upload_summarised, OpenStep, Outcome, SendStep, Verdict,
};
use fomoxa_interop::interop::{encode_count_item, encode_done, encode_echo_response, encode_heard, encode_tick};
use fomoxa_interop::status::{CallStatus, FAILED_PRECONDITION, PERMISSION_DENIED, RESOURCE_EXHAUSTED, UNAUTHENTICATED, UNAVAILABLE, CANCELLED, DEADLINE_EXCEEDED, INVALID_ARGUMENT, UNIMPLEMENTED};

fn failed(code: u32) -> Outcome {
    Outcome::Failed(CallStatus { code, message: String::new() })
}

#[test]
fn status_codes_match_fomoxa_rpc() {
    assert_eq!(CANCELLED, fomoxa_rpc::status::CANCELLED);
    assert_eq!(DEADLINE_EXCEEDED, fomoxa_rpc::status::DEADLINE_EXCEEDED);
    assert_eq!(UNIMPLEMENTED, fomoxa_rpc::status::UNIMPLEMENTED);
    assert_eq!(INVALID_ARGUMENT, fomoxa_rpc::status::INVALID_ARGUMENT);
    assert_eq!(fomoxa_interop::status::INTERNAL, fomoxa_rpc::status::INTERNAL);
}

#[test]
fn failed_with_wants_that_failure() {
    assert!(failed_with(&failed(INVALID_ARGUMENT), INVALID_ARGUMENT));
    assert!(!failed_with(&failed(CANCELLED), INVALID_ARGUMENT));
    assert!(!failed_with(&Outcome::End, UNIMPLEMENTED));
}

#[test]
fn say_wants_xin_chao_upper_cased() {
    assert!(say_uppercased(&Outcome::Response(encode_echo_response("XIN CHAO"))));
    assert!(!say_uppercased(&Outcome::Response(encode_echo_response("xin chao"))));
    assert!(!say_uppercased(&Outcome::Item(encode_echo_response("XIN CHAO"))));
}

#[test]
fn count_wants_one_to_five() {
    let mut seen = Vec::new();
    for value in 1..=5 {
        assert_eq!(count_step(&mut seen, &Outcome::Item(encode_count_item(value))), Verdict::Continue);
    }
    assert_eq!(count_step(&mut seen, &Outcome::End), Verdict::Pass);
    let mut short = vec![1, 2, 3];
    assert_eq!(count_step(&mut short, &Outcome::End), Verdict::Fail);
    assert_eq!(count_step(&mut short, &failed(INVALID_ARGUMENT)), Verdict::Fail);
    assert!(one_to_five(&vec![1, 2, 3, 4, 5]));
    assert!(!one_to_five(&vec![1, 2, 3, 5, 4]));
}

#[test]
fn upload_wants_its_summary() {
    assert!(upload_summarised(&Outcome::Response(encode_done("3 chunks, 13312 bytes"))));
    assert!(!upload_summarised(&Outcome::Response(encode_done("3 chunks, 13313 bytes"))));
}

#[test]
fn chat_wants_the_line_upper_cased() {
    assert!(chat_echoed(&Outcome::Item(encode_heard("STILL HERE")), "still here"));
    assert!(!chat_echoed(&Outcome::Item(encode_heard("still here")), "still here"));
    assert!(!chat_echoed(&Outcome::End, "bye"));
}

#[test]
fn ticks_are_read_from_items() {
    assert_eq!(tick_of(&Outcome::Item(encode_tick(3))), Some(3));
    assert_eq!(tick_of(&Outcome::End), None);
}

#[test]
fn outcomes_are_found_by_call() {
    let calls = vec![4, 2, 4];
    assert_eq!(position_of(&calls, 4), Some(0));
    assert_eq!(position_of(&calls, 2), Some(1));
    assert_eq!(position_of(&calls, 6), None);
}

#[test]
fn opening_waits_until_ready_or_failed() {
    assert_eq!(open_step(true, true, true, true), OpenStep::Ready);
    assert_eq!(open_step(false, true, false, false), OpenStep::HandshakeFailed);
    assert_eq!(open_step(false, false, true, false), OpenStep::NeverReady);
    assert_eq!(open_step(false, false, false, true), OpenStep::NeverReady);
    assert_eq!(open_step(false, false, false, false), OpenStep::Wait);
}

#[test]
fn sending_retries_only_while_open() {
    assert_eq!(send_step(false, true), SendStep::Done);
    assert_eq!(send_step(true, true), SendStep::Closed);
    assert_eq!(send_step(true, false), SendStep::Retry);
}

#[test]
fn the_driver_reports_each_check_and_the_total() {
    assert_eq!(check_line("unary Echo.Say", None), "ok   unary Echo.Say");
    assert_eq!(check_line("bidi Room.Chat", Some("End for bye")), "FAIL bidi Room.Chat: End for bye");
    assert_eq!(closing_line(0), "all checks passed");
    assert_eq!(closing_line(3), "3 checks failed");
}

#[test]
fn more_status_codes_match_fomoxa_rpc() {
    assert_eq!(UNAUTHENTICATED, fomoxa_rpc::status::UNAUTHENTICATED);
    assert_eq!(PERMISSION_DENIED, fomoxa_rpc::status::PERMISSION_DENIED);
    assert_eq!(RESOURCE_EXHAUSTED, fomoxa_rpc::status::RESOURCE_EXHAUSTED);
    assert_eq!(FAILED_PRECONDITION, fomoxa_rpc::status::FAILED_PRECONDITION);
    assert_eq!(UNAVAILABLE, fomoxa_rpc::status::UNAVAILABLE);
}

#[test]
fn a_missing_failure_is_explained() {
    assert_eq!(expect_status(&failed(UNIMPLEMENTED), UNIMPLEMENTED, "x"), Ok(()));
    assert_eq!(
        expect_status(&Outcome::End, INVALID_ARGUMENT, "End { call: CallId(4) }"),
        Err("expected INVALID_ARGUMENT, got End { call: CallId(4) }".to_owned())
    );
    for code in 0..12 {
        let wanted = format!("expected {}, got it", fomoxa_rpc::status::name_of(code));
        assert_eq!(expect_status(&Outcome::End, code, "it"), Err(wanted));
    }
}

#[test]
fn the_driver_exits_by_its_failures() {
    assert_eq!(tally(0, true), 0);
    assert_eq!(tally(2, false), 3);
    assert_eq!(drive_exit_status(0), 0);
    assert_eq!(drive_exit_status(3), 1);
}
