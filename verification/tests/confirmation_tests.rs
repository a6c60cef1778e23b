use accessible_screen_capture::confirmation::{
    check_confirmation_payload, confirmation_answer, rejection_message, request_failure_message,
    responses_url, split_lines_vec, stream_description,
};

fn delta(text: &str) -> String {
    format!("data: {{\"type\":\"response.output_text.delta\",\"delta\":\"{text}\"}}")
}

#[test]
fn blank_payload_is_refused() {
    assert_eq!(
        check_confirmation_payload("  \n\t").unwrap_err(),
        "Screenshot Confirmation did not receive image data."
    );
    assert_eq!(
        check_confirmation_payload("").unwrap_err(),
        "Screenshot Confirmation did not receive image data."
    );
}

#[test]
fn payload_over_eighty_mebibytes_is_refused() {
    let big = "a".repeat(80 * 1024 * 1024 + 1);
    assert_eq!(
        check_confirmation_payload(&big).unwrap_err(),
        "The screenshot is too large for Screenshot Confirmation."
    );
    let limit = "a".repeat(80 * 1024 * 1024);
    assert_eq!(check_confirmation_payload(&limit), Ok(()));
}

#[test]
fn ordinary_payload_is_accepted() {
    assert_eq!(check_confirmation_payload("iVBORw0KGgo="), Ok(()));
}

#[test]
fn responses_url_strips_trailing_slashes() {
    let urls = vec!["http://127.0.0.1:5272/".to_string(), "http://other/".to_string()];
    assert_eq!(responses_url(&urls).unwrap(), "http://127.0.0.1:5272/v1/responses");
    assert_eq!(responses_url(&vec!["http://x//".to_string()]).unwrap(), "http://x/v1/responses");
    assert_eq!(responses_url(&vec!["http://x".to_string()]).unwrap(), "http://x/v1/responses");
}

#[test]
fn no_endpoint_is_an_error() {
    assert_eq!(
        responses_url(&Vec::new()).unwrap_err(),
        "Screenshot Confirmation local inference service returned no endpoint."
    );
}

#[test]
fn request_failures_are_worded() {
    assert_eq!(
        request_failure_message(true, "operation timed out"),
        "Private Screenshot Confirmation timed out after 90 seconds. The screenshot remains available to save or discard."
    );
    assert_eq!(
        request_failure_message(false, "connection refused"),
        "Private Screenshot Confirmation local request failed: connection refused"
    );
}

#[test]
fn rejection_uses_service_message() {
    assert_eq!(
        rejection_message("{\"error\":{\"message\":\"image too large\"}}"),
        "Private Screenshot Confirmation failed: image too large"
    );
}

#[test]
fn rejection_falls_back_to_trimmed_body() {
    assert_eq!(rejection_message("  Bad Gateway \n"), "Private Screenshot Confirmation failed: Bad Gateway");
    let long = "b".repeat(600);
    assert_eq!(
        rejection_message(&long),
        format!("Private Screenshot Confirmation failed: {}", "b".repeat(500))
    );
    assert_eq!(
        rejection_message("{\"error\":{\"message\":5}}"),
        "Private Screenshot Confirmation failed: {\"error\":{\"message\":5}}"
    );
}

#[test]
fn rejection_of_empty_body() {
    assert_eq!(
        rejection_message("   "),
        "Private Screenshot Confirmation failed: The local vision service rejected the request."
    );
}

#[test]
fn lines_are_split_at_newlines() {
    let chars: Vec<char> = "a\nbc\n".chars().collect();
    let lines = split_lines_vec(&chars);
    assert_eq!(lines, vec![vec!['a'], vec!['b', 'c'], vec![]]);
}

#[test]
fn deltas_are_gathered_until_done() {
    let body = format!("{}\n\n{}\ndata: [DONE]\n{}\n", delta("A text editor "), delta("window."), delta(" ignored"));
    assert_eq!(stream_description(&body).unwrap(), "A text editor window.");
}

#[test]
fn crlf_lines_and_comments_are_handled() {
    let body = format!(": keep-alive\r\nevent: response.output_text.delta\r\n{}\r\ndata: not json\r\n", delta("Notepad"));
    assert_eq!(stream_description(&body).unwrap(), "Notepad");
}

#[test]
fn completion_text_is_used_when_nothing_was_gathered() {
    let body = "data: {\"type\":\"response.completed\",\"response\":{\"output\":[{\"content\":[{\"text\":\" Excel sheet \"}]}]}}\n";
    assert_eq!(stream_description(body).unwrap(), "Excel sheet");
}

#[test]
fn completion_text_is_ignored_after_deltas() {
    let body = format!(
        "{}\ndata: {{\"type\":\"response.completed\",\"response\":{{\"output\":[{{\"content\":[{{\"text\":\"other\"}}]}}]}}}}\n",
        delta("Word")
    );
    assert_eq!(stream_description(&body).unwrap(), "Word");
}

#[test]
fn failed_event_reports_its_message() {
    let body = "data: {\"type\":\"response.failed\",\"response\":{\"error\":{\"message\":\"out of memory\"}}}\n";
    assert_eq!(
        stream_description(body).unwrap_err(),
        "Private Screenshot Confirmation failed: out of memory"
    );
    let body = "data: {\"type\":\"response.failed\",\"error\":{\"message\":\"bad model\"}}\n";
    assert_eq!(stream_description(body).unwrap_err(), "Private Screenshot Confirmation failed: bad model");
    let body = "data: {\"type\":\"response.failed\"}\n";
    assert_eq!(
        stream_description(body).unwrap_err(),
        "Private Screenshot Confirmation failed: The local vision model reported a failed response."
    );
}

#[test]
fn completed_without_text_is_explained() {
    let body = "data: {\"type\":\"response.completed\"}\n";
    assert_eq!(
        stream_description(body).unwrap_err(),
        "Private Screenshot Confirmation returned no description. The local vision model completed but produced no text."
    );
}

#[test]
fn done_before_any_text_counts_as_completed() {
    let body = format!("data: [DONE]\n{}\n", delta("late"));
    assert_eq!(
        stream_description(&body).unwrap_err(),
        "Private Screenshot Confirmation returned no description. The local vision model completed but produced no text."
    );
}

#[test]
fn empty_stream_is_explained() {
    assert_eq!(
        stream_description("").unwrap_err(),
        "Private Screenshot Confirmation returned no description. The local vision service returned no output-text events."
    );
}

#[test]
fn blank_deltas_give_no_description() {
    let body = format!("{}\n", delta("   "));
    assert_eq!(
        stream_description(&body).unwrap_err(),
        "Private Screenshot Confirmation returned no description. The local vision service returned no output-text events."
    );
}

#[test]
fn answer_follows_status() {
    assert_eq!(
        confirmation_answer(false, "{\"error\":{\"message\":\"busy\"}}").unwrap_err(),
        "Private Screenshot Confirmation failed: busy"
    );
    let body = format!("{}\n", delta("Chrome"));
    assert_eq!(confirmation_answer(true, &body).unwrap(), "Chrome");
}
