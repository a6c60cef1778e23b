use vstd::prelude::*;
use vstd::string::StringSliceAdditionalSpecFns;
use crate::text::{
    chars_eq_str, chars_of, chars_start_with, first_chars, push_str, string_of_range,
    take_chars, trim, trim_bounds, trimmed_chars, trimmed_vec,
};

verus! {

/// What `serde_json` finds for `text` at the JSON pointer `pointer`, when
/// `text` parses as JSON and the value there is a string. It names the
/// result of three calls made in turn (`from_str`, `Value::pointer`,
/// `Value::as_str`), each a function of its arguments alone.
pub uninterp spec fn spec_json_str_at(text: Seq<char>, pointer: Seq<char>) -> Option<Seq<char>>;

/// Parses `text` with `serde_json::from_str::<serde_json::Value>`, looks up
/// `pointer` with `Value::pointer` and reads the value found with
/// `Value::as_str`; `None` when any of the three steps finds nothing.
#[verifier::external_body]
fn json_str_at(text: &str, pointer: &str) -> (r: Option<String>)
    ensures
        match r {
            Some(s) => spec_json_str_at(text@, pointer@) == Some(s@),
            None => spec_json_str_at(text@, pointer@) is None,
        },
{
    match serde_json::from_str::<serde_json::Value>(text) {
        Ok(value) => match value.pointer(pointer) {
            Some(found) => match found.as_str() {
                Some(s) => Some(s.to_string()),
                None => None,
            },
            None => None,
        },
        Err(_) => None,
    }
}

/// The largest base64 payload, in bytes, handed on to the vision model.
pub const MAX_PAYLOAD_BYTES: usize = 83886080;

/// Why a screenshot payload is refused before it reaches the model, if it
/// is: blank data, or more than 80 MiB of it.
pub open spec fn payload_refusal(data_base64: Seq<char>) -> Option<Seq<char>> {
    if trim(data_base64).len() == 0 {
        Some("Screenshot Confirmation did not receive image data."@)
    } else if vstd::utf8::encode_utf8(data_base64).len() > MAX_PAYLOAD_BYTES {
        Some("The screenshot is too large for Screenshot Confirmation."@)
    } else {
        None
    }
}

/// Checks the screenshot payload before any local runtime is started.
pub fn check_confirmation_payload(data_base64: &str) -> (r: Result<(), String>)
    requires
        vstd::utf8::encode_utf8(data_base64@).len() <= usize::MAX,
    ensures
        match (r, payload_refusal(data_base64@)) {
            (Ok(()), None) => true,
            (Err(a), Some(b)) => a@ == b,
            _ => false,
        },
{
    if crate::text::is_blank(data_base64) {
        let mut m = String::new();
        push_str(&mut m, "Screenshot Confirmation did not receive image data.");
        return Err(m);
    }
    assert(data_base64.spec_bytes() == vstd::utf8::encode_utf8(data_base64@));
    if data_base64.len() > MAX_PAYLOAD_BYTES {
        let mut m = String::new();
        push_str(&mut m, "The screenshot is too large for Screenshot Confirmation.");
        return Err(m);
    }
    Ok(())
}

/// `s` without the `/` characters at its end, as `trim_end_matches('/')`.
pub open spec fn without_trailing_slashes(s: Seq<char>) -> Seq<char>
    decreases s.len(),
{
    if s.len() > 0 && s.last() == '/' {
        without_trailing_slashes(s.drop_last())
    } else {
        s
    }
}

/// The Responses API address of the first local endpoint, or an error
/// when the service reports no endpoint.
pub open spec fn spec_responses_url(urls: Seq<Seq<char>>) -> Result<Seq<char>, Seq<char>> {
    if urls.len() == 0 {
        Err("Screenshot Confirmation local inference service returned no endpoint."@)
    } else {
        Ok(without_trailing_slashes(urls[0]) + "/v1/responses"@)
    }
}

/// Picks the address to send the confirmation request to.
pub fn responses_url(urls: &Vec<String>) -> (r: Result<String, String>)
    ensures
        match (r, spec_responses_url(urls@.map_values(|u: String| u@))) {
            (Ok(a), Ok(b)) => a@ == b,
            (Err(a), Err(b)) => a@ == b,
            _ => false,
        },
{
    if urls.len() == 0 {
        let mut m = String::new();
        push_str(&mut m, "Screenshot Confirmation local inference service returned no endpoint.");
        return Err(m);
    }
    let first = chars_of(urls[0].as_str());
    let mut end = first.len();
    assert(first@.subrange(0, first.len() as int) =~= first@);
    while end > 0 && first[end - 1] == '/'
        invariant
            end <= first.len(),
            without_trailing_slashes(first@) == without_trailing_slashes(
                first@.subrange(0, end as int),
            ),
        decreases end,
    {
        assert(first@.subrange(0, end as int).drop_last() =~= first@.subrange(0, end - 1));
        end = end - 1;
    }
    assert(first@.subrange(0, first.len() as int) =~= first@);
    let mut r = string_of_range(&first, 0, end);
    push_str(&mut r, "/v1/responses");
    Ok(r)
}

/// The message for a request to the local service that failed to send.
pub open spec fn request_failure_text(is_timeout: bool, error_text: Seq<char>) -> Seq<char> {
    if is_timeout {
        "Private Screenshot Confirmation timed out after 90 seconds. The screenshot remains available to save or discard."@
    } else {
        "Private Screenshot Confirmation local request failed: "@ + error_text
    }
}

/// Words a failed request: a timeout gets its own explanation.
pub fn request_failure_message(is_timeout: bool, error_text: &str) -> (r: String)
    ensures
        r@ == request_failure_text(is_timeout, error_text@),
{
    let mut m = String::new();
    if is_timeout {
        push_str(
            &mut m,
            "Private Screenshot Confirmation timed out after 90 seconds. The screenshot remains available to save or discard.",
        );
    } else {
        push_str(&mut m, "Private Screenshot Confirmation local request failed: ");
        m.append(error_text);
    }
    m
}

/// What a refused request is answered with: the service's own
/// `error.message` when its body is JSON that has one, else the body's
/// first 500 characters (trimmed), else a fixed sentence.
pub open spec fn rejection_detail(response_text: Seq<char>) -> Seq<char> {
    match spec_json_str_at(response_text, "/error/message"@) {
        Some(m) => m,
        None => if trim(response_text).len() == 0 {
            "The local vision service rejected the request."@
        } else {
            first_chars(trim(response_text), 500)
        },
    }
}

/// The message for a response whose status was not a success.
pub fn rejection_message(response_text: &str) -> (r: String)
    ensures
        r@ == "Private Screenshot Confirmation failed: "@ + rejection_detail(response_text@),
{
    let mut m = String::new();
    push_str(&mut m, "Private Screenshot Confirmation failed: ");
    match json_str_at(response_text, "/error/message") {
        Some(detail) => m.append(detail.as_str()),
        None => {
            let t = trimmed_chars(response_text);
            if t.len() == 0 {
                push_str(&mut m, "The local vision service rejected the request.");
            } else {
                let s = crate::text::string_of(&t);
                let d = take_chars(s.as_str(), 500);
                m.append(d.as_str());
            }
        },
    }
    m
}

/// The pieces of `s` between its `\n` characters (the last piece is what
/// follows the last `\n`, possibly nothing).
pub open spec fn split_lines(s: Seq<char>) -> Seq<Seq<char>>
    decreases s.len(),
{
    if s.len() == 0 {
        seq![Seq::<char>::empty()]
    } else {
        let pre = split_lines(s.drop_last());
        if s.last() == '\n' {
            pre.push(Seq::<char>::empty())
        } else {
            pre.update(pre.len() - 1, pre.last().push(s.last()))
        }
    }
}

proof fn lemma_split_lines_nonempty(s: Seq<char>)
    ensures
        split_lines(s).len() >= 1,
    decreases s.len(),
{
    if s.len() > 0 {
        lemma_split_lines_nonempty(s.drop_last());
    }
}

pub open spec fn line_views(lines: Seq<Vec<char>>) -> Seq<Seq<char>> {
    lines.map_values(|l: Vec<char>| l@)
}

/// Splits `chars` at its `\n` characters.
pub fn split_lines_vec(chars: &Vec<char>) -> (r: Vec<Vec<char>>)
    ensures
        line_views(r@) == split_lines(chars@),
{
    let mut done: Vec<Vec<char>> = Vec::new();
    let mut cur: Vec<char> = Vec::new();
    let mut i: usize = 0;
    assert(chars@.take(0) =~= Seq::<char>::empty());
    assert(line_views(done@).push(cur@) =~= split_lines(chars@.take(0)));
    while i < chars.len()
        invariant
            i <= chars.len(),
            line_views(done@).push(cur@) == split_lines(chars@.take(i as int)),
        decreases chars.len() - i,
    {
        let c = chars[i];
        proof {
            assert(chars@.take(i + 1).drop_last() =~= chars@.take(i as int));
            assert(chars@.take(i + 1).last() == c);
            lemma_split_lines_nonempty(chars@.take(i as int));
        }
        if c == '\n' {
            let finished = cur;
            done.push(finished);
            cur = Vec::new();
            assert(line_views(done@).push(cur@) =~= split_lines(chars@.take(i + 1)));
        } else {
            let ghost before = cur@;
            cur.push(c);
            assert(line_views(done@).push(cur@) =~= split_lines(chars@.take(i + 1)));
        }
        i = i + 1;
    }
    assert(chars@.take(chars.len() as int) =~= chars@);
    done.push(cur);
    assert(line_views(done@) =~= split_lines(chars@));
    done
}

/// Where reading the event stream has got to: the description gathered so
/// far and whether the model has reported completion.
pub type StreamProgress = (Seq<char>, bool);

/// The message of a `response.failed` event.
pub open spec fn failed_event_message(data: Seq<char>) -> Seq<char> {
    match spec_json_str_at(data, "/response/error/message"@) {
        Some(m) => m,
        None => match spec_json_str_at(data, "/error/message"@) {
            Some(m) => m,
            None => "The local vision model reported a failed response."@,
        },
    }
}

/// The payload of an event-stream line, when it is a `data:` line.
pub open spec fn data_of_line(line: Seq<char>) -> Option<Seq<char>> {
    let t = trim(line);
    if t.len() == 0 || t[0] == ':' {
        None
    } else if "data:"@.len() <= t.len() && t.subrange(0, "data:"@.len() as int) == "data:"@ {
        Some(trim(t.subrange("data:"@.len() as int, t.len() as int)))
    } else {
        None
    }
}

/// Reads the events from line `i` on: text deltas are gathered, a
/// completion is noted (and its final text taken when nothing was
/// gathered), `[DONE]` ends the stream, and a failure ends it with the
/// failure's message. Lines that are blank, comments, not `data:`, or not
/// JSON are passed over.
pub open spec fn scan_events(lines: Seq<Seq<char>>, i: int, progress: StreamProgress) -> Result<
    StreamProgress,
    Seq<char>,
>
    decreases lines.len() - i,
{
    if i < 0 || i >= lines.len() {
        Ok(progress)
    } else {
        let (desc, completed) = progress;
        match data_of_line(lines[i]) {
            None => scan_events(lines, i + 1, progress),
            Some(data) => if data == "[DONE]"@ {
                Ok((desc, true))
            } else {
                match spec_json_str_at(data, "/type"@) {
                    Some(t) => if t == "response.output_text.delta"@ {
                        match spec_json_str_at(data, "/delta"@) {
                            Some(d) => scan_events(lines, i + 1, (desc + d, completed)),
                            None => scan_events(lines, i + 1, progress),
                        }
                    } else if t == "response.completed"@ {
                        if trim(desc).len() == 0 {
                            match spec_json_str_at(data, "/response/output/0/content/0/text"@) {
                                Some(x) => scan_events(lines, i + 1, (desc + x, true)),
                                None => scan_events(lines, i + 1, (desc, true)),
                            }
                        } else {
                            scan_events(lines, i + 1, (desc, true))
                        }
                    } else if t == "response.failed"@ {
                        Err(
                            "Private Screenshot Confirmation failed: "@ + failed_event_message(
                                data,
                            ),
                        )
                    } else {
                        scan_events(lines, i + 1, progress)
                    },
                    None => scan_events(lines, i + 1, progress),
                }
            },
        }
    }
}

/// The description a streamed response yields: the trimmed gathered text,
/// or why there is none.
pub open spec fn spec_stream_description(response_text: Seq<char>) -> Result<Seq<char>, Seq<char>> {
    match scan_events(split_lines(response_text), 0, (Seq::<char>::empty(), false)) {
        Err(m) => Err(m),
        Ok((desc, completed)) => if trim(desc).len() == 0 {
            Err(
                "Private Screenshot Confirmation returned no description. "@ + if completed {
                    "The local vision model completed but produced no text."@
                } else {
                    "The local vision service returned no output-text events."@
                },
            )
        } else {
            Ok(trim(desc))
        },
    }
}

/// What the confirmation request yields for a response: a refusal when
/// its status was not a success, else the streamed description.
pub open spec fn spec_confirmation_answer(status_ok: bool, response_text: Seq<char>) -> Result<
    Seq<char>,
    Seq<char>,
> {
    if !status_ok {
        Err("Private Screenshot Confirmation failed: "@ + rejection_detail(response_text))
    } else {
        spec_stream_description(response_text)
    }
}

/// Reads the payload of one line, when it is a `data:` line.
fn line_data(line: &Vec<char>) -> (r: Option<String>)
    ensures
        match (r, data_of_line(line@)) {
            (Some(a), Some(b)) => a@ == b,
            (None, None) => true,
            _ => false,
        },
{
    let t = trimmed_vec(line);
    if t.len() == 0 || t[0] == ':' {
        return None;
    }
    if !chars_start_with(&t, "data:") {
        return None;
    }
    proof {
        reveal_strlit("data:");
    }
    let (a, b) = trim_bounds(&t, 5, t.len());
    Some(string_of_range(&t, a, b))
}

/// Gathers the description from a streamed Responses API body.
pub fn stream_description(response_text: &str) -> (r: Result<String, String>)
    ensures
        match (r, spec_stream_description(response_text@)) {
            (Ok(a), Ok(b)) => a@ == b,
            (Err(a), Err(b)) => a@ == b,
            _ => false,
        },
{
    let chars = chars_of(response_text);
    let lines = split_lines_vec(&chars);
    let ghost all = line_views(lines@);
    let ghost total = scan_events(all, 0, (Seq::<char>::empty(), false));
    let mut desc = String::new();
    let mut completed = false;
    let mut finished = false;
    let mut i: usize = 0;
    while i < lines.len() && !finished
        invariant
            i <= lines.len(),
            all == line_views(lines@),
            all == split_lines(response_text@),
            total == scan_events(all, 0, (Seq::<char>::empty(), false)),
            !finished ==> scan_events(all, i as int, (desc@, completed)) == total,
            finished ==> total == Ok::<StreamProgress, Seq<char>>((desc@, completed)),
        decreases lines.len() - i,
    {
        let ghost before = (desc@, completed);
        assert(all[i as int] == lines@[i as int]@);
        match line_data(&lines[i]) {
            None => {},
            Some(data) => {
                if str_is(&data, "[DONE]") {
                    completed = true;
                    finished = true;
                } else {
                    match json_str_at(data.as_str(), "/type") {
                        None => {},
                        Some(t) => {
                            if str_is(&t, "response.output_text.delta") {
                                match json_str_at(data.as_str(), "/delta") {
                                    Some(d) => desc.append(d.as_str()),
                                    None => {},
                                }
                            } else if str_is(&t, "response.completed") {
                                let so_far = trimmed_chars(desc.as_str());
                                if so_far.len() == 0 {
                                    match json_str_at(
                                        data.as_str(),
                                        "/response/output/0/content/0/text",
                                    ) {
                                        Some(x) => desc.append(x.as_str()),
                                        None => {},
                                    }
                                }
                                completed = true;
                            } else if str_is(&t, "response.failed") {
                                let mut m = String::new();
                                push_str(&mut m, "Private Screenshot Confirmation failed: ");
                                match json_str_at(data.as_str(), "/response/error/message") {
                                    Some(x) => m.append(x.as_str()),
                                    None => match json_str_at(data.as_str(), "/error/message") {
                                        Some(x) => m.append(x.as_str()),
                                        None => push_str(
                                            &mut m,
                                            "The local vision model reported a failed response.",
                                        ),
                                    },
                                }
                                proof {
                                    assert(scan_events(all, i as int, before) == Err::<
                                        StreamProgress,
                                        Seq<char>,
                                    >(m@));
                                }
                                return Err(m);
                            }
                        },
                    }
                }
            },
        }
        i = i + 1;
    }
    let gathered = trimmed_chars(desc.as_str());
    if gathered.len() == 0 {
        let mut m = String::new();
        push_str(&mut m, "Private Screenshot Confirmation returned no description. ");
        if completed {
            push_str(&mut m, "The local vision model completed but produced no text.");
        } else {
            push_str(&mut m, "The local vision service returned no output-text events.");
        }
        Err(m)
    } else {
        Ok(crate::text::string_of(&gathered))
    }
}

/// Whether `s` is the literal `lit`.
fn str_is(s: &String, lit: &str) -> (r: bool)
    ensures
        r == (s@ == lit@),
{
    let v = chars_of(s.as_str());
    chars_eq_str(&v, lit)
}

/// The answer to a confirmation request, from the response's status and
/// body: the description of the screenshot, or why there is none.
pub fn confirmation_answer(status_ok: bool, response_text: &str) -> (r: Result<String, String>)
    ensures
        match (r, spec_confirmation_answer(status_ok, response_text@)) {
            (Ok(a), Ok(b)) => a@ == b,
            (Err(a), Err(b)) => a@ == b,
            _ => false,
        },
{
    if !status_ok {
        Err(rejection_message(response_text))
    } else {
        stream_description(response_text)
    }
}

/// A stream that ends with `[DONE]` before any text reports completion
/// without text; the lines after `[DONE]` are never read.
pub proof fn law_done_ends_the_stream(lines: Seq<Seq<char>>, i: int, progress: StreamProgress)
    requires
        0 <= i < lines.len(),
        data_of_line(lines[i]) == Some("[DONE]"@),
    ensures
        scan_events(lines, i, progress) == Ok::<StreamProgress, Seq<char>>((progress.0, true)),
{
}

/// A line that the reader passes over: not a `data:` line, or a data line
/// other than `[DONE]` whose event type (if it has one) is none of a text
/// delta, a completion or a failure.
pub open spec fn passed_over(line: Seq<char>) -> bool {
    match data_of_line(line) {
        None => true,
        Some(data) => data != "[DONE]"@ && match spec_json_str_at(data, "/type"@) {
            Some(t) => t != "response.output_text.delta"@ && t != "response.completed"@ && t
                != "response.failed"@,
            None => true,
        },
    }
}

/// An event of any other type (such as `response.created`, which opens
/// every stream) neither ends the reading nor changes what was gathered:
/// reading goes on with the next line.
pub proof fn law_other_events_are_passed_over(lines: Seq<Seq<char>>, i: int, progress: StreamProgress)
    requires
        0 <= i < lines.len(),
        passed_over(lines[i]),
    ensures
        scan_events(lines, i, progress) == scan_events(lines, i + 1, progress),
{
}

/// Reading from two equal lines goes the same way when what follows them
/// is read the same way.
proof fn lemma_scan_step_congruent(a: Seq<Seq<char>>, i: int, b: Seq<Seq<char>>, j: int)
    requires
        0 <= i < a.len(),
        0 <= j < b.len(),
        a[i] == b[j],
        forall|p: StreamProgress| #[trigger] scan_events(a, i + 1, p) == scan_events(b, j + 1, p),
    ensures
        forall|p: StreamProgress| #[trigger] scan_events(a, i, p) == scan_events(b, j, p),
{
    assert forall|p: StreamProgress| #[trigger] scan_events(a, i, p) == scan_events(b, j, p) by {
        let (desc, completed) = p;
        match data_of_line(a[i]) {
            None => {
                assert(scan_events(a, i, p) == scan_events(a, i + 1, p));
                assert(scan_events(b, j, p) == scan_events(b, j + 1, p));
            },
            Some(data) => {
                if data != "[DONE]"@ {
                    match spec_json_str_at(data, "/type"@) {
                        Some(t) => {
                            if t == "response.output_text.delta"@ {
                                match spec_json_str_at(data, "/delta"@) {
                                    Some(d) => {
                                        assert(scan_events(a, i + 1, (desc + d, completed))
                                            == scan_events(b, j + 1, (desc + d, completed)));
                                    },
                                    None => {},
                                }
                            } else if t == "response.completed"@ {
                                match spec_json_str_at(data, "/response/output/0/content/0/text"@) {
                                    Some(x) => {
                                        assert(scan_events(a, i + 1, (desc + x, true))
                                            == scan_events(b, j + 1, (desc + x, true)));
                                    },
                                    None => {},
                                }
                                assert(scan_events(a, i + 1, (desc, true)) == scan_events(
                                    b,
                                    j + 1,
                                    (desc, true),
                                ));
                            }
                        },
                        None => {},
                    }
                }
            },
        }
    }
}

/// Reading depends only on the lines from `i` on.
proof fn lemma_scan_reads_suffix(a: Seq<Seq<char>>, i: int, b: Seq<Seq<char>>, j: int)
    requires
        0 <= i <= a.len(),
        0 <= j <= b.len(),
        a.subrange(i, a.len() as int) == b.subrange(j, b.len() as int),
    ensures
        forall|p: StreamProgress| #[trigger] scan_events(a, i, p) == scan_events(b, j, p),
    decreases a.len() - i,
{
    let sa = a.subrange(i, a.len() as int);
    let sb = b.subrange(j, b.len() as int);
    assert(sa.len() == a.len() - i);
    assert(sb.len() == b.len() - j);
    assert(sa.len() == sb.len());
    if i < a.len() {
        assert(a[i] == a.subrange(i, a.len() as int)[0]);
        assert(b[j] == b.subrange(j, b.len() as int)[0]);
        assert(a.subrange(i + 1, a.len() as int) =~= a.subrange(i, a.len() as int).subrange(
            1,
            a.len() - i,
        ));
        assert(b.subrange(j + 1, b.len() as int) =~= b.subrange(j, b.len() as int).subrange(
            1,
            b.len() - j,
        ));
        lemma_scan_reads_suffix(a, i + 1, b, j + 1);
        lemma_scan_step_congruent(a, i, b, j);
    }
}

/// A passed-over line inserted anywhere in the stream changes nothing that
/// is read from it: the description gathered, whether completion was seen,
/// and any failure are the same with and without it.
pub proof fn law_passed_over_line_changes_nothing(
    lines: Seq<Seq<char>>,
    k: int,
    line: Seq<char>,
    i: int,
    progress: StreamProgress,
)
    requires
        0 <= i <= k <= lines.len(),
        passed_over(line),
    ensures
        scan_events(lines.insert(k, line), i, progress) == scan_events(lines, i, progress),
    decreases k - i,
{
    let ins = lines.insert(k, line);
    if i == k {
        assert(ins[k] == line);
        law_other_events_are_passed_over(ins, k, progress);
        assert(ins.subrange(k + 1, ins.len() as int) =~= lines.subrange(k, lines.len() as int));
        lemma_scan_reads_suffix(ins, k + 1, lines, k);
    } else {
        assert(ins[i] == lines[i]);
        assert forall|p: StreamProgress| #[trigger] scan_events(ins, i + 1, p) == scan_events(
            lines,
            i + 1,
            p,
        ) by {
            law_passed_over_line_changes_nothing(lines, k, line, i + 1, p);
        }
        lemma_scan_step_congruent(ins, i, lines, i);
    }
}

/// Gathered text only grows: every step of reading keeps what was already
/// gathered as a prefix, so a failure is the only way text is lost.
pub proof fn law_gathered_text_only_grows(lines: Seq<Seq<char>>, i: int, progress: StreamProgress)
    ensures
        match scan_events(lines, i, progress) {
            Ok((desc, _)) => progress.0.len() <= desc.len() && desc.subrange(
                0,
                progress.0.len() as int,
            ) == progress.0,
            Err(_) => true,
        },
    decreases lines.len() - i,
{
    if 0 <= i < lines.len() {
        let (desc, completed) = progress;
        match data_of_line(lines[i]) {
            None => law_gathered_text_only_grows(lines, i + 1, progress),
            Some(data) => {
                if data != "[DONE]"@ {
                    match spec_json_str_at(data, "/type"@) {
                        Some(t) => {
                            if t == "response.output_text.delta"@ {
                                match spec_json_str_at(data, "/delta"@) {
                                    Some(d) => {
                                        law_gathered_text_only_grows(lines, i + 1, (desc + d, completed));
                                        match scan_events(lines, i + 1, (desc + d, completed)) {
                                            Ok((fin, _)) => {
                                                assert((desc + d).subrange(0, desc.len() as int) =~= desc);
                                                assert(fin.subrange(0, desc.len() as int) =~= fin.subrange(
                                                    0,
                                                    (desc + d).len() as int,
                                                ).subrange(0, desc.len() as int));
                                            },
                                            Err(_) => {},
                                        }
                                    },
                                    None => law_gathered_text_only_grows(lines, i + 1, progress),
                                }
                            } else if t == "response.completed"@ {
                                if trim(desc).len() == 0 {
                                    match spec_json_str_at(data, "/response/output/0/content/0/text"@) {
                                        Some(x) => {
                                            law_gathered_text_only_grows(lines, i + 1, (desc + x, true));
                                            match scan_events(lines, i + 1, (desc + x, true)) {
                                                Ok((fin, _)) => {
                                                    assert((desc + x).subrange(0, desc.len() as int)
                                                        =~= desc);
                                                    assert(fin.subrange(0, desc.len() as int)
                                                        =~= fin.subrange(
                                                        0,
                                                        (desc + x).len() as int,
                                                    ).subrange(0, desc.len() as int));
                                                },
                                                Err(_) => {},
                                            }
                                        },
                                        None => law_gathered_text_only_grows(lines, i + 1, (desc, true)),
                                    }
                                } else {
                                    law_gathered_text_only_grows(lines, i + 1, (desc, true));
                                }
                            } else if t != "response.failed"@ {
                                law_gathered_text_only_grows(lines, i + 1, progress);
                            }
                        },
                        None => law_gathered_text_only_grows(lines, i + 1, progress),
                    }
                } else {
                    assert(desc.subrange(0, desc.len() as int) =~= desc);
                }
            },
        }
    } else {
        assert(progress.0.subrange(0, progress.0.len() as int) =~= progress.0);
    }
}

} // verus!
