use difftest_oracle::chunk::{phrase_signature_of, signature_from, ResultChunk, ResultChunkKind};
use difftest_oracle::executor::{
    BugFound, CompilerSetting, ResultKey, TransactionalInput, TransactionalRunner,
};
use difftest_oracle::outcome::{read_diff_line, DiffSide, ResultStatus, TransactionalResult};
use difftest_oracle::text::{
    chars_of, has, has_at, is_space_char, lines_of, replace_all, string_of, trimmed,
};
use std::time::Duration;

fn strings(items: &[&str]) -> Vec<String> {
    items.iter().map(|s| s.to_string()).collect()
}

fn chunk(kind: ResultChunkKind, canonical: &str, lines: &[&str]) -> ResultChunk {
    ResultChunk { canonical: canonical.to_string(), kind, lines: strings(lines) }
}

fn canonical(kind: ResultChunkKind, lines: &[&str]) -> Option<String> {
    chunk(kind, "", lines).get_canonicalized_msg()
}

fn run(log: &str) -> TransactionalResult {
    TransactionalResult::from_run_result(&Err(log.to_string()), Duration::from_millis(7)).unwrap()
}

#[test]
fn split_sends_marked_lines_to_their_sides() {
    let (a, b) = TransactionalResult::split_diff_log("- a\n+ b\n= c");
    assert_eq!(a, strings(&["a", "c"]));
    assert_eq!(b, strings(&["b", "c"]));
}

#[test]
fn split_drops_short_and_unmarked_lines() {
    let (a, b) = TransactionalResult::split_diff_log("x\n\n-\nhello world\n* starred\n-- a\n");
    assert!(a.is_empty());
    assert!(b.is_empty());
}

#[test]
fn split_trims_lines_and_contents() {
    let (a, b) = TransactionalResult::split_diff_log("   -    padded text  \r\n\t+ other\t\n=\tboth\n");
    assert_eq!(a, strings(&["padded text", "both"]));
    assert_eq!(b, strings(&["other", "both"]));
}

#[test]
fn split_keeps_empty_content_of_a_bare_marker() {
    let (a, b) = TransactionalResult::split_diff_log("- x\n=  \n+ \u{e9}t\u{e9}");
    assert_eq!(a, strings(&["x"]));
    assert_eq!(b, strings(&["\u{e9}t\u{e9}"]));
}

#[test]
fn split_reads_markers_by_characters() {
    let (a, b) = TransactionalResult::split_diff_log("-\u{a0}wide\n\u{e9}\n a\u{e9}b");
    assert_eq!(a, strings(&["wide"]));
    assert!(b.is_empty());
}

#[test]
fn diff_line_reader_names_the_side() {
    let line = chars_of("  = shared  ");
    assert_eq!(read_diff_line(&line), Some((DiffSide::Both, chars_of("shared"))));
    assert_eq!(read_diff_line(&chars_of("- l")), Some((DiffSide::Left, chars_of("l"))));
    assert_eq!(read_diff_line(&chars_of("+ r")), Some((DiffSide::Right, chars_of("r"))));
    assert_eq!(read_diff_line(&chars_of("? r")), None);
    assert_eq!(read_diff_line(&chars_of("+")), None);
}

#[test]
fn text_round_trip() {
    let v = chars_of("a\u{e9}\u{4e2d}z");
    assert_eq!(v, vec!['a', '\u{e9}', '\u{4e2d}', 'z']);
    assert_eq!(string_of(&v), "a\u{e9}\u{4e2d}z");
    assert_eq!(string_of(&[]), "");
}

#[test]
fn white_space_is_what_std_calls_white_space() {
    let mut n: u32 = 0;
    while n < 0x11000 {
        if let Some(c) = char::from_u32(n) {
            assert_eq!(is_space_char(c), c.is_whitespace(), "U+{:04X}", n);
        }
        n += 1;
    }
}

#[test]
fn trimming_matches_std() {
    for s in ["", "   ", " a ", "\t\r\n x y \u{3000}", "z", "\u{a0}q\u{2003}"] {
        assert_eq!(string_of(&trimmed(&chars_of(s))), s.trim());
    }
}

#[test]
fn search_finds_substrings() {
    let hay = chars_of("an error: task failed");
    assert!(has(&hay, &chars_of("task")));
    assert!(has(&hay, &chars_of("")));
    assert!(has(&hay, &chars_of("failed")));
    assert!(!has(&hay, &chars_of("failed!")));
    assert!(!has(&chars_of("ab"), &chars_of("abc")));
    assert!(has_at(&hay, &chars_of("an"), 0));
    assert!(!has_at(&hay, &chars_of("error"), 0));
    assert!(has_at(&hay, &chars_of("error"), 3));
    assert!(has_at(&hay, &chars_of(""), 21));
    assert!(!has_at(&hay, &chars_of(""), 22));
}

#[test]
fn replacement_is_leftmost_and_does_not_overlap() {
    let r = replace_all(&chars_of("aaa,b,,"), &chars_of("aa"), &chars_of("x"));
    assert_eq!(string_of(&r), "xa,b,,");
    let r = replace_all(&chars_of("aaa,b,,"), &chars_of(","), &chars_of(""));
    assert_eq!(string_of(&r), "aaab");
    let r = replace_all(&chars_of("abc"), &chars_of(""), &chars_of("-"));
    assert_eq!(string_of(&r), "abc");
    assert_eq!(string_of(&r), "abc".replace("zz", "-"));
}

#[test]
fn lines_are_cut_at_line_feeds() {
    let cut = |s: &str| -> Vec<String> {
        lines_of(&chars_of(s)).iter().map(|l| string_of(l)).collect()
    };
    assert_eq!(cut(""), Vec::<String>::new());
    assert_eq!(cut("a"), strings(&["a"]));
    assert_eq!(cut("a\n"), strings(&["a"]));
    assert_eq!(cut("a\n\nb"), strings(&["a", "", "b"]));
    assert_eq!(cut("\n"), strings(&[""]));
    assert_eq!(cut("x\ny\n"), strings(&["x", "y"]));
}

#[test]
fn kinds_are_tried_in_order() {
    assert_eq!(ResultChunkKind::try_from_str("error: a warning in task 1"), Some(ResultChunkKind::Warning));
    assert_eq!(ResultChunkKind::try_from_str("error in task 1 VMError"), Some(ResultChunkKind::Task));
    assert_eq!(ResultChunkKind::try_from_str("error: VMError {"), Some(ResultChunkKind::VMError));
    assert_eq!(ResultChunkKind::try_from_str("error[E01]: x"), Some(ResultChunkKind::Error));
    assert_eq!(ResultChunkKind::try_from_str("bug: y"), Some(ResultChunkKind::Bug));
    assert_eq!(ResultChunkKind::try_from_str("panicked at z"), Some(ResultChunkKind::Panic));
    assert_eq!(ResultChunkKind::try_from_str(" error: indented"), None);
    assert_eq!(ResultChunkKind::try_from_str("Error: upper case"), None);
    assert_eq!(ResultChunkKind::try_from_str("a bug"), None);
    assert_eq!(ResultChunkKind::try_from_str(""), None);
    assert_eq!(ResultChunkKind::of_line(&chars_of("Warning, not warning")), Some(ResultChunkKind::Warning));
}

#[test]
fn defaults() {
    assert_eq!(ResultChunkKind::default(), ResultChunkKind::Task);
    assert_eq!(ResultStatus::default(), ResultStatus::Unknown);
}

#[test]
fn chunks_group_body_lines_under_their_headline() {
    let chunks = ResultChunk::log_to_chunck(strings(&["error: foo", "  detail", "bug: bar"])).unwrap();
    assert_eq!(chunks.len(), 2);
    assert_eq!(chunks[0].kind, ResultChunkKind::Error);
    assert_eq!(chunks[1].kind, ResultChunkKind::Bug);
    assert_eq!(chunks[0].lines, strings(&["error: foo", "  detail"]));
    assert_eq!(chunks[1].lines, strings(&["bug: bar"]));
    assert_eq!(chunks[0].canonical, "error: foo");
    assert_eq!(chunks[1].canonical, "bug: bar");
}

#[test]
fn chunks_drop_leading_orphans_and_warnings() {
    let chunks = ResultChunk::log_to_chunck(strings(&[
        "orphan",
        "warning: unused",
        "  body of the warning",
        "error: local `a` gone",
        "more",
        "warning: again",
        "panic: stop",
    ]))
    .unwrap();
    assert_eq!(chunks.len(), 2);
    assert_eq!(
        chunks[0],
        chunk(ResultChunkKind::Error, "error: [some variable] gone", &["error: local `a` gone", "more"])
    );
    assert_eq!(chunks[1], chunk(ResultChunkKind::Panic, "panic: stop", &["panic: stop"]));
    assert_eq!(ResultChunk::log_to_chunck(vec![]), Some(vec![]));
    assert_eq!(ResultChunk::log_to_chunck(strings(&["nothing", "here"])), Some(vec![]));
}

#[test]
fn chunk_without_its_headline_stops_the_parse() {
    assert_eq!(ResultChunk::log_to_chunck(strings(&["VMError {", "error: next"])), None);
    assert_eq!(ResultChunk::log_to_chunck(strings(&["error: first", "VMError {"])), None);
    assert_eq!(canonical(ResultChunkKind::VMError, &["VMError {"]), None);
    assert_eq!(canonical(ResultChunkKind::Error, &[]), None);
    let ok = ResultChunk::log_to_chunck(strings(&["VMError {", "   major_status: OUT_OF_GAS,  "])).unwrap();
    assert_eq!(ok.len(), 1);
    assert_eq!(ok[0].canonical, "error_code: OUT_OF_GAS");
}

#[test]
fn canonical_major_status() {
    assert_eq!(
        canonical(ResultChunkKind::VMError, &["VMError {", "  major_status: ABORTED, sub_status: Some(3),"]),
        Some("error_code: ABORTED sub_status: Some(3)".to_string())
    );
    assert_eq!(
        canonical(ResultChunkKind::Error, &["error: major_status is local `x`, here"]),
        Some("error: major_status is local `x` here".to_string())
    );
}

#[test]
fn canonical_error_code_token() {
    assert_eq!(
        canonical(ResultChunkKind::Error, &["error: bytecode verification failed with `CALL_TYPE_MISMATCH` and `X`"]),
        Some("error_code: CALL_TYPE_MISMATCH".to_string())
    );
    assert_eq!(
        canonical(ResultChunkKind::Error, &["error: bytecode verification failed with `` here"]),
        Some("error_code: ".to_string())
    );
    assert_eq!(
        canonical(ResultChunkKind::Error, &["error: bytecode verification failed, cannot infer type"]),
        Some("...cannot infer type...".to_string())
    );
    assert_eq!(
        canonical(ResultChunkKind::Error, &["error: bytecode verification failed in module 'm'"]),
        Some("error: bytecode verification failed in [some module]".to_string())
    );
}

#[test]
fn signature_follows_the_token_that_was_found() {
    let top = chars_of("bytecode verification failed: `A`");
    assert_eq!(signature_from(&top, Some(Some("B".to_string()))), Some("error_code: B".to_string()));
    assert_eq!(signature_from(&top, None), None);
    assert_eq!(
        signature_from(&top, Some(None)),
        Some("bytecode verification failed: `A`".to_string())
    );
    let other = chars_of("major_status: X, bytecode verification failed");
    assert_eq!(signature_from(&other, None), Some("error_code: X bytecode verification failed".to_string()));
}

#[test]
fn canonical_fixed_phrases() {
    let copy = Some("...cannot copy while mutably borrowed...".to_string());
    let acquire = Some("...cannot acquire...".to_string());
    let infer = Some("...cannot infer type...".to_string());
    assert_eq!(canonical(ResultChunkKind::Error, &["error: mutable ownership violated"]), copy);
    assert_eq!(canonical(ResultChunkKind::Error, &["error: x which is still mutably borrowed by y"]), copy);
    assert_eq!(canonical(ResultChunkKind::Error, &["error: cannot extract resource `R`"]), acquire);
    assert_eq!(canonical(ResultChunkKind::Error, &["error: function acquires global `R`"]), acquire);
    assert_eq!(canonical(ResultChunkKind::Error, &["error: cannot infer type"]), infer);
    assert_eq!(canonical(ResultChunkKind::Error, &["error: unable to infer instantiation of type `T`"]), infer);
    assert_eq!(
        phrase_signature_of(&chars_of("mutable ownership violated, cannot infer type")),
        copy
    );
}

#[test]
fn canonical_placeholders() {
    assert_eq!(
        canonical(
            ResultChunkKind::Error,
            &["error: local `x` and local  `y` in module 'M' of type `T` gave Some(1) not Some(a, b) or Some()"]
        ),
        Some(
            "error: [some variable] and [some variable] in [some module] of [some type] gave [some value] not [some value] or Some()"
                .to_string()
        )
    );
    assert_eq!(canonical(ResultChunkKind::Task, &["task 0 'publish'"]), Some("task 0 'publish'".to_string()));
}

#[test]
fn canonical_ignores_the_name_of_a_local() {
    let x = canonical(ResultChunkKind::Error, &["local `x` is unavailable"]);
    let y = canonical(ResultChunkKind::Error, &["local `y` is unavailable"]);
    assert_eq!(x, y);
    assert_eq!(x, Some("[some variable] is unavailable".to_string()));
}

#[test]
fn canonical_is_the_same_when_computed_again() {
    let c = chunk(ResultChunkKind::Error, "stale", &["error: type `u64` in module 'a'", "body"]);
    let first = c.get_canonicalized_msg();
    let second = c.get_canonicalized_msg();
    assert_eq!(first, second);
    assert_eq!(first, Some("error: [some type] in [some module]".to_string()));
    let again = chunk(ResultChunkKind::Error, &first.clone().unwrap(), &["error: type `u64` in module 'a'", "body"]);
    assert_eq!(again.get_canonicalized_msg(), first);
}

#[test]
fn verdict_of_empty_sides_is_success() {
    assert_eq!(ResultStatus::check_chunks(&[], &[]), ResultStatus::Success);
}

#[test]
fn verdict_of_equal_signatures_is_success() {
    let a = [chunk(ResultChunkKind::Error, "same", &["error: a"])];
    let b = [chunk(ResultChunkKind::Error, "same", &["error: b"])];
    assert_eq!(ResultStatus::check_chunks(&a, &b), ResultStatus::Success);
}

#[test]
fn verdict_of_a_bug_on_the_second_side_is_failure() {
    let a = [chunk(ResultChunkKind::Error, "same", &["error: a"])];
    let b = [chunk(ResultChunkKind::Bug, "same", &["bug: b"])];
    assert_eq!(ResultStatus::check_chunks(&a, &b), ResultStatus::Failure);
    assert_eq!(ResultStatus::check_chunks(&b, &a), ResultStatus::Success);
}

#[test]
fn verdict_of_different_lengths_is_failure() {
    let a = [chunk(ResultChunkKind::Error, "same", &["error: a"])];
    let b = [
        chunk(ResultChunkKind::Error, "same", &["error: a"]),
        chunk(ResultChunkKind::Error, "more", &["error: b"]),
    ];
    assert_eq!(ResultStatus::check_chunks(&a, &b), ResultStatus::Failure);
    assert_eq!(ResultStatus::check_chunks(&b, &a), ResultStatus::Failure);
    assert_eq!(ResultStatus::check_chunks(&[], &a), ResultStatus::Failure);
}

#[test]
fn verdict_is_positional() {
    let a = [
        chunk(ResultChunkKind::Error, "one", &["error: 1"]),
        chunk(ResultChunkKind::Error, "two", &["error: 2"]),
    ];
    let b = [
        chunk(ResultChunkKind::Error, "two", &["error: 2"]),
        chunk(ResultChunkKind::Error, "one", &["error: 1"]),
    ];
    assert_eq!(ResultStatus::check_chunks(&a, &b), ResultStatus::Failure);
    assert_eq!(ResultStatus::check_chunks(&a, &a), ResultStatus::Success);
}

#[test]
fn run_without_a_log_is_a_success() {
    let d = Duration::from_secs(2);
    let r = TransactionalResult::from_run_result(&Ok(()), d).unwrap();
    assert_eq!(r.status, ResultStatus::Success);
    assert!(r.v1_chunks.is_empty());
    assert!(r.v2_chunks.is_empty());
    assert_eq!(r.log, "Success");
    assert_eq!(r.duration, d);
}

#[test]
fn run_that_differs_only_in_a_name_is_a_success() {
    let r = run("- error: local `v` moved\n+ error: local `w` moved");
    assert_eq!(r.status, ResultStatus::Success);
    assert_eq!(r.v1_chunks.len(), 1);
    assert_eq!(r.v2_chunks.len(), 1);
    assert_eq!(r.v1_chunks[0].canonical, "error: [some variable] moved");
    assert_eq!(r.v2_chunks[0].canonical, "error: [some variable] moved");
    assert_eq!(r.v1_chunks[0].lines, strings(&["error: local `v` moved"]));
    assert_eq!(r.log, "- error: local `v` moved\n+ error: local `w` moved");
    assert_eq!(r.duration, Duration::from_millis(7));
    assert!(!TransactionalRunner::empty_executor().is_bug(&r));
}

#[test]
fn run_with_an_extra_bug_chunk_is_a_failure() {
    let r = run("= error: foo\n+ bug: internal compiler error");
    assert_eq!(r.status, ResultStatus::Failure);
    assert_eq!(r.v1_chunks.len(), 1);
    assert_eq!(r.v2_chunks.len(), 2);
    assert!(TransactionalRunner::empty_executor().is_bug(&r));
}

#[test]
fn run_with_different_errors_is_a_failure() {
    let r = run("- error: one thing\n+ error: another thing\n= warning: shared\n");
    assert_eq!(r.status, ResultStatus::Failure);
    assert_eq!(r.v1_chunks.len(), 1);
    assert_eq!(r.v2_chunks.len(), 1);
}

#[test]
fn run_with_a_headless_chunk_gives_no_record() {
    let r = TransactionalResult::from_run_result(&Err("= VMError {".to_string()), Duration::ZERO);
    assert_eq!(r, None);
    let r = TransactionalResult::from_run_result(&Err("+ VMError {\n- error: x".to_string()), Duration::ZERO);
    assert_eq!(r, None);
}

#[test]
fn runner_ignores_what_it_has_on_record() {
    let mut runner = TransactionalRunner::empty_executor();
    let first = run("- error: local `v` moved\n+ error: other");
    let again = run("- error: local `q` moved\n+ error: other\n");
    let differs = run("- error: local `v` copied\n+ error: other");
    assert!(!runner.should_ignore(&first));
    runner.save_result(first.clone());
    assert!(runner.should_ignore(&first));
    assert!(runner.should_ignore(&again));
    assert!(!runner.should_ignore(&differs));
    runner.save_result(again);
    assert!(!runner.should_ignore(&differs));
}

#[test]
fn runner_reports_each_new_result_once() {
    let mut runner = TransactionalRunner::empty_executor();
    let first = run("= error: foo\n+ bug: internal compiler error");
    assert_eq!(runner.save_report(first.clone()), Err(BugFound));
    assert_eq!(runner.save_report(first), Ok(()));
    let clean = TransactionalResult::from_run_result(&Ok(()), Duration::ZERO).unwrap();
    assert_eq!(runner.save_report(clean.clone()), Err(BugFound));
    assert_eq!(runner.save_report(clean), Ok(()));
}

#[test]
fn keys_leave_out_text_and_duration() {
    let a = run("- error: local `v` moved\n+ error: other");
    let mut b = run("- error: local `z` moved\n+ error: other");
    b.duration = Duration::from_secs(9);
    assert!(ResultKey::of(&a).same(&ResultKey::of(&b)));
    assert_eq!(ResultKey::of(&a).left, strings(&["error: [some variable] moved"]));
    b.status = ResultStatus::Unknown;
    assert!(!ResultKey::of(&a).same(&ResultKey::of(&b)));
}

#[test]
fn input_holds_a_copy_of_code_and_setting() {
    let setting = CompilerSetting { name: "opt".to_string() };
    let input = TransactionalInput::new_from_str("module 0x1::m {}", &setting);
    assert_eq!(input.code, "module 0x1::m {}");
    assert_eq!(input.config, setting);
}

#[test]
fn report_lists_verdict_duration_and_signatures() {
    let r = run("- error: local `v` moved\n+ error: other\n+ bug: internal");
    assert_eq!(
        r.render_with("7ms"),
        "Status: Failure\nDuration: 7ms\n\nV1 output:\nerror: [some variable] moved\n\nV2 output:\nerror: other\nbug: internal\n"
    );
    assert_eq!(r.render(), r.render_with("7ms"));
    let clean = TransactionalResult::from_run_result(&Ok(()), Duration::from_secs(1)).unwrap();
    assert_eq!(clean.render(), "Status: Success\nDuration: 1s\n\nV1 output:\n\nV2 output:\n");
}

#[test]
fn verdict_names() {
    assert_eq!(ResultStatus::Success.name(), "Success");
    assert_eq!(ResultStatus::Failure.name(), "Failure");
    assert_eq!(ResultStatus::Unknown.name(), "Unknown");
}

#[test]
fn payload_without_markers_has_no_chunks() {
    let r = run("Any { .. }");
    assert_eq!(r.status, ResultStatus::Success);
    assert!(r.v1_chunks.is_empty() && r.v2_chunks.is_empty());
    assert_eq!(r.log, "Any { .. }");
}
