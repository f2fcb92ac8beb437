//! What holds of the pipeline as a whole, stated over its models and proved.

use vstd::prelude::*;
use std::time::Duration;
use crate::text::trim;
use crate::chunk::{
    ResultChunkKind, ChunkModel, canonical_of, canonicalized, all_canonical, without_warnings,
    chunks_of, grouped,
};
use crate::outcome::{ResultStatus, DiffSide, diff_entry, side_lines, classify, agree_at, record_of};
use crate::outcome::ResultModel;
use crate::executor::{key_of, signatures};

verus! {

/// A line shorter than two characters once trimmed says nothing.
pub proof fn lemma_short_line_is_dropped(line: Seq<char>)
    requires
        trim(line).len() < 2,
    ensures
        diff_entry(line) is None,
{
}

/// A line whose trimmed marker is none of `-`, `+`, `=` says nothing.
pub proof fn lemma_unmarked_line_is_dropped(line: Seq<char>)
    requires
        trim(line).len() >= 2,
        trim(trim(line).take(2)) != seq!['-'],
        trim(trim(line).take(2)) != seq!['+'],
        trim(trim(line).take(2)) != seq!['='],
    ensures
        diff_entry(line) is None,
{
}

/// A line that says nothing leaves both sides as they were; a line marked
/// for one side is appended to that side only, a common line to both.
pub proof fn lemma_line_decides_alone(lines: Seq<Seq<char>>, line: Seq<char>, side: DiffSide)
    ensures
        side_lines(lines.push(line), side) == (match diff_entry(line) {
            Some((s, content)) => if s == DiffSide::Both || s == side {
                side_lines(lines, side).push(content)
            } else {
                side_lines(lines, side)
            },
            None => side_lines(lines, side),
        }),
{
    assert(lines.push(line).drop_last() =~= lines);
}

/// Each line is decided without a look at its neighbours, and order is kept:
/// the side of two logs put together is the side of the first followed by
/// the side of the second.
pub proof fn lemma_sides_split_piecewise(
    first: Seq<Seq<char>>,
    second: Seq<Seq<char>>,
    side: DiffSide,
)
    ensures
        side_lines(first + second, side) == side_lines(first, side) + side_lines(second, side),
    decreases second.len(),
{
    if second.len() == 0 {
        assert(first + second =~= first);
        assert(side_lines(first, side) + side_lines(second, side) =~= side_lines(first, side));
    } else {
        lemma_sides_split_piecewise(first, second.drop_last(), side);
        assert((first + second).drop_last() =~= first + second.drop_last());
        assert((first + second).last() == second.last());
        let head = side_lines(first, side);
        let tail = side_lines(second.drop_last(), side);
        match diff_entry(second.last()) {
            Some((s, content)) => {
                if s == DiffSide::Both || s == side {
                    assert((head + tail).push(content) =~= head + tail.push(content));
                }
            },
            None => {},
        }
    }
}

/// The signature of a chunk depends on its kind and lines alone: whatever
/// its `canonical` field held before plays no part.
pub proof fn lemma_signature_is_a_function_of_kind_and_lines(a: ChunkModel, b: ChunkModel)
    requires
        a.kind == b.kind,
        a.lines == b.lines,
    ensures
        canonical_of(a.kind, a.lines) == canonical_of(b.kind, b.lines),
{
}

/// Filling in the signatures a second time changes nothing.
pub proof fn lemma_canonicalizing_twice_is_once(cs: Seq<ChunkModel>)
    ensures
        canonicalized(canonicalized(cs)) == canonicalized(cs),
        all_canonical(cs) ==> all_canonical(canonicalized(cs)),
{
    assert(canonicalized(canonicalized(cs)) =~= canonicalized(cs));
    if all_canonical(cs) {
        assert forall|i: int| 0 <= i < canonicalized(cs).len() implies (#[trigger] canonical_of(
            canonicalized(cs)[i].kind,
            canonicalized(cs)[i].lines,
        )) is Some by {
            assert(canonical_of(cs[i].kind, cs[i].lines) is Some);
        }
    }
}

/// No warning is left once warnings are dropped.
pub proof fn lemma_no_warning_remains(cs: Seq<ChunkModel>)
    ensures
        forall|i: int|
            0 <= i < without_warnings(cs).len() ==> (#[trigger] without_warnings(cs)[i]).kind
                != ResultChunkKind::Warning,
    decreases cs.len(),
{
    if cs.len() > 0 {
        lemma_no_warning_remains(cs.drop_last());
    }
}

/// The chunks of a log hold no warning.
pub proof fn lemma_chunks_hold_no_warning(log: Seq<Seq<char>>)
    requires
        chunks_of(log) is Some,
    ensures
        forall|i: int|
            0 <= i < chunks_of(log).unwrap().len() ==> (#[trigger] chunks_of(log).unwrap()[i]).kind
                != ResultChunkKind::Warning,
{
    let kept = without_warnings(grouped(log));
    lemma_no_warning_remains(grouped(log));
    assert forall|i: int| 0 <= i < chunks_of(log).unwrap().len() implies (#[trigger] chunks_of(
        log,
    ).unwrap()[i]).kind != ResultChunkKind::Warning by {
        assert(canonicalized(kept)[i].kind == kept[i].kind);
    }
}

/// Two empty sides agree.
pub proof fn lemma_empty_sides_succeed()
    ensures
        classify(Seq::empty(), Seq::empty()) == ResultStatus::Success,
{
}

/// Sides of different lengths never agree.
pub proof fn lemma_lengths_must_match(a: Seq<ChunkModel>, b: Seq<ChunkModel>)
    requires
        a.len() != b.len(),
    ensures
        classify(a, b) == ResultStatus::Failure,
{
}

/// A side compared with itself succeeds exactly where it holds no bug
/// report.
pub proof fn lemma_same_sides_succeed_without_bug(a: Seq<ChunkModel>)
    ensures
        classify(a, a) == ResultStatus::Success <==> (forall|i: int|
            0 <= i < a.len() ==> a[i].kind != ResultChunkKind::Bug),
{
    if classify(a, a) == ResultStatus::Success {
        assert forall|i: int| 0 <= i < a.len() implies a[i].kind != ResultChunkKind::Bug by {
            assert(agree_at(a, a, i));
        }
    }
}

/// A bug report on the second side is a failure, whatever the signatures.
pub proof fn lemma_bug_on_second_side_fails(a: Seq<ChunkModel>, b: Seq<ChunkModel>, i: int)
    requires
        0 <= i < b.len(),
        b[i].kind == ResultChunkKind::Bug,
    ensures
        classify(a, b) == ResultStatus::Failure,
{
    if a.len() == b.len() {
        assert(!agree_at(a, b, i));
    }
}

/// Signatures that differ at one position are a failure: the comparison is
/// by position.
pub proof fn lemma_different_signature_fails(a: Seq<ChunkModel>, b: Seq<ChunkModel>, i: int)
    requires
        0 <= i < a.len(),
        0 <= i < b.len(),
        a[i].canonical != b[i].canonical,
    ensures
        classify(a, b) == ResultStatus::Failure,
{
    if a.len() == b.len() {
        assert(!agree_at(a, b, i));
    }
}

/// Sides of one length succeed exactly where every position agrees.
pub proof fn lemma_success_is_agreement_everywhere(a: Seq<ChunkModel>, b: Seq<ChunkModel>)
    requires
        a.len() == b.len(),
    ensures
        classify(a, b) == ResultStatus::Success <==> (forall|i: int|
            0 <= i < a.len() ==> b[i].kind != ResultChunkKind::Bug && a[i].canonical
                == b[i].canonical),
{
    if classify(a, b) == ResultStatus::Success {
        assert forall|i: int| 0 <= i < a.len() implies b[i].kind != ResultChunkKind::Bug
            && a[i].canonical == b[i].canonical by {
            assert(agree_at(a, b, i));
        }
    }
}

/// The verdict of a finished comparison is never `Unknown`.
pub proof fn lemma_record_has_a_verdict(log: Seq<char>, duration: Duration)
    requires
        record_of(log, duration) is Some,
    ensures
        record_of(log, duration).unwrap().status != ResultStatus::Unknown,
        record_of(log, duration).unwrap().log == log,
{
}

/// Results with the same verdict and the same signatures, position by
/// position, have the same key: raw text, lines and duration play no part.
pub proof fn lemma_key_ignores_text_and_duration(a: ResultModel, b: ResultModel)
    requires
        a.status == b.status,
        signatures(a.v1_chunks) == signatures(b.v1_chunks),
        signatures(a.v2_chunks) == signatures(b.v2_chunks),
    ensures
        key_of(a) == key_of(b),
{
}

} // verus!
