//! The outcome of one comparison: the two sides of a diff log, the verdict
//! over their chunks, and the record that holds both.

use vstd::prelude::*;
use vstd::string::StringExecFns;
use std::time::Duration;
use crate::text::{texts, rows, trim, split_lines, chars_of, string_of, lines_of, trim_bounds, copy_range};
use crate::chunk::{ResultChunk, ResultChunkKind, ChunkModel, models, chunks_of};

verus! {

/// The verdict of a comparison. `Unknown` is the state before any verdict.
#[derive(Debug, Clone, Copy, PartialEq, Eq, Structural, Hash)]
pub enum ResultStatus {
    Success,
    Failure,
    Unknown,
}

impl Default for ResultStatus {
    fn default() -> (r: Self)
        ensures
            r == ResultStatus::Unknown,
    {
        ResultStatus::Unknown
    }
}

/// The side, or sides, of a comparison that a diff line belongs to.
#[derive(Debug, Clone, Copy, PartialEq, Eq, Structural)]
pub enum DiffSide {
    Left,
    Right,
    Both,
}

/// What one line of a diff log says: the side named by its two-character
/// marker and the trimmed content behind it; `None` for a line that is
/// shorter than two characters once trimmed, or whose marker is none of
/// `-`, `+`, `=`.
pub open spec fn diff_entry(line: Seq<char>) -> Option<(DiffSide, Seq<char>)> {
    let t = trim(line);
    if t.len() < 2 {
        None
    } else {
        let sign = trim(t.take(2));
        let content = trim(t.skip(2));
        if sign == seq!['-'] {
            Some((DiffSide::Left, content))
        } else if sign == seq!['+'] {
            Some((DiffSide::Right, content))
        } else if sign == seq!['='] {
            Some((DiffSide::Both, content))
        } else {
            None
        }
    }
}

/// Whether a line marked for `side` belongs to the side `to`.
pub open spec fn feeds(side: DiffSide, to: DiffSide) -> bool {
    side == DiffSide::Both || side == to
}

/// The contents of the lines that belong to `side`, in log order.
pub open spec fn side_lines(lines: Seq<Seq<char>>, side: DiffSide) -> Seq<Seq<char>>
    decreases lines.len(),
{
    if lines.len() == 0 {
        Seq::empty()
    } else {
        let prev = side_lines(lines.drop_last(), side);
        match diff_entry(lines.last()) {
            Some((s, content)) => if feeds(s, side) {
                prev.push(content)
            } else {
                prev
            },
            None => prev,
        }
    }
}

/// Whether the chunks at position `i` of the two sides agree: the second is
/// no bug report and the signatures are equal.
pub open spec fn agree_at(a: Seq<ChunkModel>, b: Seq<ChunkModel>, i: int) -> bool {
    b[i].kind != ResultChunkKind::Bug && a[i].canonical == b[i].canonical
}

/// The verdict over two chunk sequences, compared position by position.
pub open spec fn classify(a: Seq<ChunkModel>, b: Seq<ChunkModel>) -> ResultStatus {
    if a.len() == b.len() && (forall|i: int| 0 <= i < a.len() ==> agree_at(a, b, i)) {
        ResultStatus::Success
    } else {
        ResultStatus::Failure
    }
}

/// Reads one line of a diff log.
pub fn read_diff_line(line: &[char]) -> (r: Option<(DiffSide, Vec<char>)>)
    ensures
        diff_entry(line@) == (match r {
            Some((side, content)) => Some((side, content@)),
            None => None,
        }),
{
    let (a, b) = trim_bounds(line, 0, line.len());
    assert(line@.subrange(0, line.len() as int) =~= line@);
    if b - a < 2 {
        return None;
    }
    let ghost t = trim(line@);
    let (x, y) = trim_bounds(line, a, a + 2);
    assert(line@.subrange(a as int, a + 2) =~= t.take(2));
    let (c, d) = trim_bounds(line, a + 2, b);
    assert(line@.subrange(a + 2, b as int) =~= t.skip(2));
    let ghost sign = line@.subrange(x as int, y as int);
    if y - x != 1 {
        assert(sign.len() != 1);
        return None;
    }
    assert(sign =~= seq![line@[x as int]]);
    let mark = line[x];
    assert(seq![mark] == seq!['-'] <==> mark == '-') by {
        if seq![mark] == seq!['-'] {
            assert(seq![mark][0] == seq!['-'][0]);
        }
    }
    assert(seq![mark] == seq!['+'] <==> mark == '+') by {
        if seq![mark] == seq!['+'] {
            assert(seq![mark][0] == seq!['+'][0]);
        }
    }
    assert(seq![mark] == seq!['='] <==> mark == '=') by {
        if seq![mark] == seq!['='] {
            assert(seq![mark][0] == seq!['='][0]);
        }
    }
    if mark == '-' {
        Some((DiffSide::Left, copy_range(line, c, d)))
    } else if mark == '+' {
        Some((DiffSide::Right, copy_range(line, c, d)))
    } else if mark == '=' {
        Some((DiffSide::Both, copy_range(line, c, d)))
    } else {
        None
    }
}

/// The name of a verdict.
pub open spec fn status_name(status: ResultStatus) -> Seq<char> {
    match status {
        ResultStatus::Success => "Success"@,
        ResultStatus::Failure => "Failure"@,
        ResultStatus::Unknown => "Unknown"@,
    }
}

impl ResultStatus {
    /// The name of this verdict.
    pub fn name(&self) -> (r: &'static str)
        ensures
            r@ == status_name(*self),
    {
        match self {
            ResultStatus::Success => "Success",
            ResultStatus::Failure => "Failure",
            ResultStatus::Unknown => "Unknown",
        }
    }

    /// The verdict over the chunks of the two sides: `Success` where both
    /// have the same number of chunks and at every position the second
    /// side's chunk is no bug report and carries the first side's signature;
    /// `Failure` otherwise.
    pub fn check_chunks(v1_chunks: &[ResultChunk], v2_chunks: &[ResultChunk]) -> (r: Self)
        ensures
            r == classify(models(v1_chunks@), models(v2_chunks@)),
            r != ResultStatus::Unknown,
    {
        if v1_chunks.len() != v2_chunks.len() {
            return ResultStatus::Failure;
        }
        let ghost a = models(v1_chunks@);
        let ghost b = models(v2_chunks@);
        let mut i: usize = 0;
        while i < v1_chunks.len()
            invariant
                i <= v1_chunks.len(),
                v1_chunks.len() == v2_chunks.len(),
                a == models(v1_chunks@),
                b == models(v2_chunks@),
                forall|j: int| 0 <= j < i ==> agree_at(a, b, j),
            decreases v1_chunks.len() - i,
        {
            if v2_chunks[i].kind == ResultChunkKind::Bug {
                assert(!agree_at(a, b, i as int));
                return ResultStatus::Failure;
            }
            if v1_chunks[i].canonical != v2_chunks[i].canonical {
                assert(!agree_at(a, b, i as int));
                return ResultStatus::Failure;
            }
            i += 1;
        }
        ResultStatus::Success
    }
}

/// `Duration` is `Copy`: its `clone` hands back an equal value.
pub assume_specification[ <Duration as Clone>::clone ](d: &Duration) -> (r: Duration)
    ensures
        r == *d,
;

/// The record of one comparison.
#[derive(Debug, Clone, PartialEq, Eq)]
pub struct TransactionalResult {
    pub log: String,
    pub status: ResultStatus,
    pub v1_chunks: Vec<ResultChunk>,
    pub v2_chunks: Vec<ResultChunk>,
    pub duration: Duration,
}

/// The mathematical content of a record.
pub struct ResultModel {
    pub log: Seq<char>,
    pub status: ResultStatus,
    pub v1_chunks: Seq<ChunkModel>,
    pub v2_chunks: Seq<ChunkModel>,
    pub duration: Duration,
}

impl View for TransactionalResult {
    type V = ResultModel;

    open spec fn view(&self) -> ResultModel {
        ResultModel {
            log: self.log@,
            status: self.status,
            v1_chunks: models(self.v1_chunks@),
            v2_chunks: models(self.v2_chunks@),
            duration: self.duration,
        }
    }
}

/// The record that a diff log gives: both sides split, chunked and
/// compared; `None` where a chunk of either side has no signature.
pub open spec fn record_of(log: Seq<char>, duration: Duration) -> Option<ResultModel> {
    let lines = split_lines(log);
    match (
        chunks_of(side_lines(lines, DiffSide::Left)),
        chunks_of(side_lines(lines, DiffSide::Right)),
    ) {
        (Some(a), Some(b)) => Some(
            ResultModel { log, status: classify(a, b), v1_chunks: a, v2_chunks: b, duration },
        ),
        _ => None,
    }
}

/// The record of a run that reported no divergence.
pub open spec fn clean_record(duration: Duration) -> ResultModel {
    ResultModel {
        log: "Success"@,
        status: ResultStatus::Success,
        v1_chunks: Seq::empty(),
        v2_chunks: Seq::empty(),
        duration,
    }
}

/// The signatures of `cs`, one to a line.
pub open spec fn signature_lines(cs: Seq<ChunkModel>) -> Seq<char>
    decreases cs.len(),
{
    if cs.len() == 0 {
        Seq::empty()
    } else {
        signature_lines(cs.drop_last()) + cs.last().canonical + "\n"@
    }
}

/// The report of a record, given the text of its duration: the verdict, the
/// duration, and the signatures of each side under a heading.
pub open spec fn rendering(r: ResultModel, duration: Seq<char>) -> Seq<char> {
    "Status: "@ + status_name(r.status) + "\n"@ + "Duration: "@ + duration + "\n"@
        + "\nV1 output:\n"@ + signature_lines(r.v1_chunks) + "\nV2 output:\n"@ + signature_lines(
        r.v2_chunks,
    )
}

/// The text that `Debug` gives for a duration (`format!` with `{:?}`).
/// Nothing is claimed of it.
#[verifier::external_body]
pub(crate) fn duration_text(d: &Duration) -> (r: String) {
    format!("{:?}", d)
}

/// Appends the signatures of `chunks` to `out`, one to a line.
pub fn push_signature_lines(out: &mut String, chunks: &Vec<ResultChunk>)
    ensures
        final(out)@ == old(out)@ + signature_lines(models(chunks@)),
{
    let ghost start = out@;
    let ghost all = models(chunks@);
    let mut i: usize = 0;
    assert(start + signature_lines(all.take(0)) =~= start);
    while i < chunks.len()
        invariant
            i <= chunks.len(),
            all == models(chunks@),
            out@ == start + signature_lines(all.take(i as int)),
        decreases chunks.len() - i,
    {
        assert(all.take(i + 1).drop_last() =~= all.take(i as int));
        let ghost before = signature_lines(all.take(i as int));
        out.append(chunks[i].canonical.as_str());
        out.append("\n");
        assert(out@ =~= start + (before + all[i as int].canonical + "\n"@));
        i += 1;
    }
    assert(all.take(chunks.len() as int) =~= all);
}

impl TransactionalResult {
    /// The report of this record, with `duration` as the text of its
    /// duration.
    pub fn render_with(&self, duration: &str) -> (r: String)
        ensures
            r@ == rendering(self@, duration@),
    {
        let mut out = String::new();
        out.append("Status: ");
        out.append(self.status.name());
        out.append("\n");
        out.append("Duration: ");
        out.append(duration);
        out.append("\n");
        out.append("\nV1 output:\n");
        push_signature_lines(&mut out, &self.v1_chunks);
        out.append("\nV2 output:\n");
        push_signature_lines(&mut out, &self.v2_chunks);
        assert(out@ =~= rendering(self@, duration@));
        out
    }

    /// The report of this record; the duration stands in it as `Debug`
    /// prints it.
    pub fn render(&self) -> (r: String)
        ensures
            exists|duration: Seq<char>| r@ == rendering(self@, duration),
    {
        let duration = duration_text(&self.duration);
        self.render_with(duration.as_str())
    }

    /// The record of one run. A run that reported nothing gives the clean
    /// record. A run that reported a diff log gives the record of that log,
    /// or `None` where a chunk of the log has no signature.
    pub fn from_run_result(res: &Result<(), String>, duration: Duration) -> (r: Option<Self>)
        ensures
            (match res {
                Ok(_) => Some(clean_record(duration)),
                Err(log) => record_of(log@, duration),
            }) == (match r {
                Some(record) => Some(record@),
                None => None,
            }),
    {
        match res {
            Ok(_) => {
                let record = TransactionalResult {
                    log: "Success".to_owned(),
                    status: ResultStatus::Success,
                    v1_chunks: Vec::new(),
                    v2_chunks: Vec::new(),
                    duration,
                };
                assert(record@.v1_chunks =~= Seq::empty());
                assert(record@.v2_chunks =~= Seq::empty());
                Some(record)
            },
            Err(log) => {
                let (v1_log, v2_log) = Self::split_diff_log(log.as_str());
                let v1_chunks = match ResultChunk::log_to_chunck(v1_log) {
                    Some(chunks) => chunks,
                    None => { return None; },
                };
                let v2_chunks = match ResultChunk::log_to_chunck(v2_log) {
                    Some(chunks) => chunks,
                    None => { return None; },
                };
                let status = ResultStatus::check_chunks(v1_chunks.as_slice(), v2_chunks.as_slice());
                Some(TransactionalResult { log: log.clone(), status, v1_chunks, v2_chunks, duration })
            },
        }
    }

    /// The two sides of a diff log: the contents of the lines marked `-` or
    /// `=`, and of those marked `+` or `=`, each in log order.
    pub fn split_diff_log(log: &str) -> (r: (Vec<String>, Vec<String>))
        ensures
            texts(r.0@) == side_lines(split_lines(log@), DiffSide::Left),
            texts(r.1@) == side_lines(split_lines(log@), DiffSide::Right),
    {
        let lines = lines_of(chars_of(log).as_slice());
        let ghost all = rows(lines@);
        let mut left: Vec<String> = Vec::new();
        let mut right: Vec<String> = Vec::new();
        let mut i: usize = 0;
        assert(texts(left@) =~= side_lines(all.take(0), DiffSide::Left));
        assert(texts(right@) =~= side_lines(all.take(0), DiffSide::Right));
        while i < lines.len()
            invariant
                i <= lines.len(),
                all == rows(lines@),
                texts(left@) == side_lines(all.take(i as int), DiffSide::Left),
                texts(right@) == side_lines(all.take(i as int), DiffSide::Right),
            decreases lines.len() - i,
        {
            assert(all.take(i + 1).drop_last() =~= all.take(i as int));
            assert(all.take(i + 1).last() == lines@[i as int]@);
            let ghost l0 = texts(left@);
            let ghost r0 = texts(right@);
            match read_diff_line(lines[i].as_slice()) {
                Some((side, content)) => {
                    match side {
                        DiffSide::Left => {
                            left.push(string_of(content.as_slice()));
                            assert(texts(left@) =~= l0.push(content@));
                        },
                        DiffSide::Right => {
                            right.push(string_of(content.as_slice()));
                            assert(texts(right@) =~= r0.push(content@));
                        },
                        DiffSide::Both => {
                            left.push(string_of(content.as_slice()));
                            right.push(string_of(content.as_slice()));
                            assert(texts(left@) =~= l0.push(content@));
                            assert(texts(right@) =~= r0.push(content@));
                        },
                    }
                },
                None => {},
            }
            i += 1;
        }
        assert(all.take(lines.len() as int) =~= all);
        (left, right)
    }
}

} // verus!
