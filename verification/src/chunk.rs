//! Diagnostic chunks: how lines are told apart by kind, grouped into chunks,
//! and how a chunk is reduced to its canonical signature.

use vstd::prelude::*;
use crate::text::{texts, trim, contains, starts_with, replace, chars_of, string_of, trimmed, has, has_at, replace_all};
use crate::pattern::{regex_replaced, regex_group, replace_matches, capture_group};

verus! {

/// The kind of diagnostic that a chunk reports.
#[derive(Debug, Clone, Copy, PartialEq, Eq, Structural, Hash)]
pub enum ResultChunkKind {
    Task,
    Error,
    VMError,
    Bug,
    Panic,
    Warning,
}

impl Default for ResultChunkKind {
    fn default() -> (r: Self)
        ensures
            r == ResultChunkKind::Task,
    {
        ResultChunkKind::Task
    }
}

/// One diagnostic unit of a log: its raw lines in log order, its kind, and
/// the signature derived from them.
#[derive(Debug, Clone, PartialEq, Eq, Hash)]
pub struct ResultChunk {
    pub canonical: String,
    pub kind: ResultChunkKind,
    pub lines: Vec<String>,
}

/// The mathematical content of a chunk.
pub struct ChunkModel {
    pub canonical: Seq<char>,
    pub kind: ResultChunkKind,
    pub lines: Seq<Seq<char>>,
}

impl View for ResultChunk {
    type V = ChunkModel;

    open spec fn view(&self) -> ChunkModel {
        ChunkModel { canonical: self.canonical@, kind: self.kind, lines: texts(self.lines@) }
    }
}

/// The content of each chunk of a sequence, in order.
pub open spec fn models(v: Seq<ResultChunk>) -> Seq<ChunkModel> {
    Seq::new(v.len(), |i: int| v[i]@)
}

/// The kind that a line announces, if it opens a chunk. The tests are tried
/// in this order and the first that holds decides.
pub open spec fn kind_of(line: Seq<char>) -> Option<ResultChunkKind> {
    if contains(line, "warning"@) {
        Some(ResultChunkKind::Warning)
    } else if contains(line, "task"@) {
        Some(ResultChunkKind::Task)
    } else if contains(line, "VMError"@) {
        Some(ResultChunkKind::VMError)
    } else if starts_with(line, "error"@) {
        Some(ResultChunkKind::Error)
    } else if starts_with(line, "bug"@) {
        Some(ResultChunkKind::Bug)
    } else if starts_with(line, "panic"@) {
        Some(ResultChunkKind::Panic)
    } else {
        None
    }
}

/// The lines of a log grouped into chunks: a line that announces a kind opens
/// a chunk, any other line joins the chunk that is open, or is dropped where
/// none is.
pub open spec fn grouped(log: Seq<Seq<char>>) -> Seq<ChunkModel>
    decreases log.len(),
{
    if log.len() == 0 {
        Seq::empty()
    } else {
        let prev = grouped(log.drop_last());
        let line = log.last();
        match kind_of(line) {
            Some(kind) => prev.push(ChunkModel { canonical: Seq::empty(), kind, lines: seq![line] }),
            None => if prev.len() > 0 {
                prev.drop_last().push(
                    ChunkModel {
                        canonical: prev.last().canonical,
                        kind: prev.last().kind,
                        lines: prev.last().lines.push(line),
                    },
                )
            } else {
                prev
            },
        }
    }
}

/// The chunks of `cs` that are no warnings, in order.
pub open spec fn without_warnings(cs: Seq<ChunkModel>) -> Seq<ChunkModel>
    decreases cs.len(),
{
    if cs.len() == 0 {
        Seq::empty()
    } else if cs.last().kind == ResultChunkKind::Warning {
        without_warnings(cs.drop_last())
    } else {
        without_warnings(cs.drop_last()).push(cs.last())
    }
}

/// The line that stands for a chunk: the second line, trimmed, of a
/// `VMError` chunk, the first line of any other; `None` where the chunk has
/// no such line.
pub open spec fn headline(kind: ResultChunkKind, lines: Seq<Seq<char>>) -> Option<Seq<char>> {
    if kind == ResultChunkKind::VMError {
        if lines.len() > 1 {
            Some(trim(lines[1]))
        } else {
            None
        }
    } else {
        if lines.len() > 0 {
            Some(lines[0])
        } else {
            None
        }
    }
}

/// The pattern of a quoted token.
pub open spec fn token_pattern() -> Seq<char> {
    "`([^`]*)`"@
}

/// The pattern of a named local.
pub open spec fn local_pattern() -> Seq<char> {
    "local\\s+`[^`]+`"@
}

/// The pattern of a named module.
pub open spec fn module_pattern() -> Seq<char> {
    "module\\s+'[^']+'"@
}

/// The pattern of a named type.
pub open spec fn type_pattern() -> Seq<char> {
    "type\\s+`[^`]+`"@
}

/// The pattern of an optional value.
pub open spec fn some_pattern() -> Seq<char> {
    "Some\\([^\\)]+\\)"@
}

/// One substitution step on an intermediate text that may already have
/// failed.
pub open spec fn substitute(text: Option<Seq<char>>, pattern: Seq<char>, with: Seq<char>) -> Option<
    Seq<char>,
> {
    match text {
        Some(t) => regex_replaced(pattern, t, with),
        None => None,
    }
}

/// The headline with named locals, modules, types and optional values
/// replaced by placeholders, in this order.
pub open spec fn generalized(top: Seq<char>) -> Option<Seq<char>> {
    substitute(
        substitute(
            substitute(
                regex_replaced(local_pattern(), top, "[some variable]"@),
                module_pattern(),
                "[some module]"@,
            ),
            type_pattern(),
            "[some type]"@,
        ),
        some_pattern(),
        "[some value]"@,
    )
}

/// The signature of a headline that is judged by its phrasing.
pub open spec fn phrase_signature(top: Seq<char>) -> Option<Seq<char>> {
    if contains(top, "mutable ownership violated"@) || contains(
        top,
        "which is still mutably borrowed"@,
    ) {
        Some("...cannot copy while mutably borrowed..."@)
    } else if contains(top, "cannot extract resource"@) || contains(
        top,
        "function acquires global"@,
    ) {
        Some("...cannot acquire..."@)
    } else if contains(top, "cannot infer type"@) || contains(
        top,
        "unable to infer instantiation of type"@,
    ) {
        Some("...cannot infer type..."@)
    } else {
        generalized(top)
    }
}

/// The signature that a quoted error code gives.
pub open spec fn code_signature(token: Seq<char>) -> Seq<char> {
    "error_code: "@ + token
}

/// The signature of a headline whose quoted token, if any, was looked up
/// already.
pub open spec fn signature_with(top: Seq<char>, token: Option<Option<Seq<char>>>) -> Option<
    Seq<char>,
> {
    if contains(top, "major_status"@) {
        Some(replace(replace(top, "major_status: "@, "error_code: "@), ","@, ""@))
    } else if contains(top, "bytecode verification failed"@) {
        match token {
            None => None,
            Some(Some(t)) => Some(code_signature(t)),
            Some(None) => phrase_signature(top),
        }
    } else {
        phrase_signature(top)
    }
}

/// The signature of a headline; `None` where the pattern engine rejects a
/// pattern that the headline calls for.
pub open spec fn signature(top: Seq<char>) -> Option<Seq<char>> {
    signature_with(top, regex_group(token_pattern(), top, 1))
}

/// The signature of a chunk of the given kind and lines; `None` where the
/// chunk lacks its headline or the pattern engine rejects a pattern.
pub open spec fn canonical_of(kind: ResultChunkKind, lines: Seq<Seq<char>>) -> Option<Seq<char>> {
    match headline(kind, lines) {
        Some(top) => signature(top),
        None => None,
    }
}

/// Whether every chunk of `cs` has a signature.
pub open spec fn all_canonical(cs: Seq<ChunkModel>) -> bool {
    forall|i: int| 0 <= i < cs.len() ==> (#[trigger] canonical_of(cs[i].kind, cs[i].lines)) is Some
}

/// The chunks of `cs`, each with its signature filled in.
pub open spec fn canonicalized(cs: Seq<ChunkModel>) -> Seq<ChunkModel> {
    Seq::new(
        cs.len(),
        |i: int|
            ChunkModel {
                canonical: canonical_of(cs[i].kind, cs[i].lines).unwrap(),
                kind: cs[i].kind,
                lines: cs[i].lines,
            },
    )
}

/// The chunks of a log: grouped, warnings dropped, signatures filled in;
/// `None` where one of the chunks that remain has no signature.
pub open spec fn chunks_of(log: Seq<Seq<char>>) -> Option<Seq<ChunkModel>> {
    let cs = without_warnings(grouped(log));
    if all_canonical(cs) {
        Some(canonicalized(cs))
    } else {
        None
    }
}

impl ResultChunkKind {
    /// The kind that `msg` announces, if any.
    pub fn try_from_str(msg: &str) -> (r: Option<Self>)
        ensures
            r == kind_of(msg@),
    {
        let line = chars_of(msg);
        Self::of_line(line.as_slice())
    }

    /// The kind that the line `s` announces, if any.
    pub fn of_line(s: &[char]) -> (r: Option<Self>)
        ensures
            r == kind_of(s@),
    {
        if has(s, chars_of("warning").as_slice()) {
            Some(Self::Warning)
        } else if has(s, chars_of("task").as_slice()) {
            Some(Self::Task)
        } else if has(s, chars_of("VMError").as_slice()) {
            Some(Self::VMError)
        } else if has_at(s, chars_of("error").as_slice(), 0) {
            Some(Self::Error)
        } else if has_at(s, chars_of("bug").as_slice(), 0) {
            Some(Self::Bug)
        } else if has_at(s, chars_of("panic").as_slice(), 0) {
            Some(Self::Panic)
        } else {
            None
        }
    }
}

/// The signature of a headline judged by its phrasing; the last resort is
/// the pattern engine.
pub fn phrase_signature_of(top: &[char]) -> (r: Option<String>)
    ensures
        phrase_signature(top@) == (match r {
            Some(s) => Some(s@),
            None => None,
        }),
{
    if has(top, chars_of("mutable ownership violated").as_slice()) || has(
        top,
        chars_of("which is still mutably borrowed").as_slice(),
    ) {
        return Some("...cannot copy while mutably borrowed...".to_owned());
    }
    if has(top, chars_of("cannot extract resource").as_slice()) || has(
        top,
        chars_of("function acquires global").as_slice(),
    ) {
        return Some("...cannot acquire...".to_owned());
    }
    if has(top, chars_of("cannot infer type").as_slice()) || has(
        top,
        chars_of("unable to infer instantiation of type").as_slice(),
    ) {
        return Some("...cannot infer type...".to_owned());
    }
    let text = string_of(top);
    let step = match replace_matches("local\\s+`[^`]+`", text.as_str(), "[some variable]") {
        Some(s) => s,
        None => { return None; },
    };
    let step = match replace_matches("module\\s+'[^']+'", step.as_str(), "[some module]") {
        Some(s) => s,
        None => { return None; },
    };
    let step = match replace_matches("type\\s+`[^`]+`", step.as_str(), "[some type]") {
        Some(s) => s,
        None => { return None; },
    };
    replace_matches("Some\\([^\\)]+\\)", step.as_str(), "[some value]")
}

/// The signature of the headline `top`, given what the pattern engine found
/// as its quoted token.
pub fn signature_from(top: &[char], token: Option<Option<String>>) -> (r: Option<String>)
    ensures
        signature_with(
            top@,
            match token {
                Some(Some(t)) => Some(Some(t@)),
                Some(None) => Some(None),
                None => None,
            },
        ) == (match r {
            Some(s) => Some(s@),
            None => None,
        }),
{
    if has(top, chars_of("major_status").as_slice()) {
        let renamed = replace_all(
            top,
            chars_of("major_status: ").as_slice(),
            chars_of("error_code: ").as_slice(),
        );
        let stripped = replace_all(
            renamed.as_slice(),
            chars_of(",").as_slice(),
            chars_of("").as_slice(),
        );
        return Some(string_of(stripped.as_slice()));
    }
    if has(top, chars_of("bytecode verification failed").as_slice()) {
        match token {
            None => { return None; },
            Some(Some(t)) => {
                return Some("error_code: ".to_owned().concat(t.as_str()));
            },
            Some(None) => {},
        }
    }
    phrase_signature_of(top)
}

/// A chunk that is no warning survives the dropping of warnings.
pub proof fn lemma_kept_chunk_survives(cs: Seq<ChunkModel>, j: int)
    requires
        0 <= j < cs.len(),
        cs[j].kind != ResultChunkKind::Warning,
    ensures
        exists|k: int| 0 <= k < without_warnings(cs).len() && without_warnings(cs)[k] == cs[j],
    decreases cs.len(),
{
    let front = without_warnings(cs.drop_last());
    if j == cs.len() - 1 {
        assert(without_warnings(cs)[front.len() as int] == cs[j]);
    } else {
        lemma_kept_chunk_survives(cs.drop_last(), j);
        let k = choose|k: int| 0 <= k < front.len() && front[k] == cs.drop_last()[j];
        assert(without_warnings(cs)[k] == cs[j]);
    }
}

/// A copy of `v`.
pub fn copy_lines(v: &Vec<String>) -> (r: Vec<String>)
    ensures
        r@ == v@,
{
    let mut out: Vec<String> = Vec::new();
    let mut i: usize = 0;
    while i < v.len()
        invariant
            i <= v.len(),
            out@ == v@.take(i as int),
        decreases v.len() - i,
    {
        out.push(v[i].clone());
        i += 1;
        assert(v@.take(i as int) =~= v@.take(i - 1).push(v@[i - 1]));
    }
    assert(v@.take(v.len() as int) =~= v@);
    out
}

impl ResultChunk {
    /// The chunks of a log, in log order: lines grouped, warnings dropped,
    /// signatures filled in. `None` where a chunk that remains has no
    /// signature.
    pub fn log_to_chunck(log: Vec<String>) -> (r: Option<Vec<ResultChunk>>)
        ensures
            chunks_of(texts(log@)) == (match r {
                Some(v) => Some(models(v@)),
                None => None,
            }),
    {
        let ghost all = texts(log@);
        let mut chunks: Vec<ResultChunk> = Vec::new();
        let mut i: usize = 0;
        assert(models(chunks@) =~= grouped(all.take(0)));
        while i < log.len()
            invariant
                i <= log.len(),
                all == texts(log@),
                models(chunks@) == grouped(all.take(i as int)),
            decreases log.len() - i,
        {
            let line = log[i].clone();
            let ghost prev = models(chunks@);
            assert(all.take(i + 1).drop_last() =~= all.take(i as int));
            assert(all.take(i + 1).last() == line@);
            match ResultChunkKind::try_from_str(line.as_str()) {
                Some(kind) => {
                    let mut lines: Vec<String> = Vec::new();
                    lines.push(line);
                    assert(texts(lines@) =~= seq![line@]);
                    chunks.push(ResultChunk { canonical: String::new(), kind, lines });
                    assert(models(chunks@) =~= prev.push(chunks@.last()@));
                },
                None => {
                    match chunks.pop() {
                        Some(open) => {
                            let ResultChunk { canonical, kind, lines } = open;
                            let mut lines = lines;
                            let ghost before = texts(lines@);
                            lines.push(line);
                            assert(texts(lines@) =~= before.push(line@));
                            chunks.push(ResultChunk { canonical, kind, lines });
                            assert(models(chunks@) =~= prev.drop_last().push(chunks@.last()@));
                        },
                        None => {
                            assert(models(chunks@) =~= prev);
                        },
                    }
                },
            }
            i += 1;
        }
        assert(all.take(log.len() as int) =~= all);
        let ghost raw = models(chunks@);
        let mut out: Vec<ResultChunk> = Vec::new();
        let mut j: usize = 0;
        assert(models(out@) =~= canonicalized(without_warnings(raw.take(0))));
        while j < chunks.len()
            invariant
                j <= chunks.len(),
                all == texts(log@),
                raw == models(chunks@),
                raw == grouped(all),
                all_canonical(without_warnings(raw.take(j as int))),
                models(out@) == canonicalized(without_warnings(raw.take(j as int))),
            decreases chunks.len() - j,
        {
            let ghost kept = without_warnings(raw.take(j as int));
            let ghost done = models(out@);
            assert(raw.take(j + 1).drop_last() =~= raw.take(j as int));
            assert(raw.take(j + 1).last() == chunks@[j as int]@);
            if chunks[j].kind != ResultChunkKind::Warning {
                match chunks[j].get_canonicalized_msg() {
                    Some(canonical) => {
                        let lines = copy_lines(&chunks[j].lines);
                        out.push(ResultChunk { canonical, kind: chunks[j].kind, lines });
                        assert(without_warnings(raw.take(j + 1)) == kept.push(raw[j as int]));
                        let ghost next = kept.push(raw[j as int]);
                        assert(models(out@) =~= done.push(out@.last()@));
                        assert(canonical_of(raw[j as int].kind, raw[j as int].lines) == Some(
                            canonical@,
                        ));
                        assert forall|i: int| 0 <= i < next.len() implies (#[trigger] canonical_of(
                            next[i].kind,
                            next[i].lines,
                        )) is Some by {
                            if i < kept.len() {
                                assert(next[i] == kept[i]);
                            }
                        }
                        assert forall|i: int| 0 <= i < next.len() implies models(out@)[i]
                            == canonicalized(next)[i] by {
                            if i < kept.len() {
                                assert(next[i] == kept[i]);
                                assert(models(out@)[i] == canonicalized(kept)[i]);
                            }
                        }
                        assert(models(out@) =~= canonicalized(next));
                    },
                    None => {
                        proof {
                            lemma_kept_chunk_survives(raw, j as int);
                            let rest = without_warnings(raw);
                            let k = choose|k: int| 0 <= k < rest.len() && rest[k] == raw[j as int];
                            assert(canonical_of(rest[k].kind, rest[k].lines) is None);
                        }
                        return None;
                    },
                }
            }
            j += 1;
        }
        assert(raw.take(chunks.len() as int) =~= raw);
        Some(out)
    }

    /// The signature of this chunk, from its kind and lines alone: `None`
    /// where the chunk lacks its headline or the pattern engine rejects a
    /// pattern.
    pub fn get_canonicalized_msg(&self) -> (r: Option<String>)
        ensures
            canonical_of(self@.kind, self@.lines) == (match r {
                Some(s) => Some(s@),
                None => None,
            }),
    {
        let top: Vec<char> = match self.kind {
            ResultChunkKind::VMError => {
                if self.lines.len() < 2 {
                    return None;
                }
                trimmed(chars_of(self.lines[1].as_str()).as_slice())
            },
            _ => {
                if self.lines.len() < 1 {
                    return None;
                }
                chars_of(self.lines[0].as_str())
            },
        };
        let token = if has(top.as_slice(), chars_of("bytecode verification failed").as_slice()) {
            capture_group("`([^`]*)`", string_of(top.as_slice()).as_str(), 1)
        } else {
            Some(None)
        };
        signature_from(top.as_slice(), token)
    }
}

} // verus!
