//! The executor contract and the runner that keeps the record of what was
//! seen before.

use vstd::prelude::*;
use crate::text::texts;
use crate::chunk::{ResultChunk, ChunkModel, models};
use crate::outcome::{ResultStatus, TransactionalResult, ResultModel};

verus! {

/// The report that a result is new, and so a bug to look at.
#[derive(Debug, Clone, Copy, PartialEq, Eq, Structural)]
pub struct BugFound;

/// An executor runs one input, keeps what it has seen, and tells a new
/// result from one seen before.
pub trait Executor<Input, ExecutionResult>: Sized {
    /// Whether a result equivalent to `result` is on record.
    spec fn seen(&self, result: &ExecutionResult) -> bool;

    /// An executor with nothing on record.
    fn empty_executor() -> (r: Self)
        ensures
            forall|result: ExecutionResult| !r.seen(&result),
    ;

    /// Runs one input.
    fn execute_one(&self, input: &Input) -> ExecutionResult;

    /// Puts `result` on record: it is seen from now on, and so is all that
    /// was seen before.
    fn save_result(&mut self, result: ExecutionResult)
        ensures
            final(self).seen(&result),
            forall|other: ExecutionResult| old(self).seen(&other) ==> final(self).seen(&other),
    ;

    /// Whether `result` can be passed over because an equivalent one is on
    /// record.
    fn should_ignore(&self, result: &ExecutionResult) -> (r: bool)
        ensures
            r == self.seen(result),
    ;

    /// Whether `result` shows a bug.
    fn is_bug(&self, result: &ExecutionResult) -> bool;

    /// Runs one input and puts its result on record, whatever it is. The
    /// answer is `Ok` where an equivalent result was on record before, and
    /// the report of a new bug where none was.
    fn execute_save_report(&mut self, input: &Input) -> (r: Result<(), BugFound>)
        ensures
            exists|result: ExecutionResult|
                #![trigger old(self).seen(&result)]
                final(self).seen(&result) && (r is Ok <==> old(self).seen(&result)),
            forall|other: ExecutionResult| old(self).seen(&other) ==> final(self).seen(&other),
    {
        let result = self.execute_one(input);
        let ignore = self.should_ignore(&result);
        let ghost kept = result;
        self.save_result(result);
        assert(final(self).seen(&kept) && (ignore <==> old(self).seen(&kept)));
        if ignore {
            Ok(())
        } else {
            Err(BugFound)
        }
    }
}

/// What decides whether two results are the same: the verdict and the
/// signatures of both sides, in order. Raw text and duration play no part.
#[derive(Debug, Clone, PartialEq, Eq)]
pub struct ResultKey {
    pub status: ResultStatus,
    pub left: Vec<String>,
    pub right: Vec<String>,
}

/// The mathematical content of a key.
pub struct KeyModel {
    pub status: ResultStatus,
    pub left: Seq<Seq<char>>,
    pub right: Seq<Seq<char>>,
}

impl View for ResultKey {
    type V = KeyModel;

    open spec fn view(&self) -> KeyModel {
        KeyModel { status: self.status, left: texts(self.left@), right: texts(self.right@) }
    }
}

/// The signatures of a chunk sequence, in order.
pub open spec fn signatures(cs: Seq<ChunkModel>) -> Seq<Seq<char>> {
    Seq::new(cs.len(), |i: int| cs[i].canonical)
}

/// The key of a result.
pub open spec fn key_of(r: ResultModel) -> KeyModel {
    KeyModel { status: r.status, left: signatures(r.v1_chunks), right: signatures(r.v2_chunks) }
}

/// The signatures of `chunks`, in order.
pub fn signatures_of(chunks: &Vec<ResultChunk>) -> (r: Vec<String>)
    ensures
        texts(r@) == signatures(models(chunks@)),
{
    let mut out: Vec<String> = Vec::new();
    let mut i: usize = 0;
    while i < chunks.len()
        invariant
            i <= chunks.len(),
            out.len() == i,
            forall|j: int| 0 <= j < i ==> out@[j]@ == chunks@[j].canonical@,
        decreases chunks.len() - i,
    {
        out.push(chunks[i].canonical.clone());
        i += 1;
    }
    assert(texts(out@) =~= signatures(models(chunks@)));
    out
}

/// Whether two sequences of strings hold the same texts in the same order.
pub fn same_texts(a: &Vec<String>, b: &Vec<String>) -> (r: bool)
    ensures
        r == (texts(a@) == texts(b@)),
{
    if a.len() != b.len() {
        assert(texts(a@).len() != texts(b@).len());
        return false;
    }
    let mut i: usize = 0;
    while i < a.len()
        invariant
            i <= a.len(),
            a.len() == b.len(),
            forall|j: int| 0 <= j < i ==> a@[j]@ == b@[j]@,
        decreases a.len() - i,
    {
        if a[i] != b[i] {
            assert(texts(a@)[i as int] != texts(b@)[i as int]);
            return false;
        }
        i += 1;
    }
    assert(texts(a@) =~= texts(b@));
    true
}

impl ResultKey {
    /// The key of `result`.
    pub fn of(result: &TransactionalResult) -> (r: Self)
        ensures
            r@ == key_of(result@),
    {
        ResultKey {
            status: result.status,
            left: signatures_of(&result.v1_chunks),
            right: signatures_of(&result.v2_chunks),
        }
    }

    /// Whether two keys are the same.
    pub fn same(&self, other: &ResultKey) -> (r: bool)
        ensures
            r == (self@ == other@),
    {
        self.status == other.status && same_texts(&self.left, &other.left) && same_texts(
            &self.right,
            &other.right,
        )
    }
}

/// A named configuration of the systems under comparison, handed through
/// unread.
#[derive(Debug, Clone, PartialEq, Eq)]
pub struct CompilerSetting {
    pub name: String,
}

/// One program to compare the systems on, with the configuration to run it
/// under.
#[derive(Debug, Clone, PartialEq, Eq)]
pub struct TransactionalInput {
    pub code: String,
    pub config: CompilerSetting,
}

impl TransactionalInput {
    /// The input that holds a copy of `code` and of `config`.
    pub fn new_from_str(code: &str, config: &CompilerSetting) -> (r: Self)
        ensures
            r.code@ == code@,
            r.config == *config,
    {
        TransactionalInput {
            code: code.to_owned(),
            config: CompilerSetting { name: config.name.clone() },
        }
    }
}

/// The runner of comparisons: it holds the keys of the results put on
/// record, each once.
pub struct TransactionalRunner {
    saved_results: Vec<ResultKey>,
}

impl TransactionalRunner {
    /// Whether `key` is on record.
    pub closed spec fn holds(&self, key: KeyModel) -> bool {
        exists|i: int| 0 <= i < self.saved_results@.len() && self.saved_results@[i]@ == key
    }

    /// No key is on record twice.
    pub closed spec fn wf(&self) -> bool {
        forall|i: int, j: int|
            0 <= i < j < self.saved_results@.len() ==> self.saved_results@[i]@
                != self.saved_results@[j]@
    }

    /// How many keys are on record.
    pub closed spec fn count(&self) -> nat {
        self.saved_results@.len()
    }

    /// A runner with nothing on record.
    pub fn empty_executor() -> (r: Self)
        ensures
            r.wf(),
            r.count() == 0,
            forall|key: KeyModel| !r.holds(key),
    {
        TransactionalRunner { saved_results: Vec::new() }
    }

    /// Whether the key `key` is on record.
    fn find(&self, key: &ResultKey) -> (r: bool)
        ensures
            r == self.holds(key@),
    {
        let mut i: usize = 0;
        while i < self.saved_results.len()
            invariant
                i <= self.saved_results.len(),
                forall|j: int| 0 <= j < i ==> self.saved_results@[j]@ != key@,
            decreases self.saved_results.len() - i,
        {
            if self.saved_results[i].same(key) {
                return true;
            }
            i += 1;
        }
        false
    }

    /// Puts the key of `result` on record, unless it is there already.
    pub fn save_result(&mut self, result: TransactionalResult)
        requires
            old(self).wf(),
        ensures
            final(self).wf(),
            forall|key: KeyModel|
                final(self).holds(key) <==> (old(self).holds(key) || key == key_of(result@)),
            final(self).count() == old(self).count() + (if old(self).holds(key_of(result@)) {
                0nat
            } else {
                1nat
            }),
    {
        let key = ResultKey::of(&result);
        if !self.find(&key) {
            let ghost before = self.saved_results@;
            self.saved_results.push(key);
            assert forall|k: KeyModel| self.holds(k) <==> (old(self).holds(k) || k == key_of(
                result@,
            )) by {
                if old(self).holds(k) {
                    let i = choose|i: int| 0 <= i < before.len() && before[i]@ == k;
                    assert(self.saved_results@[i]@ == k);
                }
                if k == key_of(result@) {
                    assert(self.saved_results@[before.len() as int]@ == k);
                }
            }
        }
    }

    /// Whether a result with the key of `result` is on record: the same
    /// verdict and the same signatures on both sides.
    pub fn should_ignore(&self, result: &TransactionalResult) -> (r: bool)
        ensures
            r == self.holds(key_of(result@)),
    {
        let key = ResultKey::of(result);
        self.find(&key)
    }

    /// Whether `result` shows a bug: its verdict is anything but success.
    pub fn is_bug(&self, result: &TransactionalResult) -> (r: bool)
        ensures
            r == (result.status != ResultStatus::Success),
    {
        result.status != ResultStatus::Success
    }

    /// Decides on a finished run and puts it on record, whatever it is:
    /// `Ok` where a result with the same key was on record before, the
    /// report of a new bug where none was.
    pub fn save_report(&mut self, result: TransactionalResult) -> (r: Result<(), BugFound>)
        requires
            old(self).wf(),
        ensures
            final(self).wf(),
            r is Ok <==> old(self).holds(key_of(result@)),
            forall|key: KeyModel|
                final(self).holds(key) <==> (old(self).holds(key) || key == key_of(result@)),
    {
        let ignore = self.should_ignore(&result);
        self.save_result(result);
        if ignore {
            Ok(())
        } else {
            Err(BugFound)
        }
    }
}

} // verus!
