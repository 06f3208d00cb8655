//! Progress of one transfer: a label, the declared total and the number of
//! bytes accounted for so far, never above the total.

use vstd::prelude::*;
use crate::errors::FetchError;

verus! {

/// Number of bytes in the first `n` chunks of `chunks`.
pub open spec fn received(chunks: Seq<u64>, n: nat) -> nat
    decreases n,
{
    if n == 0 || n > chunks.len() {
        0
    } else {
        received(chunks, (n - 1) as nat) + chunks[n - 1] as nat
    }
}

/// `bytes`, capped at `total`.
pub open spec fn capped(bytes: nat, total: u64) -> u64 {
    if bytes <= total {
        bytes as u64
    } else {
        total
    }
}

/// The values a transfer of declared size `total` reports when its chunks
/// have the lengths `chunks`: 0 at the start, the capped byte count after
/// each chunk, and `total` at completion.
pub open spec fn reported(total: u64, chunks: Seq<u64>) -> Seq<u64> {
    Seq::new(
        chunks.len() + 2,
        |i: int|
            if i <= chunks.len() {
                capped(received(chunks, i as nat), total)
            } else {
                total
            },
    )
}

/// Whether an HTTP status code is in the success class.
pub open spec fn is_success(status: u16) -> bool {
    200 <= status <= 299
}

/// Mathematical content of a [`ProgressState`].
pub ghost struct ProgressView {
    pub label: Seq<char>,
    pub total: u64,
    pub completed: u64,
}

/// Progress of the active transfer.
pub struct ProgressState {
    label: String,
    total: u64,
    completed: u64,
}

impl View for ProgressState {
    type V = ProgressView;

    closed spec fn view(&self) -> ProgressView {
        ProgressView { label: self.label@, total: self.total, completed: self.completed }
    }
}

impl ProgressState {
    #[verifier::type_invariant]
    spec fn within_total(self) -> bool {
        self.completed <= self.total
    }

    /// The completed count never exceeds the declared total.
    pub open spec fn wf(&self) -> bool {
        self@.completed <= self@.total
    }

    /// A transfer of `total` bytes of which none has arrived.
    pub fn new(label: String, total: u64) -> (p: ProgressState)
        ensures
            p@ == (ProgressView { label: label@, total, completed: 0 }),
            p.wf(),
    {
        ProgressState { label, total, completed: 0 }
    }

    /// Decides from the response's status and declared length whether the
    /// transfer can start. A status outside the success class is rejected
    /// first, then a missing length.
    pub fn begin(label: String, status: u16, content_length: Option<u64>) -> (r: Result<
        ProgressState,
        FetchError,
    >)
        ensures
            !is_success(status) ==> r == Err::<ProgressState, FetchError>(FetchError::BadStatus),
            is_success(status) && content_length is None ==> r == Err::<ProgressState, FetchError>(
                FetchError::ContentLengthMissing,
            ),
            is_success(status) && content_length is Some ==> r is Ok && r->Ok_0.wf() && r->Ok_0@
                == (ProgressView { label: label@, total: content_length->Some_0, completed: 0 }),
    {
        if status < 200 || status > 299 {
            return Err(FetchError::BadStatus);
        }
        match content_length {
            None => Err(FetchError::ContentLengthMissing),
            Some(total) => Ok(ProgressState::new(label, total)),
        }
    }

    /// Accounts for a chunk of `chunk_len` bytes and returns the position to
    /// report: the new byte count, capped at the declared total.
    pub fn advance(&mut self, chunk_len: u64) -> (position: u64)
        ensures
            old(self).wf(),
            final(self).wf(),
            final(self)@ == (ProgressView {
                completed: capped((old(self)@.completed + chunk_len) as nat, old(self)@.total),
                ..old(self)@
            }),
            position == final(self)@.completed,
    {
        proof {
            use_type_invariant(&*self);
        }
        if chunk_len > self.total - self.completed {
            self.completed = self.total;
        } else {
            self.completed = self.completed + chunk_len;
        }
        self.completed
    }

    /// Marks the transfer complete and returns the final position, the
    /// declared total.
    pub fn finish(&mut self) -> (position: u64)
        ensures
            final(self).wf(),
            final(self)@ == (ProgressView { completed: old(self)@.total, ..old(self)@ }),
            position == old(self)@.total,
    {
        self.completed = self.total;
        self.completed
    }

    /// The label shown beside the transfer.
    pub fn label(&self) -> (s: &str)
        ensures
            s@ == self@.label,
    {
        self.label.as_str()
    }

    /// The declared size of the resource.
    pub fn total(&self) -> (t: u64)
        ensures
            t == self@.total,
    {
        self.total
    }

    /// The number of bytes accounted for.
    pub fn completed(&self) -> (c: u64)
        ensures
            c == self@.completed,
            c <= self@.total,
    {
        proof {
            use_type_invariant(self);
        }
        self.completed
    }

    /// Whether the whole declared size is accounted for.
    pub fn is_complete(&self) -> (b: bool)
        ensures
            b == (self@.completed == self@.total),
    {
        self.completed == self.total
    }
}

/// Capping after every chunk gives the same position as capping the running
/// sum once.
pub proof fn lemma_capped_step(total: u64, chunks: Seq<u64>, n: nat)
    requires
        n < chunks.len(),
    ensures
        capped((capped(received(chunks, n), total) + chunks[n as int]) as nat, total) == capped(
            received(chunks, n + 1),
            total,
        ),
{
}

/// The byte count never shrinks as more chunks are counted.
pub proof fn lemma_received_monotone(chunks: Seq<u64>, i: nat, j: nat)
    requires
        i <= j <= chunks.len(),
    ensures
        received(chunks, i) <= received(chunks, j),
    decreases j,
{
    if i < j {
        lemma_received_monotone(chunks, i, (j - 1) as nat);
    }
}

/// The reported positions of a transfer start at 0, never decrease, never
/// exceed the declared total and end exactly at it.
pub proof fn lemma_reported_monotone(total: u64, chunks: Seq<u64>)
    ensures
        reported(total, chunks).len() == chunks.len() + 2,
        reported(total, chunks)[0] == 0,
        reported(total, chunks).last() == total,
        forall|i: int|
            0 <= i < reported(total, chunks).len() ==> #[trigger] reported(total, chunks)[i]
                <= total,
        forall|i: int, j: int|
            0 <= i <= j < reported(total, chunks).len() ==> #[trigger] reported(total, chunks)[i]
                <= #[trigger] reported(total, chunks)[j],
{
    let r = reported(total, chunks);
    assert forall|i: int, j: int| 0 <= i <= j < r.len() implies #[trigger] r[i]
        <= #[trigger] r[j] by {
        if j <= chunks.len() {
            lemma_received_monotone(chunks, i as nat, j as nat);
        }
    }
}

/// Replays a transfer of declared size `total` whose chunks have the given
/// lengths and returns every position it reports, in order.
pub fn positions(total: u64, chunks: &Vec<u64>) -> (out: Vec<u64>)
    ensures
        out@ == reported(total, chunks@),
{
    let mut state = ProgressState::new(String::new(), total);
    let mut out: Vec<u64> = Vec::new();
    out.push(state.completed());
    let mut i: usize = 0;
    while i < chunks.len()
        invariant
            i <= chunks.len(),
            state.wf(),
            state@.total == total,
            state@.completed == capped(received(chunks@, i as nat), total),
            out@.len() == i + 1,
            forall|k: int| 0 <= k <= i ==> out@[k] == capped(received(chunks@, k as nat), total),
        decreases chunks.len() - i,
    {
        proof {
            lemma_capped_step(total, chunks@, i as nat);
        }
        let position = state.advance(chunks[i]);
        out.push(position);
        i = i + 1;
    }
    let last = state.finish();
    out.push(last);
    assert(out@ =~= reported(total, chunks@));
    out
}

} // verus!
