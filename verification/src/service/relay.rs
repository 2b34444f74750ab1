//! Relaying between a client and a session's stream, a piece at a time.

use vstd::prelude::*;
use vstd::slice::{slice_subrange, slice_to_vec};

use crate::service::session;
use crate::service::session::{PtyResizeTarget, ShimRequest, ShimResponse};
use crate::text;

verus! {

/// What came of reading from the session's stream.
#[derive(Clone, Copy, Debug, PartialEq, Eq, Structural)]
pub enum ReadOutcome {
    /// So many bytes.
    Read(usize),
    Failed,
}

/// What is sent to the client for what was read: the bytes, or nothing any more.
pub open spec fn forwarded(outcome: ReadOutcome, buffer: Seq<u8>) -> Option<Seq<u8>> {
    match outcome {
        ReadOutcome::Read(n) => if n == 0 {
            None
        } else {
            Some(buffer.take(n as int))
        },
        ReadOutcome::Failed => None,
    }
}

/// The bytes of a byte string that may be there.
pub open spec fn bytes_in(o: Option<Vec<u8>>) -> Option<Seq<u8>> {
    match o {
        Some(v) => Some(v@),
        None => None,
    }
}

/// What is sent to the client for what was read into `buffer`; `None` ends the
/// relay.
pub fn forward_output(outcome: ReadOutcome, buffer: &[u8]) -> (res: Option<Vec<u8>>)
    requires
        outcome matches ReadOutcome::Read(n) ==> n <= buffer@.len(),
    ensures
        bytes_in(res) == forwarded(outcome, buffer@),
{
    match outcome {
        ReadOutcome::Read(n) => {
            if n == 0 {
                return None;
            }
            let data = slice_to_vec(slice_subrange(buffer, 0, n));
            assert(data@ == buffer@.take(n as int));
            Some(data)
        },
        ReadOutcome::Failed => None,
    }
}

/// All bytes that a client is sent, for a row of reads and what each left in the
/// buffer: relaying ends at the first read that gives nothing.
pub open spec fn delivered(reads: Seq<(ReadOutcome, Seq<u8>)>) -> Seq<u8>
    decreases reads.len(),
{
    if reads.len() == 0 {
        Seq::empty()
    } else {
        match forwarded(reads[0].0, reads[0].1) {
            Some(data) => data + delivered(reads.skip(1)),
            None => Seq::empty(),
        }
    }
}

/// Whether reads gave these pieces, one each, and then nothing.
pub open spec fn gave(reads: Seq<(ReadOutcome, Seq<u8>)>, pieces: Seq<Seq<u8>>) -> bool {
    &&& reads.len() > pieces.len()
    &&& forall|i: int|
        0 <= i < pieces.len() ==> forwarded((#[trigger] reads[i]).0, reads[i].1) == Some(pieces[i])
    &&& forwarded(reads[pieces.len() as int].0, reads[pieces.len() as int].1) is None
}

/// A client is sent what the stream gave before its end: every byte, in order, and
/// no other.
pub proof fn law_output_is_relayed_whole(
    reads: Seq<(ReadOutcome, Seq<u8>)>,
    pieces: Seq<Seq<u8>>,
)
    requires
        gave(reads, pieces),
    ensures
        delivered(reads) == pieces.flatten(),
    decreases pieces.len(),
{
    if pieces.len() > 0 {
        let rest = reads.skip(1);
        let others = pieces.drop_first();
        assert(forwarded(reads[0].0, reads[0].1) == Some(pieces[0]));
        assert forall|i: int| 0 <= i < others.len() implies forwarded(
            (#[trigger] rest[i]).0,
            rest[i].1,
        ) == Some(others[i]) by {
            assert(rest[i] == reads[i + 1] && others[i] == pieces[i + 1]);
        }
        assert(rest[others.len() as int] == reads[pieces.len() as int]);
        law_output_is_relayed_whole(rest, others);
    }
}

/// What comes from a client in a session that is open.
#[derive(Clone, Debug, PartialEq, Eq)]
pub enum Input {
    /// Bytes for the session.
    Data(Vec<u8>),
    /// The size of the client's terminal.
    Resize { rows: u32, cols: u32 },
    /// A message that says nothing to an open session.
    Other,
    /// The end of the stream, or an error.
    Ended,
}

/// What is done with what came from a client.
#[derive(Clone, Debug, PartialEq, Eq)]
pub enum InputTodo {
    /// Write these bytes to the session; the relay ends where that fails.
    Write(Vec<u8>),
    /// Tell the shim the terminal's size.
    Tell(ShimRequest),
    Ignore,
    Stop,
}

/// The request that tells a shim a terminal's size.
pub open spec fn resize_text(target: PtyResizeTarget, rows: u32, cols: u32) -> session::RequestText {
    session::RequestText::ResizePty {
        id: target.container_id@,
        session_id: text::text_in(target.session_id),
        rows,
        cols,
    }
}

/// Whether this is what is done with what came from a client. A terminal's size is
/// told only where there is someone to tell.
pub open spec fn handles(input: Input, target: Option<PtyResizeTarget>, todo: InputTodo) -> bool {
    match (input, target) {
        (Input::Data(data), _) => todo matches InputTodo::Write(d) && d@ == data@,
        (Input::Resize { rows, cols }, Some(target)) => todo matches InputTodo::Tell(request)
            && request@ == resize_text(target, rows, cols),
        (Input::Resize { .. }, None) => todo is Ignore,
        (Input::Other, _) => todo is Ignore,
        (Input::Ended, _) => todo is Stop,
    }
}

/// What is done with what came from a client.
pub fn handle_input(input: Input, target: &Option<PtyResizeTarget>) -> (res: InputTodo)
    ensures
        handles(input, *target, res),
{
    match input {
        Input::Data(data) => InputTodo::Write(data),
        Input::Resize { rows, cols } => match target {
            Some(target) => InputTodo::Tell(target.resize(rows, cols)),
            None => InputTodo::Ignore,
        },
        Input::Other => InputTodo::Ignore,
        Input::Ended => InputTodo::Stop,
    }
}

/// What is said in the log of a terminal's size that the shim did not take.
#[derive(Clone, Debug, PartialEq, Eq)]
pub struct ResizeWarning {
    pub message: &'static str,
    /// What the shim, or the way to it, said of the error.
    pub error: Option<String>,
    /// The answer, where it was not one to a terminal's size.
    pub response: Option<ShimResponse>,
}

/// What a `ResizeWarning` says.
pub struct WarningText {
    pub message: Seq<char>,
    pub error: Option<Seq<char>>,
    pub response: Option<ShimResponse>,
}

/// What is said of the answer to a terminal's size: nothing where it was taken.
pub open spec fn warned(answer: Result<ShimResponse, String>) -> Option<WarningText> {
    match answer {
        Ok(ShimResponse::Done) => None,
        Ok(ShimResponse::Error { message }) => Some(
            WarningText {
                message: "PTY resize failed"@,
                error: Some(message@),
                response: None,
            },
        ),
        Ok(other) => Some(
            WarningText {
                message: "unexpected PTY resize response"@,
                error: None,
                response: Some(other),
            },
        ),
        Err(e) => Some(
            WarningText {
                message: "PTY resize request failed"@,
                error: Some(e@),
                response: None,
            },
        ),
    }
}

/// What a warning that may be there says.
pub open spec fn warning_in(o: Option<ResizeWarning>) -> Option<WarningText> {
    match o {
        Some(w) => Some(
            WarningText {
                message: w.message@,
                error: text::text_in(w.error),
                response: w.response,
            },
        ),
        None => None,
    }
}

impl PtyResizeTarget {
    /// The request that tells the shim a terminal's size.
    pub fn resize(&self, rows: u32, cols: u32) -> (res: ShimRequest)
        ensures
            res@ == resize_text(*self, rows, cols),
    {
        let session_id = match &self.session_id {
            Some(s) => Some(s.clone()),
            None => None,
        };
        ShimRequest::ResizePty { id: self.container_id.clone(), session_id, rows, cols }
    }

    /// What is said in the log of the shim's answer to a terminal's size.
    pub fn judge(answer: Result<ShimResponse, String>) -> (res: Option<ResizeWarning>)
        ensures
            warning_in(res) == warned(answer),
    {
        match answer {
            Ok(ShimResponse::Done) => None,
            Ok(ShimResponse::Error { message }) => Some(
                ResizeWarning {
                    message: "PTY resize failed",
                    error: Some(message),
                    response: None,
                },
            ),
            Ok(other) => Some(
                ResizeWarning {
                    message: "unexpected PTY resize response",
                    error: None,
                    response: Some(other),
                },
            ),
            Err(e) => Some(
                ResizeWarning {
                    message: "PTY resize request failed",
                    error: Some(e),
                    response: None,
                },
            ),
        }
    }
}

/// A client's terminal is told to the shim as the client told it: the rows as the rows, the
/// columns as the columns, of the container and the session that are relayed.
pub proof fn law_terminal_is_told_as_it_is(
    target: PtyResizeTarget,
    rows: u32,
    cols: u32,
    todo: InputTodo,
)
    requires
        handles(Input::Resize { rows, cols }, Some(target), todo),
    ensures
        todo matches InputTodo::Tell(request) && (request matches ShimRequest::ResizePty {
            id,
            session_id,
            rows: r,
            cols: c,
        } && r == rows && c == cols && id@ == target.container_id@ && text::text_in(session_id)
            == text::text_in(target.session_id)),
{
}

/// What comes from a client is written where it is bytes, and ends the relay exactly where
/// the client's stream ended; nothing else is written, and nothing is told to a shim
/// without someone to tell.
pub proof fn law_input_is_relayed_as_it_came(
    input: Input,
    target: Option<PtyResizeTarget>,
    todo: InputTodo,
)
    requires
        handles(input, target, todo),
    ensures
        todo is Stop <==> input is Ended,
        todo is Write <==> input is Data,
        todo is Tell <==> input is Resize && target is Some,
        todo is Ignore <==> input is Other || (input is Resize && target is None),
        input matches Input::Data(data) ==> (todo matches InputTodo::Write(d) && d@ == data@),
{
}

/// A client is sent exactly the bytes that a read gave, the first ones of the buffer, and
/// nothing more after a read that gave none or failed.
pub proof fn law_read_bytes_are_sent(outcome: ReadOutcome, buffer: Seq<u8>)
    requires
        outcome matches ReadOutcome::Read(n) ==> n <= buffer.len(),
    ensures
        forwarded(outcome, buffer) is None <==> outcome is Failed || outcome
            == ReadOutcome::Read(0),
        forwarded(outcome, buffer) matches Some(data) ==> (outcome matches ReadOutcome::Read(n)
            && data.len() == n && forall|i: int| 0 <= i < n ==> #[trigger] data[i] == buffer[i]),
{
}

/// Nothing is said of a terminal's size that the shim took; of any other answer it is said
/// what became of it, with the shim's own words where it gave some.
pub proof fn law_only_refusals_are_warned_of(answer: Result<ShimResponse, String>)
    ensures
        warned(answer) is None <==> answer matches Ok(ShimResponse::Done),
        answer matches Ok(ShimResponse::Error { message }) ==> (warned(answer) matches Some(w)
            && w.message == "PTY resize failed"@ && w.error == Some(message@) && w.response
            is None),
        answer matches Err(e) ==> (warned(answer) matches Some(w) && w.message
            == "PTY resize request failed"@ && w.error == Some(e@) && w.response is None),
        answer matches Ok(response) ==> (!(response is Done) && !(response is Error) ==> (warned(
            answer,
        ) matches Some(w) && w.message == "unexpected PTY resize response"@ && w.error is None
            && w.response == Some(response))),
{
}

} // verus!
