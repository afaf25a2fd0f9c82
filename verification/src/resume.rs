//! The bookkeeping of a download that resumes after an interrupted HTTP
//! response: where it stands, what the next request asks for, which
//! responses are accepted and how many reconnections are left. The caller
//! sends the requests and reads the bodies.

use vstd::prelude::*;
use vstd::string::*;

use crate::installer::content_range_of;
use crate::text::{decimal, owned, push_decimal, push_str};

verus! {

/// Where a resumable download stands.
#[derive(Clone, Copy, Debug)]
pub struct ResumeCursor {
    offset: u64,
    expected_len: Option<u64>,
    reconnects_left: usize,
}

/// A cursor as values.
pub ghost struct CursorView {
    pub offset: u64,
    pub expected_len: Option<u64>,
    pub reconnects_left: nat,
}

impl View for ResumeCursor {
    type V = CursorView;

    closed spec fn view(&self) -> CursorView {
        CursorView {
            offset: self.offset,
            expected_len: self.expected_len,
            reconnects_left: self.reconnects_left as nat,
        }
    }
}

/// Whether everything expected has been received.
pub open spec fn cursor_finished(v: CursorView) -> bool {
    match v.expected_len {
        Some(len) => v.offset >= len,
        None => false,
    }
}

/// Whether a body that ended at the offset reached ended too early.
pub open spec fn ended_early(v: CursorView) -> bool {
    match v.expected_len {
        Some(len) => v.offset < len,
        None => false,
    }
}

/// The `Range` header of the next request: none at the start, else from
/// the offset reached on.
pub open spec fn range_header_of(v: CursorView) -> Option<Seq<char>> {
    if v.offset > 0 {
        Some("bytes="@ + decimal(v.offset as nat) + "-"@)
    } else {
        None
    }
}

/// The check of a resumed response's `Content-Range` (missing, unreadable
/// as text, or its text).
pub open spec fn range_check_of(v: CursorView, header: Option<Result<Seq<char>, Seq<char>>>) -> Result<(), Seq<char>> {
    match header {
        None => Err("resume response is missing Content-Range"@),
        Some(Err(e)) => Err("invalid Content-Range: "@ + e),
        Some(Ok(text)) => match content_range_of(text) {
            None => Err("unsupported Content-Range: "@ + text),
            Some((start, total)) => if start != v.offset {
                Err(
                    "resume started at byte "@ + decimal(start as nat) + ", expected "@ + decimal(
                        v.offset as nat,
                    ),
                )
            } else {
                match (v.expected_len, total) {
                    (Some(e), Some(t)) => if e != t {
                        Err(
                            "resumed download size changed from "@ + decimal(e as nat) + " to "@
                                + decimal(t as nat),
                        )
                    } else {
                        Ok(())
                    },
                    _ => Ok(()),
                }
            },
        },
    }
}

/// A response as the cursor judges it: it must succeed; a resumed one must
/// be partial content starting at the offset reached; the first response
/// tells the length when it was not known.
pub open spec fn accept_of(
    v: CursorView,
    url: Seq<char>,
    success: bool,
    partial: bool,
    status: Seq<char>,
    content_length: Option<u64>,
    header: Option<Result<Seq<char>, Seq<char>>>,
) -> (CursorView, Result<(), Seq<char>>) {
    if !success {
        (v, Err("HTTP "@ + status + " while requesting "@ + url))
    } else if v.offset > 0 && !partial {
        (
            v,
            Err(
                "server did not honor resume request at byte "@ + decimal(v.offset as nat) + " for "@
                    + url,
            ),
        )
    } else {
        let w = if v.offset == 0 && v.expected_len is None {
            CursorView { expected_len: content_length, ..v }
        } else {
            v
        };
        if v.offset > 0 {
            (w, range_check_of(w, header))
        } else {
            (w, Ok(()))
        }
    }
}

/// Whether to reconnect after `reason`: not when everything arrived
/// (`Ok(false)`), never once the budget is spent; else one reconnection is
/// used (`Ok(true)`).
pub open spec fn reconnect_of(v: CursorView, reason: Seq<char>) -> (CursorView, Result<bool, Seq<char>>) {
    if cursor_finished(v) {
        (v, Ok(false))
    } else if v.reconnects_left == 0 {
        (
            v,
            Err(
                "download interrupted at byte "@ + decimal(v.offset as nat)
                    + " and resume retries are exhausted: "@ + reason,
            ),
        )
    } else {
        (CursorView { reconnects_left: (v.reconnects_left - 1) as nat, ..v }, Ok(true))
    }
}

/// A `Content-Range` header as values.
pub open spec fn header_view(h: Option<Result<String, String>>) -> Option<Result<Seq<char>, Seq<char>>> {
    match h {
        None => None,
        Some(Ok(t)) => Some(Ok(t@)),
        Some(Err(e)) => Some(Err(e@)),
    }
}

/// A check's outcome as values.
pub open spec fn outcome_view(r: Result<(), String>) -> Result<(), Seq<char>> {
    match r {
        Ok(()) => Ok(()),
        Err(e) => Err(e@),
    }
}

impl ResumeCursor {
    /// A download not yet started, of `expected_len` bytes when known,
    /// allowed `reconnects` reconnections.
    pub fn new(expected_len: Option<u64>, reconnects: usize) -> (r: Self)
        ensures
            r@ == (CursorView { offset: 0, expected_len, reconnects_left: reconnects as nat }),
    {
        ResumeCursor { offset: 0, expected_len, reconnects_left: reconnects }
    }

    /// The bytes received so far.
    pub fn offset(&self) -> (r: u64)
        ensures
            r == self@.offset,
    {
        self.offset
    }

    /// The length of the download, when known.
    pub fn expected_len(&self) -> (r: Option<u64>)
        ensures
            r == self@.expected_len,
    {
        self.expected_len
    }

    /// Whether everything expected has been received.
    pub fn finished(&self) -> (r: bool)
        ensures
            r == cursor_finished(self@),
    {
        match self.expected_len {
            Some(len) => self.offset >= len,
            None => false,
        }
    }

    /// Whether a body that ended now ended too early.
    pub fn ended_early(&self) -> (r: bool)
        ensures
            r == ended_early(self@),
    {
        match self.expected_len {
            Some(len) => self.offset < len,
            None => false,
        }
    }

    /// The `Range` header of the next request (see `range_header_of`).
    pub fn range_header(&self) -> (r: Option<String>)
        ensures
            match r {
                Some(h) => range_header_of(self@) == Some(h@),
                None => range_header_of(self@) is None,
            },
    {
        if self.offset > 0 {
            let mut h = owned("bytes=");
            push_decimal(&mut h, self.offset);
            push_str(&mut h, "-");
            Some(h)
        } else {
            None
        }
    }

    /// Checks a resumed response's `Content-Range` (see `range_check_of`).
    pub fn validate_content_range(&self, header: &Option<Result<String, String>>) -> (r: Result<(), String>)
        ensures
            outcome_view(r) == range_check_of(self@, header_view(*header)),
    {
        let text = match header {
            None => {
                return Err(owned("resume response is missing Content-Range"));
            },
            Some(Err(e)) => {
                let mut m = owned("invalid Content-Range: ");
                push_str(&mut m, e.as_str());
                return Err(m);
            },
            Some(Ok(t)) => t,
        };
        let (start, total) = match crate::installer::parse_content_range(text.as_str()) {
            None => {
                let mut m = owned("unsupported Content-Range: ");
                push_str(&mut m, text.as_str());
                return Err(m);
            },
            Some(p) => p,
        };
        if start != self.offset {
            let mut m = owned("resume started at byte ");
            push_decimal(&mut m, start);
            push_str(&mut m, ", expected ");
            push_decimal(&mut m, self.offset);
            return Err(m);
        }
        match (self.expected_len, total) {
            (Some(e), Some(t)) => if e != t {
                let mut m = owned("resumed download size changed from ");
                push_decimal(&mut m, e);
                push_str(&mut m, " to ");
                push_decimal(&mut m, t);
                Err(m)
            } else {
                Ok(())
            },
            _ => Ok(()),
        }
    }

    /// Judges a response (see `accept_of`): `success` and `partial` tell
    /// whether its status is a success and 206; `status` is the status as
    /// shown.
    pub fn accept_response(
        &mut self,
        url: &str,
        success: bool,
        partial: bool,
        status: &str,
        content_length: Option<u64>,
        header: &Option<Result<String, String>>,
    ) -> (r: Result<(), String>)
        ensures
            (final(self)@, outcome_view(r)) == accept_of(
                old(self)@,
                url@,
                success,
                partial,
                status@,
                content_length,
                header_view(*header),
            ),
    {
        if !success {
            let mut m = owned("HTTP ");
            push_str(&mut m, status);
            push_str(&mut m, " while requesting ");
            push_str(&mut m, url);
            return Err(m);
        }
        if self.offset > 0 && !partial {
            let mut m = owned("server did not honor resume request at byte ");
            push_decimal(&mut m, self.offset);
            push_str(&mut m, " for ");
            push_str(&mut m, url);
            return Err(m);
        }
        let unknown = match self.expected_len {
            Some(_) => false,
            None => true,
        };
        if self.offset == 0 && unknown {
            self.expected_len = content_length;
        }
        if self.offset > 0 {
            return self.validate_content_range(header);
        }
        Ok(())
    }

    /// Counts `count` more bytes received.
    pub fn advance(&mut self, count: u64)
        requires
            old(self)@.offset + count <= u64::MAX,
        ensures
            final(self)@ == (CursorView { offset: (old(self)@.offset + count) as u64, ..old(self)@ }),
    {
        self.offset = self.offset + count;
    }

    /// Decides on a reconnection after `reason` (see `reconnect_of`).
    pub fn reconnect(&mut self, reason: &str) -> (r: Result<bool, String>)
        ensures
            (final(self)@, match r {
                Ok(b) => Ok(b),
                Err(e) => Err(e@),
            }) == reconnect_of(old(self)@, reason@),
    {
        if self.finished() {
            return Ok(false);
        }
        if self.reconnects_left == 0 {
            let mut m = owned("download interrupted at byte ");
            push_decimal(&mut m, self.offset);
            push_str(&mut m, " and resume retries are exhausted: ");
            push_str(&mut m, reason);
            return Err(m);
        }
        self.reconnects_left = self.reconnects_left - 1;
        Ok(true)
    }
}

/// A resumed response is accepted only when its `Content-Range` starts at
/// the offset already received, so no byte is skipped or repeated; and
/// accepting a response never moves the offset.
pub proof fn lemma_resume_continues_at_offset(
    v: CursorView,
    url: Seq<char>,
    success: bool,
    partial: bool,
    status: Seq<char>,
    content_length: Option<u64>,
    header: Option<Result<Seq<char>, Seq<char>>>,
)
    ensures
        ({
            let (w, r) = accept_of(v, url, success, partial, status, content_length, header);
            &&& w.offset == v.offset
            &&& w.reconnects_left == v.reconnects_left
            &&& (r is Ok && v.offset > 0) ==> partial && (match header {
                Some(Ok(text)) => match content_range_of(text) {
                    Some((start, _)) => start == v.offset,
                    None => false,
                },
                _ => false,
            })
        }),
{
}

/// Every reconnection uses one from the budget: a cursor allowed `n`
/// reconnections reconnects at most `n` times.
pub proof fn lemma_reconnect_budget(v: CursorView, reason: Seq<char>)
    ensures
        ({
            let (w, r) = reconnect_of(v, reason);
            &&& w.offset == v.offset
            &&& (r == Ok::<bool, Seq<char>>(true) ==> v.reconnects_left > 0 && w.reconnects_left
                == v.reconnects_left - 1)
            &&& (r != Ok::<bool, Seq<char>>(true) ==> w == v)
        }),
{
}

} // verus!
