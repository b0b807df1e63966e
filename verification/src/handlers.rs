//! The handlers a responder runs for the demo calls: what each one answers
//! when it is polled, and what it does with the items a caller streams in.
use vstd::prelude::*;
use vstd::string::StringExecFns;
use vstd::utf8::{encode_utf8, is_ascii_chars, is_ascii_chars_encode_utf8};
use std::collections::VecDeque;
use crate::interop::{
    decode_chunk, decode_said, encode_count_item, encode_done, encode_heard, encode_tick,
};
use crate::message::{decoded, text_at, text_message, u32_at, u32_message};
use crate::models::stream::{ChatSaid, UploadChunk};
use crate::proto::encode_response;
use crate::status::{internal, invalid_argument, CallStatus, INTERNAL, INVALID_ARGUMENT};
use crate::text::{decimal, lemma_u32_decimal, push_decimal, to_uppercase, uppercase, utf8_len};
use crate::wire::{fits_u32, Limits};

verus! {

/// What a handler answers when it is polled.
#[derive(Debug)]
pub enum Step {
    /// Nothing to send yet.
    Pending,
    /// The one response of the call, which ends it.
    Respond(Vec<u8>),
    /// One more item of the stream.
    Item(Vec<u8>),
    /// The stream is complete.
    End,
    /// The call fails with this status.
    Fail(CallStatus),
}

/// One poll of a counter at `next` of `count`: the next value it sends,
/// or `None` for the end, and where it then stands.
pub open spec fn counter_step(next: u32, count: u32) -> (Option<u32>, u32) {
    if next >= count {
        (None, next)
    } else {
        (Some((next + 1) as u32), (next + 1) as u32)
    }
}

/// What `polls` polls of a counter at `next` of `count` send, in order.
pub open spec fn counter_run(next: u32, count: u32, polls: nat) -> Seq<Option<u32>>
    decreases polls,
{
    if polls == 0 {
        Seq::empty()
    } else {
        let (sent, after) = counter_step(next, count);
        seq![sent] + counter_run(after, count, (polls - 1) as nat)
    }
}

/// Counts from 1 up to `count`, one item per poll, then ends.
#[derive(Debug)]
pub struct Counter {
    pub next: u32,
    pub count: u32,
}

impl Counter {
    /// A counter that has sent nothing yet.
    pub fn new(count: u32) -> (counter: Counter)
        ensures
            counter.next == 0,
            counter.count == count,
    {
        Counter { next: 0, count }
    }

    /// The next item, `next + 1`, or the end once `count` items are out.
    pub fn poll(&mut self) -> (step: Step)
        ensures
            final(self).count == old(self).count,
            final(self).next == counter_step(old(self).next, old(self).count).1,
            match counter_step(old(self).next, old(self).count).0 {
                Some(value) => step matches Step::Item(body) && body@ == u32_message(value),
                None => step is End,
            },
    {
        if self.next >= self.count {
            return Step::End;
        }
        self.next = self.next + 1;
        Step::Item(encode_count_item(self.next))
    }
}

/// Answers once with a text it holds, then fails if polled again.
#[derive(Debug)]
pub struct Shout {
    text: Option<String>,
}

impl Shout {
    #[verifier::type_invariant]
    spec fn fits(&self) -> bool {
        self.text matches Some(t) ==> fits_u32(encode_utf8(t@).len())
    }

    /// The text still to be sent, if it has not been.
    pub closed spec fn pending(&self) -> Option<Seq<char>> {
        match self.text {
            Some(t) => Some(t@),
            None => None,
        }
    }

    /// A handler that will answer with `text`.
    pub fn new(text: String) -> (shout: Shout)
        requires
            fits_u32(encode_utf8(text@).len()),
        ensures
            shout.pending() == Some(text@),
    {
        Shout { text: Some(text) }
    }

    /// The response carrying the held text, the first time; an `INTERNAL`
    /// failure after that.
    pub fn poll(&mut self) -> (step: Step)
        ensures
            final(self).pending() is None,
            old(self).pending() matches Some(t) ==> (step matches Step::Respond(body) && body@ == text_message(t)),
            old(self).pending() is None ==> (step matches Step::Fail(status) && status.code == INTERNAL
                && status.message@ == "polled after completion"@),
    {
        proof {
            use_type_invariant(&*self);
        }
        let step = match &self.text {
            Some(text) => Step::Respond(encode_response(text.as_str())),
            None => Step::Fail(internal("polled after completion")),
        };
        self.text = None;
        step
    }
}

/// The summary an upload answers with: its number of chunks and of bytes.
pub open spec fn upload_summary(chunks: u32, bytes: u32) -> Seq<char> {
    decimal(chunks as nat) + " chunks, "@ + decimal(bytes as nat) + " bytes"@
}

/// The byte size a chunk declares, read from its body.
pub open spec fn chunk_size(body: Seq<u8>) -> u32 {
    u32_at(decoded(UploadChunk::kinds(), body, Limits::spec_unlimited()), 0)
}

/// Tallies the chunks a caller uploads, and answers with a summary once the
/// caller has closed its side.
#[derive(Debug)]
pub struct Upload {
    pub bytes: u32,
    pub chunks: u32,
    pub closed: bool,
}

impl Upload {
    /// An upload that has received nothing.
    pub fn new() -> (upload: Upload)
        ensures
            upload.bytes == 0,
            upload.chunks == 0,
            !upload.closed,
    {
        Upload { bytes: 0, chunks: 0, closed: false }
    }

    /// Nothing while the caller still sends; the summary once it has closed.
    pub fn poll(&self) -> (step: Step)
        ensures
            !self.closed ==> step is Pending,
            self.closed ==> (step matches Step::Respond(body)
                && body@ == text_message(upload_summary(self.chunks, self.bytes))),
    {
        if !self.closed {
            return Step::Pending;
        }
        let mut summary = String::new();
        push_decimal(&mut summary, self.chunks as u64);
        summary.append(" chunks, ");
        push_decimal(&mut summary, self.bytes as u64);
        summary.append(" bytes");
        proof {
            let s = upload_summary(self.chunks, self.bytes);
            assert(summary@ =~= s);
            reveal_strlit(" chunks, ");
            reveal_strlit(" bytes");
            lemma_u32_decimal(self.chunks);
            lemma_u32_decimal(self.bytes);
            assert(is_ascii_chars(s)) by {
                let a = decimal(self.chunks as nat);
                let b = " chunks, "@;
                let c = decimal(self.bytes as nat);
                let d = " bytes"@;
                assert forall|i| 0 <= i < s.len() implies '\0' <= #[trigger] s[i] <= '\u{7f}' by {
                    if i < a.len() {
                        assert(s[i] == a[i]);
                    } else if i < a.len() + b.len() {
                        assert(s[i] == b[i - a.len()]);
                    } else if i < a.len() + b.len() + c.len() {
                        assert(s[i] == c[i - a.len() - b.len()]);
                    } else {
                        assert(s[i] == d[i - a.len() - b.len() - c.len()]);
                    }
                }
            }
            is_ascii_chars_encode_utf8(s);
        }
        Step::Respond(encode_done(summary.as_str()))
    }

    /// Takes one chunk: an empty one is refused with `INVALID_ARGUMENT`;
    /// another adds one to the chunks and its size to the bytes, each with
    /// the wrap-around of the release build.
    pub fn item(&mut self, body: &[u8]) -> (r: Result<(), CallStatus>)
        ensures
            final(self).closed == old(self).closed,
            chunk_size(body@) == 0 <==> r is Err,
            r matches Err(status) ==> {
                &&& status.code == INVALID_ARGUMENT
                &&& status.message@ == "an empty chunk is not accepted"@
                &&& final(self).chunks == old(self).chunks
                &&& final(self).bytes == old(self).bytes
            },
            r is Ok ==> {
                &&& final(self).chunks == (old(self).chunks + 1) % 0x1_0000_0000
                &&& final(self).bytes == (old(self).bytes + chunk_size(body@)) % 0x1_0000_0000
            },
    {
        let size = decode_chunk(body);
        if size == 0 {
            return Err(invalid_argument("an empty chunk is not accepted"));
        }
        self.chunks = self.chunks.wrapping_add(1);
        self.bytes = self.bytes.wrapping_add(size);
        Ok(())
    }

    /// The caller will send no more chunks.
    pub fn end_of_stream(&mut self)
        ensures
            final(self).closed,
            final(self).chunks == old(self).chunks,
            final(self).bytes == old(self).bytes,
    {
        self.closed = true;
    }
}

/// The text of a line said into a chat, read from its body.
pub open spec fn said_text(body: Seq<u8>) -> Seq<char> {
    text_at(decoded(ChatSaid::kinds(), body, Limits::spec_unlimited()), 0)
}

/// Whether the reply to a line said into a chat can be written: its
/// upper-case form fits a wire length.
pub open spec fn chat_reply_fits(body: Seq<u8>) -> bool {
    fits_u32(encode_utf8(uppercase(said_text(body))).len())
}

/// Answers each line a caller says with its upper-case form, in order, and
/// ends once the caller has closed its side and every answer is out.
#[derive(Debug)]
pub struct Chat {
    replies: VecDeque<Vec<u8>>,
    closed: bool,
}

impl Chat {
    /// The bodies still to be sent, oldest first.
    pub closed spec fn queued(&self) -> Seq<Seq<u8>> {
        self.replies@.map_values(|reply: Vec<u8>| reply@)
    }

    /// Whether the caller has closed its side.
    pub closed spec fn is_closed(&self) -> bool {
        self.closed
    }

    /// A chat with nothing said yet.
    pub fn new() -> (chat: Chat)
        ensures
            chat.queued() == Seq::<Seq<u8>>::empty(),
            !chat.is_closed(),
    {
        Chat { replies: VecDeque::new(), closed: false }
    }

    /// The oldest queued answer; else the end once the caller has closed;
    /// else nothing yet.
    pub fn poll(&mut self) -> (step: Step)
        ensures
            final(self).is_closed() == old(self).is_closed(),
            old(self).queued().len() > 0 ==> {
                &&& step matches Step::Item(body) && body@ == old(self).queued()[0]
                &&& final(self).queued() == old(self).queued().drop_first()
            },
            old(self).queued().len() == 0 ==> {
                &&& final(self).queued() == old(self).queued()
                &&& old(self).is_closed() ==> step is End
                &&& !old(self).is_closed() ==> step is Pending
            },
    {
        match self.replies.pop_front() {
            Some(reply) => {
                assert(self.queued() =~= old(self).queued().drop_first());
                Step::Item(reply)
            },
            None => {
                if self.closed {
                    Step::End
                } else {
                    Step::Pending
                }
            },
        }
    }

    /// Queues the upper-case form of the line said in `body`.
    pub fn item(&mut self, body: &[u8]) -> (r: Result<(), CallStatus>)
        requires
            chat_reply_fits(body@),
        ensures
            r is Ok,
            final(self).is_closed() == old(self).is_closed(),
            final(self).queued() == old(self).queued().push(text_message(uppercase(said_text(body@)))),
    {
        let line = decode_said(body);
        let upper = to_uppercase(line.as_str());
        let reply = encode_heard(upper.as_str());
        self.replies.push_back(reply);
        assert(self.queued() =~= old(self).queued().push(text_message(uppercase(said_text(body@)))));
        Ok(())
    }

    /// Takes one line when its answer can be written, as `item` does;
    /// `None`, with nothing changed, when it cannot.
    pub fn checked_item(&mut self, body: &[u8]) -> (r: Option<Result<(), CallStatus>>)
        ensures
            r is None <==> !chat_reply_fits(body@),
            r is None ==> final(self).queued() == old(self).queued()
                && final(self).is_closed() == old(self).is_closed(),
            r is Some ==> {
                &&& r matches Some(inner) && inner is Ok
                &&& final(self).is_closed() == old(self).is_closed()
                &&& final(self).queued() == old(self).queued().push(text_message(uppercase(said_text(body@))))
            },
    {
        let line = decode_said(body);
        let upper = to_uppercase(line.as_str());
        if utf8_len(upper.as_str()) > 0xFFFF_FFFF {
            return None;
        }
        Some(self.item(body))
    }

    /// The caller will say no more.
    pub fn end_of_stream(&mut self)
        ensures
            final(self).is_closed(),
            final(self).queued() == old(self).queued(),
    {
        self.closed = true;
    }
}

/// Sends 1, 2, 3, ... one tick per poll, for as long as the caller grants
/// credit.
#[derive(Debug)]
pub struct Ticks {
    pub next: u32,
}

impl Ticks {
    /// Ticks that have sent nothing yet.
    pub fn new() -> (ticks: Ticks)
        ensures
            ticks.next == 0,
    {
        Ticks { next: 0 }
    }

    /// The next tick, `next + 1`, with the wrap-around of the release build.
    pub fn poll(&mut self) -> (step: Step)
        ensures
            final(self).next == (old(self).next + 1) % 0x1_0000_0000,
            step matches Step::Item(body) && body@ == u32_message(final(self).next),
    {
        self.next = self.next.wrapping_add(1);
        Step::Item(encode_tick(self.next))
    }
}

} // verus!
