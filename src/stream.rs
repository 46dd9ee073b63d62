//! Translation of the local model server's streamed answer (newline-delimited
//! JSON objects, possibly split anywhere across reads) into canonical
//! server-sent events.
use vstd::prelude::*;
use vstd::string::*;
use crate::models::{
    count_or_zero, ChatCompletionChunk, ChunkChoice, Delta, OllamaStreamChunk, Usage,
};

verus! {

/// The newline byte that ends each upstream line.
pub const NEWLINE: u8 = 10;

/// Bytes that a blank line may consist of.
pub open spec fn is_space(b: u8) -> bool {
    b == 32 || b == 9 || b == 13 || b == 11 || b == 12
}

/// A line holding nothing but white space (or nothing at all).
pub open spec fn is_blank(s: Seq<u8>) -> bool {
    forall|i: int| 0 <= i < s.len() ==> is_space(#[trigger] s[i])
}

/// `lines` with `line` added at the end unless it is blank.
pub open spec fn keep_line(lines: Seq<Seq<u8>>, line: Seq<u8>) -> Seq<Seq<u8>> {
    if is_blank(line) {
        lines
    } else {
        lines.push(line)
    }
}

/// Reading `data` after the partial line `pending`: the complete non-blank
/// lines found (without their newline), and the partial line left at the end.
pub open spec fn scan_lines(pending: Seq<u8>, data: Seq<u8>) -> (Seq<Seq<u8>>, Seq<u8>)
    decreases data.len(),
{
    if data.len() == 0 {
        (Seq::empty(), pending)
    } else {
        let prev = scan_lines(pending, data.drop_last());
        if data.last() == NEWLINE {
            (keep_line(prev.0, prev.1), Seq::empty())
        } else {
            (prev.0, prev.1.push(data.last()))
        }
    }
}

pub open spec fn views_of(lines: Seq<Vec<u8>>) -> Seq<Seq<u8>> {
    lines.map_values(|l: Vec<u8>| l@)
}

fn is_blank_line(line: &Vec<u8>) -> (r: bool)
    ensures
        r == is_blank(line@),
{
    let mut i: usize = 0;
    while i < line.len()
        invariant
            0 <= i <= line@.len(),
            forall|j: int| 0 <= j < i ==> is_space(#[trigger] line@[j]),
        decreases line@.len() - i,
    {
        let b = line[i];
        if !(b == 32 || b == 9 || b == 13 || b == 11 || b == 12) {
            return false;
        }
        i = i + 1;
    }
    true
}

/// Holds the unfinished last line of an upstream byte stream between reads.
pub struct LineBuffer {
    pending: Vec<u8>,
}

impl LineBuffer {
    /// The bytes of the line that has begun but not yet ended.
    pub closed spec fn pending(&self) -> Seq<u8> {
        self.pending@
    }

    pub fn new() -> (r: LineBuffer)
        ensures
            r.pending() == Seq::<u8>::empty(),
    {
        LineBuffer { pending: Vec::new() }
    }

    /// Takes the next read of the stream and returns the lines it completes,
    /// blank ones left out; a line cut by the end of the read is kept for the
    /// next one.
    pub fn push(&mut self, data: &[u8]) -> (lines: Vec<Vec<u8>>)
        ensures
            views_of(lines@) == scan_lines(old(self).pending(), data@).0,
            final(self).pending() == scan_lines(old(self).pending(), data@).1,
    {
        let mut lines: Vec<Vec<u8>> = Vec::new();
        let mut i: usize = 0;
        proof {
            assert(data@.take(0) =~= Seq::<u8>::empty());
            assert(views_of(lines@) =~= Seq::<Seq<u8>>::empty());
        }
        while i < data.len()
            invariant
                0 <= i <= data@.len(),
                (views_of(lines@), self.pending@) == scan_lines(
                    old(self).pending@,
                    data@.take(i as int),
                ),
            decreases data@.len() - i,
        {
            let b = data[i];
            proof {
                assert(data@.take(i + 1).drop_last() =~= data@.take(i as int));
                assert(data@.take(i + 1).last() == b);
            }
            if b == NEWLINE {
                let mut line: Vec<u8> = Vec::new();
                core::mem::swap(&mut line, &mut self.pending);
                if !is_blank_line(&line) {
                    let ghost before = lines@;
                    lines.push(line);
                    proof {
                        assert(views_of(lines@) =~= views_of(before).push(line@));
                    }
                }
            } else {
                self.pending.push(b);
            }
            i = i + 1;
        }
        proof {
            assert(data@.take(data@.len() as int) =~= data@);
        }
        lines
    }

    /// At the end of the stream: the last line if it did not end with a
    /// newline and is not blank. The buffer is empty afterwards.
    pub fn finish(&mut self) -> (r: Option<Vec<u8>>)
        ensures
            final(self).pending() == Seq::<u8>::empty(),
            r is None <==> is_blank(old(self).pending()),
            r is Some ==> r->0@ == old(self).pending(),
    {
        let mut line: Vec<u8> = Vec::new();
        core::mem::swap(&mut line, &mut self.pending);
        if is_blank_line(&line) {
            None
        } else {
            Some(line)
        }
    }
}

/// The frame that ends every translated stream.
pub open spec fn done_frame_text() -> Seq<char> {
    "data: [DONE]\n\n"@
}

/// Frames a JSON payload as one server-sent event: `data: <json>` and a
/// blank line.
pub fn sse_frame(json: &str) -> (r: String)
    ensures
        r@ == "data: "@ + json@ + "\n\n"@,
{
    let s = String::from_str("data: ");
    let s = s.concat(json);
    s.concat("\n\n")
}

/// The terminating frame `data: [DONE]` and a blank line.
pub fn done_frame() -> (r: String)
    ensures
        r@ == done_frame_text(),
{
    String::from_str("data: [DONE]\n\n")
}

/// An upstream chunk that carries nothing: no content and not the last.
pub open spec fn is_suppressed(c: OllamaStreamChunk) -> bool {
    c.message.content@.len() == 0 && !c.done
}

/// `out` is the canonical chunk for upstream chunk `c` in the stream with
/// the given id, creation time and model.
pub open spec fn translates_to(
    out: ChatCompletionChunk,
    id: Seq<char>,
    created: u64,
    model: Seq<char>,
    c: OllamaStreamChunk,
) -> bool {
    &&& out.id@ == id
    &&& out.created == created
    &&& out.model@ == model
    &&& out.object@ == "chat.completion.chunk"@
    &&& out.choices@.len() == 1
    &&& out.choices@[0].index == 0
    &&& out.choices@[0].delta.role is None
    &&& out.choices@[0].delta.content@ == c.message.content@
    &&& (c.done <==> out.choices@[0].finish_reason is Some)
    &&& (c.done ==> out.choices@[0].finish_reason->0@ == "stop"@)
    &&& (c.done <==> out.usage is Some)
    &&& (c.done ==> {
        &&& out.usage->0.prompt_tokens == count_or_zero(c.prompt_eval_count)
        &&& out.usage->0.completion_tokens == count_or_zero(c.eval_count)
        &&& out.usage->0.total_tokens == out.usage->0.prompt_tokens
            + out.usage->0.completion_tokens
    })
}

/// The kind of a frame sent to the client.
pub enum FrameKind {
    /// A chunk, with or without `finish_reason` `stop`.
    Chunk { stop: bool },
    /// The terminator `data: [DONE]`.
    Done,
}

/// The number of chunk frames in `s` that carry `stop`.
pub open spec fn stop_count(s: Seq<FrameKind>) -> nat
    decreases s.len(),
{
    if s.len() == 0 {
        0
    } else {
        stop_count(s.drop_last()) + if s.last() == (FrameKind::Chunk { stop: true }) {
            1nat
        } else {
            0nat
        }
    }
}

/// One upstream stream being translated. All chunks it produces share its
/// id, creation time and model; once closed it produces nothing more.
/// `sent` records the frames produced so far and `done_chunks` how many
/// upstream chunks reported that the answer was done.
pub struct StreamTranslator {
    pub id: String,
    pub created: u64,
    pub model: String,
    pub lines: LineBuffer,
    pub finished: bool,
    pub sent: Ghost<Seq<FrameKind>>,
    pub done_chunks: Ghost<nat>,
}

impl StreamTranslator {
    pub open spec fn is_finished(&self) -> bool {
        self.finished
    }

    /// The terminator has been sent exactly when the stream is finished, and
    /// then as the last frame; every other frame is a chunk; and the chunks
    /// carry `stop` as often as upstream reported done.
    pub open spec fn wf(&self) -> bool {
        &&& (self.finished <==> (self.sent@.len() > 0 && self.sent@.last() == FrameKind::Done))
        &&& forall|i: int| 0 <= i < self.sent@.len() - 1 ==> (#[trigger] self.sent@[i]) is Chunk
        &&& stop_count(self.sent@) == self.done_chunks@
    }

    pub open spec fn pending(&self) -> Seq<u8> {
        self.lines.pending()
    }

    pub fn new(id: String, created: u64, model: String) -> (r: StreamTranslator)
        ensures
            r.id == id,
            r.created == created,
            r.model == model,
            r.wf(),
            !r.is_finished(),
            r.pending() == Seq::<u8>::empty(),
            r.sent@ == Seq::<FrameKind>::empty(),
            r.done_chunks@ == 0,
    {
        StreamTranslator {
            id,
            created,
            model,
            lines: LineBuffer::new(),
            finished: false,
            sent: Ghost(Seq::empty()),
            done_chunks: Ghost(0),
        }
    }

    /// The canonical chunk for one upstream chunk, or `None` where the
    /// upstream chunk is empty and not the last.
    pub fn translate(&self, chunk: OllamaStreamChunk) -> (r: Option<ChatCompletionChunk>)
        ensures
            r is None <==> is_suppressed(chunk),
            r is Some ==> translates_to(r->0, self.id@, self.created, self.model@, chunk),
    {
        if chunk.message.content.as_str().is_empty() && !chunk.done {
            return None;
        }
        let done = chunk.done;
        let finish_reason = if done {
            Some(String::from_str("stop"))
        } else {
            None
        };
        let usage = if done {
            let p = match chunk.prompt_eval_count {
                Some(n) => n,
                None => 0,
            };
            let c = match chunk.eval_count {
                Some(n) => n,
                None => 0,
            };
            Some(Usage::new(p, c))
        } else {
            None
        };
        let choice = ChunkChoice {
            index: 0,
            delta: Delta { role: None, content: chunk.message.content },
            finish_reason,
        };
        let choices = vec![choice];
        Some(
            ChatCompletionChunk {
                id: self.id.clone(),
                object: String::from_str("chat.completion.chunk"),
                created: self.created,
                model: self.model.clone(),
                choices,
                usage,
            },
        )
    }

    /// Takes the next read of the upstream stream and returns its complete
    /// non-blank lines, for the caller to parse.
    pub fn on_bytes(&mut self, data: &[u8]) -> (lines: Vec<Vec<u8>>)
        requires
            old(self).wf(),
            !old(self).is_finished(),
        ensures
            views_of(lines@) == scan_lines(old(self).pending(), data@).0,
            final(self).pending() == scan_lines(old(self).pending(), data@).1,
            final(self).wf(),
            !final(self).is_finished(),
            final(self).sent == old(self).sent,
            final(self).done_chunks == old(self).done_chunks,
            final(self).id == old(self).id,
            final(self).created == old(self).created,
            final(self).model == old(self).model,
    {
        self.lines.push(data)
    }

    /// Takes one parsed upstream line and returns the chunk to send, if any.
    pub fn on_chunk(&mut self, chunk: OllamaStreamChunk) -> (r: Option<ChatCompletionChunk>)
        requires
            old(self).wf(),
            !old(self).is_finished(),
        ensures
            final(self).wf(),
            !final(self).is_finished(),
            final(self).id == old(self).id,
            final(self).created == old(self).created,
            final(self).model == old(self).model,
            final(self).pending() == old(self).pending(),
            r is None <==> is_suppressed(chunk),
            r is Some ==> translates_to(r->0, old(self).id@, old(self).created, old(self).model@, chunk),
            final(self).sent@ == if r is Some {
                old(self).sent@.push(FrameKind::Chunk { stop: chunk.done })
            } else {
                old(self).sent@
            },
            final(self).done_chunks@ == old(self).done_chunks@ + if chunk.done {
                1nat
            } else {
                0nat
            },
    {
        let done = chunk.done;
        let r = self.translate(chunk);
        let ghost before = self.sent@;
        if r.is_some() {
            self.sent = Ghost(self.sent@.push(FrameKind::Chunk { stop: done }));
            proof {
                assert(self.sent@.drop_last() =~= before);
            }
        }
        if done {
            self.done_chunks = Ghost(self.done_chunks@ + 1);
        }
        r
    }

    /// The upstream stream has ended, whether it finished or failed: returns
    /// its unfinished last line, if any and not blank, for the caller to
    /// parse and translate before closing.
    pub fn end_of_input(&mut self) -> (r: Option<Vec<u8>>)
        requires
            old(self).wf(),
            !old(self).is_finished(),
        ensures
            final(self).wf(),
            !final(self).is_finished(),
            final(self).sent == old(self).sent,
            final(self).done_chunks == old(self).done_chunks,
            final(self).pending() == Seq::<u8>::empty(),
            final(self).id == old(self).id,
            final(self).created == old(self).created,
            final(self).model == old(self).model,
            r is None <==> is_blank(old(self).pending()),
            r is Some ==> r->0@ == old(self).pending(),
    {
        self.lines.finish()
    }

    /// Closes the stream: returns the terminating frame, after which nothing
    /// can be emitted.
    pub fn close(&mut self) -> (r: String)
        requires
            old(self).wf(),
            !old(self).is_finished(),
        ensures
            final(self).wf(),
            final(self).is_finished(),
            final(self).sent@ == old(self).sent@.push(FrameKind::Done),
            final(self).done_chunks == old(self).done_chunks,
            r@ == done_frame_text(),
    {
        let ghost before = self.sent@;
        self.finished = true;
        self.sent = Ghost(self.sent@.push(FrameKind::Done));
        proof {
            assert(self.sent@.drop_last() =~= before);
            assert forall|i: int| 0 <= i < self.sent@.len() - 1 implies (#[trigger] self.sent@[i]) is Chunk by {
                assert(self.sent@[i] == before[i]);
                if before.len() > 0 {
                    assert(before.last() != FrameKind::Done);
                }
            }
        }
        done_frame()
    }
}

/// A completed stream ends with the terminator, which is sent once; every
/// frame before it is a chunk; and those chunks carry `finish_reason` `stop`
/// exactly as many times as upstream reported that the answer was done:
/// once, for an upstream that reports it once.
pub proof fn lemma_completed_stream(t: &StreamTranslator)
    requires
        t.wf(),
        t.is_finished(),
    ensures
        t.sent@.len() >= 1,
        t.sent@.last() == FrameKind::Done,
        forall|i: int| 0 <= i < t.sent@.len() - 1 ==> (#[trigger] t.sent@[i]) is Chunk,
        stop_count(t.sent@) == t.done_chunks@,
{
}

/// The bytes of `data: `.
pub open spec fn data_prefix() -> Seq<u8> {
    seq![100u8, 97u8, 116u8, 97u8, 58u8, 32u8]
}

/// The bytes of `[DONE]`.
pub open spec fn done_marker() -> Seq<u8> {
    seq![91u8, 68u8, 79u8, 78u8, 69u8, 93u8]
}

/// The payload of one complete `data: <payload>` frame ending in a blank
/// line, unless it is the terminating `[DONE]`.
pub open spec fn payload_of(f: Seq<u8>) -> Option<Seq<u8>> {
    if f.len() >= 8 && f.subrange(0, 6) == data_prefix() && f[f.len() - 2] == NEWLINE && f[f.len()
        - 1] == NEWLINE {
        let p = f.subrange(6, f.len() - 2);
        if p == done_marker() {
            None
        } else {
            Some(p)
        }
    } else {
        None
    }
}

/// The payload of an outgoing frame, for reading the usage it may carry;
/// `None` for the terminator and for anything that is not one whole frame.
pub fn sse_payload(frame: &[u8]) -> (r: Option<Vec<u8>>)
    ensures
        match payload_of(frame@) {
            None => r is None,
            Some(p) => r is Some && r->0@ == p,
        },
{
    let n = frame.len();
    if n < 8 {
        return None;
    }
    let prefix_ok = frame[0] == 100 && frame[1] == 97 && frame[2] == 116 && frame[3] == 97
        && frame[4] == 58 && frame[5] == 32;
    proof {
        let s = frame@.subrange(0, 6);
        if s == data_prefix() {
            assert(s[0] == frame@[0] && s[1] == frame@[1] && s[2] == frame@[2]);
            assert(s[3] == frame@[3] && s[4] == frame@[4] && s[5] == frame@[5]);
        }
        if prefix_ok {
            assert(s =~= data_prefix());
        }
    }
    if !prefix_ok || frame[n - 2] != NEWLINE || frame[n - 1] != NEWLINE {
        return None;
    }
    let mut p: Vec<u8> = Vec::new();
    let mut i: usize = 6;
    while i < n - 2
        invariant
            n == frame@.len(),
            n >= 8,
            6 <= i <= n - 2,
            p@ == frame@.subrange(6, i as int),
        decreases n - 2 - i,
    {
        p.push(frame[i]);
        proof {
            assert(p@ =~= frame@.subrange(6, i + 1));
        }
        i = i + 1;
    }
    let is_done = p.len() == 6 && p[0] == 91 && p[1] == 68 && p[2] == 79 && p[3] == 78 && p[4]
        == 69 && p[5] == 93;
    proof {
        if p@ == done_marker() {
            assert(p@[0] == 91 && p@[1] == 68 && p@[2] == 79 && p@[3] == 78 && p@[4] == 69 && p@[5] == 93);
        }
        if is_done {
            assert(p@ =~= done_marker());
        }
    }
    if is_done {
        None
    } else {
        Some(p)
    }
}

} // verus!
