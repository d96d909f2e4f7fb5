//! The checkpoint between guarded values and the outside world: a writer that
//! frames a record as bytes only after the record's policy has accepted the
//! writer's context, and a reader that splits incoming bytes into records,
//! one per line.
use vstd::prelude::*;

use crate::filter::Context;
use crate::generic_policied::GPolicied;
use crate::policy::{PolicyError, policy_check};
use vstd::utf8::encode_utf8;

verus! {

/// A guarded string.
pub type PoliciedString = GPolicied<String>;

/// The byte that ends each record.
pub const NEWLINE: u8 = 10;

/// A copy of the guarded string, released for `context` if its policy allows.
pub fn export_and_release(context: &Context, s: &PoliciedString) -> (r: Result<String, PolicyError>)
    ensures
        match policy_check(s.policy_model(), *context) {
            Ok(_) => r is Ok && r->Ok_0@ == s.value()@,
            Err(e) => r == Err::<String, PolicyError>(e),
        },
{
    match s.export_check_borrow(context) {
        Ok(released) => Ok(released.clone()),
        Err(pe) => Err(pe),
    }
}

/// Appends the bytes of `src` to `dst`.
fn append_bytes(dst: &mut Vec<u8>, src: &[u8])
    ensures
        final(dst)@ == old(dst)@ + src@,
{
    let mut i: usize = 0;
    while i < src.len()
        invariant
            0 <= i <= src@.len(),
            dst@ == old(dst)@ + src@.subrange(0, i as int),
        decreases src@.len() - i,
    {
        dst.push(src[i]);
        i = i + 1;
        assert(dst@ =~= old(dst)@ + src@.subrange(0, i as int));
    }
    assert(src@.subrange(0, src@.len() as int) =~= src@);
}

/// Frames released records for a destination described by a context. Each
/// record is written as its UTF-8 bytes and a newline, and only after the
/// record's policy has accepted the context. The framed bytes wait in the
/// writer until the owner takes them to the destination.
pub struct BeaverBufWriter {
    ctxt: Context,
    pending: Vec<u8>,
}

impl BeaverBufWriter {
    /// The context of the destination.
    pub closed spec fn context(&self) -> Context {
        self.ctxt
    }

    /// The framed bytes not yet taken.
    pub closed spec fn pending(&self) -> Seq<u8> {
        self.pending@
    }

    /// A writer for the destination that `context` describes, with nothing
    /// framed yet.
    pub fn safe_create(context: Context) -> (r: Self)
        ensures
            r.context() == context,
            r.pending() == Seq::<u8>::empty(),
    {
        BeaverBufWriter { ctxt: context, pending: Vec::new() }
    }

    /// The context of the destination.
    pub fn get_context(&self) -> (r: &Context)
        ensures
            *r == self.context(),
    {
        &self.ctxt
    }

    /// Frames the string `buf` if its policy accepts the writer's context,
    /// and returns how many bytes were framed. On refusal nothing is framed.
    pub fn safe_write_serialized(&mut self, buf: &PoliciedString) -> (r: Result<usize, PolicyError>)
        ensures
            final(self).context() == old(self).context(),
            match policy_check(buf.policy_model(), old(self).context()) {
                Ok(_) => {
                    let framed = encode_utf8(buf.value()@).push(NEWLINE);
                    &&& final(self).pending() == old(self).pending() + framed
                    &&& r == Ok::<usize, PolicyError>(framed.len() as usize)
                },
                Err(e) => r == Err::<usize, PolicyError>(e) && final(self).pending() == old(self).pending(),
            },
    {
        match buf.export_check_borrow(&self.ctxt) {
            Ok(s) => {
                let bytes = s.as_str().as_bytes();
                let before = self.pending.len();
                append_bytes(&mut self.pending, bytes);
                self.pending.push(NEWLINE);
                let ghost framed = encode_utf8(buf.value()@).push(NEWLINE);
                assert(self.pending@ =~= old(self).pending@ + framed);
                Ok(self.pending.len() - before)
            },
            Err(pe) => Err(pe),
        }
    }

    /// Frames the record `buf` as the text that `encode` makes of its value,
    /// if the record's policy accepts the writer's context; `encode` is called
    /// only then. Returns how many bytes were framed.
    pub fn safe_write_json<T, F: Fn(&T) -> String>(&mut self, buf: &GPolicied<T>, encode: F) -> (r: Result<usize, PolicyError>)
        requires
            forall|v: &T| encode.requires((v,)),
        ensures
            final(self).context() == old(self).context(),
            match policy_check(buf.policy_model(), old(self).context()) {
                Ok(_) => exists|text: String|
                    {
                        let framed = encode_utf8(text@).push(NEWLINE);
                        &&& #[trigger] encode.ensures((&buf.value(),), text)
                        &&& final(self).pending() == old(self).pending() + framed
                        &&& r == Ok::<usize, PolicyError>(framed.len() as usize)
                    },
                Err(e) => r == Err::<usize, PolicyError>(e) && final(self).pending() == old(self).pending(),
            },
    {
        match buf.export_check_borrow(&self.ctxt) {
            Ok(value) => {
                let text = encode(value);
                let bytes = text.as_str().as_bytes();
                let before = self.pending.len();
                append_bytes(&mut self.pending, bytes);
                self.pending.push(NEWLINE);
                let ghost framed = encode_utf8(text@).push(NEWLINE);
                assert(self.pending@ =~= old(self).pending@ + framed);
                Ok(self.pending.len() - before)
            },
            Err(pe) => Err(pe),
        }
    }

    /// Hands over the framed bytes, in order, and empties the writer.
    pub fn take_pending(&mut self) -> (r: Vec<u8>)
        ensures
            r@ == old(self).pending(),
            final(self).pending() == Seq::<u8>::empty(),
            final(self).context() == old(self).context(),
    {
        let mut taken: Vec<u8> = Vec::new();
        std::mem::swap(&mut taken, &mut self.pending);
        taken
    }
}

/// Splits incoming bytes into records, one per line. Incoming data is not
/// policy-checked: what enters the program is taken as approved to be here.
pub struct BeaverBufReader {
    buffer: Vec<u8>,
}

impl BeaverBufReader {
    /// The bytes received and not yet handed out.
    pub closed spec fn buffered(&self) -> Seq<u8> {
        self.buffer@
    }

    /// A reader with nothing received yet.
    pub fn safe_create() -> (r: Self)
        ensures
            r.buffered() == Seq::<u8>::empty(),
    {
        BeaverBufReader { buffer: Vec::new() }
    }

    /// Receives `chunk`, which follows the bytes received before.
    pub fn feed(&mut self, chunk: &[u8])
        ensures
            final(self).buffered() == old(self).buffered() + chunk@,
    {
        append_bytes(&mut self.buffer, chunk);
    }

    /// The next complete line, without its newline, which is consumed with
    /// it; `None` while no newline has been received.
    pub fn next_line(&mut self) -> (r: Option<Vec<u8>>)
        ensures
            match r {
                Some(line) => {
                    let n = line@.len() as int;
                    &&& n < old(self).buffered().len()
                    &&& line@ == old(self).buffered().subrange(0, n)
                    &&& old(self).buffered()[n] == NEWLINE
                    &&& !line@.contains(NEWLINE)
                    &&& final(self).buffered() == old(self).buffered().subrange(
                        n + 1,
                        old(self).buffered().len() as int,
                    )
                },
                None => !old(self).buffered().contains(NEWLINE) && final(self).buffered()
                    == old(self).buffered(),
            },
    {
        let mut j: usize = 0;
        while j < self.buffer.len()
            invariant
                0 <= j <= self.buffer@.len(),
                self.buffer@ == old(self).buffer@,
                forall|k: int| 0 <= k < j ==> self.buffer@[k] != NEWLINE,
            decreases self.buffer@.len() - j,
        {
            if self.buffer[j] == NEWLINE {
                let mut line: Vec<u8> = Vec::new();
                append_bytes(&mut line, self.buffer.as_slice().split_at(j).0);
                let mut rest: Vec<u8> = Vec::new();
                append_bytes(&mut rest, self.buffer.as_slice().split_at(j + 1).1);
                self.buffer = rest;
                assert(line@ =~= old(self).buffer@.subrange(0, j as int));
                assert(self.buffer@ =~= old(self).buffer@.subrange(j as int + 1, old(self).buffer@.len() as int));
                assert(!line@.contains(NEWLINE)) by {
                    if line@.contains(NEWLINE) {
                        let k = choose|k: int| 0 <= k < line@.len() && line@[k] == NEWLINE;
                        assert(old(self).buffer@[k] == NEWLINE);
                    }
                }
                return Some(line);
            }
            j = j + 1;
        }
        None
    }

    /// What is left once the input has ended: the last line if it had no
    /// newline, or `None` when nothing is left. Empties the reader.
    pub fn finish(&mut self) -> (r: Option<Vec<u8>>)
        ensures
            old(self).buffered().len() == 0 ==> r is None,
            old(self).buffered().len() > 0 ==> r is Some && r->Some_0@ == old(self).buffered(),
            final(self).buffered() == Seq::<u8>::empty(),
    {
        let mut rest: Vec<u8> = Vec::new();
        std::mem::swap(&mut rest, &mut self.buffer);
        if rest.len() == 0 {
            None
        } else {
            Some(rest)
        }
    }
}

} // verus!
