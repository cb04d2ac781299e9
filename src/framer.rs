//! Framing of concatenated JSON documents on a byte stream, with no length
//! prefix and no delimiter.
use vstd::prelude::*;

verus! {

#[verifier::external_type_specification]
#[verifier::external_body]
pub struct ExJsonValue(serde_json::Value);

/// The number of bytes that the first JSON document of `b` takes, leading
/// whitespace included, when `b` starts with a complete document.
pub uninterp spec fn first_document_end(b: Seq<u8>) -> Option<nat>;

/// Whether `b`, which starts with no complete document, could still become
/// one as more bytes arrive (only whitespace, or input that ends early),
/// rather than holding bytes that are not JSON.
pub uninterp spec fn json_ends_early(b: Seq<u8>) -> bool;

/// What the front of a buffer holds.
pub enum FirstDocument {
    /// A whole document, and the number of bytes it took.
    Complete(serde_json::Value, usize),
    /// Only part of a document, or nothing but whitespace.
    Incomplete,
    /// Bytes that are not JSON.
    Malformed,
}

/// Relies on `serde_json::StreamDeserializer::next` and `byte_offset`, which
/// parse the first document of `b` and give the bytes it took (at least one,
/// at most all of `b`), and on `serde_json::Error::is_eof`, which tells input
/// that ended early from a syntax error.
#[verifier::external_body]
fn parse_first_document(b: &[u8]) -> (r: FirstDocument)
    ensures
        (r is Complete) <==> first_document_end(b@) is Some,
        r matches FirstDocument::Complete(_, n) ==> first_document_end(b@) == Some(n as nat) && 0 < n
            <= b@.len(),
        (r is Incomplete) <==> (first_document_end(b@) is None && json_ends_early(b@)),
        (r is Malformed) <==> (first_document_end(b@) is None && !json_ends_early(b@)),
{
    let mut it = serde_json::Deserializer::from_slice(b).into_iter::<serde_json::Value>();
    match it.next() {
        Some(Ok(v)) => FirstDocument::Complete(v, it.byte_offset()),
        Some(Err(e)) => if e.is_eof() { FirstDocument::Incomplete } else { FirstDocument::Malformed },
        None => FirstDocument::Incomplete,
    }
}

/// Bytes that are not JSON.
#[derive(Debug)]
pub enum FrameError {
    Syntax,
}

/// The framer: outbound bytes are written as they are; inbound bytes are
/// read one whole document at a time.
pub struct JsonCodec;

impl JsonCodec {
    /// Appends an outbound frame to the buffer, byte for byte.
    pub fn encode(&mut self, data: &[u8], buf: &mut Vec<u8>)
        ensures
            final(buf)@ == old(buf)@ + data@,
    {
        let ghost start = buf@;
        let mut i: usize = 0;
        while i < data.len()
            invariant
                i <= data@.len(),
                buf@ == start + data@.subrange(0, i as int),
            decreases data@.len() - i,
        {
            buf.push(data[i]);
            i += 1;
            proof {
                assert(buf@ =~= start + data@.subrange(0, i as int));
            }
        }
        proof {
            assert(data@.subrange(0, i as int) =~= data@);
        }
    }

    /// Takes the first whole document from the front of the buffer and drops
    /// the bytes it took. `Ok(None)` asks for more bytes, and an error
    /// reports bytes that are not JSON; both leave the buffer as it was.
    pub fn decode(&mut self, src: &mut Vec<u8>) -> (r: Result<Option<serde_json::Value>, FrameError>)
        ensures
            old(src)@.len() == 0 ==> (r matches Ok(None)) && final(src)@ == old(src)@,
            old(src)@.len() > 0 && first_document_end(old(src)@) is Some ==> {
                &&& r matches Ok(Some(_))
                &&& final(src)@ == old(src)@.subrange(
                    first_document_end(old(src)@)->Some_0 as int,
                    old(src)@.len() as int,
                )
            },
            old(src)@.len() > 0 && first_document_end(old(src)@) is None && json_ends_early(
                old(src)@,
            ) ==> (r matches Ok(None)) && final(src)@ == old(src)@,
            old(src)@.len() > 0 && first_document_end(old(src)@) is None && !json_ends_early(
                old(src)@,
            ) ==> r is Err && final(src)@ == old(src)@,
    {
        if src.len() == 0 {
            return Ok(None);
        }
        match parse_first_document(src.as_slice()) {
            FirstDocument::Complete(value, n) => {
                let ghost before = src@;
                let mut rest: Vec<u8> = Vec::new();
                let mut i: usize = n;
                while i < src.len()
                    invariant
                        n <= i <= src@.len(),
                        src@ == before,
                        rest@ == before.subrange(n as int, i as int),
                    decreases src@.len() - i,
                {
                    rest.push(src[i]);
                    i += 1;
                    proof {
                        assert(rest@ =~= before.subrange(n as int, i as int));
                    }
                }
                *src = rest;
                Ok(Some(value))
            },
            FirstDocument::Incomplete => Ok(None),
            FirstDocument::Malformed => Err(FrameError::Syntax),
        }
    }
}

} // verus!
