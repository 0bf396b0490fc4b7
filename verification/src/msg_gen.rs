//! Replies of the server to its clients, framed for the wire.
use crate::codec::{be_bytes, write_u32_be, HEAD_SIZE};
use vstd::prelude::*;
use vstd::slice::slice_to_vec;
use vstd::string::StringSliceAdditionalSpecFns;

verus! {

broadcast use {vstd::string::group_string_axioms, vstd::array::group_array_axioms};

/// `body` preceded by its length as a 4-byte big-endian header (the length
/// taken modulo 2^32, as the header has 32 bits).
pub open spec fn framed(body: Seq<u8>) -> Seq<u8> {
    be_bytes(body.len() as u32) + body
}

/// The UTF-8 bytes of `s`.
pub open spec fn utf8(s: Seq<char>) -> Seq<u8> {
    vstd::utf8::encode_utf8(s)
}

/// The 4-byte header announcing a message body of `msgstr`'s length in
/// bytes.
pub fn headlen_bytes(msgstr: &String) -> (a: [u8; 4])
    ensures
        a@ == be_bytes(utf8(msgstr@).len() as u32),
{
    let mut a: [u8; 4] = [0, 0, 0, 0];
    let n = msgstr.as_str().as_bytes().len();
    assert(n == utf8(msgstr@).len());
    let ghost a0 = a@;
    write_u32_be(&mut a, #[verifier::truncate] (n as u32));
    assert(a@ == be_bytes(n as u32) + a0.skip(4));
    assert(a@ =~= be_bytes(utf8(msgstr@).len() as u32));
    a
}

/// Prefixes `vec` with the 4-byte big-endian header that announces its
/// length.
pub fn append_headlen(vec: Vec<u8>) -> (r: Vec<u8>)
    requires
        vec@.len() + HEAD_SIZE <= usize::MAX,
    ensures
        r@ == framed(vec@),
{
    let mut vec = vec;
    let len = vec.len();
    vec.resize(len + HEAD_SIZE, 0);
    let ghost body = vec@.take(len as int);
    // Move the body four places up, last byte first.
    let mut i: usize = len;
    while i > 0
        invariant
            i <= len,
            len + HEAD_SIZE <= usize::MAX,
            vec@.len() == len + 4,
            body.len() == len,
            forall|j: int| 0 <= j < i ==> #[trigger] vec@[j] == body[j],
            forall|j: int| i <= j < len ==> #[trigger] vec@[j + 4] == body[j],
        decreases i,
    {
        i = i - 1;
        let b = vec[i];
        vec.set(i + HEAD_SIZE, b);
    }
    assert(vec@.skip(4) =~= body);
    write_u32_be(vec.as_mut_slice(), #[verifier::truncate] (len as u32));
    assert(vec@ =~= framed(body));
    vec
}

/// The framed bytes of an ASCII literal reply.
fn literal_reply(s: &str) -> (r: Vec<u8>)
    requires
        s.spec_bytes().len() + HEAD_SIZE <= usize::MAX,
    ensures
        r@ == framed(s.spec_bytes()),
{
    append_headlen(slice_to_vec(s.as_bytes()))
}

/// The reply to a delete: whether the key was found.
pub fn genmsg_delrpl(succ: bool) -> (r: Vec<u8>)
    ensures
        r@ == framed(if succ { "s:del success".spec_bytes() } else { "f:k not found".spec_bytes() }),
{
    proof {
        reveal_strlit("s:del success");
        reveal_strlit("f:k not found");
        vstd::string::is_ascii_spec_bytes("s:del success");
        vstd::string::is_ascii_spec_bytes("f:k not found");
    }
    if succ {
        literal_reply("s:del success")
    } else {
        literal_reply("f:k not found")
    }
}

/// The reply to a set: whether it succeeded.
pub fn genmsg_setrpl(succ: bool) -> (r: Vec<u8>)
    ensures
        r@ == framed(if succ { "s:set success".spec_bytes() } else { "f:set failed".spec_bytes() }),
{
    proof {
        reveal_strlit("s:set success");
        reveal_strlit("f:set failed");
        vstd::string::is_ascii_spec_bytes("s:set success");
        vstd::string::is_ascii_spec_bytes("f:set failed");
    }
    if succ {
        literal_reply("s:set success")
    } else {
        literal_reply("f:set failed")
    }
}

/// The reply to a get: the value found, or that the key is absent.
pub fn genmsg_getrpl(res: Option<String>) -> (r: Vec<u8>)
    requires
        res matches Some(v) ==> utf8(v@).len() + 100 <= usize::MAX,
    ensures
        r@ == framed(
            match res {
                Some(v) => "s:get value: ".spec_bytes() + utf8(v@),
                None => "f:k not found".spec_bytes(),
            },
        ),
{
    proof {
        reveal_strlit("s:get value: ");
        reveal_strlit("f:k not found");
        vstd::string::is_ascii_spec_bytes("s:get value: ");
        vstd::string::is_ascii_spec_bytes("f:k not found");
    }
    match res {
        Some(v) => {
            let mut vec = slice_to_vec("s:get value: ".as_bytes());
            vec.extend_from_slice(v.as_str().as_bytes());
            append_headlen(vec)
        },
        None => literal_reply("f:k not found"),
    }
}

} // verus!
