//! The client side: how the client reads the server's replies, and the
//! commands that the server understands.
use crate::text::string_from_utf8;
use vstd::prelude::*;
use vstd::slice::slice_to_vec;
use vstd::string::{StrSliceExecFns, StringExecFns, StringSliceAdditionalSpecFns};

verus! {

broadcast use vstd::string::group_string_axioms;

/// A client of the synchronous server; each request uses its own connection.
pub struct PakVClient {}

impl PakVClient {
    /// A client.
    pub fn new() -> (c: PakVClient) {
        PakVClient {  }
    }
}

/// How the client reads a reply.
pub enum ReplyKind {
    /// The reply starts with `s:`: the request succeeded.
    Succ,
    /// The reply starts with `f:`: the request failed.
    Fail,
    /// The reply starts with neither.
    Invalid,
}

/// `b` starts with the bytes `x`, `y`.
pub open spec fn starts_with_pair(b: Seq<u8>, x: u8, y: u8) -> bool {
    b.len() >= 2 && b[0] == x && b[1] == y
}

/// Reads the server's reply `content`: success if it starts with `s:`,
/// failure if it starts with `f:`, and otherwise an invalid reply. (The text
/// shown to the user is the reply from its third byte on.)
pub fn classify_reply(content: &str) -> (k: ReplyKind)
    ensures
        starts_with_pair(content.spec_bytes(), 115u8, 58u8) ==> k is Succ,
        starts_with_pair(content.spec_bytes(), 102u8, 58u8) ==> k is Fail,
        !starts_with_pair(content.spec_bytes(), 115u8, 58u8) && !starts_with_pair(content.spec_bytes(), 102u8, 58u8)
            ==> k is Invalid,
{
    let b = content.as_bytes();
    if b.len() >= 2 && b[0] == 115u8 && b[1] == 58u8 {
        ReplyKind::Succ
    } else if b.len() >= 2 && b[0] == 102u8 && b[1] == 58u8 {
        ReplyKind::Fail
    } else {
        ReplyKind::Invalid
    }
}

/// The reply of the synchronous server to a request that succeeded.
pub fn reply_succ_str(s: String) -> (r: String)
    ensures
        r@ == "s:"@ + s@,
{
    String::from_str("s:").concat(s.as_str())
}

/// The reply of the synchronous server to a request that failed.
pub fn reply_fail_str(s: String) -> (r: String)
    ensures
        r@ == "f:"@ + s@,
{
    String::from_str("f:").concat(s.as_str())
}

/// A command sent by a client.
pub enum ClientCmd {
    GetK { k: String },
    SetKv { k: String, v: String },
    DelK { k: String },
}

/// Unicode white space, as `char::is_whitespace` and `str::split_whitespace`
/// take it: U+0009 to U+000D, U+0020, U+0085, U+00A0, U+1680, U+2000 to
/// U+200A, U+2028, U+2029, U+202F, U+205F and U+3000.
pub open spec fn is_ws(c: char) -> bool {
    let u = c as u32;
    ||| 9 <= u <= 13
    ||| u == 32
    ||| u == 0x85
    ||| u == 0xa0
    ||| u == 0x1680
    ||| 0x2000 <= u <= 0x200a
    ||| u == 0x2028
    ||| u == 0x2029
    ||| u == 0x202f
    ||| u == 0x205f
    ||| u == 0x3000
}

/// Whether `c` is white space.
fn is_white(c: char) -> (r: bool)
    ensures
        r == is_ws(c),
{
    let u = c as u32;
    (9 <= u && u <= 13) || u == 32 || u == 0x85 || u == 0xa0 || u == 0x1680 || (0x2000 <= u && u <= 0x200a)
        || u == 0x2028 || u == 0x2029 || u == 0x202f || u == 0x205f || u == 0x3000
}

/// The words of `b`, separated by white space, after the word `cur` that is
/// being read.
pub open spec fn words_from(b: Seq<char>, cur: Seq<char>) -> Seq<Seq<char>>
    decreases b.len(),
{
    if b.len() == 0 {
        if cur.len() > 0 { seq![cur] } else { Seq::empty() }
    } else if is_ws(b[0]) {
        (if cur.len() > 0 { seq![cur] } else { Seq::empty() }) + words_from(b.drop_first(), Seq::empty())
    } else {
        words_from(b.drop_first(), cur.push(b[0]))
    }
}

/// The words of `b`, separated by white space.
pub open spec fn words(b: Seq<char>) -> Seq<Seq<char>> {
    words_from(b, Seq::empty())
}

proof fn lemma_words_step(b: Seq<char>, i: int, acc: Seq<Seq<char>>, cur: Seq<char>)
    requires
        0 <= i < b.len(),
        acc + words_from(b.skip(i), cur) == words(b),
    ensures
        is_ws(b[i]) ==> (if cur.len() > 0 { acc.push(cur) } else { acc }) + words_from(b.skip(i + 1), Seq::empty()) == words(b),
        !is_ws(b[i]) ==> acc + words_from(b.skip(i + 1), cur.push(b[i])) == words(b),
{
    assert(b.skip(i).drop_first() =~= b.skip(i + 1));
    assert(b.skip(i)[0] == b[i]);
    if is_ws(b[i]) && cur.len() > 0 {
        assert(acc.push(cur) + words_from(b.skip(i + 1), Seq::empty()) =~= acc + (seq![cur] + words_from(b.skip(i + 1), Seq::empty())));
    }
    if is_ws(b[i]) && cur.len() == 0 {
        assert(Seq::<Seq<char>>::empty() + words_from(b.skip(i + 1), Seq::empty()) =~= words_from(b.skip(i + 1), Seq::empty()));
    }
}

proof fn lemma_words_from_clean(b: Seq<char>, cur: Seq<char>)
    requires
        forall|j: int| 0 <= j < cur.len() ==> !is_ws(#[trigger] cur[j]),
    ensures
        forall|i: int| 0 <= i < words_from(b, cur).len() ==> #[trigger] words_from(b, cur)[i].len() > 0,
        forall|i: int, j: int|
            0 <= i < words_from(b, cur).len() && 0 <= j < words_from(b, cur)[i].len() ==> !is_ws(
                #[trigger] words_from(b, cur)[i][j],
            ),
    decreases b.len(),
{
    if b.len() > 0 {
        if is_ws(b[0]) {
            lemma_words_from_clean(b.drop_first(), Seq::empty());
            let rest = words_from(b.drop_first(), Seq::empty());
            let head: Seq<Seq<char>> = if cur.len() > 0 { seq![cur] } else { Seq::empty() };
            assert(words_from(b, cur) == head + rest);
            assert forall|i: int| 0 <= i < words_from(b, cur).len() implies #[trigger] words_from(b, cur)[i].len() > 0 by {
                if i >= head.len() {
                    assert(words_from(b, cur)[i] == rest[i - head.len()]);
                }
            }
            assert forall|i: int, j: int|
                0 <= i < words_from(b, cur).len() && 0 <= j < words_from(b, cur)[i].len() implies !is_ws(
                    #[trigger] words_from(b, cur)[i][j],
                ) by {
                if i >= head.len() {
                    assert(words_from(b, cur)[i] == rest[i - head.len()]);
                } else {
                    assert(words_from(b, cur)[i] == cur);
                }
            }
        } else {
            let c2 = cur.push(b[0]);
            assert forall|j: int| 0 <= j < c2.len() implies !is_ws(#[trigger] c2[j]) by {
                if j < cur.len() {
                    assert(c2[j] == cur[j]);
                }
            }
            lemma_words_from_clean(b.drop_first(), c2);
            assert(words_from(b, cur) == words_from(b.drop_first(), c2));
        }
    } else {
        if cur.len() > 0 {
            assert(words_from(b, cur) == seq![cur]);
            assert forall|i: int, j: int|
                0 <= i < words_from(b, cur).len() && 0 <= j < words_from(b, cur)[i].len() implies !is_ws(
                    #[trigger] words_from(b, cur)[i][j],
                ) by {
                assert(words_from(b, cur)[i] == cur);
            }
        } else {
            assert(words_from(b, cur) == Seq::<Seq<char>>::empty());
        }
    }
}

/// The words of a command line are its maximal runs of characters other than
/// white space: no word is empty, and no word holds a tab, a line feed, a
/// vertical tab, a form feed, a carriage return, a space, or any other
/// Unicode white space (U+0085, U+00A0, U+1680, U+2000 to U+200A, U+2028,
/// U+2029, U+202F, U+205F, U+3000).
pub proof fn lemma_words_have_no_white_space(b: Seq<char>)
    ensures
        forall|i: int| 0 <= i < words(b).len() ==> #[trigger] words(b)[i].len() > 0,
        forall|i: int, j: int|
            0 <= i < words(b).len() && 0 <= j < words(b)[i].len() ==> {
                let u = #[trigger] words(b)[i][j] as u32;
                &&& !(9 <= u <= 13)
                &&& u != 32 && u != 0x85 && u != 0xa0 && u != 0x1680
                &&& !(0x2000 <= u <= 0x200a)
                &&& u != 0x2028 && u != 0x2029 && u != 0x202f && u != 0x205f && u != 0x3000
            },
{
    lemma_words_from_clean(b, Seq::empty());
}

/// Splits `s` into its words.
fn split_whitespace(s: &str) -> (r: Vec<String>)
    ensures
        r@.map_values(|w: String| w@) == words(s@),
{
    let n = s.unicode_len();
    let mut r: Vec<String> = Vec::new();
    let mut start: usize = 0;
    let mut i: usize = 0;
    assert(s@.skip(0) =~= s@);
    assert(r@.map_values(|w: String| w@) + words_from(s@.skip(0), s@.subrange(0, 0)) =~= words(s@)) by {
        assert(r@.map_values(|w: String| w@) =~= Seq::<Seq<char>>::empty());
        assert(s@.subrange(0, 0) =~= Seq::<char>::empty());
    }
    while i < n
        invariant
            n == s@.len(),
            start <= i <= n,
            r@.map_values(|w: String| w@) + words_from(s@.skip(i as int), s@.subrange(start as int, i as int)) == words(s@),
        decreases n - i,
    {
        let ghost acc = r@.map_values(|w: String| w@);
        let ghost c0 = s@.subrange(start as int, i as int);
        proof {
            lemma_words_step(s@, i as int, acc, c0);
        }
        let c = s.get_char(i);
        if is_white(c) {
            if start < i {
                let w = String::from_str(s.substring_char(start, i));
                r.push(w);
                assert(r@.map_values(|w: String| w@) =~= acc.push(c0));
            }
            start = i + 1;
            assert(s@.subrange(start as int, i + 1) =~= Seq::<char>::empty());
        } else {
            assert(s@.subrange(start as int, i + 1) =~= c0.push(s@[i as int]));
        }
        i = i + 1;
    }
    let ghost acc = r@.map_values(|w: String| w@);
    let ghost c0 = s@.subrange(start as int, i as int);
    assert(s@.skip(i as int) =~= Seq::<char>::empty());
    if start < i {
        let w = String::from_str(s.substring_char(start, i));
        r.push(w);
        assert(r@.map_values(|w: String| w@) =~= acc + seq![c0]);
    } else {
        assert(acc + Seq::<Seq<char>>::empty() =~= acc);
    }
    r
}

/// The command that the message `slice` holds, if any: the message is valid
/// UTF-8 and its words, separated by white space, are `get k`, `set k v` or
/// `del k`.
pub fn match_msg_from_client(slice: &[u8]) -> (r: Option<ClientCmd>)
    ensures
        !vstd::utf8::valid_utf8(slice@) ==> r is None,
        vstd::utf8::valid_utf8(slice@) ==> ({
            let ws = words(vstd::utf8::decode_utf8(slice@));
            match r {
                Some(ClientCmd::GetK { k }) => ws.len() == 2 && ws[0] == "get"@ && k@ == ws[1],
                Some(ClientCmd::SetKv { k, v }) => ws.len() == 3 && ws[0] == "set"@ && k@ == ws[1] && v@ == ws[2],
                Some(ClientCmd::DelK { k }) => ws.len() == 2 && ws[0] == "del"@ && k@ == ws[1],
                None => !(ws.len() == 2 && (ws[0] == "get"@ || ws[0] == "del"@)) && !(ws.len() == 3 && ws[0] == "set"@),
            }
        }),
{
    let text = match string_from_utf8(slice_to_vec(slice)) {
        Some(t) => t,
        None => return None,
    };
    proof {
        vstd::utf8::encode_utf8_decode_utf8(text@);
    }
    let div = split_whitespace(text.as_str());
    let ghost ws = words(text@);
    assert(div@.len() == ws.len());
    let get = String::from_str("get");
    let set = String::from_str("set");
    let del = String::from_str("del");
    proof {
        reveal_strlit("get");
        reveal_strlit("set");
        reveal_strlit("del");
    }
    if div.len() == 2 {
        assert(div@[0]@ == ws[0] && div@[1]@ == ws[1]);
        if div[0].eq(&get) {
            return Some(ClientCmd::GetK { k: div[1].clone() });
        }
        if div[0].eq(&del) {
            return Some(ClientCmd::DelK { k: div[1].clone() });
        }
        return None;
    }
    if div.len() == 3 {
        assert(div@[0]@ == ws[0] && div@[1]@ == ws[1] && div@[2]@ == ws[2]);
        if div[0].eq(&set) {
            return Some(ClientCmd::SetKv { k: div[1].clone(), v: div[2].clone() });
        }
        return None;
    }
    None
}

} // verus!
