//! Log files: their ids, their names, and where a record lies in them.
use crate::text::{decimal, u64_to_string};
use vstd::prelude::*;
use vstd::string::{StringExecFns, StringSliceAdditionalSpecFns};

verus! {

/// The position of a record: the id of its log file and its byte offset.
#[derive(Clone, Copy, Debug, PartialEq, Eq, Structural)]
pub struct FilePos {
    pub file_id: u64,
    pub pos: u64,
}

/// The id of a log file; the file of id `n` is `./store/n.kv`.
#[derive(Clone, Copy, Debug, PartialEq, Eq, Structural)]
pub struct LogFileId {
    pub id: u64,
}

/// The folder that holds the log files.
pub fn pathstr_of_logfile() -> (r: &'static str)
    ensures
        r@ == "./store/"@,
{
    "./store/"
}

/// The folder that holds the log files of the asynchronous server.
pub fn get_folder_path() -> (r: &'static str)
    ensures
        r@ == "./store/"@,
{
    "./store/"
}

/// `b` holds the name suffix `.kv` at index `i`.
pub open spec fn kv_at(b: Seq<u8>, i: int) -> bool {
    &&& 0 <= i
    &&& i + 3 <= b.len()
    &&& b[i] == 46u8
    &&& b[i + 1] == 107u8
    &&& b[i + 2] == 118u8
}

/// The first index at or after `i` where `b` holds `.kv`.
pub open spec fn find_kv_from(b: Seq<u8>, i: int) -> Option<int>
    decreases b.len() - i,
{
    if i < 0 || i + 3 > b.len() {
        None
    } else if kv_at(b, i) {
        Some(i)
    } else {
        find_kv_from(b, i + 1)
    }
}

/// The value of the decimal digits `d`.
pub open spec fn digits_value(d: Seq<u8>) -> int
    decreases d.len(),
{
    if d.len() == 0 {
        0
    } else {
        digits_value(d.drop_last()) * 10 + (d.last() - 48)
    }
}

/// Every byte of `d` is an ASCII digit.
pub open spec fn all_digits(d: Seq<u8>) -> bool {
    forall|i: int| 0 <= i < d.len() ==> 48 <= #[trigger] d[i] <= 57
}

/// What `str::parse::<u64>` gives for `b`: an optional `+` followed by at
/// least one digit, and a value that fits.
pub open spec fn parse_u64(b: Seq<u8>) -> Option<u64> {
    let d = if b.len() > 0 && b[0] == 43u8 { b.drop_first() } else { b };
    if d.len() > 0 && all_digits(d) && digits_value(d) <= u64::MAX {
        Some(digits_value(d) as u64)
    } else {
        None
    }
}

/// The id that a file name gives: the number before the first `.kv`.
pub open spec fn id_of_name(b: Seq<u8>) -> Option<u64> {
    match find_kv_from(b, 0) {
        Some(i) => parse_u64(b.take(i)),
        None => None,
    }
}

proof fn lemma_digits_value_monotone(d: Seq<u8>, i: int)
    requires
        all_digits(d),
        0 <= i <= d.len(),
    ensures
        0 <= digits_value(d.take(i)) <= digits_value(d),
    decreases d.len(),
{
    if i < d.len() {
        assert(all_digits(d.drop_last()));
        if i == d.len() - 1 {
            assert(d.take(i) =~= d.drop_last());
        } else {
            assert(d.drop_last().take(i) =~= d.take(i));
        }
        lemma_digits_value_monotone(d.drop_last(), i);
        lemma_digits_value_monotone(d.drop_last(), d.len() - 1);
        assert(d.drop_last().take(d.len() - 1) =~= d.drop_last());
    } else {
        assert(d.take(i) =~= d);
        if d.len() > 0 {
            assert(all_digits(d.drop_last()));
            lemma_digits_value_monotone(d.drop_last(), d.len() - 1);
            assert(d.drop_last().take(d.len() - 1) =~= d.drop_last());
        }
    }
}

/// Finds the first `.kv` in `b`.
fn find_kv(b: &[u8]) -> (r: Option<usize>)
    ensures
        r matches Some(i) ==> find_kv_from(b@, 0) == Some(i as int) && i + 3 <= b@.len(),
        r is None ==> find_kv_from(b@, 0) is None,
{
    let mut i: usize = 0;
    while i < b.len() && b.len() - i >= 3
        invariant
            i <= b@.len(),
            find_kv_from(b@, 0) == find_kv_from(b@, i as int),
        decreases b@.len() - i,
    {
        if b[i] == 46u8 && b[i + 1] == 107u8 && b[i + 2] == 118u8 {
            return Some(i);
        }
        i = i + 1;
    }
    None
}

/// `str::parse::<u64>` on the bytes `b[0..end]`.
fn parse_u64_prefix(b: &[u8], end: usize) -> (r: Option<u64>)
    requires
        end <= b@.len(),
    ensures
        r == parse_u64(b@.take(end as int)),
{
    let ghost s = b@.take(end as int);
    let mut start: usize = 0;
    if end > 0 && b[0] == 43u8 {
        start = 1;
    }
    let ghost d = if s.len() > 0 && s[0] == 43u8 { s.drop_first() } else { s };
    assert(d =~= b@.subrange(start as int, end as int));
    if start == end {
        return None;
    }
    let mut v: u64 = 0;
    let mut i: usize = start;
    while i < end
        invariant
            start <= i <= end <= b@.len(),
            start < end,
            s == b@.take(end as int),
            d == (if s.len() > 0 && s[0] == 43u8 { s.drop_first() } else { s }),
            d =~= b@.subrange(start as int, end as int),
            all_digits(d.take(i - start)),
            v == digits_value(d.take(i - start)),
        decreases end - i,
    {
        let c = b[i];
        assert(d.take(i - start + 1).drop_last() =~= d.take(i - start));
        assert(d[i - start] == c);
        if c < 48u8 || c > 57u8 {
            assert(!all_digits(d));
            return None;
        }
        assert(all_digits(d.take(i - start + 1)));
        if v > 1844674407370955161u64 || (v == 1844674407370955161u64 && c > 53u8) {
            proof {
                if all_digits(d) {
                    lemma_digits_value_monotone(d, i - start + 1);
                    assert(digits_value(d.take(i - start + 1)) == v * 10 + (c - 48));
                    assert(v * 10 + (c - 48) > u64::MAX) by (nonlinear_arith)
                        requires
                            v > 1844674407370955161u64 || (v == 1844674407370955161u64 && c > 53u8),
                            48 <= c <= 57,
                    ;
                }
            }
            return None;
        }
        v = v * 10 + (c - 48) as u64;
        i = i + 1;
    }
    assert(d.take(i - start) =~= d);
    Some(v)
}

impl LogFileId {
    /// The path of the file: `./store/<id>.kv`.
    pub fn get_pathbuf(&self) -> (p: String)
        ensures
            p@ == "./store/"@ + decimal(self.id as nat) + ".kv"@,
    {
        let d = u64_to_string(self.id);
        String::from_str("./store/").concat(d.as_str()).concat(".kv")
    }

    /// The id that the file name `name` gives: the number before the first
    /// `.kv` in it, if there is a `.kv` and the text before it is a number.
    pub fn from_path(name: &str) -> (r: Option<LogFileId>)
        ensures
            r == (match id_of_name(name.spec_bytes()) {
                Some(id) => Some(LogFileId { id }),
                None => None,
            }),
    {
        let b = name.as_bytes();
        match find_kv(b) {
            Some(i) => match parse_u64_prefix(b, i) {
                Some(id) => Some(LogFileId { id }),
                None => None,
            },
            None => None,
        }
    }

    /// Takes the id from the file name `name` if it holds `.kv`; returns
    /// whether it does. The text before the first `.kv` must be a number.
    pub fn set_by_logfile_path(&mut self, name: &str) -> (r: bool)
        requires
            find_kv_from(name.spec_bytes(), 0) is Some ==> id_of_name(name.spec_bytes()) is Some,
        ensures
            r == find_kv_from(name.spec_bytes(), 0) is Some,
            r ==> Some(final(self).id) == id_of_name(name.spec_bytes()),
            !r ==> final(self).id == old(self).id,
    {
        let b = name.as_bytes();
        match find_kv(b) {
            Some(i) => {
                match parse_u64_prefix(b, i) {
                    Some(id) => {
                        self.id = id;
                    },
                    None => {},
                }
                true
            },
            None => false,
        }
    }
}

} // verus!
