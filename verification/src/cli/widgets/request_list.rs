//! The request history table.

use vstd::prelude::*;
use crate::cli::state::{RequestRecord, RecordModel};
use crate::text::{concat, decimal, fmt_u64, chars_of, string_of_range};

verus! {

/// The width of the path column.
pub const PATH_WIDTH: usize = 40;

/// The request history table.
#[derive(Debug, Clone, PartialEq)]
pub struct RequestList {
    /// The table's title.
    pub title: String,
}

/// The number of bytes UTF-8 uses for a character.
pub open spec fn utf8_len(c: char) -> nat {
    if (c as u32) < 0x80 {
        1
    } else if (c as u32) < 0x800 {
        2
    } else if (c as u32) < 0x10000 {
        3
    } else {
        4
    }
}

/// The number of bytes of a text in UTF-8.
pub open spec fn byte_len(s: Seq<char>) -> nat
    decreases s.len(),
{
    if s.len() == 0 {
        0
    } else {
        byte_len(s.drop_last()) + utf8_len(s.last())
    }
}

/// A path as shown: cut to 37 bytes followed by "..." when it is longer than
/// the column.
pub open spec fn truncated_path(p: Seq<char>, r: Seq<char>) -> bool {
    if byte_len(p) > PATH_WIDTH {
        exists|k: int| 0 <= k <= p.len() && byte_len(p.subrange(0, k)) == 37 && r == p.subrange(0, k) + "..."@
    } else {
        r == p
    }
}

proof fn lemma_byte_len_step(s: Seq<char>, k: int)
    requires
        0 <= k < s.len(),
    ensures
        byte_len(s.subrange(0, k + 1)) == byte_len(s.subrange(0, k)) + utf8_len(s[k]),
        utf8_len(s[k]) >= 1,
{
    assert(s.subrange(0, k + 1).drop_last() =~= s.subrange(0, k));
}

proof fn lemma_byte_len_monotone(s: Seq<char>, a: int, b: int)
    requires
        0 <= a <= b <= s.len(),
    ensures
        byte_len(s.subrange(0, a)) + (b - a) <= byte_len(s.subrange(0, b)),
    decreases b - a,
{
    if a < b {
        lemma_byte_len_step(s, b - 1);
        lemma_byte_len_monotone(s, a, b - 1);
    }
}

/// The path as shown in the table: paths longer than the column (in bytes)
/// are cut to 37 bytes and end with "...". The cut must fall between
/// characters.
pub fn truncate_path(path: &str) -> (r: String)
    requires
        byte_len(path@) > PATH_WIDTH ==> exists|k: int| 0 <= k <= path@.len() && byte_len(path@.subrange(0, k)) == 37,
    ensures
        truncated_path(path@, r@),
{
    let cs = chars_of(path);
    let mut acc: usize = 0;
    let mut i: usize = 0;
    let mut cut: Option<usize> = None;
    assert(path@.subrange(0, 0) =~= Seq::<char>::empty());
    while i < cs.len() && acc <= PATH_WIDTH
        invariant
            cs@ == path@,
            i <= cs.len(),
            acc == byte_len(path@.subrange(0, i as int)),
            acc <= PATH_WIDTH + 4,
            match cut {
                Some(k) => k <= i && byte_len(path@.subrange(0, k as int)) == 37,
                None => forall|j: int| 0 <= j <= i ==> byte_len(#[trigger] path@.subrange(0, j)) != 37,
            },
        decreases cs.len() - i,
    {
        proof {
            lemma_byte_len_step(path@, i as int);
        }
        let c = cs[i];
        let u = c as u32;
        let w: usize = if u < 0x80 {
            1
        } else if u < 0x800 {
            2
        } else if u < 0x10000 {
            3
        } else {
            4
        };
        assert(w == utf8_len(path@[i as int]));
        acc = acc + w;
        i = i + 1;
        if acc == 37 && cut.is_none() {
            cut = Some(i);
        }
    }
    if acc <= PATH_WIDTH {
        assert(path@.subrange(0, i as int) =~= path@);
        return String::from_str(path);
    }
    proof {
        lemma_byte_len_monotone(path@, i as int, path@.len() as int);
        assert(path@.subrange(0, path@.len() as int) =~= path@);
    }
    match cut {
        Some(k) => {
            let head = string_of_range(cs.as_slice(), 0, k);
            concat(head.as_str(), "...")
        },
        None => {
            proof {
                let k = choose|k: int| 0 <= k <= path@.len() && byte_len(path@.subrange(0, k)) == 37;
                if k > i {
                    lemma_byte_len_monotone(path@, i as int, k);
                } else {
                    assert(byte_len(path@.subrange(0, k)) != 37);
                }
            }
            String::from_str(path)
        },
    }
}

/// The status as shown in the table: "-" for none yet.
pub fn status_str(status: u16) -> (r: String)
    ensures
        r@ == if status == 0 { "-"@ } else { decimal(status as nat) },
{
    if status == 0 {
        String::from_str("-")
    } else {
        fmt_u64(status as u64)
    }
}

/// The latency as shown: "{n}ms".
pub fn latency_text(ms: u64) -> (r: String)
    ensures
        r@ == decimal(ms as nat) + "ms"@,
{
    concat(fmt_u64(ms).as_str(), "ms")
}

impl RequestList {
    /// A table titled "Requests".
    pub fn new() -> (r: RequestList)
        ensures
            r.title@ == "Requests"@,
    {
        RequestList { title: String::from_str("Requests") }
    }

    /// The cells of a record's row: method, path, status, latency and rule.
    pub fn row_cells(record: &RequestRecord) -> (r: Vec<String>)
        requires
            byte_len(record@.path) > PATH_WIDTH ==> exists|k: int|
                0 <= k <= record@.path.len() && byte_len(record@.path.subrange(0, k)) == 37,
        ensures
            r@.len() == 5,
            r@[0]@ == record@.method,
            truncated_path(record@.path, r@[1]@),
            r@[2]@ == if record@.status == 0 { "-"@ } else { decimal(record@.status as nat) },
            r@[3]@ == decimal(record@.latency_ms as nat) + "ms"@,
            r@[4]@ == match record@.rule_id {
                Some(id) => id,
                None => "-"@,
            },
    {
        let mut v: Vec<String> = Vec::new();
        v.push(record.method.clone());
        v.push(truncate_path(record.path.as_str()));
        v.push(status_str(record.status));
        v.push(latency_text(record.latency_ms));
        v.push(
            match &record.rule_id {
                Some(id) => id.clone(),
                None => String::from_str("-"),
            },
        );
        v
    }
}

impl Default for RequestList {
    /// A table titled "Requests".
    fn default() -> (r: RequestList)
        ensures
            r.title@ == "Requests"@,
    {
        RequestList::new()
    }
}

} // verus!
