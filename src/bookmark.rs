//! The bookmark record as the remote service reports it.
use vstd::prelude::*;
use vstd::string::StrSliceExecFns;
use vstd::string::StringExecFns;

verus! {

/// One bookmark as held by the remote service. Its `id` is the key that a
/// deletion names.
#[derive(Debug)]
pub struct Bookmark {
    pub added: u64,
    pub clickcount: u64,
    pub description: String,
    pub folders: Vec<i32>,
    pub id: u64,
    pub lastmodified: u64,
    pub public: Option<u64>,
    pub tags: Vec<String>,
    pub title: String,
    pub url: String,
    pub user_id: Option<String>,
}

/// A bookmark with every field empty or zero: what stands in for a missing record.
pub open spec fn is_blank(b: Bookmark) -> bool {
    &&& b.added == 0
    &&& b.clickcount == 0
    &&& b.description@.len() == 0
    &&& b.folders@.len() == 0
    &&& b.id == 0
    &&& b.lastmodified == 0
    &&& b.public is None
    &&& b.tags@.len() == 0
    &&& b.title@.len() == 0
    &&& b.url@.len() == 0
    &&& b.user_id is None
}

impl Bookmark {
    /// The bookmark with every field empty or zero.
    pub fn blank() -> (r: Bookmark)
        ensures
            is_blank(r),
    {
        Bookmark {
            added: 0,
            clickcount: 0,
            description: String::new(),
            folders: Vec::new(),
            id: 0,
            lastmodified: 0,
            public: None,
            tags: Vec::new(),
            title: String::new(),
            url: String::new(),
            user_id: None,
        }
    }
}

impl Default for Bookmark {
    fn default() -> (r: Bookmark)
        ensures
            is_blank(r),
    {
        Bookmark::blank()
    }
}

/// `b` is what the list read from the service holds for the record `rec`:
/// the record itself, or a blank bookmark where the record is missing.
pub open spec fn read_from_record(rec: Option<Bookmark>, b: Bookmark) -> bool {
    match rec {
        Some(r) => b == r,
        None => is_blank(b),
    }
}

/// Turns the records of a bookmark list response into bookmarks, position by
/// position; a missing (`null`) record becomes a blank bookmark instead of
/// failing the read.
pub fn bookmarks_from_records(records: Vec<Option<Bookmark>>) -> (r: Vec<Bookmark>)
    ensures
        r@.len() == records@.len(),
        forall|i: int| 0 <= i < r@.len() ==> #[trigger] read_from_record(records@[i], r@[i]),
{
    let n = records.len();
    let ghost recs = records@;
    let mut rest = records;
    let mut reversed: Vec<Bookmark> = Vec::new();
    while rest.len() > 0
        invariant
            recs.len() == n,
            rest@ == recs.subrange(0, rest@.len() as int),
            reversed@.len() + rest@.len() == n,
            forall|j: int|
                0 <= j < reversed@.len() ==> #[trigger] read_from_record(
                    recs[n - 1 - j],
                    reversed@[j],
                ),
        decreases rest@.len(),
    {
        let rec = rest.pop().unwrap();
        let b = match rec {
            Some(b) => b,
            None => Bookmark::blank(),
        };
        reversed.push(b);
    }
    let mut out: Vec<Bookmark> = Vec::new();
    while reversed.len() > 0
        invariant
            recs.len() == n,
            reversed@.len() + out@.len() == n,
            forall|j: int|
                0 <= j < reversed@.len() ==> #[trigger] read_from_record(
                    recs[n - 1 - j],
                    reversed@[j],
                ),
            forall|i: int| 0 <= i < out@.len() ==> #[trigger] read_from_record(recs[i], out@[i]),
        decreases reversed@.len(),
    {
        let b = reversed.pop().unwrap();
        proof {
            assert(read_from_record(recs[n - 1 - reversed@.len()], b));
        }
        out.push(b);
    }
    out
}

/// `s` with one double quote taken off its start and one off its end, each
/// only where present.
pub open spec fn unquoted(s: Seq<char>) -> Seq<char> {
    let t = if s.len() > 0 && s[0] == '"' {
        s.drop_first()
    } else {
        s
    };
    if t.len() > 0 && t.last() == '"' {
        t.drop_last()
    } else {
        t
    }
}

/// The link of a stored bookmark as it is used: one layer of stray double
/// quotes around it is removed, no more.
pub fn normalize_url(url: &str) -> (r: String)
    ensures
        r@ == unquoted(url@),
{
    let n = url.unicode_len();
    let mut start: usize = 0;
    let mut end: usize = n;
    if n > 0 && url.get_char(0) == '"' {
        start = 1;
    }
    if end > start && url.get_char(end - 1) == '"' {
        end = end - 1;
    }
    let inner = url.substring_char(start, end);
    proof {
        let s = url@;
        let t = if s.len() > 0 && s[0] == '"' { s.drop_first() } else { s };
        assert(t =~= s.subrange(start as int, n as int));
        if t.len() > 0 && t.last() == '"' {
            assert(t.drop_last() =~= s.subrange(start as int, end as int));
        } else {
            assert(t =~= s.subrange(start as int, end as int));
        }
    }
    String::from_str(inner)
}

} // verus!
