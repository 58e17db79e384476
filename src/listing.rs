//! The order in which directory listings are shown: directories first, then
//! by name compared in lower case.
use vstd::prelude::*;
use vstd::seq_lib::{to_multiset_build, to_multiset_insert};
use vstd::string::StrSliceExecFns;
use crate::wire::DirectoryEntry;

verus! {

/// The lower-case form of a string, as `str::to_lowercase` computes it.
pub uninterp spec fn lower_of(s: Seq<char>) -> Seq<char>;

/// Relies on std's `str::to_lowercase`: the result depends on the
/// characters alone.
#[verifier::external_body]
fn lowercase(s: &str) -> (r: String)
    ensures
        r@ == lower_of(s@),
{
    s.to_lowercase()
}

/// `a` comes before `b`, or equals it, in the order of code points; this is
/// also the order of their UTF-8 bytes.
pub open spec fn chars_le(a: Seq<char>, b: Seq<char>) -> bool
    decreases a.len(),
{
    if a.len() == 0 {
        true
    } else if b.len() == 0 {
        false
    } else if (a[0] as u32) != (b[0] as u32) {
        (a[0] as u32) < (b[0] as u32)
    } else {
        chars_le(a.drop_first(), b.drop_first())
    }
}

/// Entry `a`, whose lower-case name is `a_key`, may stand before entry `b`,
/// whose lower-case name is `b_key`.
pub open spec fn listed_before(a_dir: bool, a_key: Seq<char>, b_dir: bool, b_key: Seq<char>) -> bool {
    (a_dir && !b_dir) || (a_dir == b_dir && chars_le(a_key, b_key))
}

pub open spec fn entry_le(a: DirectoryEntry, b: DirectoryEntry) -> bool {
    listed_before(a.is_dir, lower_of(a.name@), b.is_dir, lower_of(b.name@))
}

/// Each entry may stand before the next.
pub open spec fn listing_sorted(s: Seq<DirectoryEntry>) -> bool {
    forall|k: int| 0 <= k < s.len() - 1 ==> #[trigger] entry_le(s[k], s[k + 1])
}

/// Of two strings, one comes before the other.
pub proof fn lemma_chars_le_total(a: Seq<char>, b: Seq<char>)
    ensures
        chars_le(a, b) || chars_le(b, a),
    decreases a.len(),
{
    if a.len() > 0 && b.len() > 0 && (a[0] as u32) == (b[0] as u32) {
        lemma_chars_le_total(a.drop_first(), b.drop_first());
    }
}

fn chars_le_exec(a: &str, b: &str) -> (r: bool)
    ensures
        r == chars_le(a@, b@),
{
    let n = a.unicode_len();
    let m = b.unicode_len();
    let mut i: usize = 0;
    proof {
        assert(a@.skip(0) =~= a@);
        assert(b@.skip(0) =~= b@);
    }
    while i < n && i < m
        invariant
            n == a@.len(),
            m == b@.len(),
            i <= n,
            i <= m,
            chars_le(a@, b@) == chars_le(a@.skip(i as int), b@.skip(i as int)),
        decreases n - i,
    {
        let x = a.get_char(i);
        let y = b.get_char(i);
        proof {
            assert(a@.skip(i as int)[0] == x);
            assert(b@.skip(i as int)[0] == y);
        }
        if x as u32 != y as u32 {
            return (x as u32) < (y as u32);
        }
        proof {
            assert(a@.skip(i as int).drop_first() =~= a@.skip(i + 1));
            assert(b@.skip(i as int).drop_first() =~= b@.skip(i + 1));
        }
        i = i + 1;
    }
    proof {
        if i == n {
            assert(a@.skip(i as int).len() == 0);
        } else {
            assert(b@.skip(i as int).len() == 0);
        }
    }
    i == n
}

/// Whether an entry may stand before another, given the lower-case forms of
/// their names.
pub fn listed_before_keys(a_dir: bool, a_key: &str, b_dir: bool, b_key: &str) -> (r: bool)
    ensures
        r == listed_before(a_dir, a_key@, b_dir, b_key@),
{
    if a_dir != b_dir {
        a_dir
    } else {
        chars_le_exec(a_key, b_key)
    }
}

fn entry_le_exec(a: &DirectoryEntry, b: &DirectoryEntry) -> (r: bool)
    ensures
        r == entry_le(*a, *b),
{
    let a_key = lowercase(a.name.as_str());
    let b_key = lowercase(b.name.as_str());
    listed_before_keys(a.is_dir, a_key.as_str(), b.is_dir, b_key.as_str())
}

impl DirectoryEntry {
    /// A copy of this entry.
    pub fn duplicate(&self) -> (r: DirectoryEntry)
        ensures
            r == *self,
    {
        DirectoryEntry { name: self.name.clone(), path: self.path.clone(), is_dir: self.is_dir }
    }
}

/// The entries of a listing in the order they are shown: directories
/// first, then by lower-case name.
pub fn sort_entries(entries: &Vec<DirectoryEntry>) -> (r: Vec<DirectoryEntry>)
    ensures
        r@.to_multiset() == entries@.to_multiset(),
        listing_sorted(r@),
{
    let mut out: Vec<DirectoryEntry> = Vec::new();
    let mut i: usize = 0;
    proof {
        assert(entries@.take(0) =~= Seq::<DirectoryEntry>::empty());
        assert(out@ =~= Seq::<DirectoryEntry>::empty());
    }
    while i < entries.len()
        invariant
            i <= entries@.len(),
            out@.to_multiset() == entries@.take(i as int).to_multiset(),
            listing_sorted(out@),
        decreases entries@.len() - i,
    {
        let e = entries[i].duplicate();
        let mut j: usize = 0;
        while j < out.len() && entry_le_exec(&out[j], &e)
            invariant
                j <= out@.len(),
                forall|k: int| 0 <= k < j ==> entry_le(#[trigger] out@[k], e),
            decreases out@.len() - j,
        {
            j = j + 1;
        }
        proof {
            if j < out@.len() {
                lemma_chars_le_total(lower_of(out@[j as int].name@), lower_of(e.name@));
                assert(entry_le(e, out@[j as int]));
            }
        }
        let ghost before = out@;
        out.insert(j, e);
        proof {
            to_multiset_insert(before, j as int, e);
            assert(entries@.take(i + 1) =~= entries@.take(i as int).push(entries@[i as int]));
            to_multiset_build(entries@.take(i as int), entries@[i as int]);
            assert forall|k: int| 0 <= k < out@.len() - 1 implies #[trigger] entry_le(
                out@[k],
                out@[k + 1],
            ) by {
                if k < j - 1 {
                    assert(out@[k] == before[k] && out@[k + 1] == before[k + 1]);
                } else if k == j - 1 {
                    assert(out@[k] == before[k] && out@[k + 1] == e);
                } else if k == j {
                    assert(out@[k] == e && out@[k + 1] == before[k]);
                } else {
                    assert(out@[k] == before[k - 1] && out@[k + 1] == before[k]);
                    assert(entry_le(before[k - 1], before[(k - 1) + 1]));
                }
            }
        }
        i = i + 1;
    }
    proof {
        assert(entries@.take(entries@.len() as int) =~= entries@);
    }
    out
}

} // verus!
