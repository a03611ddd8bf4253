use vstd::prelude::*;
use crate::options::Order;
use vstd::multiset::Multiset;

verus! {

/// One entry of a directory listing: its name and whether it is a directory.
#[derive(Debug)]
pub struct DirEntryInfo {
    pub name: Vec<u8>,
    pub is_dir: bool,
}

/// The names `.` and `..`.
pub open spec fn is_dot_name(n: Seq<u8>) -> bool {
    n == seq![46u8] || n == seq![46u8, 46u8]
}

/// The entries of `s` other than `.` and `..`, in order.
pub open spec fn visible_entries(s: Seq<DirEntryInfo>) -> Seq<DirEntryInfo>
    decreases s.len(),
{
    if s.len() == 0 {
        s
    } else {
        let rest = visible_entries(s.drop_last());
        if is_dot_name(s.last().name@) {
            rest
        } else {
            rest.push(s.last())
        }
    }
}

/// Lexicographic order on byte strings, a proper prefix first: the order of
/// std's `Ord` on byte vectors.
pub open spec fn bytes_lt(a: Seq<u8>, b: Seq<u8>) -> bool
    decreases a.len(),
{
    if b.len() == 0 {
        false
    } else if a.len() == 0 {
        true
    } else if a[0] != b[0] {
        a[0] < b[0]
    } else {
        bytes_lt(a.drop_first(), b.drop_first())
    }
}

pub open spec fn sorted_by_name(s: Seq<DirEntryInfo>) -> bool {
    forall|i: int, j: int|
        0 <= i < j < s.len() ==> !bytes_lt(#[trigger] s[j].name@, #[trigger] s[i].name@)
}

/// Relies on `slice::sort_by` with the byte order of `Vec<u8>`'s `Ord`: the
/// same entries come out, ordered by name.
#[verifier::external_body]
fn sort_by_name(v: &mut Vec<DirEntryInfo>)
    ensures
        final(v)@.to_multiset() == old(v)@.to_multiset(),
        sorted_by_name(final(v)@),
{
    v.sort_by(|l, r| l.name.cmp(&r.name));
}

/// Whether `name` is `.` or `..`.
pub fn is_dot_entry(name: &[u8]) -> (r: bool)
    ensures
        r == is_dot_name(name@),
{
    if name.len() == 1 {
        proof {
            if name[0] == 46u8 {
                assert(name@ =~= seq![46u8]);
            }
        }
        name[0] == 46u8
    } else if name.len() == 2 {
        proof {
            if name[0] == 46u8 && name[1] == 46u8 {
                assert(name@ =~= seq![46u8, 46u8]);
            }
        }
        name[0] == 46u8 && name[1] == 46u8
    } else {
        false
    }
}

/// Drops `.` and `..` from a listing, keeping the order of the rest.
pub fn filter_dot_entries(entries: Vec<DirEntryInfo>) -> (r: Vec<DirEntryInfo>)
    ensures
        r@ == visible_entries(entries@),
{
    let ghost all = entries@;
    let mut r: Vec<DirEntryInfo> = Vec::new();
    for e in it: entries.into_iter()
        invariant
            it.seq() == all,
            r@ == visible_entries(all.take(it.index())),
    {
        let ghost i = it.index();
        proof {
            assert(all.take(i + 1).drop_last() =~= all.take(i));
        }
        if !is_dot_entry(e.name.as_slice()) {
            r.push(e);
        }
    }
    proof {
        assert(all.take(all.len() as int) =~= all);
    }
    r
}

/// The entries of a listing in the order the traversal visits them: `.` and
/// `..` dropped, then sorted by name when the order is alphabetical, else
/// kept in listing order.
pub fn prepare_entries(entries: Vec<DirEntryInfo>, order: Order) -> (r: Vec<DirEntryInfo>)
    ensures
        order == Order::Alphabetical ==> r@.to_multiset() == visible_entries(entries@).to_multiset()
            && sorted_by_name(r@),
        order != Order::Alphabetical ==> r@ == visible_entries(entries@),
{
    let mut v = filter_dot_entries(entries);
    if order == Order::Alphabetical {
        sort_by_name(&mut v);
    }
    v
}

/// `name` appended to the directory path `dir`, as `PathBuf::push` does for
/// a relative name: a `/` goes between them unless `dir` is empty or
/// already ends with one.
pub open spec fn join_path(dir: Seq<u8>, name: Seq<u8>) -> Seq<u8> {
    if dir.len() == 0 || dir.last() == 47u8 {
        dir + name
    } else {
        dir.push(47u8) + name
    }
}

/// The absolute path of the entry `name` of the directory at `dir`.
pub fn entry_abspath(dir: &[u8], name: &[u8]) -> (r: Vec<u8>)
    ensures
        r@ == join_path(dir@, name@),
{
    let mut r = vstd::slice::slice_to_vec(dir);
    if dir.len() > 0 && dir[dir.len() - 1] != 47u8 {
        r.push(47u8);
    }
    let mut i: usize = 0;
    let ghost base = r@;
    while i < name.len()
        invariant
            0 <= i <= name@.len(),
            r@ == base + name@.take(i as int),
        decreases name@.len() - i,
    {
        r.push(name[i]);
        i = i + 1;
        proof {
            assert(name@.take(i as int) =~= name@.take(i - 1).push(name@[i - 1]));
        }
    }
    assert(name@.take(name@.len() as int) =~= name@);
    r
}

/// Preparing a listing keeps every entry other than `.` and `..` exactly as
/// many times as the listing has it, and drops `.` and `..`.
pub proof fn visible_entries_exhaustive(s: Seq<DirEntryInfo>, e: DirEntryInfo)
    ensures
        visible_entries(s).to_multiset().count(e) == if is_dot_name(e.name@) {
            0
        } else {
            s.to_multiset().count(e)
        },
    decreases s.len(),
{
    broadcast use vstd::seq_lib::group_to_multiset_ensures;

    if s.len() == 0 {
        assert(s.to_multiset() =~= Multiset::empty());
        assert(visible_entries(s).to_multiset() =~= Multiset::empty());
    } else {
        visible_entries_exhaustive(s.drop_last(), e);
        assert(s =~= s.drop_last().push(s.last()));
    }
}

} // verus!
