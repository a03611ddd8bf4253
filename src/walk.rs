use vstd::prelude::*;
use crate::dir::{DirEntryInfo, entry_abspath, join_path};

verus! {

/// One directory being read: its handle, its path, its entries in visiting
/// order and the index of the next one to visit.
pub struct WalkFrame<H> {
    pub dir: H,
    pub path: Vec<u8>,
    pub entries: Vec<DirEntryInfo>,
    pub next: usize,
}

/// The directories a task is inside, outermost first. Entering a directory
/// puts its entries ahead of everything still to visit, which makes the
/// visiting order the depth-first order of a serial walk.
///
/// `H` is the program's directory handle.
pub struct DirWalk<H> {
    pub frames: Vec<WalkFrame<H>>,
}

/// What a visit hands out: the entry's path, its name and whether it is a
/// directory.
pub type Visit = (Seq<u8>, Seq<u8>, bool);

/// The next step of a walk.
pub enum WalkStep {
    /// Visit the entry `name` of the innermost directory, at `path`.
    Visit { path: Vec<u8>, name: Vec<u8>, is_dir: bool },
    /// Every entered directory has been read through.
    Finished,
}

pub open spec fn visit_of(dir_path: Seq<u8>, e: DirEntryInfo) -> Visit {
    (join_path(dir_path, e.name@), e.name@, e.is_dir)
}

/// The visits of `entries` in the directory at `dir_path`, in order.
pub open spec fn visits_of(dir_path: Seq<u8>, entries: Seq<DirEntryInfo>) -> Seq<Visit> {
    entries.map_values(|e: DirEntryInfo| visit_of(dir_path, e))
}

/// What is left of one directory.
pub open spec fn frame_todo<H>(f: WalkFrame<H>) -> Seq<Visit> {
    visits_of(f.path@, f.entries@.subrange(f.next as int, f.entries@.len() as int))
}

/// What is left of the walk: the innermost directory's rest first.
pub open spec fn walk_todo<H>(fs: Seq<WalkFrame<H>>) -> Seq<Visit>
    decreases fs.len(),
{
    if fs.len() == 0 {
        Seq::empty()
    } else {
        frame_todo(fs.last()) + walk_todo(fs.drop_last())
    }
}

impl<H> DirWalk<H> {
    pub open spec fn wf(&self) -> bool {
        forall|i: int|
            0 <= i < self.frames@.len() ==> (#[trigger] self.frames@[i]).next
                <= self.frames@[i].entries@.len()
    }

    /// Every visit still to come, in order.
    pub open spec fn todo(&self) -> Seq<Visit> {
        walk_todo(self.frames@)
    }

    /// A walk inside no directory.
    pub fn new() -> (r: DirWalk<H>)
        ensures
            r.wf(),
            r.todo() == Seq::<Visit>::empty(),
            r.frames@.len() == 0,
    {
        DirWalk { frames: Vec::new() }
    }

    /// Enters the directory `dir` at `path`, whose entries, in visiting order,
    /// are `entries`: they come before everything else still to visit.
    pub fn enter(&mut self, dir: H, path: Vec<u8>, entries: Vec<DirEntryInfo>)
        requires
            old(self).wf(),
        ensures
            final(self).wf(),
            final(self).todo() == visits_of(path@, entries@) + old(self).todo(),
            final(self).frames@.len() == old(self).frames@.len() + 1,
            final(self).frames@.last().dir == dir,
    {
        let ghost p = path@;
        let ghost es = entries@;
        self.frames.push(WalkFrame { dir, path, entries, next: 0 });
        proof {
            let fs = self.frames@;
            assert(fs.drop_last() =~= old(self).frames@);
            assert(es.subrange(0, es.len() as int) =~= es);
            assert forall|i: int| 0 <= i < fs.len() implies (#[trigger] fs[i]).next
                <= fs[i].entries@.len() by {
                if i < fs.len() - 1 {
                    assert(fs[i] == old(self).frames@[i]);
                }
            }
        }
    }

    /// The innermost directory, if any.
    pub fn innermost_dir(&self) -> (r: Option<&H>)
        ensures
            r is Some == (self.frames@.len() > 0),
            r is Some ==> *r->0 == self.frames@.last().dir,
    {
        if self.frames.len() == 0 {
            None
        } else {
            Some(&self.frames[self.frames.len() - 1].dir)
        }
    }

    /// Takes the next visit. Directories read through are left first, so
    /// that after a visit the innermost directory is the one holding the
    /// visited entry.
    pub fn next_step(&mut self) -> (r: WalkStep)
        requires
            old(self).wf(),
        ensures
            final(self).wf(),
            old(self).todo().len() == 0 ==> r is Finished && final(self).todo().len() == 0,
            old(self).todo().len() > 0 ==> {
                &&& r matches WalkStep::Visit { path, name, is_dir } && (path@, name@, is_dir)
                    == old(self).todo()[0] && final(self).frames@.len() > 0 && path@ == join_path(
                    final(self).frames@.last().path@,
                    name@,
                )
                &&& final(self).todo() == old(self).todo().drop_first()
            },
            old(self).todo().len() > 0 ==> final(self).frames@.len() > 0 && exists|k: int|
                0 <= k < old(self).frames@.len() && final(self).frames@.len() == k + 1
                    && final(self).frames@.last().dir == old(self).frames@[k].dir,
    {
        loop
            invariant
                self.wf(),
                walk_todo(self.frames@) == walk_todo(old(self).frames@),
                self.frames@.len() <= old(self).frames@.len(),
                forall|i: int|
                    0 <= i < self.frames@.len() ==> #[trigger] self.frames@[i] == old(
                        self,
                    ).frames@[i],
            ensures
                self.wf(),
                walk_todo(self.frames@) == walk_todo(old(self).frames@),
                self.frames@.len() <= old(self).frames@.len(),
                forall|i: int|
                    0 <= i < self.frames@.len() ==> #[trigger] self.frames@[i] == old(
                        self,
                    ).frames@[i],
                self.frames@.len() > 0 && self.frames@.last().next
                    < self.frames@.last().entries@.len(),
            decreases self.frames@.len(),
        {
            let n = self.frames.len();
            if n == 0 {
                return WalkStep::Finished;
            }
            if self.frames[n - 1].next < self.frames[n - 1].entries.len() {
                break;
            }
            let ghost before = self.frames@;
            let _ = self.frames.pop();
            proof {
                let f = before.last();
                assert(f.entries@.subrange(f.next as int, f.entries@.len() as int) =~= Seq::<
                    DirEntryInfo,
                >::empty());
                assert(frame_todo(f) =~= Seq::<Visit>::empty());
                assert(self.frames@ =~= before.drop_last());
                assert(walk_todo(before) =~= walk_todo(before.drop_last()));
            }
        }
        let ghost before = self.frames@;
        let mut f = self.frames.pop().unwrap();
        assert(f == before.last());
        let i = f.next;
        let len = f.entries.len();
        assert(i < len);
        let is_dir = f.entries[i].is_dir;
        let name = vstd::slice::slice_to_vec(f.entries[i].name.as_slice());
        let path = entry_abspath(f.path.as_slice(), f.entries[i].name.as_slice());
        f.next = i + 1;
        let ghost g = f;
        self.frames.push(f);
        proof {
            let old_f = before.last();
            let rest = walk_todo(before.drop_last());
            let s0 = old_f.entries@.subrange(i as int, old_f.entries@.len() as int);
            let s1 = g.entries@.subrange(i + 1, g.entries@.len() as int);
            assert(s1 =~= s0.drop_first());
            assert(frame_todo(g) =~= frame_todo(old_f).drop_first());
            assert(frame_todo(old_f)[0] == visit_of(old_f.path@, old_f.entries@[i as int]));
            assert(self.frames@.drop_last() =~= before.drop_last());
            assert(walk_todo(self.frames@) == frame_todo(g) + rest);
            assert(walk_todo(before) == frame_todo(old_f) + rest);
            assert((frame_todo(old_f) + rest).drop_first() =~= frame_todo(old_f).drop_first()
                + rest);
            assert((frame_todo(old_f) + rest)[0] == frame_todo(old_f)[0]);
            assert forall|j: int| 0 <= j < self.frames@.len() implies (#[trigger] self.frames@[
                j
            ]).next <= self.frames@[j].entries@.len() by {
                if j < self.frames@.len() - 1 {
                    assert(self.frames@[j] == before[j]);
                }
            }
            assert(self.frames@.last().dir == old(self).frames@[self.frames@.len() - 1].dir);
        }
        WalkStep::Visit { path, name, is_dir }
    }
}

} // verus!
