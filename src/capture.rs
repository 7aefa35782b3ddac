//! The capture manager's record of grabbed devices: one handle per device
//! path, owned here until released.
use crate::text::{same_text, texts_of};
use vstd::prelude::*;

verus! {

/// The devices currently grabbed, each path once, with the handle that holds
/// it. Dropping a handle releases its device.
pub struct CaptureManager<H> {
    entries: Vec<(String, H)>,
}

fn find_path<H>(entries: &Vec<(String, H)>, path: &str) -> (r: Option<usize>)
    ensures
        match r {
            Some(i) => i < entries@.len() && entries@[i as int].0@ == path@,
            None => forall|k: int| 0 <= k < entries@.len() ==> entries@[k].0@ != path@,
        },
{
    let mut i: usize = 0;
    while i < entries.len()
        invariant
            i <= entries@.len(),
            forall|k: int| 0 <= k < i ==> entries@[k].0@ != path@,
        decreases entries@.len() - i,
    {
        if same_text(entries[i].0.as_str(), path) {
            return Some(i);
        }
        i = i + 1;
    }
    None
}

impl<H> CaptureManager<H> {
    /// The grabbed paths, in the order they were first grabbed.
    pub closed spec fn paths(self) -> Seq<Seq<char>> {
        self.entries@.map_values(|e: (String, H)| e.0@)
    }

    /// The handles, in the same order as [`Self::paths`].
    pub closed spec fn handles(self) -> Seq<H> {
        self.entries@.map_values(|e: (String, H)| e.1)
    }

    /// No path is recorded twice.
    #[verifier::type_invariant]
    spec fn inv(self) -> bool {
        self.paths().no_duplicates()
    }


    /// Nothing grabbed.
    pub fn new() -> (r: CaptureManager<H>)
        ensures
            r.paths().len() == 0,
            r.handles().len() == 0,
    {
        let r = CaptureManager { entries: Vec::new() };
        assert(r.paths() =~= Seq::<Seq<char>>::empty());
        r
    }

    /// How many devices are grabbed.
    pub fn len(&self) -> (r: usize)
        ensures
            r == self.paths().len(),
    {
        self.entries.len()
    }

    /// Whether no device is grabbed.
    pub fn is_empty(&self) -> (r: bool)
        ensures
            r == (self.paths().len() == 0),
    {
        self.entries.len() == 0
    }

    /// Whether `path` is grabbed.
    pub fn contains(&self, path: &str) -> (r: bool)
        ensures
            r == self.paths().contains(path@),
    {
        let found = find_path(&self.entries, path);
        proof {
            if let Some(i) = found {
                assert(self.paths()[i as int] == path@);
            } else {
                assert forall|k: int| 0 <= k < self.paths().len() implies self.paths()[k]
                    != path@ by {
                    assert(self.paths()[k] == self.entries@[k].0@);
                }
            }
        }
        found.is_some()
    }

    /// Records that `path` is now held through `handle`. A path already held
    /// keeps its place and gets the new handle; the old one is handed back.
    pub fn grab(&mut self, path: String, handle: H) -> (r: Option<H>)
        ensures
            match r {
                Some(prev) => exists|i: int|
                    0 <= i < old(self).paths().len() && old(self).paths()[i] == path@ && prev
                        == old(self).handles()[i] && final(self).paths() == old(self).paths()
                        && final(self).handles() == old(self).handles().update(i, handle),
                None => !old(self).paths().contains(path@) && final(self).paths() == old(
                    self,
                ).paths().push(path@) && final(self).handles() == old(self).handles().push(handle),
            },
    {
        proof {
            use_type_invariant(&*self);
        }
        let mut entries: Vec<(String, H)> = Vec::new();
        std::mem::swap(&mut entries, &mut self.entries);
        let ghost old_paths = entries@.map_values(|e: (String, H)| e.0@);
        let ghost old_handles = entries@.map_values(|e: (String, H)| e.1);
        assert(old_paths == old(self).paths());
        assert(old_handles == old(self).handles());
        let found = find_path(&entries, path.as_str());
        match found {
            Some(i) => {
                assert(old_paths[i as int] == path@);
                let (_, prev) = entries.remove(i);
                assert(prev == old_handles[i as int]);
                entries.insert(i, (path, handle));
                let ghost new_paths = entries@.map_values(|e: (String, H)| e.0@);
                assert(new_paths =~= old_paths);
                self.entries = entries;
                proof {
                    assert(self.handles() =~= old(self).handles().update(i as int, handle));
                }
                Some(prev)
            },
            None => {
                let ghost p = path@;
                assert forall|k: int| 0 <= k < old_paths.len() implies old_paths[k] != p by {
                    assert(old_paths[k] == entries@[k].0@);
                }
                entries.push((path, handle));
                let ghost new_paths = entries@.map_values(|e: (String, H)| e.0@);
                assert(new_paths =~= old_paths.push(p));
                assert forall|a: int, b: int|
                    0 <= a < new_paths.len() && 0 <= b < new_paths.len() && a != b implies new_paths[a]
                        != new_paths[b] by {
                    if b == new_paths.len() - 1 {
                        assert(old_paths[a] != p);
                    } else if a == new_paths.len() - 1 {
                        assert(old_paths[b] != p);
                    } else {
                        assert(old_paths[a] != old_paths[b]);
                    }
                }
                self.entries = entries;
                proof {
                    assert(self.handles() =~= old(self).handles().push(handle));
                }
                None
            },
        }
    }

    /// Releases every grabbed device, dropping its handle, and returns the
    /// paths that were released. With nothing grabbed this does nothing and
    /// returns no path.
    pub fn release_all(&mut self) -> (released: Vec<String>)
        ensures
            final(self).paths().len() == 0,
            final(self).handles().len() == 0,
            texts_of(released@) == old(self).paths(),
            old(self).paths().len() == 0 ==> released@.len() == 0,
    {
        let mut released: Vec<String> = Vec::new();
        let mut i: usize = 0;
        while i < self.entries.len()
            invariant
                i <= self.entries@.len(),
                released@.len() == i,
                texts_of(released@) == self.paths().subrange(0, i as int),
            decreases self.entries@.len() - i,
        {
            let path = self.entries[i].0.clone();
            assert(path@ == self.paths()[i as int]);
            released.push(path);
            assert(texts_of(released@) =~= self.paths().subrange(0, i + 1));
            i = i + 1;
        }
        assert(self.paths().subrange(0, i as int) =~= self.paths());
        self.entries = Vec::new();
        assert(self.paths() =~= Seq::<Seq<char>>::empty());
        assert(self.handles() =~= Seq::<H>::empty());
        released
    }
}

} // verus!
