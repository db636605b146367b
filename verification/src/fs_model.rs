use vstd::prelude::*;
use vstd::string::StrSliceExecFns;
use vstd::string::StringExecFns;
use crate::text::str_eq;
use vstd::slice::slice_to_vec;

verus! {

/// A value model of the piece of the filesystem the logger touches: a finite
/// map from paths to byte contents. The rotation and write logic is verified
/// against this model; a thin unverified shell replays the same operations on
/// real files.
pub struct FsModel {
    files: Vec<(String, Vec<u8>)>,
}

impl View for FsModel {
    type V = Map<Seq<char>, Seq<u8>>;

    closed spec fn view(&self) -> Map<Seq<char>, Seq<u8>> {
        FsModel::map_of(self.files@)
    }
}

impl FsModel {
    /// The map an entry list denotes; later entries would win, though a
    /// well-formed model never repeats a key.
    spec fn map_of(entries: Seq<(String, Vec<u8>)>) -> Map<Seq<char>, Seq<u8>>
        decreases entries.len(),
    {
        if entries.len() == 0 {
            Map::empty()
        } else {
            FsModel::map_of(entries.drop_last()).insert(
                entries.last().0@,
                entries.last().1@,
            )
        }
    }

    /// No path occurs twice in the entry list.
    spec fn unique(entries: Seq<(String, Vec<u8>)>) -> bool {
        forall|p: int, q: int|
            0 <= p < q < entries.len() ==> entries[p].0@ != entries[q].0@
    }

    /// Well-formedness: every public operation preserves it.
    pub closed spec fn wf(&self) -> bool {
        FsModel::unique(self.files@)
    }

    proof fn lemma_map_of_absent(entries: Seq<(String, Vec<u8>)>, k: Seq<char>)
        requires
            forall|j: int| 0 <= j < entries.len() ==> entries[j].0@ != k,
        ensures
            !FsModel::map_of(entries).contains_key(k),
        decreases entries.len(),
    {
        if entries.len() > 0 {
            FsModel::lemma_map_of_absent(entries.drop_last(), k);
        }
    }

    proof fn lemma_map_of_index(entries: Seq<(String, Vec<u8>)>, i: int)
        requires
            0 <= i < entries.len(),
            FsModel::unique(entries),
        ensures
            FsModel::map_of(entries).contains_key(entries[i].0@),
            FsModel::map_of(entries)[entries[i].0@] == entries[i].1@,
        decreases entries.len(),
    {
        if i < entries.len() - 1 {
            FsModel::lemma_map_of_index(entries.drop_last(), i);
        }
    }

    proof fn lemma_map_of_remove(entries: Seq<(String, Vec<u8>)>, i: int)
        requires
            0 <= i < entries.len(),
            FsModel::unique(entries),
        ensures
            FsModel::map_of(entries.remove(i)) == FsModel::map_of(entries).remove(
                entries[i].0@,
            ),
        decreases entries.len(),
    {
        let k = entries[i].0@;
        if i == entries.len() - 1 {
            assert(entries.remove(i) =~= entries.drop_last());
            FsModel::lemma_map_of_absent(entries.drop_last(), k);
            assert(FsModel::map_of(entries.drop_last()) =~= FsModel::map_of(
                entries,
            ).remove(k));
        } else {
            let d = entries.drop_last();
            let last = entries.last();
            FsModel::lemma_map_of_remove(d, i);
            assert(entries.remove(i).drop_last() =~= d.remove(i));
            assert(entries.remove(i).last() == last);
            assert(entries.remove(i).len() > 0);
            // last's key differs from the removed key, so insert and remove commute
            assert(last.0@ != k);
            assert(FsModel::map_of(d).remove(k).insert(last.0@, last.1@) =~= FsModel::map_of(
                d,
            ).insert(last.0@, last.1@).remove(k));
        }
    }

    /// An empty filesystem model.
    pub fn new() -> (r: FsModel)
        ensures
            r.wf(),
            r@ == Map::<Seq<char>, Seq<u8>>::empty(),
    {
        FsModel { files: Vec::new() }
    }

    /// Index of the entry for `path`, if any.
    fn find(&self, path: &str) -> (r: Option<usize>)
        requires
            self.wf(),
        ensures
            match r {
                Some(i) => {
                    &&& i < self.files@.len()
                    &&& self.files@[i as int].0@ == path@
                    &&& self@.contains_key(path@)
                    &&& self@[path@] == self.files@[i as int].1@
                },
                None => !self@.contains_key(path@),
            },
    {
        let n = self.files.len();
        let mut i: usize = 0;
        while i < n
            invariant
                self.wf(),
                n == self.files@.len(),
                i <= n,
                forall|j: int| 0 <= j < i ==> self.files@[j].0@ != path@,
            decreases n - i,
        {
            if str_eq(self.files[i].0.as_str(), path) {
                proof {
                    FsModel::lemma_map_of_index(self.files@, i as int);
                }
                return Some(i);
            }
            i = i + 1;
        }
        proof {
            FsModel::lemma_map_of_absent(self.files@, path@);
        }
        None
    }

    /// Whether a file exists at `path`.
    pub fn contains(&self, path: &str) -> (r: bool)
        requires
            self.wf(),
        ensures
            r == self@.contains_key(path@),
    {
        self.find(path).is_some()
    }

    /// Size in bytes of the file at `path`, or `None` if it is absent.
    pub fn file_len(&self, path: &str) -> (r: Option<usize>)
        requires
            self.wf(),
        ensures
            match r {
                Some(n) => self@.contains_key(path@) && n == self@[path@].len(),
                None => !self@.contains_key(path@),
            },
    {
        match self.find(path) {
            Some(i) => Some(self.files[i].1.len()),
            None => None,
        }
    }

    /// The content of the file at `path`, or `None` if it is absent.
    pub fn read(&self, path: &str) -> (r: Option<Vec<u8>>)
        requires
            self.wf(),
        ensures
            match r {
                Some(s) => self@.contains_key(path@) && s@ == self@[path@],
                None => !self@.contains_key(path@),
            },
    {
        match self.find(path) {
            Some(i) => Some(slice_to_vec(self.files[i].1.as_slice())),
            None => None,
        }
    }

    /// Remove and return the entry for `path`, if any.
    fn take(&mut self, path: &str) -> (r: Option<(String, Vec<u8>)>)
        requires
            old(self).wf(),
        ensures
            final(self).wf(),
            match r {
                Some(e) => {
                    &&& old(self)@.contains_key(path@)
                    &&& e.0@ == path@
                    &&& e.1@ == old(self)@[path@]
                    &&& final(self)@ == old(self)@.remove(path@)
                },
                None => {
                    &&& !old(self)@.contains_key(path@)
                    &&& *final(self) == *old(self)
                },
            },
    {
        match self.find(path) {
            Some(i) => {
                proof {
                    FsModel::lemma_map_of_remove(self.files@, i as int);
                }
                let e = self.files.remove(i);
                proof {
                    assert forall|p: int, q: int|
                        0 <= p < q < self.files@.len() implies self.files@[p].0@
                        != self.files@[q].0@ by {
                        old(self).files@.remove_ensures(i as int);
                    }
                }
                Some(e)
            },
            None => None,
        }
    }

    /// Insert an entry for a path not yet present.
    fn put(&mut self, key: String, content: Vec<u8>)
        requires
            old(self).wf(),
            !old(self)@.contains_key(key@),
        ensures
            final(self).wf(),
            final(self)@ == old(self)@.insert(key@, content@),
    {
        proof {
            let entries = self.files@;
            if exists|j: int| 0 <= j < entries.len() && entries[j].0@ == key@ {
                let j = choose|j: int|
                    0 <= j < entries.len() && entries[j].0@ == key@;
                FsModel::lemma_map_of_index(entries, j);
            }
        }
        self.files.push((key, content));
        proof {
            assert(self.files@.drop_last() =~= old(self).files@);
        }
    }

    /// Rename a file, replacing any file already at `to`; renaming a missing
    /// file changes nothing, as a failed rename is swallowed.
    pub fn rename(&mut self, from: &str, to: &str)
        requires
            old(self).wf(),
        ensures
            final(self).wf(),
            old(self)@.contains_key(from@) ==> final(self)@ == old(self)@.remove(from@).insert(
                to@,
                old(self)@[from@],
            ),
            !old(self)@.contains_key(from@) ==> final(self)@ == old(self)@,
    {
        match self.take(from) {
            Some(e) => {
                let (_, content) = e;
                let _ = self.take(to);
                let key = String::from_str(to);
                self.put(key, content);
                proof {
                    assert(self@ =~= old(self)@.remove(from@).insert(
                        to@,
                        old(self)@[from@],
                    ));
                }
            },
            None => {},
        }
    }

    /// Append the UTF-8 bytes of `data` to the file at `path`, creating it
    /// if absent.
    pub fn append_to(&mut self, path: &str, data: &str)
        requires
            old(self).wf(),
        ensures
            final(self).wf(),
            old(self)@.contains_key(path@) ==> final(self)@ == old(self)@.insert(
                path@,
                old(self)@[path@] + vstd::utf8::encode_utf8(data@),
            ),
            !old(self)@.contains_key(path@) ==> final(self)@ == old(self)@.insert(
                path@,
                Seq::<u8>::empty() + vstd::utf8::encode_utf8(data@),
            ),
    {
        match self.take(path) {
            Some(e) => {
                let (key, mut content) = e;
                let mut bytes = data.as_bytes_vec();
                content.append(&mut bytes);
                self.put(key, content);
                proof {
                    assert(self@ =~= old(self)@.insert(
                        path@,
                        old(self)@[path@] + vstd::utf8::encode_utf8(data@),
                    ));
                }
            },
            None => {
                let key = String::from_str(path);
                self.put(key, data.as_bytes_vec());
                proof {
                    assert(Seq::<u8>::empty() + vstd::utf8::encode_utf8(data@)
                        =~= vstd::utf8::encode_utf8(data@));
                }
            },
        }
    }
}

} // verus!
