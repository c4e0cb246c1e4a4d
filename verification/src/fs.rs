//! The output filesystem consumed by asset emission.
//!
//! The contract mirrors what the emission stage relies on: four fallible
//! operations over a map from paths to file contents, plus a per-path policy
//! predicate `io_ok` saying which operations the store lets through. The
//! policy is part of each implementation's state and is not changed by the
//! operations themselves, so a failed write on one path says nothing about
//! writes on other paths — the basis of fault isolation during emission.

use vstd::prelude::*;

use crate::paths::{is_under, path_under, str_equal};
use crate::table::{str_lookup, StrTable};

verus! {

/// Failure of one filesystem operation.
#[derive(Debug, Clone, Copy, PartialEq, Eq)]
pub enum FsError {
    /// The path does not name an existing file.
    NotFound,
    /// The store refused the operation on this path.
    Denied,
}

/// A writable output filesystem: a map from paths to byte contents plus a
/// set of created directories. An operation the policy refuses reports
/// `Denied`; removing a file that is not there reports `NotFound`.
pub trait WritableFileSystem: Sized {
    /// Implementation-specific well-formedness, preserved by every operation.
    spec fn inv(&self) -> bool;

    /// The files currently stored, keyed by full path.
    spec fn files(&self) -> Map<Seq<char>, Seq<u8>>;

    /// The directories created so far.
    spec fn dirs(&self) -> Set<Seq<char>>;

    /// Whether this store lets an operation on `path` through. The policy is
    /// fixed per store instance: no operation changes it.
    spec fn io_ok(&self, path: Seq<char>) -> bool;

    fn create_dir_all(&mut self, path: &str) -> (r: Result<(), FsError>)
        requires
            old(self).inv(),
        ensures
            final(self).inv(),
            final(self).files() == old(self).files(),
            forall|p: Seq<char>| final(self).io_ok(p) == old(self).io_ok(p),
            r is Ok <==> old(self).io_ok(path@),
            r is Ok ==> final(self).dirs() == old(self).dirs().insert(path@),
            r is Err ==> final(self).dirs() == old(self).dirs() && r == Err::<(), FsError>(
                FsError::Denied,
            ),
    ;

    fn write(&mut self, path: &str, data: &Vec<u8>) -> (r: Result<(), FsError>)
        requires
            old(self).inv(),
        ensures
            final(self).inv(),
            final(self).dirs() == old(self).dirs(),
            forall|p: Seq<char>| final(self).io_ok(p) == old(self).io_ok(p),
            r is Ok <==> old(self).io_ok(path@),
            r is Ok ==> final(self).files() == old(self).files().insert(path@, data@),
            r is Err ==> final(self).files() == old(self).files() && r == Err::<(), FsError>(
                FsError::Denied,
            ),
    ;

    fn remove_file(&mut self, path: &str) -> (r: Result<(), FsError>)
        requires
            old(self).inv(),
        ensures
            final(self).inv(),
            final(self).dirs() == old(self).dirs(),
            forall|p: Seq<char>| final(self).io_ok(p) == old(self).io_ok(p),
            r is Ok <==> old(self).io_ok(path@) && old(self).files().contains_key(path@),
            r is Ok ==> final(self).files() == old(self).files().remove(path@),
            r is Err ==> final(self).files() == old(self).files(),
            !old(self).io_ok(path@) ==> r == Err::<(), FsError>(FsError::Denied),
            old(self).io_ok(path@) && !old(self).files().contains_key(path@) ==> r == Err::<
                (),
                FsError,
            >(FsError::NotFound),
    ;

    fn remove_dir_all(&mut self, path: &str) -> (r: Result<(), FsError>)
        requires
            old(self).inv(),
        ensures
            final(self).inv(),
            forall|p: Seq<char>| final(self).io_ok(p) == old(self).io_ok(p),
            r is Ok <==> old(self).io_ok(path@),
            r is Ok ==> final(self).files() == old(self).files().remove_keys(
                Set::new(|k: Seq<char>| path_under(k, path@)),
            ),
            r is Ok ==> final(self).dirs() == old(self).dirs().difference(
                Set::new(|d: Seq<char>| path_under(d, path@)),
            ),
            r is Err ==> final(self).files() == old(self).files() && final(self).dirs() == old(
                self,
            ).dirs() && r == Err::<(), FsError>(FsError::Denied),
    ;
}

/// In-memory output filesystem. Paths listed in `fail_paths` refuse every
/// operation, which lets a build exercise partial-failure behaviour.
pub struct MemoryFileSystem {
    files: StrTable<Vec<u8>>,
    dirs: Vec<String>,
    fail_paths: Vec<String>,
    write_count: u64,
}

impl MemoryFileSystem {
    /// Number of physical writes that have succeeded on this store.
    pub closed spec fn spec_write_count(&self) -> u64 {
        self.write_count
    }

    pub fn new() -> (r: Self)
        ensures
            r.inv(),
            r.files() =~= Map::<Seq<char>, Seq<u8>>::empty(),
            r.dirs() =~= Set::<Seq<char>>::empty(),
            forall|p: Seq<char>| r.io_ok(p),
            r.spec_write_count() == 0,
    {
        let r = MemoryFileSystem {
            files: StrTable::new(),
            dirs: Vec::new(),
            fail_paths: Vec::new(),
            write_count: 0,
        };
        proof {
            assert forall|k: Seq<char>| !r.files().dom().contains(k) by {
                crate::table::lemma_str_lookup_none(r.files.items(), k);
            }
            assert forall|d: Seq<char>| !r.dirs().contains(d) by {}
        }
        r
    }

    /// A store that refuses every operation on the listed paths.
    pub fn with_fail_paths(fail_paths: Vec<String>) -> (r: Self)
        ensures
            r.inv(),
            r.files() =~= Map::<Seq<char>, Seq<u8>>::empty(),
            r.dirs() =~= Set::<Seq<char>>::empty(),
            forall|p: Seq<char>|
                r.io_ok(p) <==> !(exists|i: int|
                    0 <= i < fail_paths@.len() && fail_paths@[i]@ == p),
            r.spec_write_count() == 0,
    {
        let ghost fp = fail_paths@;
        let r = MemoryFileSystem { files: StrTable::new(), dirs: Vec::new(), fail_paths, write_count: 0 };
        proof {
            assert(r.fail_paths@ == fp);
            assert forall|k: Seq<char>| !r.files().dom().contains(k) by {
                crate::table::lemma_str_lookup_none(r.files.items(), k);
            }
            assert forall|d: Seq<char>| !r.dirs().contains(d) by {}
            assert forall|p: Seq<char>|
                r.io_ok(p) <==> !(exists|i: int| 0 <= i < fp.len() && fp[i]@ == p) by {}
        }
        r
    }

    pub fn write_count(&self) -> (n: u64)
        ensures
            n == self.spec_write_count(),
    {
        self.write_count
    }

    /// The stored content of `path`, if any.
    pub fn read_file(&self, path: &String) -> (r: Option<&Vec<u8>>)
        ensures
            match r {
                Some(v) => self.files().contains_key(path@) && self.files()[path@] == v@,
                None => !self.files().contains_key(path@),
            },
    {
        self.files.get(path)
    }

    /// How many files the store holds.
    pub closed spec fn spec_file_count(&self) -> nat {
        self.files.items().len()
    }

    pub fn file_count(&self) -> (n: usize)
        ensures
            n == self.spec_file_count(),
    {
        self.files.len()
    }

    fn path_refused(&self, path: &str) -> (r: bool)
        ensures
            r == !self.io_ok(path@),
    {
        let n = self.fail_paths.len();
        let mut i: usize = 0;
        while i < n
            invariant
                i <= n,
                n == self.fail_paths@.len(),
                forall|j: int| 0 <= j < i ==> self.fail_paths@[j]@ != path@,
            decreases n - i,
        {
            if str_equal(self.fail_paths[i].as_str(), path) {
                return true;
            }
            i += 1;
        }
        false
    }
}

impl WritableFileSystem for MemoryFileSystem {
    closed spec fn inv(&self) -> bool {
        self.files.wf()
    }

    closed spec fn files(&self) -> Map<Seq<char>, Seq<u8>> {
        Map::new(
            |k: Seq<char>| self.files.contains_key(k),
            |k: Seq<char>| self.files.spec_lookup(k).unwrap()@,
        )
    }

    closed spec fn dirs(&self) -> Set<Seq<char>> {
        Set::new(|d: Seq<char>| exists|i: int| 0 <= i < self.dirs@.len() && self.dirs@[i]@ == d)
    }

    closed spec fn io_ok(&self, path: Seq<char>) -> bool {
        !(exists|i: int| 0 <= i < self.fail_paths@.len() && self.fail_paths@[i]@ == path)
    }

    #[verifier::loop_isolation(false)]
    fn create_dir_all(&mut self, path: &str) -> (r: Result<(), FsError>) {
        if self.path_refused(path) {
            return Err(FsError::Denied);
        }
        let n = self.dirs.len();
        let mut i: usize = 0;
        while i < n
            invariant
                i <= n,
                n == self.dirs@.len(),
            decreases n - i,
        {
            if str_equal(self.dirs[i].as_str(), path) {
                proof {
                    assert(self.dirs().contains(path@));
                    assert(self.dirs() =~= self.dirs().insert(path@));
                }
                return Ok(());
            }
            i += 1;
        }
        let ghost d0 = self.dirs@;
        self.dirs.push(path.to_owned());
        proof {
            assert forall|d: Seq<char>| self.dirs().contains(d) <==> (Set::new(
                |d2: Seq<char>| exists|i: int| 0 <= i < d0.len() && d0[i]@ == d2,
            ).insert(path@)).contains(d) by {
                if self.dirs().contains(d) {
                    let i = choose|i: int| 0 <= i < self.dirs@.len() && self.dirs@[i]@ == d;
                    if i < d0.len() {
                    } else {
                        assert(self.dirs@[i]@ == path@);
                    }
                } else {
                    if d == path@ {
                        assert(self.dirs@[d0.len() as int]@ == path@);
                    } else if (exists|i: int| 0 <= i < d0.len() && d0[i]@ == d) {
                        let i = choose|i: int| 0 <= i < d0.len() && d0[i]@ == d;
                        assert(self.dirs@[i]@ == d);
                    }
                }
            }
            assert(self.dirs() =~= Set::new(
                |d2: Seq<char>| exists|i: int| 0 <= i < d0.len() && d0[i]@ == d2,
            ).insert(path@));
            assert(self.fail_paths@ == old(self).fail_paths@);
            assert forall|p: Seq<char>| self.io_ok(p) == old(self).io_ok(p) by {}
        }
        Ok(())
    }

    fn write(&mut self, path: &str, data: &Vec<u8>) -> (r: Result<(), FsError>) {
        if self.path_refused(path) {
            return Err(FsError::Denied);
        }
        let ghost m0 = self.files();
        let owned = vstd::slice::slice_to_vec(data.as_slice());
        self.files.insert(path.to_owned(), owned);
        if self.write_count < u64::MAX {
            self.write_count = self.write_count + 1;
        }
        proof {
            assert(self.files() =~= m0.insert(path@, data@));
            assert(self.fail_paths@ == old(self).fail_paths@);
            assert forall|p: Seq<char>| self.io_ok(p) == old(self).io_ok(p) by {}
        }
        Ok(())
    }

    fn remove_file(&mut self, path: &str) -> (r: Result<(), FsError>) {
        if self.path_refused(path) {
            return Err(FsError::Denied);
        }
        let key = path.to_owned();
        if !self.files.has_key(&key) {
            return Err(FsError::NotFound);
        }
        let ghost m0 = self.files();
        self.files.remove(&key);
        proof {
            assert(self.files() =~= m0.remove(path@));
            assert(self.fail_paths@ == old(self).fail_paths@);
            assert forall|p: Seq<char>| self.io_ok(p) == old(self).io_ok(p) by {}
        }
        Ok(())
    }

    #[verifier::loop_isolation(false)]
    fn remove_dir_all(&mut self, path: &str) -> (r: Result<(), FsError>) {
        if self.path_refused(path) {
            return Err(FsError::Denied);
        }
        let ghost m0 = self.files();
        let ghost items0 = self.files.items();
        let mut kept: StrTable<Vec<u8>> = StrTable::new();
        let n = self.files.len();
        let mut i: usize = 0;
        while i < n
            invariant
                i <= n,
                n == items0.len(),
                self.files.items() == items0,
                self.files.wf(),
                kept.wf(),
                forall|k: Seq<char>| kept.contains_key(k) ==> self.files.contains_key(k)
                    && !path_under(k, path@) && kept.spec_lookup(k).unwrap()@
                    == self.files.spec_lookup(k).unwrap()@,
                forall|j: int| 0 <= j < i && !path_under(items0[j].0@, path@) ==>
                    kept.contains_key(items0[j].0@),
            decreases n - i,
        {
            let key = self.files.key_at(i);
            let val = self.files.value_at(i);
            let ghost kept0 = kept;
            if !is_under(key.as_str(), path) {
                let owned = vstd::slice::slice_to_vec(val.as_slice());
                proof {
                    assert forall|j: int| 0 <= j < items0.len() && j != i implies items0[j].0@
                        != key@ by {}
                    crate::table::lemma_str_lookup_at(items0, key@, i as int);
                }
                kept.insert(key.clone(), owned);
                proof {
                    assert(self.files.spec_lookup(key@) == Some(items0[i as int].1));
                    assert(kept.spec_lookup(key@) is Some);
                    assert(kept.spec_lookup(key@).unwrap()@ == items0[i as int].1@);
                    assert(self.files.contains_key(key@));
                    assert(!path_under(key@, path@));
                    assert forall|k: Seq<char>| kept.contains_key(k) implies self
                        .files
                        .contains_key(k) && !path_under(k, path@) && kept.spec_lookup(
                        k,
                    ).unwrap()@ == self.files.spec_lookup(k).unwrap()@ by {
                        if k == key@ {
                            assert(self.files.contains_key(k));
                            assert(!path_under(k, path@));
                            assert(kept.spec_lookup(k).unwrap()@ == self.files.spec_lookup(
                                k,
                            ).unwrap()@);
                        } else {
                            assert(kept.spec_lookup(k) == kept0.spec_lookup(k));
                            assert(kept0.contains_key(k));
                            assert(self.files.contains_key(k) && !path_under(k, path@));
                            assert(kept0.spec_lookup(k).unwrap()@ == self.files.spec_lookup(
                                k,
                            ).unwrap()@);
                        }
                    }
                    assert forall|j: int| 0 <= j < i + 1 && !path_under(items0[j].0@, path@)
                        implies kept.contains_key(items0[j].0@) by {
                        if j < i {
                            assert(kept0.contains_key(items0[j].0@));
                            if items0[j].0@ != key@ {
                                assert(kept.spec_lookup(items0[j].0@) == kept0.spec_lookup(
                                    items0[j].0@,
                                ));
                            }
                        }
                    }
                }
            }
            i += 1;
        }
        self.files = kept;
        let ghost d0 = self.dirs@;
        let mut kept_dirs: Vec<String> = Vec::new();
        let nd = self.dirs.len();
        let mut j: usize = 0;
        while j < nd
            invariant
                j <= nd,
                nd == d0.len(),
                self.dirs@ == d0,
                forall|a: int| 0 <= a < kept_dirs@.len() ==> (exists|b: int|
                    0 <= b < d0.len() && d0[b]@ == #[trigger] kept_dirs@[a]@) && !path_under(
                    kept_dirs@[a]@,
                    path@,
                ),
                forall|b: int| 0 <= b < j && !path_under(d0[b]@, path@) ==> exists|a: int|
                    0 <= a < kept_dirs@.len() && kept_dirs@[a]@ == d0[b]@,
            decreases nd - j,
        {
            let d = &self.dirs[j];
            let ghost kd0 = kept_dirs@;
            if !is_under(d.as_str(), path) {
                kept_dirs.push(d.clone());
                proof {
                    assert(kept_dirs@[kd0.len() as int]@ == d0[j as int]@);
                    assert forall|b: int| 0 <= b < j + 1 && !path_under(d0[b]@, path@)
                        implies exists|a: int|
                        0 <= a < kept_dirs@.len() && kept_dirs@[a]@ == d0[b]@ by {
                        if b < j {
                            let a = choose|a: int| 0 <= a < kd0.len() && kd0[a]@ == d0[b]@;
                            assert(kept_dirs@[a]@ == d0[b]@);
                        } else {
                            assert(kept_dirs@[kd0.len() as int]@ == d0[b]@);
                        }
                    }
                }
            }
            j += 1;
        }
        self.dirs = kept_dirs;
        proof {
            assert(self.fail_paths@ == old(self).fail_paths@);
            assert forall|p: Seq<char>| self.io_ok(p) == old(self).io_ok(p) by {}
            let under = Set::new(|k: Seq<char>| path_under(k, path@));
            assert forall|k: Seq<char>| self.files().dom().contains(k) <==> m0.remove_keys(
                under,
            ).dom().contains(k) by {
                if self.files().dom().contains(k) {
                } else {
                    if m0.dom().contains(k) && !path_under(k, path@) {
                        crate::table::lemma_str_lookup_index(items0, k);
                        let jj = choose|jj: int|
                            0 <= jj < items0.len() && items0[jj].0@ == k && str_lookup(items0, k)
                                == Some(items0[jj].1);
                        assert(self.files.contains_key(k));
                    }
                }
            }
            assert(self.files() =~= m0.remove_keys(under));
            let dset0 = Set::new(
                |d2: Seq<char>| exists|i2: int| 0 <= i2 < d0.len() && d0[i2]@ == d2,
            );
            assert forall|d2: Seq<char>| self.dirs().contains(d2) <==> dset0.difference(
                Set::new(|x: Seq<char>| path_under(x, path@)),
            ).contains(d2) by {}
            assert(self.dirs() =~= dset0.difference(Set::new(|x: Seq<char>| path_under(x, path@))));
        }
        Ok(())
    }
}

} // verus!
