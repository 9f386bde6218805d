//! Files the user dropped onto the window, and the one read each drop
//! authorises.

use vstd::prelude::*;

use vstd::string::{StrSliceExecFns, StringExecFns};

verus! {

/// Largest dropped file read into memory: 512 MiB.
pub const DROPPED_FILE_MAX_BYTES: u64 = 536870912;

pub open spec fn path_views(s: Seq<String>) -> Seq<Seq<char>> {
    s.map_values(|p: String| p@)
}

/// The paths of files the user actually dropped onto the window. Page script
/// may only read a file listed here, and each drop authorises one read.
pub struct DroppedPaths {
    paths: Vec<String>,
}

impl DroppedPaths {
    /// The dropped paths not yet read.
    pub closed spec fn paths(&self) -> Set<Seq<char>> {
        path_views(self.paths@).to_set()
    }

    /// Nothing dropped.
    pub fn new() -> (r: Self)
        ensures
            r.paths() == Set::<Seq<char>>::empty(),
    {
        let r = DroppedPaths { paths: Vec::new() };
        assert(r.paths() =~= Set::<Seq<char>>::empty());
        r
    }

    fn position(&self, path: &str) -> (r: Option<usize>)
        ensures
            match r {
                Some(i) => i < self.paths@.len() && self.paths@[i as int]@ == path@,
                None => !self.paths().contains(path@),
            },
    {
        let mut i: usize = 0;
        while i < self.paths.len()
            invariant
                i <= self.paths@.len(),
                forall|k: int| 0 <= k < i ==> self.paths@[k]@ != path@,
            decreases self.paths@.len() - i,
        {
            if str_eq(self.paths[i].as_str(), path) {
                return Some(i);
            }
            i = i + 1;
        }
        proof {
            if self.paths().contains(path@) {
                let k = choose|k: int| 0 <= k < path_views(self.paths@).len()
                    && #[trigger] path_views(self.paths@)[k] == path@;
                assert(self.paths@[k]@ == path@);
            }
        }
        None
    }

    /// Records a dropped file's path.
    pub fn record(&mut self, path: String)
        ensures
            final(self).paths() == old(self).paths().insert(path@),
    {
        match self.position(path.as_str()) {
            Some(i) => {
                proof {
                    assert(path_views(self.paths@)[i as int] == path@);
                    assert(old(self).paths().insert(path@) =~= old(self).paths());
                }
            },
            None => {
                let ghost before = path_views(self.paths@);
                self.paths.push(path);
                proof {
                    assert(path_views(self.paths@) =~= before.push(path@));
                    broadcast use vstd::seq_lib::group_seq_properties;
                    assert(before.push(path@).to_set() =~= before.to_set().insert(path@));
                }
            },
        }
    }

    fn remove_one(&mut self, path: &str) -> (found: bool)
        ensures
            found == old(self).paths().contains(path@),
            final(self).paths() == old(self).paths().remove(path@),
    {
        let mut kept: Vec<String> = Vec::new();
        let mut found = false;
        let mut i: usize = 0;
        while i < self.paths.len()
            invariant
                i <= self.paths@.len(),
                path_views(kept@).to_set() == path_views(self.paths@.take(i as int)).to_set().remove(path@),
                found == path_views(self.paths@.take(i as int)).contains(path@),
            decreases self.paths@.len() - i,
        {
            let ghost prev = path_views(self.paths@.take(i as int));
            let ghost next = path_views(self.paths@.take(i + 1));
            assert(next == prev.push(self.paths@[i as int]@));
            proof {
                broadcast use vstd::seq_lib::group_seq_properties;
            }
            if str_eq(self.paths[i].as_str(), path) {
                found = true;
                assert(next.to_set().remove(path@) =~= prev.to_set().remove(path@));
            } else {
                let ghost before = path_views(kept@);
                kept.push(self.paths[i].clone());
                assert(path_views(kept@) =~= before.push(self.paths@[i as int]@));
                assert(next.to_set().remove(path@) =~= prev.to_set().remove(path@).insert(self.paths@[i as int]@));
            }
            i = i + 1;
        }
        assert(self.paths@.take(i as int) == self.paths@);
        self.paths = kept;
        found
    }

    /// Uses up the authorisation to read a dropped file, asked for by the
    /// path the page named and by that path canonicalised: both are struck
    /// off, and the read is authorised if either was listed.
    pub fn take_authorisation(&mut self, canonical: &str, requested: &str) -> (authorised: bool)
        ensures
            authorised == (old(self).paths().contains(canonical@) || old(self).paths().contains(requested@)),
            final(self).paths() == old(self).paths().remove(canonical@).remove(requested@),
    {
        let a = self.remove_one(canonical);
        let b = self.remove_one(requested);
        proof {
            if canonical@ != requested@ {
                assert(old(self).paths().remove(canonical@).contains(requested@) == old(self).paths().contains(requested@));
            }
        }
        a || b
    }
}

fn str_eq(a: &str, b: &str) -> (r: bool)
    ensures
        r == (a@ == b@),
{
    let ac = crate::text::chars_of(a);
    let bc = crate::text::chars_of(b);
    if ac.len() != bc.len() {
        return false;
    }
    let r = crate::text::matches_at(ac.as_slice(), 0, bc.as_slice());
    assert(ac@.subrange(0, bc@.len() as int) =~= ac@);
    r
}

/// A drop authorises one read: after a read is granted, the same path is
/// refused until it is dropped again.
pub proof fn law_one_read_per_drop(paths: Set<Seq<char>>, canonical: Seq<char>, requested: Seq<char>)
    ensures
        !({
            let after = paths.remove(canonical).remove(requested);
            after.contains(canonical) || after.contains(requested)
        }),
{
}

/// Why a dropped file is not handed to the page.
#[derive(Debug, PartialEq, Eq)]
pub enum DropError {
    /// The path was not part of a drop onto the window, or was read already.
    NotDropped,
    /// The file is over `DROPPED_FILE_MAX_BYTES`.
    TooLarge,
}

/// Refuses files over the size limit.
pub fn check_dropped_size(len: u64) -> (r: Result<(), DropError>)
    ensures
        r is Ok <==> len <= DROPPED_FILE_MAX_BYTES,
        r matches Err(e) ==> e == DropError::TooLarge,
{
    if len > DROPPED_FILE_MAX_BYTES {
        Err(DropError::TooLarge)
    } else {
        Ok(())
    }
}

/// The MIME type `mime_guess` gives a path, by its extension, as an
/// essence string. The extension is read with the path syntax of the target
/// the library is compiled for (`\` separates components on Windows only);
/// for a given build the result depends on the path alone.
pub uninterp spec fn mime_for_path(path: Seq<char>) -> Seq<char>;

/// `mime_guess::from_path(..).first_or_octet_stream()`, as its essence
/// string: the first MIME type known for the path's extension, or
/// `application/octet-stream`.
#[verifier::external_body]
fn guess_mime(path: &str) -> (r: String)
    ensures
        r@ == mime_for_path(path@),
{
    mime_guess::from_path(path).first_or_octet_stream().essence_str().to_string()
}

/// The final component of a path as `Path::file_name` gives it, if there is
/// one, with the path syntax of the target the library is compiled for.
pub uninterp spec fn path_file_name(path: Seq<char>) -> Option<Seq<char>>;

/// `Path::file_name`. The path is a `str`, so its final component is valid
/// Unicode and comes back whenever there is one.
#[verifier::external_body]
fn file_name_of(path: &str) -> (r: Option<String>)
    ensures
        match r {
            Some(n) => path_file_name(path@) == Some(n@),
            None => path_file_name(path@) is None,
        },
{
    match std::path::Path::new(path).file_name() {
        Some(n) => n.to_str().map(str::to_string),
        None => None,
    }
}

/// What the page is told about a dropped file.
pub struct DroppedFileInfo {
    pub name: String,
    pub mime: String,
}

/// The description of a dropped file from its file name, if its path has
/// one, and its MIME type: the name falls back to `file`.
pub fn dropped_file_info(file_name: Option<String>, mime: String) -> (r: DroppedFileInfo)
    ensures
        r.name@ == match file_name {
            Some(n) => n@,
            None => "file"@,
        },
        r.mime@ == mime@,
{
    let name = match file_name {
        Some(n) => n,
        None => String::from_str("file"),
    };
    DroppedFileInfo { name, mime }
}

/// Name and MIME type of a dropped file, from its canonical path: the final
/// path component (`file` when there is none) and the type its extension
/// implies, as `dropped_file_info` assembles them from `Path::file_name` and
/// `mime_guess`.
pub fn describe_dropped(canonical: &str) -> (r: DroppedFileInfo)
    ensures
        r.name@ == match path_file_name(canonical@) {
            Some(n) => n,
            None => "file"@,
        },
        r.mime@ == mime_for_path(canonical@),
{
    let name = file_name_of(canonical);
    let mime = guess_mime(canonical);
    dropped_file_info(name, mime)
}

} // verus!
