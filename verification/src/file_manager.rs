//! The files opened in one session, and the rule that hides disabled files.
use vstd::prelude::*;
use std::collections::HashSet;
use vstd::string::StrSliceExecFns;
use crate::log::LogLine;
use crate::resolver::VisibilityRule;

verus! {

broadcast use vstd::std_specs::hash::group_hash_axioms;

/// The position of the last `c` in `s`, or -1 when there is none.
pub open spec fn last_index_of(s: Seq<char>, c: char) -> int
    decreases s.len(),
{
    if s.len() == 0 {
        -1
    } else if s.last() == c {
        s.len() - 1
    } else {
        last_index_of(s.drop_last(), c)
    }
}

proof fn lemma_last_index_of(s: Seq<char>, c: char)
    ensures
        -1 <= last_index_of(s, c) < s.len(),
        last_index_of(s, c) >= 0 ==> s[last_index_of(s, c)] == c,
        forall|k: int| last_index_of(s, c) < k < s.len() ==> s[k] != c,
    decreases s.len(),
{
    if s.len() > 0 && s.last() != c {
        lemma_last_index_of(s.drop_last(), c);
        assert forall|k: int| last_index_of(s, c) < k < s.len() implies s[k] != c by {
            if k < s.len() - 1 {
                assert(s.drop_last()[k] == s[k]);
            }
        }
    }
}

/// The part of a path after its last `/` (the whole path when it has none).
pub open spec fn file_name_of(path: Seq<char>) -> Seq<char> {
    path.subrange(last_index_of(path, '/') + 1, path.len() as int)
}

/// Represents a single file in a multi-file session.
#[derive(Debug, Clone)]
pub struct FileEntry {
    /// The file path.
    pub path: String,
    /// The file ID.
    pub file_id: usize,
    /// Whether the view for this file is enabled.
    pub enabled: bool,
}

impl FileEntry {
    /// A new, enabled entry.
    pub fn new(path: String, file_id: usize) -> (r: Self)
        ensures
            r.path@ == path@,
            r.file_id == file_id,
            r.enabled,
    {
        Self { path, file_id, enabled: true }
    }

    /// The file name: the part of the path after its last `/`.
    pub fn get_filename(&self) -> (r: &str)
        ensures
            r@ == file_name_of(self.path@),
    {
        let p = self.path.as_str();
        let n = p.unicode_len();
        let mut i: usize = n;
        proof {
            lemma_last_index_of(p@, '/');
        }
        while i > 0
            invariant
                i <= n,
                n == p@.len(),
                p@ == self.path@,
                forall|k: int| i <= k < n ==> p@[k] != '/',
            ensures
                i <= n,
                forall|k: int| i <= k < n ==> p@[k] != '/',
                i == 0 || p@[i - 1] == '/',
            decreases i,
        {
            if p.get_char(i - 1) == '/' {
                break;
            }
            i -= 1;
        }
        proof {
            let li = last_index_of(p@, '/');
            if i > 0 {
                assert(p@[i - 1] == '/');
                assert(li == i - 1) by {
                    if li > i - 1 {
                        assert(p@[li] == '/');
                    }
                }
            } else {
                assert(li == -1) by {
                    if li >= 0 {
                        assert(p@[li] == '/');
                    }
                }
            }
        }
        p.substring_char(i, n)
    }

    /// The file path.
    pub fn get_path(&self) -> (r: &str)
        ensures
            r@ == self.path@,
    {
        self.path.as_str()
    }
}

/// Manages the list of opened files in multi-file sessions.
#[derive(Debug)]
pub struct FileManager {
    /// List of file entries.
    files: Vec<FileEntry>,
}

impl FileManager {
    /// The file entries, in order.
    pub closed spec fn entries(&self) -> Seq<FileEntry> {
        self.files@
    }

    /// One enabled entry per path, with ids 0, 1, 2, ... in order.
    pub fn new(file_paths: &[String]) -> (r: Self)
        ensures
            r.entries().len() == file_paths@.len(),
            forall|i: int|
                0 <= i < file_paths@.len() ==> (#[trigger] r.entries()[i]).path@ == file_paths@[i]@
                    && r.entries()[i].file_id == i && r.entries()[i].enabled,
    {
        let mut files: Vec<FileEntry> = Vec::new();
        let mut i: usize = 0;
        while i < file_paths.len()
            invariant
                i <= file_paths@.len(),
                files@.len() == i,
                forall|k: int|
                    0 <= k < i ==> (#[trigger] files@[k]).path@ == file_paths@[k]@ && files@[k].file_id
                        == k && files@[k].enabled,
            decreases file_paths@.len() - i,
        {
            files.push(FileEntry::new(file_paths[i].clone(), i));
            i += 1;
        }
        Self { files }
    }

    /// Returns the number of files.
    pub fn count(&self) -> (r: usize)
        ensures
            r == self.entries().len(),
    {
        self.files.len()
    }

    /// Returns true if there are multiple files loaded.
    pub fn is_multi_file(&self) -> (r: bool)
        ensures
            r == (self.entries().len() > 1),
    {
        self.files.len() > 1
    }

    /// Returns true if no file is loaded.
    pub fn is_empty(&self) -> (r: bool)
        ensures
            r == (self.entries().len() == 0),
    {
        self.files.len() == 0
    }

    /// Returns all file paths.
    pub fn paths(&self) -> (r: Vec<&str>)
        ensures
            r@.len() == self.entries().len(),
            forall|i: int| 0 <= i < r@.len() ==> (#[trigger] r@[i])@ == self.entries()[i].path@,
    {
        let mut out: Vec<&str> = Vec::new();
        let mut i: usize = 0;
        while i < self.files.len()
            invariant
                i <= self.files@.len(),
                out@.len() == i,
                forall|k: int| 0 <= k < i ==> (#[trigger] out@[k])@ == self.files@[k].path@,
            decreases self.files@.len() - i,
        {
            out.push(self.files[i].path.as_str());
            i += 1;
        }
        out
    }

    /// Returns the first file path (typically used in single-file mode).
    pub fn first_path(&self) -> (r: Option<&str>)
        ensures
            self.entries().len() > 0 ==> (r matches Some(p) && p@ == self.entries()[0].path@),
            self.entries().len() == 0 ==> r is None,
    {
        if self.files.len() > 0 {
            Some(self.files[0].path.as_str())
        } else {
            None
        }
    }

    /// Returns an iterator over the file entries.
    pub fn iter(&self) -> (r: std::slice::Iter<'_, FileEntry>)
        ensures
            vstd::std_specs::slice::into_iter_elts(r) == self.entries(),
    {
        broadcast use vstd::std_specs::slice::axiom_spec_slice_iter;
        let r = self.files.as_slice().iter();
        proof {
            assert(vstd::std_specs::iter::IteratorSpec::remaining(&r).unref() =~= self.entries());
        }
        r
    }

    /// Gets a file entry by index.
    pub fn get(&self, index: usize) -> (r: Option<&FileEntry>)
        ensures
            index < self.entries().len() ==> r == Some(&self.entries()[index as int]),
            index >= self.entries().len() ==> r is None,
    {
        if index < self.files.len() {
            Some(&self.files[index])
        } else {
            None
        }
    }

    /// Toggles the enabled state of a file at the given index.
    pub fn toggle_enabled(&mut self, index: usize)
        ensures
            final(self).entries().len() == old(self).entries().len(),
            forall|i: int|
                0 <= i < old(self).entries().len() && i != index ==> #[trigger] final(self).entries()[i]
                    == old(self).entries()[i],
            index < old(self).entries().len() ==> final(self).entries()[index as int] == (FileEntry {
                enabled: !old(self).entries()[index as int].enabled,
                ..old(self).entries()[index as int]
            }),
    {
        if index < self.files.len() {
            let e = self.files[index].enabled;
            self.files[index].enabled = !e;
        }
    }

    /// Returns the set of ids of the enabled files.
    pub fn enabled_file_ids(&self) -> (r: HashSet<usize>)
        ensures
            forall|id: usize|
                #[trigger] r@.contains(id) <==> exists|i: int|
                    0 <= i < self.entries().len() && self.entries()[i].enabled
                        && self.entries()[i].file_id == id,
    {
        let mut ids: HashSet<usize> = HashSet::new();
        let mut i: usize = 0;
        while i < self.files.len()
            invariant
                i <= self.files@.len(),
                forall|id: usize|
                    #[trigger] ids@.contains(id) <==> exists|k: int|
                        0 <= k < i && self.files@[k].enabled && self.files@[k].file_id == id,
            decreases self.files@.len() - i,
        {
            if self.files[i].enabled {
                ids.insert(self.files[i].file_id);
            }
            proof {
                assert forall|id: usize|
                    #[trigger] ids@.contains(id) <==> exists|k: int|
                        0 <= k < i + 1 && self.files@[k].enabled && self.files@[k].file_id == id by {
                    if exists|k: int| 0 <= k < i + 1 && self.files@[k].enabled && self.files@[k].file_id == id {
                        let k = choose|k: int| 0 <= k < i + 1 && self.files@[k].enabled && self.files@[k].file_id == id;
                        if k < i {
                        }
                    }
                }
            }
            i += 1;
        }
        proof {
            assert forall|id: usize|
                #[trigger] ids@.contains(id) <==> exists|k: int|
                    0 <= k < self.entries().len() && self.entries()[k].enabled
                        && self.entries()[k].file_id == id by {
                assert(self.entries() == self.files@);
            }
        }
        ids
    }
}

/// Rule that shows only lines of enabled files; lines without a file are always shown.
pub struct FileFilterRule {
    enabled_file_ids: HashSet<usize>,
}

impl FileFilterRule {
    /// A rule for the given enabled file ids.
    pub fn new(enabled_file_ids: HashSet<usize>) -> (r: Self)
        ensures
            r.enabled_ids() == enabled_file_ids@,
    {
        Self { enabled_file_ids }
    }

    /// The ids of the files whose lines are shown.
    pub closed spec fn enabled_ids(&self) -> Set<usize> {
        self.enabled_file_ids@
    }
}

impl VisibilityRule for FileFilterRule {
    open spec fn accepts(&self, line: LogLine) -> bool {
        match line.log_file_id {
            Some(id) => self.enabled_ids().contains(id),
            None => true,
        }
    }

    fn is_visible(&self, line: &LogLine) -> (r: bool) {
        match line.log_file_id {
            Some(file_id) => self.enabled_file_ids.contains(&file_id),
            None => true,
        }
    }
}

} // verus!
