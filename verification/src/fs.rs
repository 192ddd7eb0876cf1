//! The filesystem surface the library computes over: a value-level model of
//! the sysfs/procfs tree, rooted at a path prefix.
//!
//! Every component reads and writes through [`SysfsRoot`], so planning,
//! apply, revert and status are verified against this model; the thin shell
//! around the library mirrors the real files into it and flushes changed
//! files back out.

use vstd::prelude::*;
use crate::error::Error;
use crate::text;

verus! {

/// One regular file: full path and raw content.
#[derive(Debug, Clone)]
pub struct FsFile {
    pub path: String,
    pub content: String,
}

/// One symbolic link: full path and the full path it resolves to.
#[derive(Debug, Clone)]
pub struct FsLink {
    pub path: String,
    pub target: String,
}

/// A modelled filesystem tree rooted at `root`.
#[derive(Debug, Clone)]
pub struct SysfsRoot {
    pub root: String,
    pub files: Vec<FsFile>,
    pub links: Vec<FsLink>,
    pub dirs: Vec<String>,
    pub write_protected: Vec<String>,
    pub read_protected: Vec<String>,
}

/// `root` and `rel` joined with exactly one separating `/`.
pub open spec fn path_join(root: Seq<char>, rel: Seq<char>) -> Seq<char> {
    if root.len() > 0 && root[root.len() - 1] == '/' {
        root + rel
    } else {
        root + seq!['/'] + rel
    }
}

/// First content bound to `full` in `files` at or after index `i`.
pub open spec fn lookup_from(files: Seq<FsFile>, i: int, full: Seq<char>) -> Option<Seq<char>>
    decreases files.len() - i,
{
    if i < 0 || i >= files.len() {
        None
    } else if files[i].path@ == full {
        Some(files[i].content@)
    } else {
        lookup_from(files, i + 1, full)
    }
}

/// First target bound to `full` in `links` at or after index `i`.
pub open spec fn link_from(links: Seq<FsLink>, i: int, full: Seq<char>) -> Option<Seq<char>>
    decreases links.len() - i,
{
    if i < 0 || i >= links.len() {
        None
    } else if links[i].path@ == full {
        Some(links[i].target@)
    } else {
        link_from(links, i + 1, full)
    }
}

/// Whether some string in `v`, at or after `i`, equals `x`.
pub open spec fn seq_has_from(v: Seq<String>, i: int, x: Seq<char>) -> bool
    decreases v.len() - i,
{
    if i < 0 || i >= v.len() {
        false
    } else if v[i]@ == x {
        true
    } else {
        seq_has_from(v, i + 1, x)
    }
}

impl SysfsRoot {
    /// The paths of files stored in the model.
    pub open spec fn file_paths(&self) -> Seq<Seq<char>> {
        self.files@.map_values(|f: FsFile| f.path@)
    }

    /// The model is well formed when no file path repeats.
    pub open spec fn wf(&self) -> bool {
        forall|i: int, j: int|
            0 <= i < j < self.files@.len() ==> self.files@[i].path@ != self.files@[j].path@
    }

    /// The full path that `rel` names under this root.
    pub open spec fn full(&self, rel: Seq<char>) -> Seq<char> {
        path_join(self.root@, rel)
    }

    /// The content stored for the full path, if a file is there.
    pub open spec fn lookup(&self, full: Seq<char>) -> Option<Seq<char>> {
        lookup_from(self.files@, 0, full)
    }

    /// The content stored for the path `rel` names, if a file is there.
    pub open spec fn lookup_rel(&self, rel: Seq<char>) -> Option<Seq<char>> {
        self.lookup(self.full(rel))
    }

    /// Whether writes to the full path fail.
    pub open spec fn is_protected(&self, full: Seq<char>) -> bool {
        seq_has_from(self.write_protected@, 0, full)
    }

    /// Whether reads of the full path fail with an error other than
    /// absence — the model of an I/O failure that is neither NotFound nor
    /// PermissionDenied-as-absence, which callers must propagate.
    pub open spec fn is_read_protected(&self, full: Seq<char>) -> bool {
        seq_has_from(self.read_protected@, 0, full)
    }

    /// Whether something exists at the full path: a file, a link, a
    /// registered directory, or a directory implied by a deeper entry.
    pub open spec fn present(&self, full: Seq<char>) -> bool {
        ||| self.lookup(full) is Some
        ||| link_from(self.links@, 0, full) is Some
        ||| seq_has_from(self.dirs@, 0, full)
        ||| exists|i: int|
            0 <= i < self.files@.len() && text::has_prefix(
                #[trigger] self.files@[i].path@,
                full + seq!['/'],
            )
        ||| exists|i: int|
            0 <= i < self.links@.len() && text::has_prefix(
                #[trigger] self.links@[i].path@,
                full + seq!['/'],
            )
        ||| exists|i: int|
            0 <= i < self.dirs@.len() && text::has_prefix(
                #[trigger] self.dirs@[i]@,
                full + seq!['/'],
            )
    }

    /// An empty model rooted at the given prefix.
    pub fn new(root: &str) -> (r: Self)
        ensures
            r.root@ == root@,
            r.files@.len() == 0,
            r.links@.len() == 0,
            r.dirs@.len() == 0,
            r.write_protected@.len() == 0,
            r.read_protected@.len() == 0,
            r.wf(),
    {
        SysfsRoot {
            root: root.to_owned(),
            files: Vec::new(),
            links: Vec::new(),
            dirs: Vec::new(),
            write_protected: Vec::new(),
            read_protected: Vec::new(),
        }
    }

    /// A model that stands for the real system, rooted at `/`.
    pub fn system() -> (r: Self)
        ensures
            r.root@ == "/"@,
            r.files@.len() == 0,
            r.links@.len() == 0,
            r.dirs@.len() == 0,
            r.write_protected@.len() == 0,
            r.read_protected@.len() == 0,
            r.wf(),
    {
        Self::new("/")
    }

    /// The root prefix.
    pub fn root(&self) -> (r: &str)
        ensures
            r@ == self.root@,
    {
        self.root.as_str()
    }

    /// The full path that `rel` names under this root.
    pub fn path(&self, rel: &str) -> (r: String)
        ensures
            r@ == self.full(rel@),
    {
        let n = self.root.as_str().unicode_len();
        if n > 0 && self.root.as_str().get_char(n - 1) == '/' {
            text::concat(self.root.as_str(), rel)
        } else {
            let r = text::concat3(self.root.as_str(), "/", rel);
            proof {
                reveal_strlit("/");
                assert("/"@ =~= seq!['/']);
            }
            r
        }
    }

    /// Index of the first file at the given full path, if any.
    fn find_file(&self, full: &str) -> (r: Option<usize>)
        ensures
            match r {
                Some(i) => i < self.files@.len() && self.files@[i as int].path@ == full@
                    && self.lookup(full@) == Some(self.files@[i as int].content@) && forall|
                    j: int,
                |
                    0 <= j < i ==> self.files@[j].path@ != full@,
                None => self.lookup(full@) is None && forall|j: int|
                    0 <= j < self.files@.len() ==> self.files@[j].path@ != full@,
            },
    {
        let mut i: usize = 0;
        while i < self.files.len()
            invariant
                i <= self.files@.len(),
                self.lookup(full@) == lookup_from(self.files@, i as int, full@),
                forall|j: int| 0 <= j < i ==> self.files@[j].path@ != full@,
            decreases self.files@.len() - i,
        {
            if text::str_eq(self.files[i].path.as_str(), full) {
                return Some(i);
            }
            i = i + 1;
        }
        None
    }

    /// Reads the file `rel` names and trims it, as sysfs consumers do.
    /// Fails exactly when no file is there or the path refuses reads.
    pub fn read(&self, rel: &str) -> (r: Result<String, Error>)
        ensures
            match r {
                Ok(s) => self.trimmed_at(rel@) == Some(s@),
                Err(e) => self.trimmed_at(rel@) is None && e is SysfsRead,
            },
    {
        let full = self.path(rel);
        if self.check_read_protected(full.as_str()) {
            return Err(Error::SysfsRead { path: full });
        }
        match self.find_file(full.as_str()) {
            Some(i) => Ok(text::trim(self.files[i].content.as_str())),
            None => Err(Error::SysfsRead { path: full }),
        }
    }

    /// Reads the file `rel` names without trimming: the exact stored
    /// bytes. Fails when no file is there or the path refuses reads.
    pub fn read_raw(&self, rel: &str) -> (r: Result<String, Error>)
        ensures
            match r {
                Ok(s) => !self.is_read_protected(self.full(rel@)) && self.lookup_rel(rel@)
                    == Some(s@),
                Err(e) => (self.is_read_protected(self.full(rel@)) || self.lookup_rel(
                    rel@,
                ) is None) && e is SysfsRead,
            },
    {
        let full = self.path(rel);
        if self.check_read_protected(full.as_str()) {
            return Err(Error::SysfsRead { path: full });
        }
        match self.find_file(full.as_str()) {
            Some(i) => Ok(self.files[i].content.clone()),
            None => Err(Error::SysfsRead { path: full }),
        }
    }

    /// Reads the file at a full path, trimmed; `None` when absent or
    /// unreadable.
    pub fn read_full_optional(&self, full: &str) -> (r: Option<String>)
        ensures
            match r {
                Some(s) => !self.is_read_protected(full@) && self.lookup(full@) is Some && s@
                    == text::trim_seq(self.lookup(full@)->0),
                None => self.is_read_protected(full@) || self.lookup(full@) is None,
            },
    {
        if self.check_read_protected(full) {
            return None;
        }
        match self.find_file(full) {
            Some(i) => Some(text::trim(self.files[i].content.as_str())),
            None => None,
        }
    }

    /// Writes `value` to the file at a full path, creating it if absent.
    /// Fails, leaving the model unchanged, exactly on a protected path.
    pub fn write_full(&mut self, full: &str, value: &str) -> (r: Result<(), Error>)
        requires
            old(self).wf(),
        ensures
            final(self).wf(),
            final(self).root == old(self).root,
            final(self).links == old(self).links,
            final(self).dirs == old(self).dirs,
            final(self).write_protected == old(self).write_protected,
            final(self).read_protected == old(self).read_protected,
            match r {
                Ok(()) => !old(self).is_protected(full@) && final(self).lookup(full@) == Some(
                    value@,
                ) && forall|p: Seq<char>|
                    p != full@ ==> final(self).lookup(p) == old(self).lookup(p),
                Err(e) => old(self).is_protected(full@) && *final(self) == *old(self)
                    && e is SysfsWrite,
            },
    {
        if self.check_protected(full) {
            return Err(Error::SysfsWrite { path: full.to_owned() });
        }
        match self.find_file(full) {
            Some(i) => {
                let ghost pre = self.files@;
                self.files[i] = FsFile { path: full.to_owned(), content: value.to_owned() };
                proof {
                    let f2 = self.files@[i as int];
                    lemma_lookup_update(pre, i as int, f2, full@, full@);
                    assert forall|p: Seq<char>| p != full@ implies self.lookup(p) == lookup_from(
                        pre,
                        0,
                        p,
                    ) by {
                        lemma_lookup_update(pre, i as int, f2, full@, p);
                    }
                }
                Ok(())
            },
            None => {
                let ghost pre = self.files@;
                self.files.push(FsFile { path: full.to_owned(), content: value.to_owned() });
                proof {
                    let f2 = self.files@.last();
                    lemma_lookup_push(pre, f2, full@);
                    assert forall|p: Seq<char>| p != full@ implies self.lookup(p) == lookup_from(
                        pre,
                        0,
                        p,
                    ) by {
                        lemma_lookup_push(pre, f2, p);
                    }
                }
                Ok(())
            },
        }
    }

    /// Reads and trims, treating absence — NotFound, or the
    /// PermissionDenied the kernel uses for values that are not exposed —
    /// as `None`, and propagating any other read failure as an error.
    pub fn read_optional(&self, rel: &str) -> (r: Result<Option<String>, Error>)
        ensures
            match r {
                Ok(o) => match o {
                    Some(s) => self.trimmed_at(rel@) == Some(s@),
                    None => !self.is_read_protected(self.full(rel@)) && self.lookup_rel(
                        rel@,
                    ) is None,
                },
                Err(e) => self.is_read_protected(self.full(rel@)) && e is SysfsRead,
            },
    {
        let full = self.path(rel);
        if self.check_read_protected(full.as_str()) {
            return Err(Error::SysfsRead { path: full });
        }
        match self.find_file(full.as_str()) {
            Some(i) => Ok(Some(text::trim(self.files[i].content.as_str()))),
            None => Ok(None),
        }
    }

    /// Reads, trims and parses a decimal value.
    pub fn read_parse_u64(&self, rel: &str) -> (r: Result<u64, Error>)
        ensures
            match r {
                Ok(v) => self.trimmed_at(rel@) is Some && Some(v) == text::parse_u64_seq(
                    self.trimmed_at(rel@)->0,
                ),
                Err(e) => match self.trimmed_at(rel@) {
                    Some(c) => text::parse_u64_seq(c) is None && e is Parse,
                    None => e is SysfsRead,
                },
            },
    {
        let v = self.read(rel)?;
        match text::parse_u64(v.as_str()) {
            Some(n) => Ok(n),
            None => Err(
                Error::Parse { path: self.path(rel), detail: v },
            ),
        }
    }

    /// The trimmed content at the path `rel` names, when a readable file
    /// is there.
    pub open spec fn trimmed_at(&self, rel: Seq<char>) -> Option<Seq<char>> {
        if self.is_read_protected(self.full(rel)) {
            None
        } else {
            match self.lookup_rel(rel) {
                Some(c) => Some(text::trim_seq(c)),
                None => None,
            }
        }
    }

    /// Reads and trims; `None` when absent. The plain-value form of
    /// [`SysfsRoot::read_optional`] that hardware detection uses.
    pub fn read_opt(&self, rel: &str) -> (r: Option<String>)
        ensures
            match r {
                Some(s) => self.trimmed_at(rel@) == Some(s@),
                None => self.trimmed_at(rel@) is None,
            },
    {
        match self.read_optional(rel) {
            Ok(o) => o,
            Err(_) => None,
        }
    }

    /// Writes `value` to the file `rel` names, creating it if absent.
    /// Fails, leaving the model unchanged, exactly on a protected path.
    pub fn write(&mut self, rel: &str, value: &str) -> (r: Result<(), Error>)
        requires
            old(self).wf(),
        ensures
            final(self).wf(),
            final(self).root == old(self).root,
            final(self).links == old(self).links,
            final(self).dirs == old(self).dirs,
            final(self).write_protected == old(self).write_protected,
            final(self).read_protected == old(self).read_protected,
            match r {
                Ok(()) => !old(self).is_protected(old(self).full(rel@)) && final(self).lookup(
                    old(self).full(rel@),
                ) == Some(value@) && forall|p: Seq<char>|
                    p != old(self).full(rel@) ==> final(self).lookup(p) == old(self).lookup(p),
                Err(e) => old(self).is_protected(old(self).full(rel@)) && *final(self) == *old(
                    self,
                ) && e is SysfsWrite,
            },
    {
        let full = self.path(rel);
        if self.check_protected(full.as_str()) {
            return Err(Error::SysfsWrite { path: full });
        }
        let ghost fullv = old(self).full(rel@);
        match self.find_file(full.as_str()) {
            Some(i) => {
                let ghost pre = self.files@;
                self.files[i] = FsFile { path: full, content: value.to_owned() };
                proof {
                    let f2 = self.files@[i as int];
                    lemma_lookup_update(pre, i as int, f2, fullv, fullv);
                    assert forall|p: Seq<char>| p != fullv implies self.lookup(p) == lookup_from(
                        pre,
                        0,
                        p,
                    ) by {
                        lemma_lookup_update(pre, i as int, f2, fullv, p);
                    }
                }
                Ok(())
            },
            None => {
                let ghost pre = self.files@;
                self.files.push(FsFile { path: full, content: value.to_owned() });
                proof {
                    let f2 = self.files@.last();
                    lemma_lookup_push(pre, f2, fullv);
                    assert forall|p: Seq<char>| p != fullv implies self.lookup(p) == lookup_from(
                        pre,
                        0,
                        p,
                    ) by {
                        lemma_lookup_push(pre, f2, p);
                    }
                }
                Ok(())
            },
        }
    }

    /// Whether reads of the given full path are set to fail.
    fn check_read_protected(&self, full: &str) -> (r: bool)
        ensures
            r == self.is_read_protected(full@),
    {
        let mut i: usize = 0;
        while i < self.read_protected.len()
            invariant
                i <= self.read_protected@.len(),
                self.is_read_protected(full@) == seq_has_from(
                    self.read_protected@,
                    i as int,
                    full@,
                ),
            decreases self.read_protected@.len() - i,
        {
            if text::str_eq(self.read_protected[i].as_str(), full) {
                return true;
            }
            i = i + 1;
        }
        false
    }

    /// Marks the path `rel` names as failing every read from now on, with
    /// the error the model propagates rather than treats as absence.
    pub fn deny_reads(&mut self, rel: &str)
        ensures
            final(self).is_read_protected(old(self).full(rel@)),
            final(self).root == old(self).root,
            final(self).files == old(self).files,
            final(self).links == old(self).links,
            final(self).dirs == old(self).dirs,
            final(self).write_protected == old(self).write_protected,
            final(self).wf() == old(self).wf(),
    {
        let full = self.path(rel);
        self.read_protected.push(full);
        proof {
            lemma_seq_has_found(
                self.read_protected@,
                self.read_protected@.len() - 1,
                old(self).full(rel@),
            );
            assert(self.files@ == old(self).files@);
            assert(self.wf() == old(self).wf());
        }
    }

    /// Whether writes to the path `rel` names are set to fail.
    fn check_protected(&self, full: &str) -> (r: bool)
        ensures
            r == self.is_protected(full@),
    {
        let mut i: usize = 0;
        while i < self.write_protected.len()
            invariant
                i <= self.write_protected@.len(),
                self.is_protected(full@) == seq_has_from(
                    self.write_protected@,
                    i as int,
                    full@,
                ),
            decreases self.write_protected@.len() - i,
        {
            if text::str_eq(self.write_protected[i].as_str(), full) {
                return true;
            }
            i = i + 1;
        }
        false
    }

    /// Marks the path `rel` names as failing every write from now on.
    pub fn deny_writes(&mut self, rel: &str)
        ensures
            final(self).is_protected(old(self).full(rel@)),
            final(self).root == old(self).root,
            final(self).files == old(self).files,
            final(self).links == old(self).links,
            final(self).dirs == old(self).dirs,
            final(self).read_protected == old(self).read_protected,
            final(self).wf() == old(self).wf(),
    {
        let full = self.path(rel);
        self.write_protected.push(full);
        proof {
            lemma_seq_has_found(
                self.write_protected@,
                self.write_protected@.len() - 1,
                old(self).full(rel@),
            );
        }
    }

    /// Registers a directory, so that `exists` and `list_dir` see it even
    /// while it has no files.
    pub fn add_dir(&mut self, rel: &str)
        ensures
            final(self).root == old(self).root,
            final(self).files == old(self).files,
            final(self).links == old(self).links,
            final(self).write_protected == old(self).write_protected,
            final(self).read_protected == old(self).read_protected,
            final(self).dirs@.len() == old(self).dirs@.len() + 1,
            final(self).dirs@.last()@ == old(self).full(rel@),
            forall|k: int|
                0 <= k < old(self).dirs@.len() ==> final(self).dirs@[k] == old(self).dirs@[k],
            final(self).wf() == old(self).wf(),
    {
        let full = self.path(rel);
        self.dirs.push(full);
        proof {
            assert(self.files@ == old(self).files@);
            assert(self.wf() == old(self).wf());
        }
    }

    /// Registers a symbolic link from the path `rel` names to the full path
    /// `target`.
    pub fn add_link(&mut self, rel: &str, target: &str)
        ensures
            final(self).root == old(self).root,
            final(self).files == old(self).files,
            final(self).dirs == old(self).dirs,
            final(self).write_protected == old(self).write_protected,
            final(self).read_protected == old(self).read_protected,
            final(self).links@.len() == old(self).links@.len() + 1,
            final(self).links@.last().path@ == old(self).full(rel@),
            final(self).links@.last().target@ == target@,
            forall|k: int|
                0 <= k < old(self).links@.len() ==> final(self).links@[k] == old(self).links@[k],
            final(self).wf() == old(self).wf(),
    {
        let full = self.path(rel);
        self.links.push(FsLink { path: full, target: target.to_owned() });
        proof {
            assert(self.files@ == old(self).files@);
            assert(self.wf() == old(self).wf());
        }
    }

    /// Whether anything exists at the path `rel` names.
    pub fn path_exists(&self, rel: &str) -> (r: bool)
        ensures
            r == self.present(self.full(rel@)),
    {
        let full = self.path(rel);
        let dir_prefix = text::concat(full.as_str(), "/");
        proof {
            reveal_strlit("/");
            assert("/"@ =~= seq!['/']);
        }
        let mut i: usize = 0;
        while i < self.files.len()
            invariant
                i <= self.files@.len(),
                full@ == self.full(rel@),
                dir_prefix@ == full@ + seq!['/'],
                forall|j: int|
                    0 <= j < i ==> self.files@[j].path@ != full@ && !text::has_prefix(
                        #[trigger] self.files@[j].path@,
                        full@ + seq!['/'],
                    ),
            decreases self.files@.len() - i,
        {
            if text::str_eq(self.files[i].path.as_str(), full.as_str()) {
                proof {
                    lemma_lookup_found(self.files@, i as int, full@);
                }
                return true;
            }
            if text::starts_with(self.files[i].path.as_str(), dir_prefix.as_str()) {
                return true;
            }
            i = i + 1;
        }
        let mut i: usize = 0;
        while i < self.links.len()
            invariant
                i <= self.links@.len(),
                full@ == self.full(rel@),
                dir_prefix@ == full@ + seq!['/'],
                forall|j: int|
                    0 <= j < i ==> self.links@[j].path@ != full@ && !text::has_prefix(
                        #[trigger] self.links@[j].path@,
                        full@ + seq!['/'],
                    ),
            decreases self.links@.len() - i,
        {
            if text::str_eq(self.links[i].path.as_str(), full.as_str()) {
                proof {
                    lemma_link_found(self.links@, i as int, full@);
                }
                return true;
            }
            if text::starts_with(self.links[i].path.as_str(), dir_prefix.as_str()) {
                return true;
            }
            i = i + 1;
        }
        let mut i: usize = 0;
        while i < self.dirs.len()
            invariant
                i <= self.dirs@.len(),
                full@ == self.full(rel@),
                dir_prefix@ == full@ + seq!['/'],
                forall|j: int|
                    0 <= j < i ==> self.dirs@[j]@ != full@ && !text::has_prefix(
                        #[trigger] self.dirs@[j]@,
                        full@ + seq!['/'],
                    ),
            decreases self.dirs@.len() - i,
        {
            if text::str_eq(self.dirs[i].as_str(), full.as_str()) {
                proof {
                    lemma_seq_has_found(self.dirs@, i as int, full@);
                }
                return true;
            }
            if text::starts_with(self.dirs[i].as_str(), dir_prefix.as_str()) {
                return true;
            }
            i = i + 1;
        }
        proof {
            lemma_lookup_none(self.files@, full@);
            lemma_link_none(self.links@, full@);
            lemma_seq_has_none(self.dirs@, full@);
        }
        false
    }

    /// Whether a directory is at the full path: registered, or implied by a
    /// deeper entry.
    pub open spec fn dir_present(&self, full: Seq<char>) -> bool {
        ||| seq_has_from(self.dirs@, 0, full)
        ||| exists|i: int|
            0 <= i < self.all_entry_paths().len() && text::has_prefix(
                #[trigger] self.all_entry_paths()[i],
                full + seq!['/'],
            )
    }

    /// Every path the model holds: files, then links, then directories.
    pub open spec fn all_entry_paths(&self) -> Seq<Seq<char>> {
        self.files@.map_values(|f: FsFile| f.path@) + self.links@.map_values(
            |l: FsLink| l.path@,
        ) + self.dirs@.map_values(|d: String| d@)
    }

    /// The sorted distinct names of the entries directly under the
    /// directory `dir`.
    pub open spec fn listing(&self, dir: Seq<char>) -> Seq<Seq<char>> {
        dedup_sorted_from(
            text::sort_seqs(
                child_names_from(self.all_entry_paths(), 0, dir + seq!['/'], Seq::empty()),
            ),
            0,
            Seq::empty(),
        )
    }

    /// Whether a directory is at the path `rel` names.
    fn dir_exists(&self, full: &str, dir_prefix: &str) -> (r: bool)
        requires
            dir_prefix@ == full@ + seq!['/'],
        ensures
            r == self.dir_present(full@),
    {
        let ghost allp = self.all_entry_paths();
        let mut i: usize = 0;
        while i < self.files.len()
            invariant
                i <= self.files@.len(),
                dir_prefix@ == full@ + seq!['/'],
                forall|j: int|
                    0 <= j < i ==> !text::has_prefix(
                        #[trigger] self.files@[j].path@,
                        full@ + seq!['/'],
                    ),
            decreases self.files@.len() - i,
        {
            if text::starts_with(self.files[i].path.as_str(), dir_prefix) {
                proof {
                    lemma_entry_path_at(self, i as int);
                }
                return true;
            }
            i = i + 1;
        }
        let mut i: usize = 0;
        while i < self.links.len()
            invariant
                i <= self.links@.len(),
                dir_prefix@ == full@ + seq!['/'],
                forall|j: int|
                    0 <= j < i ==> !text::has_prefix(
                        #[trigger] self.links@[j].path@,
                        full@ + seq!['/'],
                    ),
            decreases self.links@.len() - i,
        {
            if text::starts_with(self.links[i].path.as_str(), dir_prefix) {
                proof {
                    lemma_entry_path_at(self, self.files@.len() + i as int);
                }
                return true;
            }
            i = i + 1;
        }
        let mut i: usize = 0;
        while i < self.dirs.len()
            invariant
                i <= self.dirs@.len(),
                dir_prefix@ == full@ + seq!['/'],
                forall|j: int|
                    0 <= j < i ==> self.dirs@[j]@ != full@ && !text::has_prefix(
                        #[trigger] self.dirs@[j]@,
                        full@ + seq!['/'],
                    ),
            decreases self.dirs@.len() - i,
        {
            if text::str_eq(self.dirs[i].as_str(), full) {
                proof {
                    lemma_seq_has_found(self.dirs@, i as int, full@);
                }
                return true;
            }
            if text::starts_with(self.dirs[i].as_str(), dir_prefix) {
                proof {
                    lemma_entry_path_at(
                        self,
                        self.files@.len() + self.links@.len() + i as int,
                    );
                }
                return true;
            }
            i = i + 1;
        }
        proof {
            lemma_seq_has_none(self.dirs@, full@);
            assert forall|j: int| 0 <= j < allp.len() implies !text::has_prefix(
                allp[j],
                full@ + seq!['/'],
            ) by {
                lemma_entry_path_at(self, j);
            }
        }
        false
    }

    /// The sorted names of the entries in the directory `rel` names.
    /// Fails exactly when no such directory is known to the model.
    pub fn list_dir(&self, rel: &str) -> (r: Result<Vec<String>, Error>)
        ensures
            match r {
                Ok(v) => self.dir_present(self.full(rel@)) && text::views_of(v@)
                    == self.listing(self.full(rel@)) && text::lex_sorted(text::views_of(v@))
                    && forall|a: int, b: int|
                    0 <= a < b < v@.len() ==> text::views_of(v@)[a] != text::views_of(v@)[b],
                Err(e) => !self.dir_present(self.full(rel@)) && e is SysfsRead,
            },
    {
        let full = self.path(rel);
        let dir_prefix = text::concat(full.as_str(), "/");
        proof {
            reveal_strlit("/");
            assert("/"@ =~= seq!['/']);
        }
        if !self.dir_exists(full.as_str(), dir_prefix.as_str()) {
            return Err(Error::SysfsRead { path: full });
        }
        let ghost allp = self.all_entry_paths();
        let ghost dirp = full@ + seq!['/'];
        let plen = dir_prefix.as_str().unicode_len();
        let mut names: Vec<String> = Vec::new();
        assert(text::views_of(names@) =~= Seq::<Seq<char>>::empty());
        let mut i: usize = 0;
        while i < self.files.len()
            invariant
                i <= self.files@.len(),
                allp == self.all_entry_paths(),
                dirp == full@ + seq!['/'],
                dir_prefix@ == dirp,
                plen == dirp.len(),
                child_names_from(allp, 0, dirp, Seq::empty()) == child_names_from(
                    allp,
                    i as int,
                    dirp,
                    text::views_of(names@),
                ),
            decreases self.files@.len() - i,
        {
            proof {
                lemma_entry_path_at(self, i as int);
            }
            if text::starts_with(self.files[i].path.as_str(), dir_prefix.as_str()) {
                let seg = tail_segment(&self.files[i].path, plen);
                let ghost prev = text::views_of(names@);
                names.push(seg);
                assert(text::views_of(names@) =~= prev.push(seg@));
            }
            i = i + 1;
        }
        let mut i: usize = 0;
        while i < self.links.len()
            invariant
                i <= self.links@.len(),
                allp == self.all_entry_paths(),
                dirp == full@ + seq!['/'],
                dir_prefix@ == dirp,
                plen == dirp.len(),
                child_names_from(allp, 0, dirp, Seq::empty()) == child_names_from(
                    allp,
                    self.files@.len() + i,
                    dirp,
                    text::views_of(names@),
                ),
            decreases self.links@.len() - i,
        {
            proof {
                lemma_entry_path_at(self, self.files@.len() + i as int);
            }
            if text::starts_with(self.links[i].path.as_str(), dir_prefix.as_str()) {
                let seg = tail_segment(&self.links[i].path, plen);
                let ghost prev = text::views_of(names@);
                names.push(seg);
                assert(text::views_of(names@) =~= prev.push(seg@));
            }
            i = i + 1;
        }
        let mut i: usize = 0;
        while i < self.dirs.len()
            invariant
                i <= self.dirs@.len(),
                allp == self.all_entry_paths(),
                dirp == full@ + seq!['/'],
                dir_prefix@ == dirp,
                plen == dirp.len(),
                child_names_from(allp, 0, dirp, Seq::empty()) == child_names_from(
                    allp,
                    self.files@.len() + self.links@.len() + i,
                    dirp,
                    text::views_of(names@),
                ),
            decreases self.dirs@.len() - i,
        {
            proof {
                lemma_entry_path_at(self, self.files@.len() + self.links@.len() + i as int);
            }
            if text::starts_with(self.dirs[i].as_str(), dir_prefix.as_str()) {
                let seg = tail_segment(&self.dirs[i], plen);
                let ghost prev = text::views_of(names@);
                names.push(seg);
                assert(text::views_of(names@) =~= prev.push(seg@));
            }
            i = i + 1;
        }
        let sorted = text::sort_strings(&names);
        let mut out: Vec<String> = Vec::new();
        assert(text::views_of(out@) =~= Seq::<Seq<char>>::empty());
        let ghost sv = text::views_of(sorted@);
        let mut i: usize = 0;
        while i < sorted.len()
            invariant
                i <= sorted@.len(),
                sv == text::views_of(sorted@),
                text::lex_sorted(sv),
                dedup_sorted_from(sv, 0, Seq::empty()) == dedup_sorted_from(
                    sv,
                    i as int,
                    text::views_of(out@),
                ),
                text::lex_sorted(text::views_of(out@)),
                forall|a: int, b: int|
                    0 <= a < b < out@.len() ==> text::views_of(out@)[a] != text::views_of(
                        out@,
                    )[b],
                out@.len() > 0 ==> i > 0 && exists|j: int|
                    0 <= j < i && text::views_of(out@).last() == sv[j],
            decreases sorted@.len() - i,
        {
            let keep: bool = if out.len() == 0 {
                true
            } else {
                !text::str_eq(out[out.len() - 1].as_str(), sorted[i].as_str())
            };
            if keep {
                let ghost prev = text::views_of(out@);
                proof {
                    if prev.len() > 0 {
                        let j = choose|j: int| 0 <= j < i && prev.last() == sv[j];
                        assert(text::lex_leq(sv[j], sv[i as int]));
                        assert(text::lex_leq(prev.last(), sv[i as int]));
                        assert forall|a: int| 0 <= a < prev.len() implies text::lex_leq(
                            prev[a],
                            sv[i as int],
                        ) && prev[a] != sv[i as int] by {
                            if a < prev.len() - 1 {
                                assert(text::lex_leq(prev[a], prev.last()));
                                text::lemma_lex_trans(prev[a], prev.last(), sv[i as int]);
                                if prev[a] == sv[i as int] {
                                    text::lemma_lex_antisym(prev[a], prev.last());
                                }
                            }
                        }
                    }
                }
                out.push(sorted[i].clone());
                assert(text::views_of(out@) =~= prev.push(sorted@[i as int]@));
            }
            i = i + 1;
        }
        Ok(out)
    }

    /// The last path segment of a link's target: how detection reads a
    /// `driver` symlink's name. `None` when no link is at the path.
    pub fn link_name(&self, rel: &str) -> (r: Option<String>)
        ensures
            match r {
                Some(n) => link_from(self.links@, 0, self.full(rel@)) is Some && n@
                    == spec_basename(link_from(self.links@, 0, self.full(rel@))->0),
                None => link_from(self.links@, 0, self.full(rel@)) is None,
            },
    {
        let full = self.path(rel);
        let mut i: usize = 0;
        while i < self.links.len()
            invariant
                i <= self.links@.len(),
                full@ == self.full(rel@),
                link_from(self.links@, 0, full@) == link_from(self.links@, i as int, full@),
            decreases self.links@.len() - i,
        {
            if text::str_eq(self.links[i].path.as_str(), full.as_str()) {
                return Some(basename(self.links[i].target.as_str()));
            }
            i = i + 1;
        }
        None
    }

    /// Whether anything exists at the given full path.
    pub fn present_at(&self, full: &str) -> (r: bool)
        ensures
            r == self.present(full@),
    {
        let dir_prefix = text::concat(full, "/");
        proof {
            reveal_strlit("/");
            assert("/"@ =~= seq!['/']);
        }
        let mut i: usize = 0;
        while i < self.files.len()
            invariant
                i <= self.files@.len(),
                dir_prefix@ == full@ + seq!['/'],
                forall|j: int|
                    0 <= j < i ==> self.files@[j].path@ != full@ && !text::has_prefix(
                        #[trigger] self.files@[j].path@,
                        full@ + seq!['/'],
                    ),
            decreases self.files@.len() - i,
        {
            if text::str_eq(self.files[i].path.as_str(), full) {
                proof {
                    lemma_lookup_found(self.files@, i as int, full@);
                }
                return true;
            }
            if text::starts_with(self.files[i].path.as_str(), dir_prefix.as_str()) {
                proof {
                    lemma_entry_path_at(self, i as int);
                }
                return true;
            }
            i = i + 1;
        }
        let mut i: usize = 0;
        while i < self.links.len()
            invariant
                i <= self.links@.len(),
                dir_prefix@ == full@ + seq!['/'],
                forall|j: int|
                    0 <= j < i ==> self.links@[j].path@ != full@ && !text::has_prefix(
                        #[trigger] self.links@[j].path@,
                        full@ + seq!['/'],
                    ),
            decreases self.links@.len() - i,
        {
            if text::str_eq(self.links[i].path.as_str(), full) {
                proof {
                    lemma_link_found(self.links@, i as int, full@);
                }
                return true;
            }
            if text::starts_with(self.links[i].path.as_str(), dir_prefix.as_str()) {
                return true;
            }
            i = i + 1;
        }
        let mut i: usize = 0;
        while i < self.dirs.len()
            invariant
                i <= self.dirs@.len(),
                dir_prefix@ == full@ + seq!['/'],
                forall|j: int|
                    0 <= j < i ==> self.dirs@[j]@ != full@ && !text::has_prefix(
                        #[trigger] self.dirs@[j]@,
                        full@ + seq!['/'],
                    ),
            decreases self.dirs@.len() - i,
        {
            if text::str_eq(self.dirs[i].as_str(), full) {
                proof {
                    lemma_seq_has_found(self.dirs@, i as int, full@);
                }
                return true;
            }
            if text::starts_with(self.dirs[i].as_str(), dir_prefix.as_str()) {
                return true;
            }
            i = i + 1;
        }
        proof {
            lemma_lookup_none(self.files@, full@);
            lemma_link_none(self.links@, full@);
            lemma_seq_has_none(self.dirs@, full@);
        }
        false
    }

    /// The path a link resolves to, or the path itself when it is no link.
    pub fn canonicalize(&self, rel: &str) -> (r: String)
        ensures
            r@ == match link_from(self.links@, 0, self.full(rel@)) {
                Some(t) => t,
                None => self.full(rel@),
            },
    {
        let full = self.path(rel);
        let mut i: usize = 0;
        while i < self.links.len()
            invariant
                i <= self.links@.len(),
                full@ == self.full(rel@),
                link_from(self.links@, 0, full@) == link_from(self.links@, i as int, full@),
            decreases self.links@.len() - i,
        {
            if text::str_eq(self.links[i].path.as_str(), full.as_str()) {
                return self.links[i].target.clone();
            }
            i = i + 1;
        }
        full
    }
}

/// Updating the first file bound to `full` rebinds exactly that path.
proof fn lemma_lookup_update(files: Seq<FsFile>, i: int, f2: FsFile, full: Seq<char>, p: Seq<char>)
    requires
        0 <= i < files.len(),
        files[i].path@ == full,
        f2.path@ == full,
        forall|j: int| 0 <= j < i ==> files[j].path@ != full,
    ensures
        lookup_from(files.update(i, f2), 0, p) == if p == full {
            Some(f2.content@)
        } else {
            lookup_from(files, 0, p)
        },
    decreases i,
{
    let files2 = files.update(i, f2);
    if i == 0 {
        if p != full {
            assert(files2.drop_first() =~= files.drop_first());
            lemma_lookup_shift(files2, p);
            lemma_lookup_shift(files, p);
        }
    } else {
        assert(files2[0] == files[0]);
        if files[0].path@ != p {
            lemma_lookup_shift(files2, p);
            lemma_lookup_shift(files, p);
            assert(files2.drop_first() =~= files.drop_first().update(i - 1, f2));
            lemma_lookup_update(files.drop_first(), i - 1, f2, full, p);
        }
    }
}

/// Appending a file binds its path when it was unbound, and nothing else.
proof fn lemma_lookup_push(files: Seq<FsFile>, f2: FsFile, p: Seq<char>)
    requires
        forall|j: int| 0 <= j < files.len() ==> files[j].path@ != f2.path@,
    ensures
        lookup_from(files.push(f2), 0, p) == if p == f2.path@ {
            Some(f2.content@)
        } else {
            lookup_from(files, 0, p)
        },
    decreases files.len(),
{
    let files2 = files.push(f2);
    if files.len() == 0 {
        assert(files2[0] == f2);
        if p != f2.path@ {
            assert(files2.drop_first() =~= Seq::<FsFile>::empty());
            lemma_lookup_shift(files2, p);
        }
    } else {
        assert(files2[0] == files[0]);
        if files[0].path@ != p {
            lemma_lookup_shift(files2, p);
            lemma_lookup_shift(files, p);
            assert(files2.drop_first() =~= files.drop_first().push(f2));
            lemma_lookup_push(files.drop_first(), f2, p);
        }
    }
}

proof fn lemma_lookup_found(files: Seq<FsFile>, i: int, full: Seq<char>)
    requires
        0 <= i < files.len(),
        files[i].path@ == full,
    ensures
        lookup_from(files, 0, full) is Some,
    decreases i,
{
    if i > 0 {
        if files[0].path@ != full {
            lemma_lookup_found(files.drop_first(), i - 1, full);
            lemma_lookup_shift(files, full);
        }
    }
}

proof fn lemma_lookup_shift(files: Seq<FsFile>, full: Seq<char>)
    requires
        files.len() > 0,
        files[0].path@ != full,
    ensures
        lookup_from(files, 0, full) == lookup_from(files.drop_first(), 0, full),
{
    lemma_lookup_drop(files, 1, full);
}

/// Folding from `i` in the whole is folding from `i - 1` in the tail.
proof fn lemma_lookup_drop(files: Seq<FsFile>, i: int, full: Seq<char>)
    requires
        1 <= i <= files.len(),
    ensures
        lookup_from(files, i, full) == lookup_from(files.drop_first(), i - 1, full),
    decreases files.len() - i,
{
    if i < files.len() {
        assert(files.drop_first()[i - 1] == files[i]);
        lemma_lookup_drop(files, i + 1, full);
    }
}

proof fn lemma_lookup_none(files: Seq<FsFile>, full: Seq<char>)
    requires
        forall|j: int| 0 <= j < files.len() ==> files[j].path@ != full,
    ensures
        lookup_from(files, 0, full) is None,
    decreases files.len(),
{
    if files.len() > 0 {
        lemma_lookup_none(files.drop_first(), full);
        lemma_lookup_shift(files, full);
    }
}

proof fn lemma_link_found(links: Seq<FsLink>, i: int, full: Seq<char>)
    requires
        0 <= i < links.len(),
        links[i].path@ == full,
    ensures
        link_from(links, 0, full) is Some,
    decreases i,
{
    if i > 0 && links[0].path@ != full {
        lemma_link_found(links.drop_first(), i - 1, full);
        lemma_link_offset(links, 1, full);
    }
}

proof fn lemma_link_offset(links: Seq<FsLink>, i: int, full: Seq<char>)
    requires
        1 <= i <= links.len(),
    ensures
        link_from(links, i, full) == link_from(links.drop_first(), i - 1, full),
    decreases links.len() - i,
{
    if i < links.len() {
        assert(links.drop_first()[i - 1] == links[i]);
        lemma_link_offset(links, i + 1, full);
    }
}

proof fn lemma_link_none(links: Seq<FsLink>, full: Seq<char>)
    requires
        forall|j: int| 0 <= j < links.len() ==> links[j].path@ != full,
    ensures
        link_from(links, 0, full) is None,
    decreases links.len(),
{
    if links.len() > 0 {
        lemma_link_none(links.drop_first(), full);
        lemma_link_offset(links, 1, full);
    }
}

proof fn lemma_seq_has_found(v: Seq<String>, i: int, x: Seq<char>)
    requires
        0 <= i < v.len(),
        v[i]@ == x,
    ensures
        seq_has_from(v, 0, x),
    decreases i,
{
    if i > 0 && v[0]@ != x {
        lemma_seq_has_found(v.drop_first(), i - 1, x);
        lemma_seq_has_offset(v, 1, x);
    }
}

proof fn lemma_seq_has_offset(v: Seq<String>, i: int, x: Seq<char>)
    requires
        1 <= i <= v.len(),
    ensures
        seq_has_from(v, i, x) == seq_has_from(v.drop_first(), i - 1, x),
    decreases v.len() - i,
{
    if i < v.len() {
        assert(v.drop_first()[i - 1] == v[i]);
        lemma_seq_has_offset(v, i + 1, x);
    }
}

proof fn lemma_seq_has_none(v: Seq<String>, x: Seq<char>)
    requires
        forall|j: int| 0 <= j < v.len() ==> v[j]@ != x,
    ensures
        !seq_has_from(v, 0, x),
    decreases v.len(),
{
    if v.len() > 0 {
        lemma_seq_has_none(v.drop_first(), x);
        lemma_seq_has_offset(v, 1, x);
    }
}


/// Where each stored path lands inside [`SysfsRoot::all_entry_paths`].
proof fn lemma_entry_path_at(s: &SysfsRoot, j: int)
    requires
        0 <= j < s.all_entry_paths().len(),
    ensures
        s.all_entry_paths().len() == s.files@.len() + s.links@.len() + s.dirs@.len(),
        j < s.files@.len() ==> s.all_entry_paths()[j] == s.files@[j].path@,
        s.files@.len() <= j < s.files@.len() + s.links@.len() ==> s.all_entry_paths()[j]
            == s.links@[j - s.files@.len()].path@,
        j >= s.files@.len() + s.links@.len() ==> s.all_entry_paths()[j] == s.dirs@[j
            - s.files@.len() - s.links@.len()]@,
{
    let a = s.files@.map_values(|f: FsFile| f.path@);
    let b = s.links@.map_values(|l: FsLink| l.path@);
    let c = s.dirs@.map_values(|d: String| d@);
    assert(s.all_entry_paths() == a + b + c);
    if j < a.len() {
        assert((a + b + c)[j] == (a + b)[j]);
        assert((a + b)[j] == a[j]);
    } else if j < a.len() + b.len() {
        assert((a + b + c)[j] == (a + b)[j]);
        assert((a + b)[j] == b[j - a.len()]);
    } else {
        assert((a + b + c)[j] == c[j - a.len() - b.len()]);
    }
}

/// The first path segment of `p` after the directory prefix `dirp`, when
/// `p` lies under it.
pub open spec fn child_name(p: Seq<char>, dirp: Seq<char>) -> Option<Seq<char>> {
    if text::has_prefix(p, dirp) {
        let rest = p.subrange(dirp.len() as int, p.len() as int);
        Some(rest.subrange(0, text::find_char_from(rest, 0, '/')))
    } else {
        None
    }
}

/// Left fold collecting the child names of the paths under `dirp`.
pub open spec fn child_names_from(
    paths: Seq<Seq<char>>,
    i: int,
    dirp: Seq<char>,
    acc: Seq<Seq<char>>,
) -> Seq<Seq<char>>
    decreases paths.len() - i,
{
    if i < 0 || i >= paths.len() {
        acc
    } else {
        match child_name(paths[i], dirp) {
            Some(n) => child_names_from(paths, i + 1, dirp, acc.push(n)),
            None => child_names_from(paths, i + 1, dirp, acc),
        }
    }
}

/// Left fold dropping adjacent repeats of a sorted sequence.
pub open spec fn dedup_sorted_from(v: Seq<Seq<char>>, i: int, acc: Seq<Seq<char>>) -> Seq<
    Seq<char>,
>
    decreases v.len() - i,
{
    if i < 0 || i >= v.len() {
        acc
    } else if acc.len() > 0 && acc.last() == v[i] {
        dedup_sorted_from(v, i + 1, acc)
    } else {
        dedup_sorted_from(v, i + 1, acc.push(v[i]))
    }
}

/// The characters of `p` from `start` up to the next `/` or the end.
fn tail_segment(p: &String, start: usize) -> (r: String)
    requires
        start <= p@.len(),
    ensures
        r@ == {
            let rest = p@.subrange(start as int, p@.len() as int);
            rest.subrange(0, text::find_char_from(rest, 0, '/'))
        },
{
    let chars = text::chars_of(p.as_str());
    let n = chars.len();
    let ghost rest = p@.subrange(start as int, p@.len() as int);
    let mut out = String::new();
    let mut j: usize = start;
    while j < n && chars[j] != '/'
        invariant
            start <= j <= n,
            n == chars@.len(),
            chars@ == p@,
            rest == p@.subrange(start as int, p@.len() as int),
            out@ == p@.subrange(start as int, j as int),
            text::find_char_from(rest, 0, '/') == text::find_char_from(rest, j - start, '/'),
        decreases n - j,
    {
        assert(rest[j - start] == p@[j as int]);
        text::push_char(&mut out, chars[j]);
        assert(out@ =~= p@.subrange(start as int, j + 1 as int));
        j = j + 1;
    }
    proof {
        if j < n {
            assert(rest[j - start] == p@[j as int]);
            assert(text::find_char_from(rest, j - start, '/') == j - start);
        } else {
            assert(text::find_char_from(rest, j - start, '/') == rest.len() as int);
        }
        assert(out@ =~= rest.subrange(0, text::find_char_from(rest, 0, '/')));
    }
    out
}


/// A directory at a path means something is present at it.
pub proof fn lemma_dir_present_implies_present(s: &SysfsRoot, full: Seq<char>)
    requires
        s.dir_present(full),
    ensures
        s.present(full),
{
    if seq_has_from(s.dirs@, 0, full) {
    } else {
        let i = choose|i: int|
            0 <= i < s.all_entry_paths().len() && text::has_prefix(
                #[trigger] s.all_entry_paths()[i],
                full + seq!['/'],
            );
        lemma_entry_path_at(s, i);
    }
}

/// Joining one root with different relative paths gives different full
/// paths.
pub proof fn lemma_path_join_ne(root: Seq<char>, a: Seq<char>, b: Seq<char>)
    requires
        a != b,
    ensures
        path_join(root, a) != path_join(root, b),
{
    let p = if root.len() > 0 && root[root.len() - 1] == '/' {
        root
    } else {
        root + seq!['/']
    };
    if p + a == p + b {
        assert((p + a).len() == (p + b).len());
        assert(a.len() == b.len());
        assert forall|k: int| 0 <= k < a.len() implies a[k] == b[k] by {
            assert((p + a)[p.len() + k] == a[k]);
            assert((p + b)[p.len() + k] == b[k]);
        }
        assert(a =~= b);
    }
    assert(path_join(root, a) == p + a);
    assert(path_join(root, b) == p + b);
}

/// Index of the last `/` at or before `i`, or `-1` when none is there.
pub open spec fn last_slash_from(s: Seq<char>, i: int) -> int
    decreases i + 1,
{
    if i < 0 || i >= s.len() {
        -1
    } else if s[i] == '/' {
        i
    } else {
        last_slash_from(s, i - 1)
    }
}

/// Everything after the last `/`; the whole path when it has none.
pub open spec fn spec_basename(p: Seq<char>) -> Seq<char> {
    p.subrange(last_slash_from(p, p.len() - 1) + 1, p.len() as int)
}

/// Executable mirror of [`spec_basename`].
pub fn basename(p: &str) -> (r: String)
    ensures
        r@ == spec_basename(p@),
{
    let n = p.unicode_len();
    let chars = text::chars_of(p);
    let mut i: usize = n;
    while i > 0
        invariant
            i <= n,
            n == chars@.len(),
            chars@ == p@,
            last_slash_from(p@, n - 1) == last_slash_from(p@, i - 1),
        decreases i,
    {
        if chars[i - 1] == '/' {
            return text::substring_of(p, i, n);
        }
        i = i - 1;
    }
    assert(last_slash_from(p@, i - 1) == -1);
    text::substring_of(p, 0, n)
}


/// Journal completeness over the model: replaying recorded changes by
/// writing each `new_value` to its path leaves every path reading back
/// exactly that value, trimmed — the boot-persistence path of the
/// journal. Fails, with every earlier write kept, exactly when a path
/// refuses writes.
pub fn replay_new_values(fs: &mut SysfsRoot, changes: &Vec<crate::journal::SysfsChange>) -> (r:
    Result<(), Error>)
    requires
        old(fs).wf(),
    ensures
        final(fs).wf(),
        final(fs).root == old(fs).root,
        r is Ok ==> forall|k: int|
            0 <= k < changes@.len() && (forall|l: int|
                k < l < changes@.len() ==> changes@[l]@.path != changes@[k]@.path)
                ==> final(fs).lookup(#[trigger] changes@[k]@.path) == Some(changes@[k]@.new_value),
        r is Err ==> r->Err_0 is SysfsWrite,
{
    let ghost oldfs = *old(fs);
    let mut t: usize = 0;
    while t < changes.len()
        invariant
            t <= changes@.len(),
            oldfs == *old(fs),
            fs.wf(),
            fs.root == oldfs.root,
            forall|k: int|
                0 <= k < t && (forall|l: int|
                    k < l < t ==> changes@[l]@.path != changes@[k]@.path) ==> fs.lookup(
                    #[trigger] changes@[k]@.path,
                ) == Some(changes@[k]@.new_value),
        decreases changes@.len() - t,
    {
        let ghost pre = *fs;
        match fs.write_full(changes[t].path.as_str(), changes[t].new_value.as_str()) {
            Ok(()) => {},
            Err(e) => {
                return Err(e);
            },
        }
        proof {
            assert forall|k: int|
                0 <= k < t + 1 && (forall|l: int|
                    k < l < t + 1 ==> changes@[l]@.path != changes@[k]@.path) implies fs.lookup(
                #[trigger] changes@[k]@.path,
            ) == Some(changes@[k]@.new_value) by {
                if k < t {
                    assert(changes@[t as int]@.path != changes@[k]@.path);
                    assert(pre.lookup(changes@[k]@.path) == Some(changes@[k]@.new_value));
                }
            }
        }
        t = t + 1;
    }
    Ok(())
}

/// Round trip for one sysfs value: writing a change's recorded original
/// back restores the file to its pre-apply bytes, whenever that original
/// content carried no surrounding whitespace — recorded originals are
/// trimmed, as sysfs consumers read them.
pub proof fn lemma_sysfs_round_trip(
    fs0: SysfsRoot,
    fs2: SysfsRoot,
    full: Seq<char>,
    original: Seq<char>,
)
    requires
        fs0.lookup(full) is Some,
        original == text::trim_seq(fs0.lookup(full)->0),
        text::trim_seq(fs0.lookup(full)->0) == fs0.lookup(full)->0,
        fs2.lookup(full) == Some(original),
    ensures
        fs2.lookup(full) == fs0.lookup(full),
{
}

} // verus!
