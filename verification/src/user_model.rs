use vstd::prelude::*;

use crate::directory::{
    assoc_find, lemma_find_absent, lemma_find_first, lemma_find_push, lemma_find_update,
    lemma_unique_push, lemma_unique_update, names_unique, Directory,
};
use crate::error::LauncherError;
use vstd::string::StringExecFns;

verus! {

// ---------------------------------------------------------------------------
// The profile store: one directory per user, plus the global directory.
// ---------------------------------------------------------------------------

/// Manages the per-user profile directories and the global directory, and
/// keeps the fixed set of managed files mirrored between them.
///
/// The struct carries the engine's model of the relevant on-disk state: for
/// each user, the files in that user's profile directory; and the files in
/// the global directory. The shell that owns the real file system applies the
/// same operations to disk.
pub struct UserManager {
    /// Path of the directory that holds one subdirectory per user.
    profile_dir: String,
    /// Path of the directory that holds the live copy of the managed files.
    global_dir: String,
    /// Whether the profile root directory exists.
    root_exists: bool,
    /// One directory of files per user, keyed by user name.
    dirs: Vec<(String, Directory)>,
    /// The global directory's files.
    global: Directory,
    /// All users loaded.
    pub users: Vec<String>,
}

/// The mathematical contents of the stored user directories.
pub open spec fn store_view(dirs: Seq<(String, Directory)>) -> Seq<
    (Seq<char>, Seq<(Seq<char>, Seq<u8>)>),
> {
    Seq::new(dirs.len(), |i: int| (dirs[i].0@, dirs[i].1@))
}

/// The user names of a store, in enumeration order.
pub open spec fn store_names(store: Seq<(Seq<char>, Seq<(Seq<char>, Seq<u8>)>)>) -> Seq<
    Seq<char>,
> {
    Seq::new(store.len(), |i: int| store[i].0)
}

impl UserManager {
    /// Path of the profile root directory.
    pub closed spec fn profile_path(self) -> Seq<char> {
        self.profile_dir@
    }

    /// Path of the global directory.
    pub closed spec fn global_path(self) -> Seq<char> {
        self.global_dir@
    }

    /// Whether the profile root directory exists.
    pub closed spec fn root_present(self) -> bool {
        self.root_exists
    }

    /// The user directories: name and contents of each, in enumeration order.
    pub closed spec fn store(self) -> Seq<(Seq<char>, Seq<(Seq<char>, Seq<u8>)>)> {
        store_view(self.dirs@)
    }

    /// The global directory's contents.
    pub closed spec fn global_files(self) -> Seq<(Seq<char>, Seq<u8>)> {
        self.global@
    }

    /// The loaded user list, as name sequences.
    pub closed spec fn listed(self) -> Seq<Seq<char>> {
        Seq::new(self.users@.len(), |i: int| self.users@[i]@)
    }

    /// The files of user `name`'s directory, if that user exists.
    pub open spec fn user_files(self, name: Seq<char>) -> Option<Seq<(Seq<char>, Seq<u8>)>> {
        assoc_find(self.store(), name)
    }

    /// Whether a profile directory for `name` exists.
    pub open spec fn has_user(self, name: Seq<char>) -> bool {
        self.user_files(name) is Some
    }

    /// The contents of `file` in user `name`'s directory, if both exist.
    pub open spec fn user_file(self, name: Seq<char>, file: Seq<char>) -> Option<Seq<u8>> {
        match self.user_files(name) {
            Some(d) => assoc_find(d, file),
            None => None,
        }
    }

    /// The contents of `file` in the global directory, if it exists.
    pub open spec fn global_file(self, file: Seq<char>) -> Option<Seq<u8>> {
        assoc_find(self.global_files(), file)
    }

    /// Well-formedness: user names and file names are unique, and no user
    /// directory exists without the profile root.
    pub open spec fn wf(self) -> bool {
        &&& names_unique(self.store())
        &&& names_unique(self.global_files())
        &&& forall|i: int|
            0 <= i < self.store().len() ==> names_unique((#[trigger] self.store()[i]).1)
        &&& (!self.root_present() ==> self.store().len() == 0)
    }
}

// ---------------------------------------------------------------------------
// State-change predicates shared by the engine's contracts.
// ---------------------------------------------------------------------------

/// Nothing outside the synchronised data changed: paths, profile root, and
/// the loaded user list are as before.
pub open spec fn same_frame(pre: UserManager, post: UserManager) -> bool {
    &&& post.profile_path() == pre.profile_path()
    &&& post.global_path() == pre.global_path()
    &&& post.root_present() == pre.root_present()
    &&& post.listed() == pre.listed()
}

/// The whole model is untouched: no file-system write happened.
pub open spec fn same_state(pre: UserManager, post: UserManager) -> bool {
    &&& same_frame(pre, post)
    &&& post.store() == pre.store()
    &&& post.global_files() == pre.global_files()
}

/// Exactly one global file changed: `file` now holds `v` (or is absent when
/// `v` is `None`), and everything else is as before.
pub open spec fn global_updated(
    pre: UserManager,
    post: UserManager,
    file: Seq<char>,
    v: Option<Seq<u8>>,
) -> bool {
    &&& same_frame(pre, post)
    &&& post.store() == pre.store()
    &&& post.global_file(file) == v
    &&& forall|g: Seq<char>| g != file ==> post.global_file(g) == pre.global_file(g)
}

/// Exactly one file of user `name`'s directory changed: `file` now holds `v`
/// (or is absent when `v` is `None`), and everything else is as before.
pub open spec fn user_dir_updated(
    pre: UserManager,
    post: UserManager,
    name: Seq<char>,
    file: Seq<char>,
    v: Option<Seq<u8>>,
) -> bool {
    &&& same_frame(pre, post)
    &&& post.global_files() == pre.global_files()
    &&& store_names(post.store()) == store_names(pre.store())
    &&& forall|m: Seq<char>| post.has_user(m) == pre.has_user(m)
    &&& forall|m: Seq<char>| m != name ==> post.user_files(m) == pre.user_files(m)
    &&& post.user_file(name, file) == v
    &&& forall|g: Seq<char>| g != file ==> post.user_file(name, g) == pre.user_file(name, g)
}

/// Everything a successful user-list load promises: the profile root exists
/// afterwards, no file changed, and the loaded list names the user
/// directories in enumeration order.
pub open spec fn load_ok(pre: UserManager, post: UserManager) -> bool {
    &&& post.profile_path() == pre.profile_path()
    &&& post.global_path() == pre.global_path()
    &&& post.root_present()
    &&& post.store() == pre.store()
    &&& post.global_files() == pre.global_files()
    &&& post.listed() == store_names(pre.store())
}

// ---------------------------------------------------------------------------
// Store operations.
// ---------------------------------------------------------------------------

impl UserManager {
    /// A manager over the given profile root and global directory, modelling
    /// a fresh installation: no profile root yet, no users, no global files.
    pub fn new(profile: &str, global: &str) -> (m: UserManager)
        ensures
            m.wf(),
            m.profile_path() == profile@,
            m.global_path() == global@,
            !m.root_present(),
            m.store() == Seq::<(Seq<char>, Seq<(Seq<char>, Seq<u8>)>)>::empty(),
            m.global_files() == Seq::<(Seq<char>, Seq<u8>)>::empty(),
            m.listed() == Seq::<Seq<char>>::empty(),
    {
        let m = UserManager {
            profile_dir: profile.to_owned(),
            global_dir: global.to_owned(),
            root_exists: false,
            dirs: Vec::new(),
            global: Directory::new(),
            users: Vec::new(),
        };
        proof {
            assert(m.store() =~= Seq::<(Seq<char>, Seq<(Seq<char>, Seq<u8>)>)>::empty());
            assert(m.listed() =~= Seq::<Seq<char>>::empty());
        }
        m
    }

    /// Position of user `name`'s directory, if any.
    pub(crate) fn find_user(&self, name: &str) -> (r: Option<usize>)
        ensures
            match r {
                Some(i) => i < self.store().len() && self.store()[i as int].0 == name@ && (
                forall|j: int| 0 <= j < i ==> self.store()[j].0 != name@),
                None => forall|j: int| 0 <= j < self.store().len() ==> self.store()[j].0 != name@,
            },
    {
        let key: String = name.to_owned();
        let n = self.dirs.len();
        let mut i: usize = 0;
        while i < n
            invariant
                i <= n,
                n == self.store().len(),
                key@ == name@,
                forall|j: int| 0 <= j < i ==> self.store()[j].0 != name@,
            decreases n - i,
        {
            if self.dirs[i].0 == key {
                return Some(i);
            }
            i += 1;
        }
        None
    }

    /// Check if the given user exists.
    ///
    /// The on-disk probe this models is loose: it asks whether anything is
    /// addressable at `profileRoot/name`, not whether it is a directory. The
    /// model's profile root holds only user directories, so here presence
    /// means a user directory.
    pub fn user_exists(&self, name: &str) -> (b: bool)
        ensures
            b == self.has_user(name@),
    {
        match self.find_user(name) {
            Some(i) => {
                proof {
                    lemma_find_first(self.store(), name@, i as int);
                }
                true
            },
            None => {
                proof {
                    lemma_find_absent(self.store(), name@);
                }
                false
            },
        }
    }

    /// Create a new user: a no-op if the user already exists, otherwise a new
    /// empty profile directory. Fails with `IOFailure` when the directory
    /// cannot be created: the profile root is missing, or the name is empty
    /// (an invalid path segment).
    pub fn create_user(&mut self, name: &str) -> (r: Result<(), LauncherError>)
        requires
            old(self).wf(),
        ensures
            final(self).wf(),
            same_frame(*old(self), *final(self)),
            final(self).global_files() == old(self).global_files(),
            r is Ok <==> (old(self).has_user(name@) || (old(self).root_present() && name@.len()
                > 0)),
            !(r is Ok) ==> final(self).store() == old(self).store() && r == Err::<
                (),
                LauncherError,
            >(LauncherError::IOFailure),
            old(self).has_user(name@) ==> final(self).store() == old(self).store(),
            (r is Ok && !old(self).has_user(name@)) ==> final(self).store() == old(
                self,
            ).store().push((name@, Seq::<(Seq<char>, Seq<u8>)>::empty())),
            final(self).has_user(name@) == (old(self).has_user(name@) || r is Ok),
            forall|m: Seq<char>| m != name@ ==> final(self).user_files(m) == old(self).user_files(
                m,
            ),
    {
        if self.user_exists(name) {
            return Ok(());
        }
        if name.is_empty() || !self.root_exists {
            return Err(LauncherError::IOFailure);
        }
        let ghost pre = self.store();
        let ghost entry = (name@, Seq::<(Seq<char>, Seq<u8>)>::empty());
        proof {
            lemma_find_absent(pre, name@);
            lemma_unique_push(pre, entry);
            assert forall|m: Seq<char>| true implies assoc_find(pre.push(entry), m) == (if
            assoc_find(pre, m) is Some {
                assoc_find(pre, m)
            } else if name@ == m {
                Some(entry.1)
            } else {
                None::<Seq<(Seq<char>, Seq<u8>)>>
            }) by {
                lemma_find_push(pre, entry, m);
            }
        }
        let d = Directory::new();
        self.dirs.push((name.to_owned(), d));
        proof {
            assert(self.store() =~= pre.push(entry));
            assert forall|i: int|
                0 <= i < self.store().len() implies names_unique(
                (#[trigger] self.store()[i]).1,
            ) by {
                if i < pre.len() {
                    assert(self.store()[i] == pre[i]);
                } else {
                    assert(self.store()[i].1 =~= Seq::<(Seq<char>, Seq<u8>)>::empty());
                }
            }
        }
        Ok(())
    }

    /// Load the user list from the profile root: every subdirectory is a user
    /// profile. If the root does not exist it is created and the list is
    /// empty. Always succeeds in the model; on a real file system, creation
    /// or enumeration may fail with `IOFailure`.
    pub fn load_user_list(&mut self) -> (r: Result<(), LauncherError>)
        requires
            old(self).wf(),
        ensures
            final(self).wf(),
            r is Ok,
            load_ok(*old(self), *final(self)),
    {
        let ghost orig = *old(self);
        self.users = Vec::new();
        if self.root_exists {
            let n = self.dirs.len();
            let mut i: usize = 0;
            while i < n
                invariant
                    i <= n,
                    n == self.dirs@.len(),
                    self.profile_dir == orig.profile_dir,
                    self.global_dir == orig.global_dir,
                    self.root_exists == orig.root_exists,
                    self.dirs == orig.dirs,
                    self.global == orig.global,
                    self.users@.len() == i as int,
                    forall|j: int| 0 <= j < i ==> self.users@[j]@ == orig.store()[j].0,
                decreases n - i,
            {
                let nm = self.dirs[i].0.clone();
                self.users.push(nm);
                i += 1;
            }
            proof {
                assert(self.listed() =~= store_names(orig.store()));
            }
        } else {
            self.root_exists = true;
            proof {
                assert(self.listed() =~= store_names(orig.store()));
            }
        }
        Ok(())
    }

    // -----------------------------------------------------------------------
    // Direct file access: what the launched application or any external
    // writer does to the modelled directories, and what tests and the shell
    // read back.
    // -----------------------------------------------------------------------

    /// The contents of `filename` in the global directory, if present.
    pub fn read_global_file(&self, filename: &str) -> (r: Option<Vec<u8>>)
        ensures
            match r {
                Some(c) => self.global_file(filename@) == Some(c@),
                None => self.global_file(filename@) is None,
            },
    {
        self.global.read_file(filename)
    }

    /// Write `contents` to `filename` in the global directory.
    pub fn write_global_file(&mut self, filename: &str, contents: Vec<u8>)
        requires
            old(self).wf(),
        ensures
            final(self).wf(),
            global_updated(*old(self), *final(self), filename@, Some(contents@)),
    {
        self.global.write_file(filename, contents);
    }

    /// Delete `filename` from the global directory, if present.
    pub fn remove_global_file(&mut self, filename: &str)
        requires
            old(self).wf(),
        ensures
            final(self).wf(),
            global_updated(*old(self), *final(self), filename@, None::<Seq<u8>>),
    {
        self.global.remove_file(filename);
    }

    /// The contents of `filename` in user `name`'s directory, if both exist.
    pub fn read_user_file(&self, name: &str, filename: &str) -> (r: Option<Vec<u8>>)
        ensures
            match r {
                Some(c) => self.user_file(name@, filename@) == Some(c@),
                None => self.user_file(name@, filename@) is None,
            },
    {
        match self.find_user(name) {
            Some(i) => {
                proof {
                    lemma_find_first(self.store(), name@, i as int);
                }
                self.dirs[i].1.read_file(filename)
            },
            None => {
                proof {
                    lemma_find_absent(self.store(), name@);
                }
                None
            },
        }
    }

    /// Write `contents` to `filename` in user `name`'s directory.
    pub fn write_user_file(&mut self, name: &str, filename: &str, contents: Vec<u8>) -> (r: Result<
        (),
        LauncherError,
    >)
        requires
            old(self).wf(),
        ensures
            final(self).wf(),
            r is Ok <==> old(self).has_user(name@),
            !(r is Ok) ==> same_state(*old(self), *final(self)) && (match r {
                Err(e) => e.is_user_not_found(name@),
                Ok(_) => false,
            }),
            r is Ok ==> user_dir_updated(
                *old(self),
                *final(self),
                name@,
                filename@,
                Some(contents@),
            ),
    {
        let idx = match self.find_user(name) {
            Some(i) => i,
            None => {
                proof {
                    lemma_find_absent(self.store(), name@);
                }
                return Err(LauncherError::UserNotFound(name.to_owned()));
            },
        };
        proof {
            lemma_find_first(self.store(), name@, idx as int);
        }
        self.user_dir_apply(idx, filename, Some(contents));
        Ok(())
    }

    /// Read access to the user directory at position `idx`.
    pub(crate) fn user_dir_at(&self, idx: usize) -> (d: &Directory)
        requires
            idx < self.store().len(),
        ensures
            d@ == self.store()[idx as int].1,
    {
        &self.dirs[idx].1
    }

    /// Apply one write (`Some`) or delete (`None`) of `filename` to the user
    /// directory at position `idx`.
    pub(crate) fn user_dir_apply(&mut self, idx: usize, filename: &str, contents: Option<Vec<u8>>)
        requires
            old(self).wf(),
            idx < old(self).store().len(),
        ensures
            final(self).wf(),
            user_dir_updated(
                *old(self),
                *final(self),
                old(self).store()[idx as int].0,
                filename@,
                match contents {
                    Some(c) => Some(c@),
                    None => None::<Seq<u8>>,
                },
            ),
    {
        let ghost pre = *self;
        proof {
            assert(names_unique((pre.store()[idx as int]).1));
        }
        match contents {
            Some(c) => self.dirs[idx].1.write_file(filename, c),
            None => self.dirs[idx].1.remove_file(filename),
        }
        proof {
            lemma_user_dir_change(pre, *self, pre.store()[idx as int].0, idx as int);
        }
    }

    // -----------------------------------------------------------------------
    // Path resolution for the shell that applies the model to disk.
    // -----------------------------------------------------------------------

    /// Path of `filename` inside user `name`'s profile directory.
    pub fn user_file_path(&self, name: &str, filename: &str) -> (p: String)
        ensures
            p@ == self.profile_path() + "/"@ + name@ + "/"@ + filename@,
    {
        let mut p: String = self.profile_dir.clone();
        p.append("/");
        p.append(name);
        p.append("/");
        p.append(filename);
        p
    }

    /// Path of `filename` inside the global directory.
    pub fn global_file_path(&self, filename: &str) -> (p: String)
        ensures
            p@ == self.global_path() + "/"@ + filename@,
    {
        let mut p: String = self.global_dir.clone();
        p.append("/");
        p.append(filename);
        p
    }
}

// ---------------------------------------------------------------------------
// Proof support: the effect on the store of changing one user directory.
// ---------------------------------------------------------------------------

/// When exactly user directory `i` (named `name`) changed between `pre` and
/// `post`, every store-level lookup behaves as a keyed update.
pub(crate) proof fn lemma_user_dir_change(
    pre: UserManager,
    post: UserManager,
    name: Seq<char>,
    i: int,
)
    requires
        pre.wf(),
        0 <= i < pre.store().len(),
        pre.store()[i].0 == name,
        forall|j: int| 0 <= j < i ==> pre.store()[j].0 != name,
        post.store().len() == pre.store().len(),
        forall|j: int| 0 <= j < pre.store().len() && j != i ==> post.store()[j] == pre.store()[j],
        post.store()[i].0 == name,
        names_unique(post.store()[i].1),
    ensures
        names_unique(post.store()),
        forall|j: int|
            0 <= j < post.store().len() ==> names_unique((#[trigger] post.store()[j]).1),
        store_names(post.store()) == store_names(pre.store()),
        forall|m: Seq<char>| post.has_user(m) == pre.has_user(m),
        forall|m: Seq<char>| m != name ==> post.user_files(m) == pre.user_files(m),
        post.user_files(name) == Some(post.store()[i].1),
        forall|g: Seq<char>| pre.user_file(name, g) == assoc_find(pre.store()[i].1, g),
        forall|g: Seq<char>| post.user_file(name, g) == assoc_find(post.store()[i].1, g),
{
    let s0 = pre.store();
    let s1 = post.store();
    assert(s1 =~= s0.update(i, (name, s1[i].1)));
    lemma_unique_update(s0, i, s1[i].1);
    assert(store_names(s1) =~= store_names(s0));
    assert forall|m: Seq<char>| true implies assoc_find(s1, m) == (if m == name {
        Some(s1[i].1)
    } else {
        assoc_find(s0, m)
    }) by {
        lemma_find_update(s0, i, s1[i].1, m);
    }
    lemma_find_first(s0, name, i);
    assert forall|j: int| 0 <= j < s1.len() implies names_unique((#[trigger] s1[j]).1) by {
        if j != i {
            assert(s1[j] == s0[j]);
        }
    }
    assert forall|m: Seq<char>| true implies post.has_user(m) == pre.has_user(m) by {
        if m == name {
            assert(assoc_find(s0, name) == Some(s0[i].1));
        }
    }
}

} // verus!
