use vstd::prelude::*;

use crate::directory::{lemma_find_absent, lemma_find_first};
use crate::error::LauncherError;
use crate::user_model::{
    global_updated, same_frame, same_state, store_names, user_dir_updated, UserManager,
};

verus! {

// ---------------------------------------------------------------------------
// Mirroring one managed file, and the coordinator over the fixed file set.
// ---------------------------------------------------------------------------

/// Which way a mirror operation copies.
#[derive(Clone, Copy, PartialEq, Eq, Structural, Debug)]
pub enum SyncDirection {
    /// From the user's private directory into the global directory.
    UserToGlobal,
    /// From the global directory into the user's private directory.
    GlobalToUser,
}

/// Name of the managed settings file.
pub open spec fn settings_file() -> Seq<char> {
    "settings.json"@
}

/// Name of the managed database file — its on-disk name, verbatim: the
/// launched application expects exactly this name.
pub open spec fn database_file() -> Seq<char> {
    "MajDatabase.db.db.db.db.db.db.db.db.db.db.db.db.db.db.db.db.db.db.db.db.db.db.db.db.db.db.db.db"@
}

/// The two managed file names are distinct.
pub proof fn lemma_managed_files_differ()
    ensures
        settings_file() != database_file(),
{
    reveal_strlit("settings.json");
    reveal_strlit(
        "MajDatabase.db.db.db.db.db.db.db.db.db.db.db.db.db.db.db.db.db.db.db.db.db.db.db.db.db.db.db.db",
    );
    assert(settings_file().len() == 13);
    assert(database_file().len() == 95);
}

/// Everything a successful `activate` (user to global, both managed files)
/// promises: the global copies of the managed files now equal the user's
/// (absent where the user has none), and nothing else changed.
pub open spec fn activate_ok(pre: UserManager, post: UserManager, name: Seq<char>) -> bool {
    &&& same_frame(pre, post)
    &&& post.store() == pre.store()
    &&& post.global_file(settings_file()) == pre.user_file(name, settings_file())
    &&& post.global_file(database_file()) == pre.user_file(name, database_file())
    &&& forall|g: Seq<char>|
        g != settings_file() && g != database_file() ==> post.global_file(g) == pre.global_file(g)
}

/// Everything a successful `deactivate` (global to user, both managed files)
/// promises: the user's copies of the managed files now equal the global
/// ones (absent where the global side has none), and nothing else changed.
pub open spec fn deactivate_ok(pre: UserManager, post: UserManager, name: Seq<char>) -> bool {
    &&& same_frame(pre, post)
    &&& post.global_files() == pre.global_files()
    &&& store_names(post.store()) == store_names(pre.store())
    &&& forall|m: Seq<char>| post.has_user(m) == pre.has_user(m)
    &&& forall|m: Seq<char>| m != name ==> post.user_files(m) == pre.user_files(m)
    &&& post.user_file(name, settings_file()) == pre.global_file(settings_file())
    &&& post.user_file(name, database_file()) == pre.global_file(database_file())
    &&& forall|g: Seq<char>|
        g != settings_file() && g != database_file() ==> post.user_file(name, g) == pre.user_file(
            name,
            g,
        )
}

/// A switch target is valid: absent, or a non-empty name of an existing user.
pub open spec fn valid_switch_target(s: UserManager, u: Option<Seq<char>>) -> bool {
    match u {
        None => true,
        Some(n) => n.len() > 0 && s.has_user(n),
    }
}

/// The name an optional user reference carries.
pub open spec fn opt_name(u: Option<&String>) -> Option<Seq<char>> {
    match u {
        None => None,
        Some(s) => Some(s@),
    }
}

impl UserManager {
    /// Mirror one file from user `name`'s directory into the global
    /// directory: copy it if the user has it, else delete the global copy.
    /// Fails with `UserNotFound` — and writes nothing — exactly when `name`
    /// is empty or no such user exists.
    pub fn sync_file_user2global(&mut self, name: &str, filename: &str) -> (r: Result<
        (),
        LauncherError,
    >)
        requires
            old(self).wf(),
        ensures
            final(self).wf(),
            r is Ok <==> (name@.len() > 0 && old(self).has_user(name@)),
            r is Ok ==> global_updated(
                *old(self),
                *final(self),
                filename@,
                old(self).user_file(name@, filename@),
            ),
            !(r is Ok) ==> same_state(*old(self), *final(self)) && (match r {
                Err(e) => e.is_user_not_found(name@),
                Ok(_) => false,
            }),
    {
        if name.is_empty() {
            return Err(LauncherError::UserNotFound(name.to_owned()));
        }
        let idx = match self.find_user(name) {
            Some(i) => i,
            None => {
                proof {
                    lemma_find_absent(self.store(), name@);
                }
                return Err(LauncherError::UserNotFound(name.to_owned()));
            },
        };
        proof {
            lemma_find_first(self.store(), name@, idx as int);
        }
        match self.user_dir_at(idx).read_file(filename) {
            Some(contents) => {
                self.write_global_file(filename, contents);
            },
            None => {
                self.remove_global_file(filename);
            },
        }
        Ok(())
    }

    /// Mirror one file from the global directory into user `name`'s
    /// directory: copy it if the global side has it, else delete the user's
    /// copy. Fails with `UserNotFound` — and writes nothing — exactly when
    /// `name` is empty or no such user exists.
    pub fn sync_file_global2user(&mut self, name: &str, filename: &str) -> (r: Result<
        (),
        LauncherError,
    >)
        requires
            old(self).wf(),
        ensures
            final(self).wf(),
            r is Ok <==> (name@.len() > 0 && old(self).has_user(name@)),
            r is Ok ==> user_dir_updated(
                *old(self),
                *final(self),
                name@,
                filename@,
                old(self).global_file(filename@),
            ),
            !(r is Ok) ==> same_state(*old(self), *final(self)) && (match r {
                Err(e) => e.is_user_not_found(name@),
                Ok(_) => false,
            }),
    {
        if name.is_empty() {
            return Err(LauncherError::UserNotFound(name.to_owned()));
        }
        let idx = match self.find_user(name) {
            Some(i) => i,
            None => {
                proof {
                    lemma_find_absent(self.store(), name@);
                }
                return Err(LauncherError::UserNotFound(name.to_owned()));
            },
        };
        proof {
            lemma_find_first(self.store(), name@, idx as int);
        }
        match self.read_global_file(filename) {
            Some(contents) => {
                self.user_dir_apply(idx, filename, Some(contents));
            },
            None => {
                self.user_dir_apply(idx, filename, None);
            },
        }
        Ok(())
    }

    /// Mirror one file in the given direction between user `name`'s
    /// directory and the global directory.
    pub fn mirror(&mut self, direction: SyncDirection, name: &str, filename: &str) -> (r: Result<
        (),
        LauncherError,
    >)
        requires
            old(self).wf(),
        ensures
            final(self).wf(),
            r is Ok <==> (name@.len() > 0 && old(self).has_user(name@)),
            (r is Ok && direction == SyncDirection::UserToGlobal) ==> global_updated(
                *old(self),
                *final(self),
                filename@,
                old(self).user_file(name@, filename@),
            ),
            (r is Ok && direction == SyncDirection::GlobalToUser) ==> user_dir_updated(
                *old(self),
                *final(self),
                name@,
                filename@,
                old(self).global_file(filename@),
            ),
            !(r is Ok) ==> same_state(*old(self), *final(self)) && (match r {
                Err(e) => e.is_user_not_found(name@),
                Ok(_) => false,
            }),
    {
        match direction {
            SyncDirection::UserToGlobal => self.sync_file_user2global(name, filename),
            SyncDirection::GlobalToUser => self.sync_file_global2user(name, filename),
        }
    }

    /// Sync global game data with the given user's data ("activate"): pull
    /// both managed files from the user's directory into the global
    /// directory, settings first. Stops at the first failure; in the model
    /// only a missing user fails, before any write.
    pub fn sync_global(&mut self, name: &str) -> (r: Result<(), LauncherError>)
        requires
            old(self).wf(),
        ensures
            final(self).wf(),
            r is Ok <==> (name@.len() > 0 && old(self).has_user(name@)),
            r is Ok ==> activate_ok(*old(self), *final(self), name@),
            !(r is Ok) ==> same_state(*old(self), *final(self)) && (match r {
                Err(e) => e.is_user_not_found(name@),
                Ok(_) => false,
            }),
    {
        match self.sync_file_user2global(name, "settings.json") {
            Ok(_) => {
                let r2 = self.sync_file_user2global(
                    name,
                    "MajDatabase.db.db.db.db.db.db.db.db.db.db.db.db.db.db.db.db.db.db.db.db.db.db.db.db.db.db.db.db",
                );
                proof {
                    lemma_managed_files_differ();
                }
                r2
            },
            Err(e) => Err(e),
        }
    }

    /// Sync the given user's game data with the global data ("deactivate"):
    /// push both managed files from the global directory into the user's
    /// directory, settings first. Stops at the first failure; in the model
    /// only a missing user fails, before any write.
    pub fn sync_user(&mut self, name: &str) -> (r: Result<(), LauncherError>)
        requires
            old(self).wf(),
        ensures
            final(self).wf(),
            r is Ok <==> (name@.len() > 0 && old(self).has_user(name@)),
            r is Ok ==> deactivate_ok(*old(self), *final(self), name@),
            !(r is Ok) ==> same_state(*old(self), *final(self)) && (match r {
                Err(e) => e.is_user_not_found(name@),
                Ok(_) => false,
            }),
    {
        match self.sync_file_global2user(name, "settings.json") {
            Ok(_) => {
                let r2 = self.sync_file_global2user(
                    name,
                    "MajDatabase.db.db.db.db.db.db.db.db.db.db.db.db.db.db.db.db.db.db.db.db.db.db.db.db.db.db.db.db",
                );
                proof {
                    lemma_managed_files_differ();
                }
                r2
            },
            Err(e) => Err(e),
        }
    }

    /// Switch the active user: flush the global state back into `from`'s
    /// directory, then pull `to`'s state into the global directory. A failed
    /// flush aborts the switch; a failed pull leaves the flush in place.
    pub fn switch_user(&mut self, from: Option<&String>, to: Option<&String>) -> (r: Result<
        (),
        LauncherError,
    >)
        requires
            old(self).wf(),
        ensures
            final(self).wf(),
            r is Ok <==> (valid_switch_target(*old(self), opt_name(from)) && valid_switch_target(
                *old(self),
                opt_name(to),
            )),
            match (from, to) {
                (None, None) => r is Ok && same_state(*old(self), *final(self)),
                (Some(f), None) => {
                    if f@.len() > 0 && old(self).has_user(f@) {
                        r is Ok && deactivate_ok(*old(self), *final(self), f@)
                    } else {
                        same_state(*old(self), *final(self)) && (match r {
                            Err(e) => e.is_user_not_found(f@),
                            Ok(_) => false,
                        })
                    }
                },
                (None, Some(t)) => {
                    if t@.len() > 0 && old(self).has_user(t@) {
                        r is Ok && activate_ok(*old(self), *final(self), t@)
                    } else {
                        same_state(*old(self), *final(self)) && (match r {
                            Err(e) => e.is_user_not_found(t@),
                            Ok(_) => false,
                        })
                    }
                },
                (Some(f), Some(t)) => {
                    if !(f@.len() > 0 && old(self).has_user(f@)) {
                        same_state(*old(self), *final(self)) && (match r {
                            Err(e) => e.is_user_not_found(f@),
                            Ok(_) => false,
                        })
                    } else if !(t@.len() > 0 && old(self).has_user(t@)) {
                        deactivate_ok(*old(self), *final(self), f@) && (match r {
                            Err(e) => e.is_user_not_found(t@),
                            Ok(_) => false,
                        })
                    } else {
                        r is Ok && (exists|mid: UserManager|
                            #[trigger] deactivate_ok(*old(self), mid, f@) && activate_ok(
                                mid,
                                *final(self),
                                t@,
                            ))
                    }
                },
            },
    {
        match from {
            Some(f) => {
                match self.sync_user(f.as_str()) {
                    Ok(_) => {},
                    Err(e) => {
                        return Err(e);
                    },
                }
            },
            None => {},
        }
        let ghost mid = *self;
        match to {
            Some(t) => {
                let r2 = self.sync_global(t.as_str());
                proof {
                    if r2 is Ok {
                        match from {
                            Some(f) => {
                                assert(deactivate_ok(*old(self), mid, f@) && activate_ok(
                                    mid,
                                    *self,
                                    t@,
                                ));
                            },
                            None => {},
                        }
                    }
                }
                r2
            },
            None => Ok(()),
        }
    }

    /// Make the global state fresh for `current` just before launching the
    /// external application. With no user selected, fails with
    /// `NoUserPresentOnLaunch` and writes nothing.
    pub fn prepare_launch(&mut self, current: Option<&String>) -> (r: Result<(), LauncherError>)
        requires
            old(self).wf(),
        ensures
            final(self).wf(),
            match current {
                None => r == Err::<(), LauncherError>(LauncherError::NoUserPresentOnLaunch)
                    && same_state(*old(self), *final(self)),
                Some(u) => {
                    &&& (r is Ok <==> (u@.len() > 0 && old(self).has_user(u@)))
                    &&& (r is Ok ==> activate_ok(*old(self), *final(self), u@))
                    &&& (!(r is Ok) ==> same_state(*old(self), *final(self)) && (match r {
                        Err(e) => e.is_user_not_found(u@),
                        Ok(_) => false,
                    }))
                },
            },
    {
        match current {
            None => Err(LauncherError::NoUserPresentOnLaunch),
            Some(u) => self.sync_global(u.as_str()),
        }
    }

    /// The source and destination paths a mirror in `direction` reads and
    /// writes for user `name` and file `filename`.
    pub fn resolve_paths(&self, direction: SyncDirection, name: &str, filename: &str) -> (p: (
        String,
        String,
    ))
        ensures
            direction == SyncDirection::UserToGlobal ==> p.0@ == self.profile_path() + "/"@ + name@
                + "/"@ + filename@ && p.1@ == self.global_path() + "/"@ + filename@,
            direction == SyncDirection::GlobalToUser ==> p.0@ == self.global_path() + "/"@
                + filename@ && p.1@ == self.profile_path() + "/"@ + name@ + "/"@ + filename@,
    {
        let user_path = self.user_file_path(name, filename);
        let global_path = self.global_file_path(filename);
        match direction {
            SyncDirection::UserToGlobal => (user_path, global_path),
            SyncDirection::GlobalToUser => (global_path, user_path),
        }
    }
}

} // verus!
