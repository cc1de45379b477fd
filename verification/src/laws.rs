use vstd::prelude::*;

use crate::directory::lemma_find_push;
use crate::sync::{activate_ok, database_file, deactivate_ok, settings_file};
use crate::user_model::{
    global_updated, load_ok, store_names, user_dir_updated, UserManager,
};

verus! {

// ---------------------------------------------------------------------------
// Laws of the synchronization engine, stated over the same predicates its
// contracts use, and proved once for all states and inputs.
// ---------------------------------------------------------------------------

/// A user that was just created exists, and a following user-list load
/// enumerates it: `post` is the state `create_user` leaves behind when it
/// creates `name` anew, and `after_load` the state after `load_user_list`.
pub proof fn lemma_created_user_visible(
    pre: UserManager,
    post: UserManager,
    after_load: UserManager,
    name: Seq<char>,
)
    requires
        pre.wf(),
        !pre.has_user(name),
        post.store() == pre.store().push((name, Seq::<(Seq<char>, Seq<u8>)>::empty())),
        load_ok(post, after_load),
    ensures
        post.has_user(name),
        after_load.listed().contains(name),
{
    let entry = (name, Seq::<(Seq<char>, Seq<u8>)>::empty());
    lemma_find_push(pre.store(), entry, name);
    let names = store_names(post.store());
    assert(names[pre.store().len() as int] == name);
    assert(after_load.listed().contains(name));
}

/// Activating the same user twice, with no change to any file in between,
/// changes nothing the second time: every global file is left exactly as the
/// first activation left it.
pub proof fn lemma_activate_idempotent(
    s0: UserManager,
    s1: UserManager,
    s2: UserManager,
    name: Seq<char>,
)
    requires
        activate_ok(s0, s1, name),
        activate_ok(s1, s2, name),
    ensures
        forall|g: Seq<char>| s2.global_file(g) == s1.global_file(g),
        s2.store() == s1.store(),
{
    assert forall|g: Seq<char>| s2.global_file(g) == s1.global_file(g) by {
        if g == settings_file() {
            assert(s1.user_file(name, g) == s0.user_file(name, g));
        } else if g == database_file() {
            assert(s1.user_file(name, g) == s0.user_file(name, g));
        }
    }
}

/// Mirror round trip: deactivating a user and then activating the same user
/// restores every global managed file byte for byte, and leaves the other
/// global files untouched.
pub proof fn lemma_round_trip(s0: UserManager, s1: UserManager, s2: UserManager, name: Seq<char>)
    requires
        deactivate_ok(s0, s1, name),
        activate_ok(s1, s2, name),
    ensures
        s2.global_file(settings_file()) == s0.global_file(settings_file()),
        s2.global_file(database_file()) == s0.global_file(database_file()),
        forall|g: Seq<char>|
            g != settings_file() && g != database_file() ==> s2.global_file(g) == s0.global_file(
                g,
            ),
{
}

/// Mirror round trip on given bytes: when a managed global file holds `b`,
/// it holds `b` again after a deactivate of `name` followed by an activate
/// of `name`.
pub proof fn lemma_round_trip_bytes(
    s0: UserManager,
    s1: UserManager,
    s2: UserManager,
    name: Seq<char>,
    file: Seq<char>,
    b: Seq<u8>,
)
    requires
        file == settings_file() || file == database_file(),
        s0.global_file(file) == Some(b),
        deactivate_ok(s0, s1, name),
        activate_ok(s1, s2, name),
    ensures
        s2.global_file(file) == Some(b),
{
    lemma_round_trip(s0, s1, s2, name);
}

/// Deletion propagates towards the global directory: when the user lacks the
/// file before the mirror, the global copy is gone after it.
pub proof fn lemma_deletion_propagates_to_global(
    pre: UserManager,
    post: UserManager,
    name: Seq<char>,
    file: Seq<char>,
)
    requires
        global_updated(pre, post, file, pre.user_file(name, file)),
        pre.user_file(name, file) is None,
    ensures
        post.global_file(file) is None,
{
}

/// Deletion propagates towards the user's directory: when the global side
/// lacks the file before the mirror, the user's copy is gone after it.
pub proof fn lemma_deletion_propagates_to_user(
    pre: UserManager,
    post: UserManager,
    name: Seq<char>,
    file: Seq<char>,
)
    requires
        user_dir_updated(pre, post, name, file, pre.global_file(file)),
        pre.global_file(file) is None,
    ensures
        post.user_file(name, file) is None,
{
}

} // verus!
