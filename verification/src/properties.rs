//! Properties that hold across whole operation sequences, proved over the
//! same spec functions the operations' contracts use.
use vstd::prelude::*;

verus! {

use crate::app_config::ProjectModel;
use crate::app_config::has_name;
use crate::commands::add_command::AddAction;
use crate::commands::add_command::apply_add_action;
use crate::commands::add_command::is_mutating;
use crate::commands::add_command::spec_classify;
use crate::commands::file_forget_command::apply_forget;
use crate::fs_model::FileObservation;
use crate::fs_model::FsModel;
use crate::fs_model::FsNode;
use crate::fs_model::obs_matches;

/// Adding a file is idempotent: whatever state the first add reached, a
/// second add of the same file classifies as already managed (or repeats a
/// conflict report) and leaves the filesystem exactly as the first left it.
pub proof fn lemma_add_idempotent(
    fs0: FsModel,
    user: Seq<Seq<char>>,
    managed: Seq<Seq<char>>,
    managed_dir: Seq<Seq<char>>,
    obs0: FileObservation,
    obs1: FileObservation,
)
    requires
        user != managed,
        obs_matches(fs0, user, managed, managed_dir, obs0),
        obs_matches(
            apply_add_action(fs0, user, managed, spec_classify(obs0, managed)),
            user,
            managed,
            managed_dir,
            obs1,
        ),
    ensures
        is_mutating(spec_classify(obs0, managed)) ==> spec_classify(obs1, managed)
            == AddAction::AlreadyManaged,
        apply_add_action(
            apply_add_action(fs0, user, managed, spec_classify(obs0, managed)),
            user,
            managed,
            spec_classify(obs1, managed),
        ) == apply_add_action(fs0, user, managed, spec_classify(obs0, managed)),
{
    let a0 = spec_classify(obs0, managed);
    let fs1 = apply_add_action(fs0, user, managed, a0);
    if is_mutating(a0) {
        assert(fs1.nodes.contains_key(user));
        assert(fs1.nodes[user] == FsNode::Symlink(true, managed));
        assert(fs1.nodes.contains_key(managed));
        assert(obs1.user_exists);
        assert(obs1.managed_exists);
        match obs1.user_link_target {
            Some(t) => {
                assert(FsNode::Symlink(t.absolute, t.model()) == FsNode::Symlink(true, managed));
                assert(t.absolute && t.model() == managed);
            },
            None => {
                assert(false);
            },
        }
        assert(spec_classify(obs1, managed) == AddAction::AlreadyManaged);
    } else {
        assert(fs1 == fs0);
        if a0 == AddAction::AlreadyManaged {
            let t0 = obs0.user_link_target->0;
            assert(fs0.nodes[user] == FsNode::Symlink(t0.absolute, t0.model()));
            assert(fs0.nodes[user] == FsNode::Symlink(true, managed));
            match obs1.user_link_target {
                Some(t) => {
                    assert(FsNode::Symlink(t.absolute, t.model()) == FsNode::Symlink(
                        true,
                        managed,
                    ));
                },
                None => {
                    assert(false);
                },
            }
            assert(spec_classify(obs1, managed) == AddAction::AlreadyManaged);
        } else {
            assert(a0 == AddAction::Conflict);
            assert(obs0.user_exists && obs0.managed_exists);
            assert(obs1.user_exists && obs1.managed_exists);
            match obs1.user_link_target {
                Some(t1) => {
                    assert(fs0.nodes[user] == FsNode::Symlink(t1.absolute, t1.model()));
                    match obs0.user_link_target {
                        Some(t0) => {
                            assert(fs0.nodes[user] == FsNode::Symlink(t0.absolute, t0.model()));
                            assert(!(t0.absolute && t0.model() == managed));
                            assert(!(t1.absolute && t1.model() == managed));
                        },
                        None => {
                            assert(false);
                        },
                    }
                },
                None => {},
            }
            assert(spec_classify(obs1, managed) == AddAction::Conflict);
        }
    }
}

/// Adding an existing plain file and then forgetting it without `delete`
/// restores the file with its original content, removes the managed entry,
/// and leaves the filesystem exactly as it started.
pub proof fn lemma_add_forget_round_trip(
    fs0: FsModel,
    user: Seq<Seq<char>>,
    managed: Seq<Seq<char>>,
    managed_dir: Seq<Seq<char>>,
    content: Seq<u8>,
    obs0: FileObservation,
    obs1: FileObservation,
)
    requires
        user != managed,
        fs0.nodes.contains_key(user),
        fs0.nodes[user] == FsNode::File(content),
        !fs0.nodes.contains_key(managed),
        obs_matches(fs0, user, managed, managed_dir, obs0),
        obs_matches(
            apply_add_action(fs0, user, managed, spec_classify(obs0, managed)),
            user,
            managed,
            managed_dir,
            obs1,
        ),
    ensures
        spec_classify(obs0, managed) == AddAction::MoveInAndLink,
        ({
            let fs1 = apply_add_action(fs0, user, managed, spec_classify(obs0, managed));
            let fs2 = apply_forget(fs1, user, managed, obs1.user_exists, true);
            &&& fs2.nodes.contains_key(user)
            &&& fs2.nodes[user] == FsNode::File(content)
            &&& !fs2.nodes.contains_key(managed)
            &&& fs2.nodes == fs0.nodes
        }),
{
    assert(obs0.user_exists && !obs0.managed_exists);
    let fs1 = apply_add_action(fs0, user, managed, spec_classify(obs0, managed));
    assert(fs1.nodes[managed] == FsNode::File(content));
    assert(fs1.nodes.contains_key(user));
    assert(obs1.user_exists);
    let fs2 = apply_forget(fs1, user, managed, obs1.user_exists, true);
    assert(fs2.nodes =~= fs0.nodes);
}

/// Counts the projects that carry a name.
pub open spec fn count_name(m: Seq<ProjectModel>, name: Seq<char>) -> nat
    decreases m.len(),
{
    if m.len() == 0 {
        0
    } else {
        count_name(m.drop_last(), name) + if m.last().name == name {
            1nat
        } else {
            0nat
        }
    }
}

/// A name nobody carries is counted zero times.
pub proof fn lemma_count_name_zero(m: Seq<ProjectModel>, name: Seq<char>)
    requires
        !has_name(m, name),
    ensures
        count_name(m, name) == 0,
    decreases m.len(),
{
    if m.len() > 0 {
        assert(!has_name(m.drop_last(), name)) by {
            assert(forall|i: int|
                0 <= i < m.len() - 1 ==> #[trigger] m.drop_last()[i] == m[i]);
        }
        lemma_count_name_zero(m.drop_last(), name);
        assert(m.last() == m[m.len() - 1]);
    }
}

/// After an add of a fresh name succeeds, the same name is present — so a
/// second add of it is owed `DuplicateName` and changes nothing — and the
/// registry holds exactly one project of that name.
pub proof fn lemma_duplicate_name_rejected(m0: Seq<ProjectModel>, p: ProjectModel)
    requires
        !has_name(m0, p.name),
    ensures
        has_name(m0.push(p), p.name),
        count_name(m0.push(p), p.name) == 1,
{
    assert(m0.push(p)[m0.len() as int] == p);
    assert(has_name(m0.push(p), p.name));
    assert(m0.push(p).drop_last() =~= m0);
    assert(m0.push(p).last() == p);
    lemma_count_name_zero(m0, p.name);
}

} // verus!
