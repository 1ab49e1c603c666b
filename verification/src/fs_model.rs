//! A mathematical picture of the slice of the filesystem the reconciler
//! touches, and the observations the application hands to it.
//!
//! The core never performs filesystem calls itself.  The application
//! observes the on-disk state, the core classifies it and decides a plan,
//! and the application carries the plan out.  The spec functions here say
//! what carrying a plan out does to the filesystem, so that properties of
//! whole operation sequences can be proved.
use vstd::prelude::*;

verus! {

use crate::paths::FsPath;

/// One filesystem object: a regular file with its bytes, a symbolic link
/// with its target, or a directory.
pub ghost enum FsNode {
    File(Seq<u8>),
    Symlink(bool, Seq<Seq<char>>),
    Dir,
}

/// The filesystem, as a partial map from absolute paths to objects.
/// Directories are tracked only where a decision depends on them.
pub ghost struct FsModel {
    pub nodes: Map<Seq<Seq<char>>, FsNode>,
}

/// The bytes of the regular file at `p`, or empty when there is none.
pub open spec fn content_of(fs: FsModel, p: Seq<Seq<char>>) -> Seq<u8> {
    if fs.nodes.contains_key(p) && fs.nodes[p] is File {
        fs.nodes[p]->File_0
    } else {
        Seq::empty()
    }
}

/// What the application observed about the user-side file, its managed
/// counterpart, and the project's managed directory, in one snapshot.
pub struct FileObservation {
    /// The user-side path exists (whatever it is).
    pub user_exists: bool,
    /// The user-side path is a directory.
    pub user_is_dir: bool,
    /// The user-side path is a symlink, and where it points.
    pub user_link_target: Option<FsPath>,
    /// The managed counterpart of the file exists.
    pub managed_exists: bool,
    /// The project's managed directory exists.
    pub managed_dir_exists: bool,
}

/// The observation agrees with the filesystem on the user path, the managed
/// path and the managed directory.
pub open spec fn obs_matches(
    fs: FsModel,
    user: Seq<Seq<char>>,
    managed: Seq<Seq<char>>,
    managed_dir: Seq<Seq<char>>,
    obs: FileObservation,
) -> bool {
    &&& obs.user_exists == fs.nodes.contains_key(user)
    &&& obs.user_is_dir == (fs.nodes.contains_key(user) && fs.nodes[user] is Dir)
    &&& match obs.user_link_target {
        Some(t) => fs.nodes.contains_key(user) && fs.nodes[user] == FsNode::Symlink(
            t.absolute,
            t.model(),
        ),
        None => !(fs.nodes.contains_key(user) && fs.nodes[user] is Symlink),
    }
    &&& obs.managed_exists == fs.nodes.contains_key(managed)
    &&& obs.managed_dir_exists == (fs.nodes.contains_key(managed_dir) && fs.nodes[managed_dir]
        is Dir)
}

} // verus!
