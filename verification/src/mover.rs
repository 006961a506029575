//! The mover: planning the relocation of a file into a category folder.
//!
//! The plan is pure: it names the directory to ensure and the rename to
//! perform, or says that nothing is to be done. The application carries
//! the plan out; a `NoOp` plan renames nothing and fires no notification.

use vstd::prelude::*;
use crate::category::Category;
use crate::path::FilePath;

verus! {

/// A move plan at the specification level.
pub enum SpecPlan {
    /// The source path has no final component: nothing can be moved.
    Invalid,
    /// The file already lies at its target path: no rename, no notification.
    NoOp,
    /// Ensure `dir` exists, rename the file to `to`, then notify.
    Rename { dir: Seq<Seq<char>>, to: Seq<Seq<char>> },
}

/// A move plan: what the application must do for one file.
pub enum MovePlan {
    /// The source path has no final component: nothing can be moved.
    Invalid,
    /// The file already lies at its target path: no rename, no notification.
    NoOp,
    /// Ensure `dir` exists, rename the file to `to`, then notify.
    Rename { dir: FilePath, to: FilePath },
}

impl View for MovePlan {
    type V = SpecPlan;

    open spec fn view(&self) -> SpecPlan {
        match self {
            MovePlan::Invalid => SpecPlan::Invalid,
            MovePlan::NoOp => SpecPlan::NoOp,
            MovePlan::Rename { dir, to } => SpecPlan::Rename { dir: dir@, to: to@ },
        }
    }
}

/// The directory that holds `cat`'s files under `root`.
pub open spec fn spec_target_dir(root: Seq<Seq<char>>, cat: Category) -> Seq<Seq<char>> {
    root.push(cat.spec_folder_name())
}

/// The path the mover assigns to a file named by the last component of
/// `path`, under `root`, for category `cat`.
pub open spec fn spec_target_path(
    path: Seq<Seq<char>>,
    root: Seq<Seq<char>>,
    cat: Category,
) -> Seq<Seq<char>> {
    spec_target_dir(root, cat).push(path.last())
}

/// What the mover does with a file at `path`, filing into `root` under `cat`.
pub open spec fn spec_plan_move(
    path: Seq<Seq<char>>,
    root: Seq<Seq<char>>,
    cat: Category,
) -> SpecPlan {
    if path.len() == 0 {
        SpecPlan::Invalid
    } else {
        let dir = spec_target_dir(root, cat);
        let to = spec_target_path(path, root, cat);
        if to == path {
            SpecPlan::NoOp
        } else {
            SpecPlan::Rename { dir, to }
        }
    }
}

/// Plans the move of the file at `path` into `dest_root`'s subfolder for
/// `cat`: a no-op when the file is already correctly filed, otherwise a
/// rename into the (possibly still missing) category directory.
pub fn plan_move(path: &FilePath, dest_root: &FilePath, cat: Category) -> (r: MovePlan)
    ensures
        r@ == spec_plan_move(path@, dest_root@, cat),
{
    if path.parts.len() == 0 {
        return MovePlan::Invalid;
    }
    let name = &path.parts[path.parts.len() - 1];
    let dir = dest_root.child(cat.folder_name());
    let to = dir.child(name.as_str());
    assert(to@ == spec_target_path(path@, dest_root@, cat));
    if to.equals(path) {
        MovePlan::NoOp
    } else {
        MovePlan::Rename { dir, to }
    }
}

/// LAW (idempotence of placing): when the mover plans a rename of `path`
/// to some target `to`, planning the same move again from `to` is a
/// no-op: the second call performs no rename and fires no notification.
pub proof fn lemma_place_idempotent(path: Seq<Seq<char>>, root: Seq<Seq<char>>, cat: Category)
    ensures
        (spec_plan_move(path, root, cat) matches SpecPlan::Rename { dir, to } ==> spec_plan_move(
            to,
            root,
            cat,
        ) == SpecPlan::NoOp),
{
    let to = spec_target_path(path, root, cat);
    if path.len() > 0 && to != path {
        assert(to.last() == path.last());
        assert(spec_target_path(to, root, cat) == to);
    }
}

} // verus!
