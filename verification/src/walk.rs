//! Collecting the media files under a path.
//!
//! The library decides which path is looked at next and what becomes of
//! what is found there; looking at the disk is left to the caller. The
//! paths still to visit are kept in a list, last in first out, so that the
//! depth of a directory tree is bounded by memory alone.

use std::path::PathBuf;
use vstd::prelude::*;
use crate::media::{Media, MediaView};

verus! {

/// An entry of a directory: its path, and whether it is a directory itself.
#[derive(Debug)]
pub struct Child {
    pub path: PathBuf,
    pub is_dir: bool,
}

/// What the caller found at the path it was handed.
#[derive(Debug)]
pub enum Visit {
    /// A directory, with its entries in the order in which it lists them.
    Directory(Vec<Child>),
    /// A file, with its entity if it could be loaded.
    File(Option<Media>),
}

/// The mathematical value of a `Visit`.
pub enum VisitView {
    Directory(Seq<Child>),
    File(Option<MediaView>),
}

impl View for Visit {
    type V = VisitView;

    open spec fn view(&self) -> VisitView {
        match self {
            Visit::Directory(children) => VisitView::Directory(children@),
            Visit::File(media) => VisitView::File(media.deep_view()),
        }
    }
}

/// The state of a walk: the paths still to visit, the next one last, the
/// files collected so far, and whether directories below the first one are
/// entered.
#[derive(Debug)]
pub struct PathWalk {
    pending: Vec<PathBuf>,
    found: Vec<Media>,
    recursive: bool,
}

/// The mathematical value of a `PathWalk`.
pub struct PathWalkView {
    pub pending: Seq<PathBuf>,
    pub found: Seq<MediaView>,
    pub recursive: bool,
}

impl View for PathWalk {
    type V = PathWalkView;

    closed spec fn view(&self) -> PathWalkView {
        PathWalkView { pending: self.pending@, found: self.found.deep_view(), recursive: self.recursive }
    }
}

/// The entries of a directory that a walk will visit, in their order: all of
/// them in a recursive walk, else all but the directories.
pub open spec fn entered(children: Seq<Child>, recursive: bool) -> Seq<PathBuf>
    decreases children.len(),
{
    if children.len() == 0 {
        Seq::empty()
    } else if children.last().is_dir && !recursive {
        entered(children.drop_last(), recursive)
    } else {
        entered(children.drop_last(), recursive).push(children.last().path)
    }
}

/// The walk after a visit: the entries of a directory that are to be
/// visited are added to the list, a file that was loaded is collected, and
/// a file that could not be loaded is passed over.
pub open spec fn after_visit(walk: PathWalkView, visit: VisitView) -> PathWalkView {
    match visit {
        VisitView::Directory(children) => PathWalkView {
            pending: walk.pending + entered(children, walk.recursive),
            ..walk
        },
        VisitView::File(Some(media)) => PathWalkView { found: walk.found.push(media), ..walk },
        VisitView::File(None) => walk,
    }
}

/// A recursive walk visits every entry of a directory, in the order in
/// which the directory lists them.
pub proof fn lemma_recursive_walk_enters_all(children: Seq<Child>)
    ensures
        entered(children, true) == children.map_values(|child: Child| child.path),
    decreases children.len(),
{
    let paths = children.map_values(|child: Child| child.path);
    if children.len() == 0 {
        assert(entered(children, true) =~= paths);
    } else {
        let shorter = children.drop_last();
        lemma_recursive_walk_enters_all(shorter);
        assert(shorter.map_values(|child: Child| child.path).push(children.last().path) =~= paths);
    }
}

/// A walk that is not recursive visits no directory below the first: every
/// entry that it takes from a directory is one that is no directory.
pub proof fn lemma_flat_walk_skips_directories(children: Seq<Child>, k: int)
    requires
        0 <= k < entered(children, false).len(),
    ensures
        exists|i: int|
            0 <= i < children.len() && !(#[trigger] children[i]).is_dir && children[i].path
                == entered(children, false)[k],
    decreases children.len(),
{
    let last = children.len() - 1;
    let shorter = children.drop_last();
    if children.last().is_dir || k < entered(shorter, false).len() {
        lemma_flat_walk_skips_directories(shorter, k);
        let i = choose|i: int|
            0 <= i < shorter.len() && !(#[trigger] shorter[i]).is_dir && shorter[i].path == entered(
                shorter,
                false,
            )[k];
        assert(children[i] == shorter[i]);
    } else {
        assert(!children[last].is_dir && children[last].path == entered(children, false)[k]);
    }
}

impl PathWalk {
    /// Starts a walk at a path, which may be a directory or a file.
    pub fn new(path: PathBuf, recursive: bool) -> (walk: PathWalk)
        ensures
            walk@ == (PathWalkView { pending: seq![path], found: Seq::empty(), recursive }),
    {
        let mut pending: Vec<PathBuf> = Vec::new();
        pending.push(path);
        let found: Vec<Media> = Vec::new();
        proof {
            assert(found.deep_view() =~= Seq::<MediaView>::empty());
        }
        PathWalk { pending, found, recursive }
    }

    /// Takes the next path to visit off the list: the one added last.
    /// `None` when the walk is over.
    pub fn next_path(&mut self) -> (path: Option<PathBuf>)
        ensures
            match path {
                Some(next) => old(self)@.pending.len() > 0 && next == old(self)@.pending.last()
                    && final(self)@ == (PathWalkView {
                    pending: old(self)@.pending.drop_last(),
                    ..old(self)@
                }),
                None => old(self)@.pending.len() == 0 && final(self)@ == old(self)@,
            },
    {
        self.pending.pop()
    }

    /// Takes in what was found at the path handed out last.
    pub fn record(&mut self, visit: Visit)
        ensures
            final(self)@ == after_visit(old(self)@, visit@),
    {
        match visit {
            Visit::Directory(children) => {
                let ghost all = children@;
                let ghost start = self.pending@;
                let recursive = self.recursive;
                for child in it: children
                    invariant
                        it.seq() == all,
                        recursive == self.recursive,
                        self.recursive == old(self).recursive,
                        self.found == old(self).found,
                        self.pending@ == start + entered(all.take(it.index() as int), recursive),
                {
                    let ghost done = it.index() as int;
                    proof {
                        assert(all.take(done + 1).drop_last() =~= all.take(done));
                    }
                    if !(child.is_dir && !recursive) {
                        self.pending.push(child.path);
                    }
                }
                proof {
                    assert(all.take(all.len() as int) =~= all);
                }
            },
            Visit::File(Some(media)) => {
                let ghost before = self.found.deep_view();
                self.found.push(media);
                proof {
                    assert(self.found.deep_view() =~= before.push(media@));
                }
            },
            Visit::File(None) => {},
        }
    }

    /// Ends the walk and hands out the files collected, in the order in
    /// which they were found.
    pub fn finish(self) -> (found: Vec<Media>)
        ensures
            found.deep_view() == self@.found,
    {
        self.found
    }
}

} // verus!
