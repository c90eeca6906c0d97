//! The bookmark store: an ordered, mutable collection of bookmark records.
//! A bookmark has no intrinsic identity; it is identified solely by its
//! position in the store, so every removal shifts the positions after it.

use vstd::prelude::*;

verus! {

/// A cursor position: zero-based line and column.
#[derive(Clone, Copy, Debug, PartialEq, Eq, Structural)]
pub struct Point {
    pub row: u32,
    pub column: u32,
}

/// One bookmark record: a user-chosen label, a project-relative path, the
/// absolute path of the file, and the cursor position the bookmark points at.
/// Bookmarks are immutable once created.
pub struct Bookmark {
    pub label: String,
    pub project_path: String,
    pub abs_path: String,
    pub point: Point,
}

impl Bookmark {
    pub fn new(label: &str, project_path: String, abs_path: String, point: Point) -> (b: Bookmark)
        ensures
            b.label@ == label@,
            b.project_path == project_path,
            b.abs_path == abs_path,
            b.point == point,
    {
        Bookmark { label: label.to_owned(), project_path, abs_path, point }
    }

    pub fn label(&self) -> (r: &String)
        ensures
            r == &self.label,
    {
        &self.label
    }

    pub fn abs_path(&self) -> (r: &String)
        ensures
            r == &self.abs_path,
    {
        &self.abs_path
    }

    pub fn project_path(&self) -> (r: &String)
        ensures
            r == &self.project_path,
    {
        &self.project_path
    }

    pub fn point(&self) -> (r: Point)
        ensures
            r == self.point,
    {
        self.point
    }
}

impl Clone for Bookmark {
    fn clone(&self) -> (r: Self)
        ensures
            r == *self,
    {
        Bookmark {
            label: self.label.clone(),
            project_path: self.project_path.clone(),
            abs_path: self.abs_path.clone(),
            point: self.point,
        }
    }
}

/// The one store-level failure: an index that does not reference a live
/// bookmark. It signals an internal invariant breach, never a user error.
#[derive(Clone, Copy, Debug, PartialEq, Eq, Structural)]
pub enum StoreError {
    OutOfRange,
}

/// An ordered, growable collection of bookmarks, addressed by position.
pub struct BookmarkStore {
    items: Vec<Bookmark>,
}

impl View for BookmarkStore {
    type V = Seq<Bookmark>;

    closed spec fn view(&self) -> Seq<Bookmark> {
        self.items@
    }
}

impl BookmarkStore {
    pub fn new() -> (s: BookmarkStore)
        ensures
            s@ == Seq::<Bookmark>::empty(),
    {
        BookmarkStore { items: Vec::new() }
    }

    /// Adds a bookmark at the end. Labels and locations need not be unique.
    pub fn append(&mut self, bookmark: Bookmark)
        ensures
            final(self)@ == old(self)@.push(bookmark),
    {
        self.items.push(bookmark);
    }

    /// Removes the bookmark at `index` and returns it; every position after
    /// `index` shifts down by one, so previously captured positional ids are
    /// invalidated. Fails with `OutOfRange` when `index` is not a live
    /// position, leaving the store unchanged.
    pub fn remove_at(&mut self, index: usize) -> (r: Result<Bookmark, StoreError>)
        ensures
            match r {
                Ok(removed) => {
                    &&& index < old(self)@.len()
                    &&& removed == old(self)@[index as int]
                    &&& final(self)@ == old(self)@.remove(index as int)
                },
                Err(e) => {
                    &&& index >= old(self)@.len()
                    &&& e == StoreError::OutOfRange
                    &&& *final(self) == *old(self)
                },
            },
    {
        if index < self.items.len() {
            Ok(self.items.remove(index))
        } else {
            Err(StoreError::OutOfRange)
        }
    }

    /// Reads the bookmark at `index`, or `None` when the position is not live.
    pub fn get(&self, index: usize) -> (r: Option<&Bookmark>)
        ensures
            match r {
                Some(b) => index < self@.len() && *b == self@[index as int],
                None => index >= self@.len(),
            },
    {
        if index < self.items.len() {
            Some(&self.items[index])
        } else {
            None
        }
    }

    pub fn length(&self) -> (n: usize)
        ensures
            n == self@.len(),
    {
        self.items.len()
    }
}

} // verus!
