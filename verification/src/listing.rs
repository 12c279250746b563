//! Plain snapshots of the resource directory tree, as handed in by the
//! caller: the library itself never touches the file system.

use vstd::prelude::*;

verus! {

/// Model of one resource file: its bare file name and its full text.
pub ghost struct FileView {
    pub name: Seq<char>,
    pub contents: Seq<char>,
}

/// One file of a language subdirectory: its bare name and its full text.
pub struct ResourceFile {
    pub name: String,
    pub contents: String,
}

impl View for ResourceFile {
    type V = FileView;

    open spec fn view(&self) -> FileView {
        FileView { name: self.name@, contents: self.contents@ }
    }
}

impl DeepView for ResourceFile {
    type V = FileView;

    open spec fn deep_view(&self) -> FileView {
        self.view()
    }
}

/// Model of one immediate subdirectory of the base directory.
pub ghost struct SubdirView {
    pub name: Seq<char>,
    pub path: Seq<char>,
    pub files: Seq<FileView>,
}

/// One immediate subdirectory of the base directory: its bare name, its
/// full path, and the resource files found directly inside it.
pub struct SubdirListing {
    pub name: String,
    pub path: String,
    pub files: Vec<ResourceFile>,
}

impl View for SubdirListing {
    type V = SubdirView;

    open spec fn view(&self) -> SubdirView {
        SubdirView { name: self.name@, path: self.path@, files: self.files.deep_view() }
    }
}

impl DeepView for SubdirListing {
    type V = SubdirView;

    open spec fn deep_view(&self) -> SubdirView {
        self.view()
    }
}

/// A snapshot of the base directory: whether it exists as a directory, the
/// path to show in diagnostics, and its immediate subdirectories.
pub struct DirListing {
    pub found: bool,
    pub shown_path: String,
    pub subdirs: Vec<SubdirListing>,
}

} // verus!
