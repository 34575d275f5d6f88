//! The output tree: folders of files, each file a sequence of lines, and the
//! interface of whatever writes such a tree out.

use crate::schema::strings_view;
use vstd::prelude::*;

verus! {

/// Writes folders and their files, creating each folder where it is missing
/// and writing each line of a file followed by a newline.
pub trait FileWriter {
    fn write(&self, folders: Vec<Folder>);
}

/// A directory and the files to be written into it.
#[derive(Debug, PartialEq, Eq)]
pub struct Folder {
    pub path: String,
    pub files: Vec<File>,
}

/// A file, written as `<name>.<extension>`, with its lines in order.
#[derive(Debug, PartialEq, Eq)]
pub struct File {
    pub name: String,
    pub extension: String,
    pub content: Vec<String>,
}

pub struct FileView {
    pub name: Seq<char>,
    pub extension: Seq<char>,
    pub content: Seq<Seq<char>>,
}

pub struct FolderView {
    pub path: Seq<char>,
    pub files: Seq<FileView>,
}

impl View for File {
    type V = FileView;

    open spec fn view(&self) -> FileView {
        FileView {
            name: self.name@,
            extension: self.extension@,
            content: strings_view(self.content@),
        }
    }
}

impl View for Folder {
    type V = FolderView;

    open spec fn view(&self) -> FolderView {
        FolderView { path: self.path@, files: files_view(self.files@) }
    }
}

pub open spec fn files_view(fs: Seq<File>) -> Seq<FileView> {
    fs.map_values(|f: File| f@)
}

pub open spec fn folders_view(fs: Seq<Folder>) -> Seq<FolderView> {
    fs.map_values(|f: Folder| f@)
}

} // verus!
