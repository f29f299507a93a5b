//! The scan of a folder: which of its entries are listed as tracks, and in
//! which order.

use vstd::prelude::*;
use crate::formats::{is_supported, supported_ext};
use crate::sorted::{is_stable_sort_of, sort_by_key};
use crate::text::{chars_of, lowercased, text_of, to_lowercase};

verus! {

/// What the scan reads of an entry of a folder.
#[derive(Clone, Debug, PartialEq, Eq)]
pub struct FolderEntry {
    pub path: String,
    /// The last part of the path.
    pub file_name: String,
    /// The file name without its extension, where it has one.
    pub stem: Option<String>,
    /// The extension of the file name, where it has one.
    pub extension: Option<String>,
    /// Whether the entry is a file, and no directory.
    pub is_file: bool,
}

/// A track as it is listed.
#[derive(Clone, Debug, PartialEq, Eq)]
pub struct SimpleFile {
    pub path: String,
    pub file_name: String,
}

impl FolderEntry {
    /// Whether the entry is listed: whether it is a file of a format that
    /// the application works on.
    pub open spec fn is_listed(&self) -> bool {
        self.is_file && is_supported(text_of(self.extension))
    }

    /// The entry as it is listed.
    pub open spec fn listing(&self) -> SimpleFile {
        SimpleFile { path: self.path, file_name: self.file_name }
    }
}

/// The entries of `entries` that are listed, in their order.
pub open spec fn listed_files(entries: Seq<FolderEntry>) -> Seq<SimpleFile>
    decreases entries.len(),
{
    if entries.len() == 0 {
        Seq::empty()
    } else if entries.last().is_listed() {
        listed_files(entries.drop_last()).push(entries.last().listing())
    } else {
        listed_files(entries.drop_last())
    }
}

/// What a track is filed under in the list: its file name in lower case.
pub open spec fn file_key() -> spec_fn(SimpleFile) -> Seq<char> {
    |file: SimpleFile| lowercased(file.file_name@)
}

/// Lists the tracks among the entries of a folder: the files of the formats
/// that the application works on, sorted by their names without regard to
/// case. Files whose names differ in case only keep the order they were
/// found in.
pub fn scan_folder(entries: &Vec<FolderEntry>) -> (files: Vec<SimpleFile>)
    ensures
        is_stable_sort_of(files@, listed_files(entries@), file_key()),
{
    let mut keys: Vec<Vec<char>> = Vec::new();
    let mut found: Vec<SimpleFile> = Vec::new();
    let mut i: usize = 0;
    while i < entries.len()
        invariant
            i <= entries.len(),
            found@ == listed_files(entries@.take(i as int)),
            keys.len() == found.len(),
            forall|j: int| 0 <= j < found.len() ==> (#[trigger] keys[j])@ == file_key()(found[j]),
        decreases entries.len() - i,
    {
        let entry = &entries[i];
        assert(entries@.take(i + 1).drop_last() =~= entries@.take(i as int));
        let supported = match &entry.extension {
            Some(ext) => supported_ext(Some(ext.as_str())),
            None => supported_ext(None),
        };
        if entry.is_file && supported {
            let lower = to_lowercase(entry.file_name.as_str());
            keys.push(chars_of(lower.as_str()));
            found.push(SimpleFile { path: entry.path.clone(), file_name: entry.file_name.clone() });
        }
        i += 1;
    }
    assert(entries@.take(entries.len() as int) =~= entries@);
    sort_by_key(keys, found, Ghost(file_key()))
}

} // verus!
