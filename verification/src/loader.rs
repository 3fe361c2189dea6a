//! What the loader decides between reading a directory and handing the
//! service definitions to the core: which entries are service files, and
//! what becomes of the definitions that were read from them.

use crate::formats::{service_views, Service, ServiceView};
use vstd::prelude::*;

verus! {

/// One entry of the services directory.
#[derive(Debug, PartialEq, Eq)]
pub struct DirEntry {
    pub file_name: String,
    /// Whether the entry is a regular file.
    pub is_file: bool,
}

pub struct DirEntryView {
    pub file_name: Seq<char>,
    pub is_file: bool,
}

impl View for DirEntry {
    type V = DirEntryView;

    open spec fn view(&self) -> DirEntryView {
        DirEntryView { file_name: self.file_name@, is_file: self.is_file }
    }
}

/// The suffix by which a service file is known.
pub open spec fn toml_suffix() -> Seq<char> {
    seq!['.', 't', 'o', 'm', 'l']
}

/// Whether the name ends in `.toml`.
pub open spec fn has_toml_suffix(file_name: Seq<char>) -> bool {
    file_name.len() >= 5 && file_name.skip(file_name.len() - 5) == toml_suffix()
}

impl DirEntryView {
    /// A service file is a regular file whose name ends in `.toml`.
    pub open spec fn is_service_file(self) -> bool {
        self.is_file && has_toml_suffix(self.file_name)
    }
}

/// The views of a list of directory entries, in order.
pub open spec fn entry_views(entries: Seq<DirEntry>) -> Seq<DirEntryView> {
    entries.map_values(|e: DirEntry| e@)
}

/// Whether the name ends in `.toml`.
pub fn has_toml_extension(file_name: &str) -> (b: bool)
    ensures
        b == has_toml_suffix(file_name@),
{
    let n = file_name.unicode_len();
    if n < 5 {
        return false;
    }
    let found = file_name.get_char(n - 5) == '.' && file_name.get_char(n - 4) == 't'
        && file_name.get_char(n - 3) == 'o' && file_name.get_char(n - 2) == 'm'
        && file_name.get_char(n - 1) == 'l';
    proof {
        let tail = file_name@.skip(n - 5);
        assert(tail.len() == 5);
        assert(tail[0] == file_name@[n - 5]);
        assert(tail[1] == file_name@[n - 4]);
        assert(tail[2] == file_name@[n - 3]);
        assert(tail[3] == file_name@[n - 2]);
        assert(tail[4] == file_name@[n - 1]);
        if found {
            assert(tail =~= toml_suffix());
        }
    }
    found
}

/// Whether the entry is a service file.
pub fn is_toml_file(entry: &DirEntry) -> (b: bool)
    ensures
        b == entry@.is_service_file(),
{
    entry.is_file && has_toml_extension(entry.file_name.as_str())
}

/// The names of the regular files among the entries, in order: directories
/// and everything else that is no file are left out.
pub fn list_files(entries: &Vec<DirEntry>) -> (files: Vec<String>)
    ensures
        files.deep_view() == entry_views(entries@).filter(|e: DirEntryView| e.is_file).map_values(
            |e: DirEntryView| e.file_name,
        ),
{
    let ghost views = entry_views(entries@);
    let ghost wanted = |e: DirEntryView| e.is_file;
    let ghost name_of = |e: DirEntryView| e.file_name;
    let mut files: Vec<String> = Vec::new();
    let mut i: usize = 0;
    while i < entries.len()
        invariant
            i <= entries.len(),
            views == entry_views(entries@),
            wanted == (|e: DirEntryView| e.is_file),
            name_of == (|e: DirEntryView| e.file_name),
            files.deep_view() == views.take(i as int).filter(wanted).map_values(name_of),
        decreases entries.len() - i,
    {
        proof {
            assert(views.take(i + 1) =~= views.take(i as int).push(views[i as int]));
            views.take(i as int).lemma_filter_push(views[i as int], wanted);
        }
        let ghost chosen = files.deep_view();
        if entries[i].is_file {
            files.push(entries[i].file_name.clone());
            assert(files.deep_view() =~= chosen.push(views[i as int].file_name));
            assert(views.take(i as int).filter(wanted).push(views[i as int]).map_values(name_of)
                =~= chosen.push(views[i as int].file_name));
        }
        i += 1;
    }
    proof {
        assert(views.take(i as int) =~= views);
    }
    files
}

/// The names of the service files among the entries, in order.
pub fn toml_files(entries: &Vec<DirEntry>) -> (files: Vec<String>)
    ensures
        files.deep_view() == entry_views(entries@).filter(
            |e: DirEntryView| e.is_service_file(),
        ).map_values(|e: DirEntryView| e.file_name),
{
    let ghost views = entry_views(entries@);
    let ghost wanted = |e: DirEntryView| e.is_service_file();
    let ghost name_of = |e: DirEntryView| e.file_name;
    let mut files: Vec<String> = Vec::new();
    let mut i: usize = 0;
    while i < entries.len()
        invariant
            i <= entries.len(),
            views == entry_views(entries@),
            wanted == (|e: DirEntryView| e.is_service_file()),
            name_of == (|e: DirEntryView| e.file_name),
            files.deep_view() == views.take(i as int).filter(wanted).map_values(name_of),
        decreases entries.len() - i,
    {
        proof {
            assert(views.take(i + 1) =~= views.take(i as int).push(views[i as int]));
            views.take(i as int).lemma_filter_push(views[i as int], wanted);
        }
        let ghost chosen = files.deep_view();
        if is_toml_file(&entries[i]) {
            files.push(entries[i].file_name.clone());
            assert(files.deep_view() =~= chosen.push(views[i as int].file_name));
            assert(views.take(i as int).filter(wanted).push(views[i as int]).map_values(name_of)
                =~= chosen.push(views[i as int].file_name));
        }
        i += 1;
    }
    proof {
        assert(views.take(i as int) =~= views);
    }
    files
}

/// A service file after the attempt to read a definition from it.
#[derive(Debug, PartialEq, Eq)]
pub struct LoadedFile {
    pub file_name: String,
    /// The definition, or `None` where the file could not be parsed.
    pub definition: Option<Service>,
}

pub struct LoadedFileView {
    pub file_name: Seq<char>,
    pub definition: Option<ServiceView>,
}

impl View for LoadedFile {
    type V = LoadedFileView;

    open spec fn view(&self) -> LoadedFileView {
        LoadedFileView {
            file_name: self.file_name@,
            definition: match self.definition {
                Some(s) => Some(s@),
                None => None,
            },
        }
    }
}

impl LoadedFileView {
    /// The service that the file contributes: its definition, named after
    /// the file where the definition has no name of its own; nothing where
    /// the file could not be parsed.
    pub open spec fn service(self) -> Option<ServiceView> {
        match self.definition {
            Some(s) => Some(
                if s.name.len() == 0 {
                    ServiceView { name: self.file_name, ..s }
                } else {
                    s
                },
            ),
            None => None,
        }
    }
}

/// The views of a list of loaded files, in order.
pub open spec fn loaded_views(files: Seq<LoadedFile>) -> Seq<LoadedFileView> {
    files.map_values(|f: LoadedFile| f@)
}

/// The services that the files contribute, in order.
pub open spec fn contributed(files: Seq<LoadedFileView>) -> Seq<ServiceView> {
    files.filter_map(|f: LoadedFileView| f.service())
}

/// The services that the loaded files contribute, in order. A file that
/// could not be parsed contributes nothing.
pub fn fetch_services(files: Vec<LoadedFile>) -> (services: Vec<Service>)
    ensures
        service_views(services@) == contributed(loaded_views(files@)),
{
    let ghost views = loaded_views(files@);
    let ghost contributes = |f: LoadedFileView| f.service();
    let mut services: Vec<Service> = Vec::new();
    let mut i: usize = 0;
    assert(service_views(services@) =~= views.take(0).filter_map(contributes));
    while i < files.len()
        invariant
            i <= files.len(),
            views == loaded_views(files@),
            contributes == (|f: LoadedFileView| f.service()),
            service_views(services@) == views.take(i as int).filter_map(contributes),
        decreases files.len() - i,
    {
        proof {
            views.lemma_filter_map_take_succ(contributes, i as int);
        }
        let ghost chosen = service_views(services@);
        let file = &files[i];
        assert(file@ == views[i as int]);
        match &file.definition {
            Some(definition) => {
                let service = definition.clone().named_after_file(file.file_name.as_str());
                services.push(service);
                assert(service_views(services@) =~= chosen + seq![service@]);
            },
            None => {
                assert(chosen + Seq::<ServiceView>::empty() =~= chosen);
            },
        }
        i += 1;
    }
    proof {
        assert(views.take(i as int) =~= views);
    }
    services
}

} // verus!
