use horust::formats::Service;
use horust::loader::{
    fetch_services, has_toml_extension, is_toml_file, list_files, toml_files, DirEntry, LoadedFile,
};

fn file(name: &str) -> DirEntry {
    DirEntry { file_name: name.to_string(), is_file: true }
}

fn dir(name: &str) -> DirEntry {
    DirEntry { file_name: name.to_string(), is_file: false }
}

fn loaded(name: &str, definition: Option<Service>) -> LoadedFile {
    LoadedFile { file_name: name.to_string(), definition }
}

/// The directory of the tests below: two service files and a file that is none.
fn test_dir() -> Vec<DirEntry> {
    vec![file("my-first-service.toml"), file("my-second-service.toml"), file("not-a-service")]
}

fn load(entries: &Vec<DirEntry>) -> Vec<Service> {
    let a = Service::from_name("a");
    let b = Service::start_after("b", vec!["a"]);
    let files = toml_files(entries)
        .into_iter()
        .map(|name| {
            let definition = match name.as_str() {
                "my-first-service.toml" => Some(a.clone()),
                "my-second-service.toml" => Some(b.clone()),
                _ => None,
            };
            loaded(&name, definition)
        })
        .collect();
    fetch_services(files)
}

#[test]
fn mod_test_fetch_services() {
    let res = load(&test_dir());
    assert_eq!(res.len(), 2);
    let mut names: Vec<String> = res.into_iter().map(|serv| serv.name).collect();
    names.sort();
    assert_eq!(vec!["a", "b"], names);
}

#[test]
fn runtime_test_fetch_services() {
    let mut entries = test_dir();
    entries.push(dir("services.toml"));
    let res = load(&entries);
    assert_eq!(res.len(), 2);
    let mut names: Vec<String> = res.into_iter().map(|serv| serv.name).collect();
    names.sort();
    assert_eq!(vec!["a", "b"], names);
}

#[test]
fn test_list_files() {
    let files = vec!["a", "b", "c"];
    let dirs = vec!["1", "2", "3"];
    let mut entries: Vec<DirEntry> = vec![];
    for (f, d) in files.iter().zip(dirs.iter()) {
        entries.push(dir(d));
        entries.push(file(f));
    }
    let mut res = list_files(&entries);
    res.sort();
    assert_eq!(res, files);
}

#[test]
fn toml_suffix_is_recognised() {
    assert!(has_toml_extension("a.toml"));
    assert!(has_toml_extension(".toml"));
    assert!(has_toml_extension("dir.d/sérvice.toml"));
    assert!(!has_toml_extension("toml"));
    assert!(!has_toml_extension("atoml"));
    assert!(!has_toml_extension("a.toml.bak"));
    assert!(!has_toml_extension("a.TOML"));
    assert!(!has_toml_extension("a.tom"));
    assert!(!has_toml_extension(""));
}

#[test]
fn only_regular_files_are_service_files() {
    assert!(is_toml_file(&file("a.toml")));
    assert!(!is_toml_file(&dir("a.toml")));
    assert!(!is_toml_file(&file("a.txt")));
    let entries = vec![dir("x.toml"), file("b.toml"), file("notes"), file("a.toml")];
    assert_eq!(toml_files(&entries), vec!["b.toml", "a.toml"]);
    assert_eq!(list_files(&entries), vec!["b.toml", "notes", "a.toml"]);
    assert_eq!(list_files(&vec![]), Vec::<String>::new());
}

#[test]
fn unparsable_files_are_skipped() {
    let services = fetch_services(vec![
        loaded("broken.toml", None),
        loaded("a.toml", Some(Service::from_name("a"))),
        loaded("worse.toml", None),
    ]);
    assert_eq!(services, vec![Service::from_name("a")]);
    assert_eq!(fetch_services(vec![]), vec![]);
}

#[test]
fn definition_without_name_inherits_the_file_name() {
    let services = fetch_services(vec![
        loaded("first.toml", Some(Service::start_after("", vec!["b"]))),
        loaded("second.toml", Some(Service::from_name("b"))),
    ]);
    assert_eq!(
        services,
        vec![Service::start_after("first.toml", vec!["b"]), Service::from_name("b")]
    );
}
