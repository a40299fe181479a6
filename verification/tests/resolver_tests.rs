use midl_parser::descriptor::FileDescriptor;
use midl_parser::model::{Schema, Service};
use midl_parser::resolver::{Action, ParsedFiles, ResolveError, Run};

fn schema_form(schema: &Schema) -> Result<Vec<u8>, String> {
    Ok(format!("{:?}", schema).into_bytes())
}

fn service_form(service: &Service) -> Result<Vec<u8>, String> {
    Ok(format!("{:?}", service).into_bytes())
}

fn file(imports: &[&str]) -> FileDescriptor {
    let mut text = String::new();
    for i in imports {
        text.push_str(&format!("import \"{}\";", i));
    }
    text.push_str("package t;");
    midl_parser::parse_string(&text, schema_form, service_form).unwrap()
}

fn keys(files: &ParsedFiles) -> Vec<String> {
    (0..files.len()).map(|i| files.key_at(i).clone()).collect()
}

/// Runs a resolution over an in-memory set of files.
fn resolve(run: &mut Run, root: &str, disk: &[(&str, &[&str])]) -> Result<(), ResolveError> {
    let mut action = run.add_file(root);
    loop {
        match action {
            Action::Finished => return Ok(()),
            Action::Load(path) => match disk.iter().find(|(p, _)| *p == path) {
                Some((_, imports)) => action = run.add_file_content(file(imports))?,
                None => return Err(run.file_not_found()),
            },
        }
    }
}

#[test]
fn parsed_files_keep_their_order() {
    let mut files = ParsedFiles::new();
    assert_eq!(files.len(), 0);
    assert!(!files.contains_key("a"));
    files.insert("b".to_string(), file(&["x"]));
    files.insert("a".to_string(), file(&[]));
    assert_eq!(keys(&files), vec!["b", "a"]);
    assert!(files.contains_key("a"));
    assert_eq!(files.get("b").unwrap().imports.len(), 1);
    assert!(files.get("c").is_none());
    files.insert("b".to_string(), file(&["x", "y"]));
    assert_eq!(keys(&files), vec!["b", "a"]);
    assert_eq!(files.get("b").unwrap().imports.len(), 2);
    assert_eq!(files.file_at(1).imports.len(), 0);
}

#[test]
fn imports_are_parsed_before_the_file_that_imports_them() {
    let disk: &[(&str, &[&str])] = &[
        ("root", &["a", "b"]),
        ("a", &["c"]),
        ("b", &["c", "a"]),
        ("c", &[]),
    ];
    let mut run = Run::new();
    assert_eq!(resolve(&mut run, "root", disk), Ok(()));
    assert_eq!(keys(run.parsed_files()), vec!["c", "a", "b", "root"]);
}

#[test]
fn a_file_is_parsed_once() {
    let disk: &[(&str, &[&str])] = &[("one", &["lib"]), ("two", &["lib"]), ("lib", &[])];
    let mut run = Run::new();
    assert_eq!(run.add_file("one"), Action::Load("one".to_string()));
    assert_eq!(
        run.add_file_content(file(&["lib"])),
        Ok(Action::Load("lib".to_string()))
    );
    assert_eq!(run.add_file_content(file(&[])), Ok(Action::Finished));
    assert_eq!(run.add_file("two"), Action::Load("two".to_string()));
    assert_eq!(run.add_file_content(file(&["lib"])), Ok(Action::Finished));
    assert_eq!(run.add_file("one"), Action::Finished);
    assert_eq!(resolve(&mut run, "lib", disk), Ok(()));
    assert_eq!(keys(&run.into_parsed_files()), vec!["lib", "one", "two"]);
}

#[test]
fn a_cyclic_import_is_an_error() {
    let disk: &[(&str, &[&str])] = &[("a", &["b"]), ("b", &["c"]), ("c", &["a"])];
    let mut run = Run::new();
    assert_eq!(
        resolve(&mut run, "a", disk),
        Err(ResolveError::CyclicImport("a".to_string()))
    );
    assert_eq!(run.parsed_files().len(), 0);
    let own: &[(&str, &[&str])] = &[("self", &["self"])];
    assert_eq!(
        resolve(&mut run, "self", own),
        Err(ResolveError::CyclicImport("self".to_string()))
    );
}

#[test]
fn a_missing_file_is_an_error() {
    let disk: &[(&str, &[&str])] = &[("a", &["gone"])];
    let mut run = Run::new();
    assert_eq!(
        resolve(&mut run, "a", disk),
        Err(ResolveError::FileNotFound("gone".to_string()))
    );
    assert_eq!(run.file_not_found(), ResolveError::NothingRequested);
    assert_eq!(
        run.add_file_content(file(&[])),
        Err(ResolveError::NothingRequested)
    );
}

#[test]
fn gathers_a_file_with_all_that_it_depends_on() {
    let disk: &[(&str, &[&str])] = &[
        ("root", &["a", "b"]),
        ("a", &["c"]),
        ("b", &["c", "a"]),
        ("c", &[]),
        ("other", &["c"]),
    ];
    let mut run = Run::new();
    resolve(&mut run, "root", disk).unwrap();
    resolve(&mut run, "other", disk).unwrap();
    let parsed = run.into_parsed_files();
    assert_eq!(keys(&parsed), vec!["c", "a", "b", "root", "other"]);

    let mut deps = ParsedFiles::new();
    parsed.get_file_and_all_deps_already_parsed("b", &mut deps);
    assert_eq!(keys(&deps), vec!["b", "c", "a"]);

    let mut deps = ParsedFiles::new();
    parsed.get_file_and_all_deps_already_parsed("root", &mut deps);
    assert_eq!(keys(&deps), vec!["root", "a", "c", "b"]);

    let mut deps = ParsedFiles::new();
    parsed.get_all_deps_already_parsed(parsed.get("other").unwrap(), &mut deps);
    assert_eq!(keys(&deps), vec!["c"]);
    parsed.get_file_and_all_deps_already_parsed("other", &mut deps);
    assert_eq!(keys(&deps), vec!["c", "other"]);
    assert_eq!(deps.get("other").unwrap().imports[0].path, "c");
}

#[test]
fn tells_whether_every_import_is_held() {
    let mut files = ParsedFiles::new();
    assert!(files.is_closed());
    files.insert("a".to_string(), file(&["b", "c"]));
    assert!(!files.is_closed());
    files.insert("b".to_string(), file(&[]));
    assert!(!files.is_closed());
    files.insert("c".to_string(), file(&["a", "c"]));
    assert!(files.is_closed());
    let disk: &[(&str, &[&str])] = &[("root", &["x"]), ("x", &[])];
    let mut run = Run::new();
    resolve(&mut run, "root", disk).unwrap();
    assert!(run.parsed_files().is_closed());
}
