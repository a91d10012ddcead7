use perl_lsp_runtime::module_resolution::{append_system_inc_paths, prepend_use_lib_paths};

fn strings(items: &[&str]) -> Vec<String> {
    items.iter().map(|s| s.to_string()).collect()
}

#[test]
fn use_lib_paths_go_first_in_document_order() {
    let mut paths = strings(&["lib", "local/lib", "t/lib"]);
    prepend_use_lib_paths(&mut paths, strings(&["/opt/app/lib", "t/lib"]));
    assert_eq!(paths, strings(&["/opt/app/lib", "t/lib", "lib", "local/lib"]));
}

#[test]
fn use_lib_paths_on_empty_list() {
    let mut paths: Vec<String> = Vec::new();
    prepend_use_lib_paths(&mut paths, strings(&["a", "b"]));
    assert_eq!(paths, strings(&["a", "b"]));
}

#[test]
fn no_use_lib_paths_leaves_list_alone() {
    let mut paths = strings(&["lib", "lib"]);
    prepend_use_lib_paths(&mut paths, Vec::new());
    assert_eq!(paths, strings(&["lib", "lib"]));
}

#[test]
fn use_lib_path_named_twice_ends_up_once_in_front() {
    let mut paths = strings(&["x", "lib"]);
    prepend_use_lib_paths(&mut paths, strings(&["lib", "x", "lib"]));
    assert_eq!(paths, strings(&["lib", "x"]));
}

#[test]
fn system_paths_are_appended_once() {
    let mut paths = strings(&["lib", "/usr/share/perl5"]);
    append_system_inc_paths(true, &strings(&["/usr/share/perl5", "/usr/lib/perl5", "/usr/lib/perl5"]), &mut paths);
    assert_eq!(paths, strings(&["lib", "/usr/share/perl5", "/usr/lib/perl5"]));
}

#[test]
fn system_paths_skipped_when_not_wanted() {
    let mut paths = strings(&["lib"]);
    append_system_inc_paths(false, &strings(&["/usr/lib/perl5"]), &mut paths);
    assert_eq!(paths, strings(&["lib"]));
}
