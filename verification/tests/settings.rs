use foobar1974::state::{add_library_folder, remove_library_folder};

#[test]
fn add_library_folder_once() {
    let mut folders = vec!["/a".to_string()];
    add_library_folder(&mut folders, "/b".to_string());
    add_library_folder(&mut folders, "/b".to_string());
    add_library_folder(&mut folders, "/a".to_string());
    assert_eq!(folders, vec!["/a".to_string(), "/b".to_string()]);
}

#[test]
fn remove_library_folder_removes_every_copy() {
    let mut folders = vec!["/a".to_string(), "/b".to_string(), "/a".to_string(), "/c".to_string()];
    remove_library_folder(&mut folders, "/a");
    assert_eq!(folders, vec!["/b".to_string(), "/c".to_string()]);
    remove_library_folder(&mut folders, "/zzz");
    assert_eq!(folders, vec!["/b".to_string(), "/c".to_string()]);
}

#[test]
fn remove_undoes_add() {
    let before = vec!["/x".to_string(), "/y".to_string()];
    let mut folders = before.clone();
    add_library_folder(&mut folders, "/new".to_string());
    assert_eq!(folders.len(), 3);
    remove_library_folder(&mut folders, "/new");
    assert_eq!(folders, before);
}
