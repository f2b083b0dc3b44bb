use local_image_db::paths::{dir_of, file_name_of, join_path, resolve_collision, split_extension};

#[test]
fn file_name_follows_components() {
    assert_eq!(file_name_of("/mnt/d/a.jpg"), Some("a.jpg".to_string()));
    assert_eq!(file_name_of("/mnt/d/"), Some("d".to_string()));
    assert_eq!(file_name_of("a/."), Some("a".to_string()));
    assert_eq!(file_name_of("/"), None);
    assert_eq!(file_name_of(""), None);
    assert_eq!(file_name_of("a/.."), None);
    assert_eq!(file_name_of("Volumes/MyDrive"), Some("MyDrive".to_string()));
}

#[test]
fn dir_and_join() {
    assert_eq!(dir_of("/mnt/d/a.jpg"), "/mnt/d");
    assert_eq!(dir_of("/a.jpg"), "/");
    assert_eq!(dir_of("a.jpg"), "");
    assert_eq!(join_path("/mnt", "2024/07/15"), "/mnt/2024/07/15");
    assert_eq!(join_path("/mnt/", "x"), "/mnt/x");
    assert_eq!(join_path("", "x"), "x");
    assert_eq!(join_path("/mnt", "/abs"), "/abs");
}

#[test]
fn stems_and_extensions() {
    assert_eq!(split_extension("archive.tar.gz"), ("archive.tar".to_string(), Some("gz".to_string())));
    assert_eq!(split_extension(".bashrc"), (".bashrc".to_string(), None));
    assert_eq!(split_extension("noext"), ("noext".to_string(), None));
    assert_eq!(split_extension("a."), ("a".to_string(), Some("".to_string())));
}

#[test]
fn free_destination_is_kept() {
    let taken = vec!["b.jpg".to_string()];
    assert_eq!(resolve_collision("/d/2024/a.jpg", false, &taken), "/d/2024/a.jpg");
}

#[test]
fn collision_takes_first_free_number() {
    let taken = vec!["a.jpg".to_string(), "a_1.jpg".to_string(), "a_3.jpg".to_string()];
    assert_eq!(resolve_collision("/d/2024/a.jpg", true, &taken), "/d/2024/a_2.jpg");
}

#[test]
fn collision_without_extension() {
    let taken = vec![".bashrc".to_string()];
    assert_eq!(resolve_collision("/h/.bashrc", true, &taken), "/h/.bashrc_1");
    let taken = vec!["x.tar.gz".to_string()];
    assert_eq!(resolve_collision("x.tar.gz", true, &taken), "x.tar_1.gz");
}

#[test]
fn nameless_destination_is_kept_when_it_does_not_exist() {
    let taken: Vec<String> = Vec::new();
    assert_eq!(resolve_collision("x/..", false, &taken), "x/..");
    assert_eq!(resolve_collision("x/..", true, &taken), "x/_1");
}
