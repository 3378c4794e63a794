use fcp::{child_relative, get_file_mover_obj, get_top_level_dir, FileMover};

#[test]
fn top_level_dir_of_plain_root() {
    assert_eq!(get_top_level_dir("/a/b/src"), "src");
}

#[test]
fn top_level_dir_strips_one_trailing_separator() {
    assert_eq!(get_top_level_dir("/a/b/src/"), "src");
}

#[test]
fn top_level_dir_strips_only_one_separator() {
    assert_eq!(get_top_level_dir("/a/b/src//"), "");
}

#[test]
fn top_level_dir_of_relative_name() {
    assert_eq!(get_top_level_dir("photos"), "photos");
}

#[test]
fn top_level_dir_of_filesystem_root() {
    assert_eq!(get_top_level_dir("/"), "");
}

#[test]
fn top_level_dir_of_empty_path() {
    assert_eq!(get_top_level_dir(""), "");
}

#[test]
fn child_relative_appends_one_segment() {
    assert_eq!(child_relative("", "x"), "/x");
    assert_eq!(child_relative("/x", "y.txt"), "/x/y.txt");
}

#[test]
fn file_mover_joins_destination_name_and_relative_path() {
    let m = get_file_mover_obj(String::from("/a/b/src/x/y.txt"), "/out/", "src", "/x/y.txt");
    assert_eq!(
        m,
        FileMover {
            source_path: String::from("/a/b/src/x/y.txt"),
            destination: String::from("/out/src/x/y.txt"),
        }
    );
}

#[test]
fn file_mover_ignores_repeated_directory_names_in_source() {
    let m = get_file_mover_obj(
        String::from("/data/photos/photos/img.jpg"),
        "/out/",
        "photos",
        "/photos/img.jpg",
    );
    assert_eq!(m.destination, "/out/photos/photos/img.jpg");
    assert_eq!(m.source_path, "/data/photos/photos/img.jpg");
}
