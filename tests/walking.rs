use fcp::{plan_copy, walk_directory, FileMover, SourceNode};

fn file(dir: &str, name: &str) -> SourceNode {
    SourceNode::File { name: name.to_string(), path: format!("{}/{}", dir, name) }
}

fn dir(parent: &str, name: &str, children: Vec<SourceNode>) -> SourceNode {
    SourceNode::Dir { name: name.to_string(), path: format!("{}/{}", parent, name), children }
}

fn pairs(tasks: &[FileMover]) -> Vec<(String, String)> {
    tasks.iter().map(|t| (t.source_path.clone(), t.destination.clone())).collect()
}

#[test]
fn path_mapping_keeps_subtree_below_top_level_name() {
    let root = dir("/a/b", "src", vec![dir("/a/b/src", "x", vec![file("/a/b/src/x", "y.txt")])]);
    let plan = plan_copy("/a/b/src", &root, "/out/");
    assert_eq!(
        pairs(&plan.tasks),
        vec![(String::from("/a/b/src/x/y.txt"), String::from("/out/src/x/y.txt"))]
    );
    assert!(plan.skipped.is_empty());
}

#[test]
fn repeated_top_level_name_maps_structurally() {
    let root = dir(
        "/data",
        "photos",
        vec![dir("/data/photos", "photos", vec![file("/data/photos/photos", "img.jpg")])],
    );
    let plan = plan_copy("/data/photos", &root, "/out/");
    assert_eq!(
        pairs(&plan.tasks),
        vec![(
            String::from("/data/photos/photos/img.jpg"),
            String::from("/out/photos/photos/img.jpg")
        )]
    );
}

#[test]
fn one_task_per_regular_file() {
    let root = dir(
        "/s",
        "t",
        vec![
            file("/s/t", "a"),
            dir("/s/t", "d", vec![file("/s/t/d", "b"), file("/s/t/d", "c"), dir("/s/t/d", "e", vec![])]),
            file("/s/t", "f"),
        ],
    );
    let plan = plan_copy("/s/t/", &root, "/o/");
    assert_eq!(
        pairs(&plan.tasks),
        vec![
            (String::from("/s/t/a"), String::from("/o/t/a")),
            (String::from("/s/t/d/b"), String::from("/o/t/d/b")),
            (String::from("/s/t/d/c"), String::from("/o/t/d/c")),
            (String::from("/s/t/f"), String::from("/o/t/f")),
        ]
    );
}

#[test]
fn empty_tree_gives_no_tasks() {
    let root = dir("/s", "t", vec![]);
    let plan = plan_copy("/s/t", &root, "/o/");
    assert!(plan.tasks.is_empty());
    assert!(plan.skipped.is_empty());
}

#[test]
fn unreadable_directory_is_skipped_and_reported() {
    let root = dir(
        "/s",
        "t",
        vec![
            SourceNode::Unreadable { name: String::from("locked"), path: String::from("/s/t/locked") },
            file("/s/t", "a"),
        ],
    );
    let plan = plan_copy("/s/t", &root, "/o/");
    assert_eq!(pairs(&plan.tasks), vec![(String::from("/s/t/a"), String::from("/o/t/a"))]);
    assert_eq!(plan.skipped, vec![String::from("/s/t/locked")]);
}

#[test]
fn root_that_is_a_file_gives_one_task() {
    let root = file("/s", "one.txt");
    let plan = plan_copy("/s/one.txt", &root, "/o/");
    assert_eq!(pairs(&plan.tasks), vec![(String::from("/s/one.txt"), String::from("/o/one.txt"))]);
}

#[test]
fn walk_appends_after_existing_tasks() {
    let mut tasks = vec![FileMover { source_path: String::from("p"), destination: String::from("q") }];
    let mut skipped = Vec::new();
    let node = dir("/s/t", "d", vec![file("/s/t/d", "b")]);
    walk_directory(&node, "/d", "/o/", "t", &mut tasks, &mut skipped);
    assert_eq!(
        pairs(&tasks),
        vec![
            (String::from("p"), String::from("q")),
            (String::from("/s/t/d/b"), String::from("/o/t/d/b")),
        ]
    );
}

#[test]
fn destinations_mirror_sources_below_the_root() {
    let root = dir(
        "/data",
        "photos",
        vec![
            file("/data/photos", "a.jpg"),
            dir("/data/photos", "photos", vec![dir("/data/photos/photos", "2020", vec![file("/data/photos/photos/2020", "b.jpg")])]),
        ],
    );
    let plan = plan_copy("/data/photos", &root, "/out/");
    assert_eq!(plan.tasks.len(), 2);
    for t in &plan.tasks {
        let suffix = t.source_path.strip_prefix("/data/photos").unwrap();
        assert_eq!(t.destination, format!("/out/photos{}", suffix));
    }
}
