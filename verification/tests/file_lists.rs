use bmsfix::walk::{get_file_lists, FsNode};

#[test]
fn get_file_lists_single_file() {
    let d = FsNode::File("resources/test/minimum.bms".to_string());

    let r = get_file_lists(&d);
    assert!(r.is_ok());
    let v = r.unwrap();
    assert_eq!(1, v.len());
    assert!(v[0].ends_with("minimum.bms"));
}

#[test]
fn get_file_lists_non_exist() {
    let d = FsNode::Other("resources/test/such_file_should_not_exist.bms".to_string());

    let r = get_file_lists(&d);
    assert!(r.is_err())
}

#[test]
fn get_file_lists_directory() {
    let d = FsNode::Dir(
        "resources/test".to_string(),
        vec![
            FsNode::File("resources/test/corrupt.bms".to_string()),
            FsNode::File("resources/test/minimum.bms".to_string()),
            FsNode::Dir(
                "resources/test/subdir".to_string(),
                vec![FsNode::File("resources/test/subdir/empty.bms".to_string())],
            ),
        ],
    );

    let r = get_file_lists(&d);
    assert!(r.is_ok());
    let mut v = r.unwrap();
    assert_eq!(3, v.len());
    // sort in advance to keep the result consistent
    v.sort();
    assert!(v[1].ends_with("/minimum.bms"));
    assert!(v[2].ends_with("/subdir/empty.bms"));
}

#[test]
fn one_file_and_one_subdir_yield_two_paths() {
    let d = FsNode::Dir(
        "root".to_string(),
        vec![
            FsNode::File("root/a.bms".to_string()),
            FsNode::Dir(
                "root/sub".to_string(),
                vec![FsNode::File("root/sub/b.bms".to_string())],
            ),
        ],
    );

    let v = get_file_lists(&d).unwrap();
    assert_eq!(2, v.len());
    let mut v = v;
    v.sort();
    assert_eq!(vec!["root/a.bms".to_string(), "root/sub/b.bms".to_string()], v);
}

#[test]
fn invalid_entry_error_names_its_path() {
    let r = get_file_lists(&FsNode::Other("root/strange_device".to_string()));
    assert_eq!(Err("invalid file type, path: root/strange_device".to_string()), r);
}

#[test]
fn first_invalid_entry_wins() {
    let d = FsNode::Dir(
        "root".to_string(),
        vec![
            FsNode::File("root/a.bms".to_string()),
            FsNode::Other("root/bad_one".to_string()),
            FsNode::Other("root/bad_two".to_string()),
        ],
    );
    let r = get_file_lists(&d);
    assert_eq!(Err("invalid file type, path: root/bad_one".to_string()), r);
}

#[test]
fn empty_directory_yields_no_paths() {
    let d = FsNode::Dir("root".to_string(), vec![]);
    let v = get_file_lists(&d).unwrap();
    assert!(v.is_empty());
}

#[test]
fn files_come_in_depth_first_order() {
    let d = FsNode::Dir(
        "r".to_string(),
        vec![
            FsNode::File("r/1".to_string()),
            FsNode::Dir(
                "r/d".to_string(),
                vec![FsNode::File("r/d/2".to_string()), FsNode::File("r/d/3".to_string())],
            ),
            FsNode::File("r/4".to_string()),
        ],
    );
    let v = get_file_lists(&d).unwrap();
    assert_eq!(
        vec![
            "r/1".to_string(),
            "r/d/2".to_string(),
            "r/d/3".to_string(),
            "r/4".to_string()
        ],
        v
    );
}
