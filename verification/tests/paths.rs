use std::collections::HashSet;

use libdl::paths::{determine_download_paths, generate_unique_output_path, get_download_path};

#[test]
fn test_generate_unique_output_path() {
    let base = "/tmp/somewhere/test_dl_output.bin";
    let mut there: HashSet<String> = HashSet::new();

    // No existing file -> same path
    let result = generate_unique_output_path(base, |p: &str| there.contains(p)).unwrap();
    assert_eq!(result, base);

    // File exists -> .1
    there.insert(base.to_string());
    let result = generate_unique_output_path(base, |p: &str| there.contains(p)).unwrap();
    assert_eq!(result, "/tmp/somewhere/test_dl_output.bin.1");

    // .1 also exists -> .2
    there.insert(result);
    let result2 = generate_unique_output_path(base, |p: &str| there.contains(p)).unwrap();
    assert_eq!(result2, "/tmp/somewhere/test_dl_output.bin.2");
}

#[test]
fn test_determine_download_paths() {
    let base = "/tmp/somewhere/test_dl_output.bin";
    let base_dl = "/tmp/somewhere/test_dl_output.bin.dl";
    let mut there: HashSet<String> = HashSet::new();

    // 1. None of the files exist
    let (t, d) = determine_download_paths(base, false, |p: &str| there.contains(p)).unwrap();
    assert_eq!(t, base);
    assert_eq!(d, base_dl);

    // 2. target_path exists, but no download_path -> should use unique target
    there.insert(base.to_string());
    let (t, d) = determine_download_paths(base, false, |p: &str| there.contains(p)).unwrap();
    assert_eq!(t, "/tmp/somewhere/test_dl_output.bin.1");
    assert_eq!(d, "/tmp/somewhere/test_dl_output.bin.1.dl");

    // 3. Target and target.1.dl exist -> should resume target.1.dl
    let t1_dl = "/tmp/somewhere/test_dl_output.bin.1.dl";
    there.insert(t1_dl.to_string());
    let (t, d) = determine_download_paths(base, false, |p: &str| there.contains(p)).unwrap();
    assert_eq!(t, "/tmp/somewhere/test_dl_output.bin.1");
    assert_eq!(d, t1_dl);

    // 4. Overwrite is true -> bypass unique checks
    let (t, d) = determine_download_paths(base, true, |p: &str| there.contains(p)).unwrap();
    assert_eq!(t, base);
    assert_eq!(d, base_dl);
}

#[test]
fn partial_file_stands_beside_the_target() {
    assert_eq!(get_download_path("file.bin"), "file.bin.dl");
    assert_eq!(get_download_path("a/b/file"), "a/b/file.dl");
    assert_eq!(get_download_path("dir/"), "dir.dl");
    assert_eq!(get_download_path("中文.bin"), "中文.bin.dl");
}

#[test]
fn path_without_a_name_gets_the_common_one() {
    assert_eq!(get_download_path(""), ".dl");
    assert_eq!(get_download_path("/"), "/.dl");
}

#[test]
fn target_that_is_used_replaces_nothing() {
    let there = ["x".to_string(), "x.1".to_string(), "x.2.dl".to_string()];
    let (t, d) =
        determine_download_paths("x", false, |p: &str| there.iter().any(|t| t == p)).unwrap();
    assert_eq!(t, "x.2");
    assert_eq!(d, "x.2.dl");
    assert!(!there.contains(&t));
}

#[test]
fn partial_file_is_taken_up_though_the_target_is_there() {
    let there = ["x".to_string(), "x.dl".to_string()];
    let (t, d) =
        determine_download_paths("x", false, |p: &str| there.iter().any(|t| t == p)).unwrap();
    assert_eq!(t, "x");
    assert_eq!(d, "x.dl");
}
