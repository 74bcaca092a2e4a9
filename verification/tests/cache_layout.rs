use punic::cache::local::{
    cache_build_dir, download_archive_path, expand_local_cache, expand_tilde, framework_dir_name,
    output_framework_path, upload_archive_path,
};
use punic::cache::s3::{bucket_dir, object_key};

#[test]
fn build_directory_of_a_prefix() {
    assert_eq!(
        cache_build_dir("/home/me/Library/Caches/Punic", "1.0.1"),
        "/home/me/Library/Caches/Punic/build/1.0.1"
    );
}

#[test]
fn archive_and_output_paths() {
    assert_eq!(framework_dir_name("Alamofire"), "Alamofire.xcframework");
    assert_eq!(
        download_archive_path("/c", "1.0.1", "Alamofire"),
        "/c/build/1.0.1/Alamofire.xcframework.zip"
    );
    assert_eq!(
        upload_archive_path("/c", "1.0.1", "Alamofire.xcframework"),
        "/c/build/1.0.1/Alamofire.xcframework.zip"
    );
    assert_eq!(
        output_framework_path("Carthage/Build", "Alamofire"),
        "Carthage/Build/Alamofire.xcframework"
    );
}

#[test]
fn object_key_uses_the_file_name() {
    assert_eq!(
        object_key("/c/build/1.0.1/Alamofire.xcframework.zip", "1.0.1"),
        "1.0.1/Alamofire.xcframework.zip"
    );
    assert_eq!(object_key("plain.zip", "p"), "p/plain.zip");
    assert_eq!(object_key("dir/", "p"), "p/");
}

#[test]
fn bucket_directories() {
    assert_eq!(bucket_dir("1.0.1", ""), "1.0.1");
    assert_eq!(bucket_dir("1.0.1", "5.4.0"), "1.0.1/5.4.0");
}

#[test]
fn download_fetches_the_uploaded_key() {
    let cache = "/c";
    for version in ["", "1.0", "5.4.0"] {
        let archive_up = upload_archive_path(cache, "output", &framework_dir_name("Alamofire"));
        let archive_down = download_archive_path(cache, "output", "Alamofire");
        assert_eq!(archive_up, archive_down);
        assert_eq!(
            object_key(&archive_up, &bucket_dir("output", version)),
            object_key(&archive_down, &bucket_dir("output", version))
        );
    }
    let archive = download_archive_path(cache, "output", "A");
    assert_eq!(object_key(&archive, &bucket_dir("output", "")), "output/A.xcframework.zip");
    assert_eq!(
        object_key(&archive, &bucket_dir("output", "1.0")),
        "output/1.0/A.xcframework.zip"
    );
}

#[test]
fn tilde_expands_to_home() {
    assert_eq!(expand_tilde("~/Library/Caches/Punic", Some("/home/me")), "/home/me/Library/Caches/Punic");
    assert_eq!(expand_tilde("~", Some("/home/me")), "/home/me");
    assert_eq!(expand_tilde("~other/x", Some("/home/me")), "~other/x");
    assert_eq!(expand_tilde("a/~/b", Some("/home/me")), "a/~/b");
    assert_eq!(expand_tilde("~/x", None), "~/x");
}

#[test]
fn local_cache_without_tilde_is_kept() {
    assert_eq!(expand_local_cache("/var/cache/punic"), "/var/cache/punic");
    let expanded = expand_local_cache("~/cache");
    assert!(expanded.ends_with("/cache"));
}
