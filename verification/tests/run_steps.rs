use punic::cache::s3::object_key;
use punic::punfile::data::{Configuration, PunFile, Repository};
use punic::text::{contains_str, ends_with_char, join_slash, last_path_segment, prefix_before, str_eq};
use punic::utils::archive::{extraction_path, is_directory_entry, zip_entry_action, ZipEntryAction};
use punic::utils::download::{
    download_action, download_report, plan_download, select_frameworks, unknown_dependency_report,
    DownloadAction, DownloadJob, FetchReason,
};
use punic::utils::scan::{select_xcframeworks, ScannedEntry};
use punic::utils::upload::{
    already_zipped_report, found_report, framework_key, plan_upload, select_uploads,
    unmatched_request_report, upload_action, version_for, UploadAction, UploadJob,
};

fn repo(repo_name: &str, name: &str, version: &str) -> Repository {
    Repository {
        repo_name: repo_name.to_string(),
        name: name.to_string(),
        version: version.to_string(),
    }
}

fn strings(v: &[&str]) -> Vec<String> {
    v.iter().map(|s| s.to_string()).collect()
}

fn frameworks() -> Vec<Repository> {
    vec![
        repo("AlamoFire", "AlamoFire", "5.4.0"),
        repo("CocoaLumberjack", "CocoaLumberjack", ""),
        repo("CocoaLumberjack", "CocoaLumberjackSwift", ""),
    ]
}

fn configuration() -> Configuration {
    Configuration {
        prefix: "1.0.1".to_string(),
        local: "~/Library/Caches/Punic".to_string(),
        output: "Carthage/Build".to_string(),
        s3_bucket: "bucket".to_string(),
    }
}

#[test]
fn text_helpers() {
    assert_eq!(last_path_segment("a/b/c"), "c");
    assert_eq!(last_path_segment("abc"), "abc");
    assert_eq!(last_path_segment("a/"), "");
    assert_eq!(prefix_before("Alamofire.xcframework", '.'), "Alamofire");
    assert_eq!(prefix_before("noDot", '.'), "noDot");
    assert_eq!(prefix_before(".hidden", '.'), "");
    assert!(contains_str("Carthage/Build/A.xcframework", "xcframework"));
    assert!(!contains_str("Carthage/Build", "xcframework"));
    assert!(contains_str("abc", ""));
    assert!(str_eq("abc", "abc"));
    assert!(!str_eq("abc", "abd"));
    assert!(ends_with_char("dir/", '/'));
    assert!(!ends_with_char("", '/'));
    assert_eq!(join_slash("a", "b"), "a/b");
}

#[test]
fn no_request_selects_every_framework() {
    let (selected, unknown) = select_frameworks(&frameworks(), &vec![]);
    assert_eq!(selected, frameworks());
    assert!(unknown.is_empty());
}

#[test]
fn requested_dependencies_select_their_first_framework() {
    let (selected, unknown) = select_frameworks(
        &frameworks(),
        &strings(&["CocoaLumberjack", "Nope", "AlamoFire", "CocoaLumberjack"]),
    );
    assert_eq!(
        selected,
        vec![
            repo("CocoaLumberjack", "CocoaLumberjack", ""),
            repo("AlamoFire", "AlamoFire", "5.4.0"),
            repo("CocoaLumberjack", "CocoaLumberjack", ""),
        ]
    );
    assert_eq!(unknown, strings(&["Nope"]));
    assert_eq!(
        unknown_dependency_report("Nope"),
        "Nope is not a dependency in the Punfile."
    );
}

#[test]
fn download_actions() {
    assert_eq!(download_action(false, false, true, false), DownloadAction::Fetch(FetchReason::NotFound));
    assert_eq!(download_action(false, true, true, false), DownloadAction::Fetch(FetchReason::NotFound));
    assert_eq!(download_action(true, true, true, false), DownloadAction::Fetch(FetchReason::Ignored));
    assert_eq!(download_action(true, false, false, false), DownloadAction::Extract(FetchReason::NotFound));
    assert_eq!(download_action(true, false, false, true), DownloadAction::Extract(FetchReason::NotFound));
    assert_eq!(download_action(true, false, true, true), DownloadAction::Extract(FetchReason::Ignored));
    assert_eq!(download_action(true, false, true, false), DownloadAction::AlreadyDownloaded);
}

#[test]
fn download_plan_of_a_framework() {
    let job = plan_download(&frameworks()[0], &configuration(), "/home/me/cache");
    assert_eq!(
        job,
        DownloadJob {
            framework_dir: "AlamoFire.xcframework".to_string(),
            archive: "/home/me/cache/build/1.0.1/AlamoFire.xcframework.zip".to_string(),
            output_framework: "Carthage/Build/AlamoFire.xcframework".to_string(),
            bucket_prefix: "1.0.1/5.4.0".to_string(),
        }
    );
    assert_eq!(
        download_report(DownloadAction::Fetch(FetchReason::NotFound), &job),
        "Not found /home/me/cache/build/1.0.1/AlamoFire.xcframework.zip"
    );
    assert_eq!(
        download_report(DownloadAction::Fetch(FetchReason::Ignored), &job),
        "Ignoring /home/me/cache/build/1.0.1/AlamoFire.xcframework.zip"
    );
    assert_eq!(
        download_report(DownloadAction::Extract(FetchReason::NotFound), &job),
        "Not found Carthage/Build/AlamoFire.xcframework"
    );
    assert_eq!(
        download_report(DownloadAction::Extract(FetchReason::Ignored), &job),
        "Ignoring Carthage/Build/AlamoFire.xcframework"
    );
    assert_eq!(
        download_report(DownloadAction::AlreadyDownloaded, &job),
        "Already downloaded /home/me/cache/build/1.0.1/AlamoFire.xcframework.zip"
    );
    let unversioned = plan_download(&frameworks()[1], &configuration(), "/c");
    assert_eq!(unversioned.bucket_prefix, "1.0.1");
}

#[test]
fn scan_keeps_framework_directories() {
    let entries = vec![
        ScannedEntry { path: "Carthage/Build/Alamofire.xcframework".to_string(), is_dir: true },
        ScannedEntry { path: "Carthage/Build/Other".to_string(), is_dir: true },
        ScannedEntry { path: "Carthage/Build/Foo.xcframework".to_string(), is_dir: false },
        ScannedEntry { path: "Carthage/Build/CocoaLumberjack.xcframework".to_string(), is_dir: true },
    ];
    assert_eq!(
        select_xcframeworks(&entries),
        strings(&["Alamofire.xcframework", "CocoaLumberjack.xcframework"])
    );
}

#[test]
fn upload_selection_matches_by_substring() {
    let dirs = strings(&["CocoaLumberjack.xcframework", "CocoaLumberjackSwift.xcframework", "Alamofire.xcframework"]);
    let (all, none) = select_uploads(&dirs, &vec![]);
    assert_eq!(all, dirs);
    assert!(none.is_empty());
    let (selected, unmatched) = select_uploads(&dirs, &strings(&["Swift", "Zzz", "Alamofire"]));
    assert_eq!(selected, strings(&["CocoaLumberjackSwift.xcframework", "Alamofire.xcframework"]));
    assert_eq!(unmatched, strings(&["Zzz"]));
    assert_eq!(unmatched_request_report("Zzz"), "Zzz is not a dependency");
}

#[test]
fn upload_version_comes_from_first_matching_name() {
    assert_eq!(framework_key("CocoaLumberjackSwift.xcframework"), "CocoaLumberjackSwift");
    assert_eq!(version_for(&frameworks(), "AlamoFire"), "5.4.0");
    assert_eq!(version_for(&frameworks(), "CocoaLumberjackSwift"), "");
    assert_eq!(version_for(&frameworks(), "Missing"), "");
    let mut fs = frameworks();
    fs[2].version = "3.7".to_string();
    // The first framework whose name contains the key wins.
    assert_eq!(version_for(&fs, "CocoaLumberjack"), "");
    assert_eq!(version_for(&fs, "CocoaLumberjackSwift"), "3.7");
}

#[test]
fn upload_actions() {
    assert_eq!(upload_action(true, true), UploadAction::ZipAndUpload);
    assert_eq!(upload_action(false, false), UploadAction::ZipAndUpload);
    assert_eq!(upload_action(false, true), UploadAction::UploadOnly);
    assert_eq!(already_zipped_report("A.xcframework"), "Already zipped A.xcframework");
}

#[test]
fn upload_plan_of_a_directory() {
    let p = PunFile { configuration: configuration(), frameworks: frameworks() };
    assert_eq!(
        plan_upload("AlamoFire.xcframework", &p, "/c"),
        UploadJob {
            version: "5.4.0".to_string(),
            source_dir: "Carthage/Build/AlamoFire.xcframework".to_string(),
            archive: "/c/build/1.0.1/AlamoFire.xcframework.zip".to_string(),
            bucket_prefix: "1.0.1/5.4.0".to_string(),
        }
    );
    let plain = plan_upload("CocoaLumberjack.xcframework", &p, "/c");
    assert_eq!(plain.bucket_prefix, "1.0.1");
    assert_eq!(found_report("Carthage/Build", "A.xcframework", ""), "Found Carthage/Build/A.xcframework");
    assert_eq!(
        found_report("Carthage/Build", "A.xcframework", "5.4.0"),
        "Found Carthage/Build/A.xcframework @version 5.4.0"
    );
}

#[test]
fn zip_and_unzip_entries() {
    assert_eq!(zip_entry_action(true, "a/b"), ZipEntryAction::AddFile);
    assert_eq!(zip_entry_action(false, "a"), ZipEntryAction::AddDirectory);
    assert_eq!(zip_entry_action(false, ""), ZipEntryAction::Skip);
    assert!(is_directory_entry("Headers/"));
    assert!(!is_directory_entry("Info.plist"));
    assert_eq!(
        extraction_path("Carthage/Build", "A.xcframework", "ios-arm64/A.framework"),
        "Carthage/Build/A.xcframework/ios-arm64/A.framework"
    );
}


#[test]
fn planned_download_fetches_planned_upload() {
    let p = PunFile { configuration: configuration(), frameworks: frameworks() };
    for f in &frameworks() {
        let dir = format!("{}.xcframework", f.name);
        let up = plan_upload(&dir, &p, "/c");
        let down = plan_download(f, &p.configuration, "/c");
        assert_eq!(up.archive, down.archive);
        assert_eq!(
            object_key(&up.archive, &up.bucket_prefix),
            object_key(&down.archive, &down.bucket_prefix)
        );
    }
}
