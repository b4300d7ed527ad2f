use zerobeat::{
    NativePlatform, classify_platform, has_windows_dependencies, split_path_list, windows_triplet,
};

#[test]
fn classifies_supported_native_platforms() {
    assert_eq!(classify_platform("linux"), NativePlatform::Linux);
    assert_eq!(classify_platform("windows"), NativePlatform::Windows);
    assert_eq!(classify_platform("macos"), NativePlatform::Unsupported);
}

#[test]
fn selects_only_x64_msvc_windows_triplet() {
    assert_eq!(windows_triplet("x86_64", "msvc"), Some("x64-windows"));
    assert_eq!(windows_triplet("aarch64", "msvc"), None);
    assert_eq!(windows_triplet("x86_64", "gnu"), None);
}

#[test]
fn splits_windows_search_paths_without_empty_entries() {
    assert_eq!(
        split_path_list(r"C:\\ffmpeg;D:\\curl;;"),
        vec![r"C:\\ffmpeg", r"D:\\curl"]
    );
}

#[test]
fn rejects_incomplete_windows_dependency_layouts() {
    assert!(!has_windows_dependencies(&vec![], &vec![], &vec![]));
}

#[test]
fn search_path_entries_are_trimmed_and_ordered() {
    assert_eq!(split_path_list("  a ; ;b;c  "), vec!["a", "b", "c"]);
    assert_eq!(split_path_list(""), Vec::<String>::new());
    assert_eq!(split_path_list(";;;"), Vec::<String>::new());
}

#[test]
fn complete_windows_dependency_layout_is_accepted() {
    let headers_dirs = vec!["/deps/include".to_owned()];
    let lib = vec!["/x".to_owned(), "/deps/lib".to_owned()];
    let mut present: Vec<String> = vec![
        "/deps/include/libavformat/avformat.h".to_owned(),
        "/deps/include/curl/curl.h".to_owned(),
    ];
    for library in ["avformat.lib", "avcodec.lib", "avutil.lib", "swresample.lib", "libcurl.lib"] {
        present.push(format!("/deps/lib/{library}"));
    }
    assert!(has_windows_dependencies(&headers_dirs, &lib, &present));
    present.pop();
    assert!(!has_windows_dependencies(&headers_dirs, &lib, &present));
}
