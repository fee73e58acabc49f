use phm::downloader::{
    archive_file_name, archive_url, extract_filenames, is_php_entry, linux_arch, listed_minors,
    listed_versions_for_minor, php_binary_from_archive, php_entry, version_list_url, PhpBinary, TarEntry,
};
use phm::json::Json;
use phm::error::PhmError;
use std::io::Write;

const LISTING: &str = r#"[
  {"name": "php-8.3.20-cli-linux-x86_64.tar.gz", "size": 1},
  {"name": "php-8.3.19-cli-linux-x86_64.tar.gz"},
  {"name": "php-8.3.19-cli-linux-aarch64.tar.gz"},
  "php-8.4.5-cli-linux-x86_64.tar.gz",
  {"name": "php-8.2.28-cli-linux-x86_64.tar.gz"},
  {"name": "php-8.30.1-cli-linux-x86_64.tar.gz"},
  {"title": "readme"},
  {"name": 7}
]"#;

#[test]
fn versions_for_a_minor_are_sorted() {
    let versions = listed_versions_for_minor(LISTING.as_bytes(), "8.3", "x86_64").unwrap();
    assert_eq!(versions, vec!["8.3.19", "8.3.20"]);
    let versions = listed_versions_for_minor(LISTING.as_bytes(), "8.3", "aarch64").unwrap();
    assert_eq!(versions, vec!["8.3.19"]);
    let versions = listed_versions_for_minor(LISTING.as_bytes(), "7.4", "x86_64").unwrap();
    assert!(versions.is_empty());
}

#[test]
fn patch_versions_belong_to_the_minor_and_end_with_the_newest() {
    let body = r#"["php-8.1.9-cli-linux-x86_64.tar.gz", "php-8.10.0-cli-linux-x86_64.tar.gz",
        "php-8.1.27-cli-linux-x86_64.tar.gz", "php-8.1.10-cli-linux-x86_64.tar.gz"]"#;
    let versions = listed_versions_for_minor(body.as_bytes(), "8.1", "x86_64").unwrap();
    assert_eq!(versions, vec!["8.1.9", "8.1.10", "8.1.27"]);
    let versions = listed_versions_for_minor(body.as_bytes(), "8.10", "x86_64").unwrap();
    assert_eq!(versions, vec!["8.10.0"]);
}

#[test]
fn available_minors_are_unique_and_sorted() {
    let minors = listed_minors(LISTING.as_bytes(), "x86_64").unwrap();
    assert_eq!(minors, vec!["8.2", "8.3", "8.30", "8.4"]);
}

#[test]
fn object_listings_use_archive_keys() {
    let body = r#"{"php-8.1.2-cli-linux-x86_64.tar.gz": {}, "index.html": {}, "php-8.1.3-cli-linux-x86_64.tar.gz": 1}"#;
    assert_eq!(listed_minors(body.as_bytes(), "x86_64").unwrap(), vec!["8.1"]);
    assert_eq!(
        listed_versions_for_minor(body.as_bytes(), "8.1", "x86_64").unwrap(),
        vec!["8.1.2", "8.1.3"]
    );
}

#[test]
fn non_json_listing_is_an_error() {
    assert_eq!(listed_minors(b"<html>", "x86_64"), Err(PhmError::ListingNotJson));
    assert_eq!(
        listed_versions_for_minor(b"", "8.3", "x86_64"),
        Err(PhmError::ListingNotJson)
    );
    assert_eq!(PhmError::ListingNotJson.message(), "failed to parse version list JSON");
}

#[test]
fn file_names_from_parsed_json() {
    let json = Json::Array(vec![
        Json::Object(vec![("name".to_string(), Json::Str("a.tar.gz".to_string()))]),
        Json::Str("b".to_string()),
        Json::Number("3".to_string()),
    ]);
    assert_eq!(extract_filenames(&json), vec!["a.tar.gz", "b"]);
    assert!(extract_filenames(&Json::Null).is_empty());
}

#[test]
fn archive_names_and_addresses() {
    assert_eq!(version_list_url(), "https://dl.static-php.dev/static-php-cli/common/?format=json");
    let name = archive_file_name("8.3.19", "x86_64");
    assert_eq!(name, "php-8.3.19-cli-linux-x86_64.tar.gz");
    assert_eq!(
        archive_url(&name),
        "https://dl.static-php.dev/static-php-cli/common/php-8.3.19-cli-linux-x86_64.tar.gz"
    );
    assert_eq!(linux_arch("x86_64"), Some("x86_64".to_string()));
    assert_eq!(linux_arch("aarch64"), Some("aarch64".to_string()));
    assert_eq!(linux_arch("riscv64"), None);
}

fn tar_gz(entries: &[(&str, &[u8])]) -> Vec<u8> {
    let mut builder = tar::Builder::new(Vec::new());
    for (path, data) in entries {
        let mut header = tar::Header::new_gnu();
        header.set_size(data.len() as u64);
        header.set_mode(0o755);
        header.set_cksum();
        builder.append_data(&mut header, path, *data).unwrap();
    }
    let tar_bytes = builder.into_inner().unwrap();
    let mut gz = flate2::write::GzEncoder::new(Vec::new(), flate2::Compression::default());
    gz.write_all(&tar_bytes).unwrap();
    gz.finish().unwrap()
}

#[test]
fn the_php_binary_is_taken_from_the_archive() {
    let archive = tar_gz(&[("README", b"read me"), ("buildroot/bin/php", b"\x7fELF-php"), ("php", b"second")]);
    assert_eq!(php_binary_from_archive(&archive, "x.tar.gz"), Ok(PhpBinary::File(b"\x7fELF-php".to_vec())));
}

#[test]
fn damage_after_the_php_entry_does_not_matter() {
    let mut archive = tar_gz(&[("bin/php", b"the binary"), ("share/doc", b"documentation")]);
    let n = archive.len();
    archive.truncate(n - 8);
    assert_eq!(php_binary_from_archive(&archive, "x.tar.gz"), Ok(PhpBinary::File(b"the binary".to_vec())));
}

#[test]
fn a_php_entry_cut_short_is_an_error() {
    let mut archive = tar_gz(&[("share/doc", b"documentation"), ("bin/php", b"the binary")]);
    let n = archive.len();
    archive.truncate(n - 8);
    assert_eq!(php_binary_from_archive(&archive, "x.tar.gz"), Err(PhmError::ArchiveUnreadable));
}

#[test]
fn a_php_link_unpacks_as_a_link() {
    let mut builder = tar::Builder::new(Vec::new());
    let mut header = tar::Header::new_gnu();
    header.set_entry_type(tar::EntryType::Symlink);
    header.set_size(0);
    builder.append_link(&mut header, "bin/php", "php8.3").unwrap();
    let tar_bytes = builder.into_inner().unwrap();
    let mut gz = flate2::write::GzEncoder::new(Vec::new(), flate2::Compression::default());
    gz.write_all(&tar_bytes).unwrap();
    let archive = gz.finish().unwrap();
    assert_eq!(
        php_binary_from_archive(&archive, "x.tar.gz"),
        Ok(PhpBinary::Symlink(b"php8.3".to_vec()))
    );
}

#[test]
fn an_archive_without_php_is_an_error() {
    let archive = tar_gz(&[("bin/phpize", b"x"), ("php-config", b"y")]);
    assert_eq!(
        php_binary_from_archive(&archive, "x.tar.gz"),
        Err(PhmError::NoPhpInArchive("x.tar.gz".to_string()))
    );
    assert_eq!(php_binary_from_archive(b"not gzip", "x.tar.gz"), Err(PhmError::ArchiveUnreadable));
}

#[test]
fn php_entries_are_found_by_file_name() {
    assert!(is_php_entry("usr/local/bin/php"));
    assert!(is_php_entry("php"));
    assert!(!is_php_entry("bin/php-cgi"));
    let entry = |path: &str| TarEntry { path: path.to_string(), type_flag: b'0', link: None, data: vec![] };
    let entries = vec![entry("a/php-fpm"), entry("a/php")];
    assert_eq!(php_entry(&entries), Some(1));
}
