//! Static PHP builds: the version listing of the download site, and the
//! names and addresses of its archives.

use vstd::prelude::*;
use std::io::Read;
use vstd::string::StringExecFns;
use crate::error::PhmError;
use crate::json::{Json, field_of, find_field, json_of, parse_json};
use crate::text::{
    chars_of, ends_with, ends_with_exec, eq_exec, find_char, find_char_exec, starts_with,
    starts_with_exec, string_of, texts_sorted, insert_unique_text, shortlex_sorted, insert_shortlex,
};

verus! {

/// The file name a listing item gives: the `name` text of an object, or the
/// item itself when it is a text.
pub open spec fn item_name(item: Json) -> Option<Seq<char>> {
    match item {
        Json::Object(fields) => match field_of(fields@, "name"@, 0) {
            Some(Json::Str(s)) => Some(s@),
            _ => None,
        },
        Json::Str(s) => Some(s@),
        _ => None,
    }
}

pub open spec fn item_names(items: Seq<Json>, n: int) -> Seq<Seq<char>>
    decreases n,
{
    if n <= 0 {
        Seq::empty()
    } else {
        match item_name(items[n - 1]) {
            Some(s) => item_names(items, n - 1).push(s),
            None => item_names(items, n - 1),
        }
    }
}

pub open spec fn archive_keys(fields: Seq<(String, Json)>, n: int) -> Seq<Seq<char>>
    decreases n,
{
    if n <= 0 {
        Seq::empty()
    } else if ends_with(fields[n - 1].0@, ".tar.gz"@) {
        archive_keys(fields, n - 1).push(fields[n - 1].0@)
    } else {
        archive_keys(fields, n - 1)
    }
}

/// The file names a directory listing holds: for a list, the names of its
/// items; for an object, its keys that end with `.tar.gz`.
pub open spec fn listing_names(j: Json) -> Seq<Seq<char>> {
    match j {
        Json::Array(items) => item_names(items@, items@.len() as int),
        Json::Object(fields) => archive_keys(fields@, fields@.len() as int),
        _ => Seq::empty(),
    }
}

fn name_of_item(item: &Json) -> (r: Option<String>)
    ensures
        r matches Some(s) ==> item_name(*item) == Some(s@),
        r is None ==> item_name(*item) is None,
{
    match item {
        Json::Object(fields) => {
            proof {
                reveal_strlit("name");
            }
            match find_field(fields, "name") {
                Some(k) => match &fields[k].1 {
                    Json::Str(s) => Some(s.clone()),
                    _ => None,
                },
                None => None,
            }
        },
        Json::Str(s) => Some(s.clone()),
        _ => None,
    }
}

/// The file names in a directory listing of the download site.
pub fn extract_filenames(json: &Json) -> (r: Vec<String>)
    ensures
        r.deep_view() == listing_names(*json),
{
    let mut files: Vec<String> = Vec::new();
    match json {
        Json::Array(items) => {
            let n = items.len();
            for i in 0..n
                invariant
                    n == items@.len(),
                    files.deep_view() == item_names(items@, i as int),
            {
                match name_of_item(&items[i]) {
                    Some(s) => {
                        files.push(s);
                    },
                    None => {},
                }
            }
        },
        Json::Object(fields) => {
            let suffix = chars_of(".tar.gz");
            let n = fields.len();
            for i in 0..n
                invariant
                    n == fields@.len(),
                    suffix@ == ".tar.gz"@,
                    files.deep_view() == archive_keys(fields@, i as int),
            {
                let k = chars_of(fields[i].0.as_str());
                if ends_with_exec(k.as_slice(), suffix.as_slice()) {
                    files.push(fields[i].0.clone());
                }
            }
        },
        _ => {},
    }
    files
}

/// The architectures the download site builds for.
pub open spec fn supported_arch(arch: Seq<char>) -> bool {
    arch == "x86_64"@ || arch == "aarch64"@
}

/// The architecture name of the site's archives for the target architecture
/// phm was built for (`x86_64` or `aarch64`); none for any other.
pub fn linux_arch(target_arch: &str) -> (r: Option<String>)
    ensures
        supported_arch(target_arch@) ==> (r matches Some(a) && a@ == target_arch@),
        !supported_arch(target_arch@) ==> r is None,
{
    let t = chars_of(target_arch);
    let x = chars_of("x86_64");
    let a = chars_of("aarch64");
    if eq_exec(t.as_slice(), x.as_slice()) || eq_exec(t.as_slice(), a.as_slice()) {
        Some(String::from_str(target_arch))
    } else {
        None
    }
}

/// The end of the archive names for an architecture.
pub open spec fn archive_suffix(arch: Seq<char>) -> Seq<char> {
    "-cli-linux-"@ + arch + ".tar.gz"@
}

/// The version part of an archive name, `php-VERSION-cli-linux-ARCH.tar.gz`.
pub open spec fn archive_version(f: Seq<char>, arch: Seq<char>) -> Option<Seq<char>> {
    let rest = f.subrange(4, f.len() as int);
    let suffix = archive_suffix(arch);
    if starts_with(f, "php-"@) && ends_with(rest, suffix) {
        Some(rest.subrange(0, rest.len() - suffix.len()))
    } else {
        None
    }
}

fn archive_version_exec(f: &str, arch: &str) -> (r: Option<String>)
    ensures
        r matches Some(v) ==> archive_version(f@, arch@) == Some(v@),
        r is None ==> archive_version(f@, arch@) is None,
{
    let fc = chars_of(f);
    let prefix = chars_of("php-");
    let mut sfx = String::from_str("-cli-linux-");
    sfx.append(arch);
    sfx.append(".tar.gz");
    let sc = chars_of(sfx.as_str());
    proof {
        reveal_strlit("php-");
    }
    if !starts_with_exec(fc.as_slice(), prefix.as_slice()) {
        return None;
    }
    let rest = vstd::slice::slice_subrange(fc.as_slice(), 4, fc.len());
    if !ends_with_exec(rest, sc.as_slice()) {
        return None;
    }
    Some(string_of(vstd::slice::slice_subrange(rest, 0, rest.len() - sc.len())))
}

pub open spec fn minor_matches(files: Seq<Seq<char>>, minor: Seq<char>, arch: Seq<char>, n: int) -> Seq<Seq<char>>
    decreases n,
{
    if n <= 0 {
        Seq::empty()
    } else {
        match archive_version(files[n - 1], arch) {
            Some(v) => if minor_of(v) == Some(minor) {
                minor_matches(files, minor, arch, n - 1).push(v)
            } else {
                minor_matches(files, minor, arch, n - 1)
            },
            None => minor_matches(files, minor, arch, n - 1),
        }
    }
}

/// The patch versions of the archives for `arch` whose minor version is
/// `minor` (such as `8.3.19` and `8.3.20` for `8.3`), in shortlex order:
/// since they share `minor.`, that is the order of their patch numbers, so
/// the newest comes last.
pub fn versions_for_minor(files: &Vec<String>, minor: &str, arch: &str) -> (r: Vec<String>)
    ensures
        shortlex_sorted(r.deep_view()),
        r.deep_view().to_multiset() == minor_matches(
            files.deep_view(),
            minor@,
            arch@,
            files.deep_view().len() as int,
        ).to_multiset(),
{
    let mut r: Vec<String> = Vec::new();
    let mc = chars_of(minor);
    let n = files.len();
    let ghost mut kept: Seq<Seq<char>> = Seq::empty();
    proof {
        assert(r.deep_view() =~= kept);
    }
    for i in 0..n
        invariant
            n == files@.len(),
            mc@ == minor@,
            kept == minor_matches(files.deep_view(), minor@, arch@, i as int),
            shortlex_sorted(r.deep_view()),
            r.deep_view().to_multiset() == kept.to_multiset(),
    {
        assert(files.deep_view()[i as int] == files@[i as int]@);
        match archive_version_exec(files[i].as_str(), arch) {
            Some(v) => {
                let same_minor = match minor_of_exec(v.as_str()) {
                    Some(m) => {
                        let m2 = chars_of(m.as_str());
                        eq_exec(m2.as_slice(), mc.as_slice())
                    },
                    None => false,
                };
                if same_minor {
                    let ghost vv = v@;
                    insert_shortlex(&mut r, v);
                    proof {
                        vstd::seq_lib::to_multiset_build(kept, vv);
                        kept = kept.push(vv);
                    }
                }
            },
            None => {},
        }
    }
    r
}

/// The minor version of a version text: its first two `.`-separated parts,
/// `X.Y`; nothing without a `.`.
pub open spec fn minor_of(v: Seq<char>) -> Option<Seq<char>> {
    let i = find_char(v, '.', 0);
    if i < v.len() {
        let j = find_char(v, '.', i + 1);
        Some(v.subrange(0, i) + seq!['.'] + v.subrange(i + 1, j))
    } else {
        None
    }
}

fn minor_of_exec(v: &str) -> (r: Option<String>)
    ensures
        r matches Some(m) ==> minor_of(v@) == Some(m@),
        r is None ==> minor_of(v@) is None,
{
    let c = chars_of(v);
    let s = c.as_slice();
    let i = find_char_exec(s, '.', 0);
    if i < s.len() {
        let j = find_char_exec(s, '.', i + 1);
        let mut m = string_of(vstd::slice::slice_subrange(s, 0, i));
        crate::text::push_char(&mut m, '.');
        let tail = string_of(vstd::slice::slice_subrange(s, i + 1, j));
        m.append(tail.as_str());
        Some(m)
    } else {
        None
    }
}

/// The minor version of an archive for `arch` among the files.
pub open spec fn is_available_minor(files: Seq<Seq<char>>, arch: Seq<char>, m: Seq<char>) -> bool {
    exists|k: int| 0 <= k < files.len() && #[trigger] minor_of_file(files[k], arch) == Some(m)
}

/// The minor version of an archive name for `arch`.
pub open spec fn minor_of_file(f: Seq<char>, arch: Seq<char>) -> Option<Seq<char>> {
    match archive_version(f, arch) {
        Some(v) => minor_of(v),
        None => None,
    }
}

/// The minor versions with an archive for `arch`, each once, in the order of
/// `str`.
pub fn available_minors(files: &Vec<String>, arch: &str) -> (r: Vec<String>)
    ensures
        texts_sorted(r.deep_view()),
        forall|i: int, j: int| 0 <= i < j < r.deep_view().len() ==> r.deep_view()[i] != r.deep_view()[j],
        forall|m: Seq<char>| r.deep_view().contains(m) <==> is_available_minor(files.deep_view(), arch@, m),
{
    let mut r: Vec<String> = Vec::new();
    let n = files.len();
    for i in 0..n
        invariant
            n == files@.len(),
            texts_sorted(r.deep_view()),
            forall|a: int, b: int| 0 <= a < b < r.deep_view().len() ==> r.deep_view()[a] != r.deep_view()[b],
            forall|m: Seq<char>| r.deep_view().contains(m) <==> exists|k: int|
                0 <= k < i && #[trigger] minor_of_file(files.deep_view()[k], arch@) == Some(m),
    {
        assert(files.deep_view()[i as int] == files@[i as int]@);
        let ghost before = r.deep_view();
        match archive_version_exec(files[i].as_str(), arch) {
            Some(v) => match minor_of_exec(v.as_str()) {
                Some(m) => {
                    let ghost mv = m@;
                    insert_unique_text(&mut r, m);
                    assert forall|x: Seq<char>| r.deep_view().contains(x) <==> exists|k: int|
                        0 <= k < i + 1 && #[trigger] minor_of_file(files.deep_view()[k], arch@) == Some(x) by {
                        if x == mv {
                            assert(minor_of_file(files.deep_view()[i as int], arch@) == Some(mv));
                        }
                    }
                },
                None => {},
            },
            None => {},
        }
    }
    r
}

/// Reads the version listing of the download site (the bytes of its JSON
/// answer) and gives the patch versions of the archives for `arch` whose
/// minor version is `minor`, oldest to newest.
pub fn listed_versions_for_minor(body: &[u8], minor: &str, arch: &str) -> (r: Result<Vec<String>, PhmError>)
    ensures
        match json_of(body@) {
            Some(j) => r matches Ok(v) && shortlex_sorted(v.deep_view()) && v.deep_view().to_multiset()
                == minor_matches(listing_names(j), minor@, arch@, listing_names(j).len() as int).to_multiset(),
            None => r == Err::<Vec<String>, PhmError>(PhmError::ListingNotJson),
        },
{
    match parse_json(body) {
        Some(j) => {
            let files = extract_filenames(&j);
            Ok(versions_for_minor(&files, minor, arch))
        },
        None => Err(PhmError::ListingNotJson),
    }
}

/// Reads the version listing of the download site and gives the minor
/// versions with an archive for `arch`, each once, sorted.
pub fn listed_minors(body: &[u8], arch: &str) -> (r: Result<Vec<String>, PhmError>)
    ensures
        match json_of(body@) {
            Some(j) => r matches Ok(v) && texts_sorted(v.deep_view()) && (forall|m: Seq<char>|
                v.deep_view().contains(m) <==> is_available_minor(listing_names(j), arch@, m)),
            None => r == Err::<Vec<String>, PhmError>(PhmError::ListingNotJson),
        },
{
    match parse_json(body) {
        Some(j) => {
            let files = extract_filenames(&j);
            Ok(available_minors(&files, arch))
        },
        None => Err(PhmError::ListingNotJson),
    }
}

/// The base address of the static PHP builds.
pub open spec fn download_base() -> Seq<char> {
    "https://dl.static-php.dev/static-php-cli/common"@
}

/// The address of the JSON listing of the builds.
pub fn version_list_url() -> (r: String)
    ensures
        r@ == download_base() + "/?format=json"@,
{
    let mut r = String::from_str("https://dl.static-php.dev/static-php-cli/common");
    r.append("/?format=json");
    r
}

/// The archive of PHP `version` for `arch`.
pub fn archive_file_name(version: &str, arch: &str) -> (r: String)
    ensures
        r@ == "php-"@ + version@ + archive_suffix(arch@),
{
    let mut r = String::from_str("php-");
    r.append(version);
    r.append("-cli-linux-");
    r.append(arch);
    r.append(".tar.gz");
    r
}

/// The address of an archive.
pub fn archive_url(file_name: &str) -> (r: String)
    ensures
        r@ == download_base() + "/"@ + file_name@,
{
    let mut r = String::from_str("https://dl.static-php.dev/static-php-cli/common");
    r.append("/");
    r.append(file_name);
    r
}

/// An archive entry is the `php` binary: the file name of its path is `php`.
pub fn is_php_entry(path: &str) -> (b: bool)
    ensures
        b == (crate::paths::file_name_of(path@) == Some("php"@)),
{
    let php = chars_of("php");
    match crate::paths::file_name_exec(path) {
        Some(n) => {
            let nc = chars_of(n.as_str());
            eq_exec(nc.as_slice(), php.as_slice())
        },
        None => false,
    }
}

/// What `flate2::read::GzDecoder` yields from `bytes`, read up to their end
/// or up to the first error: the data of the first gzip member so far, and
/// whether the stream ended without error.
pub uninterp spec fn gunzip_of(bytes: Seq<u8>) -> (Seq<u8>, bool);

/// Decompresses gzip data with `flate2::read::GzDecoder`, read with
/// `Read::read_to_end`, which keeps the bytes read before an error; the result
/// is named `gunzip_of` of the bytes.
#[verifier::external_body]
fn gunzip(bytes: &[u8]) -> (r: (Vec<u8>, bool))
    ensures
        (r.0@, r.1) == gunzip_of(bytes@),
{
    let mut out = Vec::new();
    let ok = std::io::Read::read_to_end(&mut flate2::read::GzDecoder::new(bytes), &mut out).is_ok();
    (out, ok)
}

/// An entry of a tar archive, as plain values: its path, its type flag (the
/// header byte `tar::EntryType::as_byte` gives: `b'1'` a hard link, `b'2'` a
/// symbolic link, `b'5'` a directory), the target a link names (its bytes),
/// and its data.
#[derive(Debug)]
pub struct TarEntry {
    pub path: String,
    pub type_flag: u8,
    pub link: Option<Vec<u8>>,
    pub data: Vec<u8>,
}

pub open spec fn entry_view(e: TarEntry) -> (Seq<char>, u8, Option<Seq<u8>>, Seq<u8>) {
    (e.path@, e.type_flag, match e.link {
        Some(l) => Some(l@),
        None => None,
    }, e.data@)
}

/// What `tar::Archive::entries` reads from `bytes`, in order: each entry's
/// path (as text), type flag, link target (its bytes) and data, up to the
/// first entry whose header, path or data cannot be read; and whether the
/// archive was read to its end.
pub uninterp spec fn tar_entries_of(bytes: Seq<u8>) -> (Seq<(Seq<char>, u8, Option<Seq<u8>>, Seq<u8>)>, bool);

/// The entries as plain values.
pub open spec fn entries_view(v: Vec<TarEntry>) -> Seq<(Seq<char>, u8, Option<Seq<u8>>, Seq<u8>)> {
    v@.map_values(|e: TarEntry| entry_view(e))
}

/// Reads the entries of a tar archive with `tar::Archive::entries`: each
/// entry's path (`Path::to_string_lossy`), `EntryType::as_byte`,
/// `link_name_bytes` and data read to the end, stopping at the first error; the result is named `tar_entries_of` of the bytes.
#[verifier::external_body]
fn tar_entries(bytes: &[u8]) -> (r: (Vec<TarEntry>, bool))
    ensures
        (entries_view(r.0), r.1) == tar_entries_of(bytes@),
{
    let mut archive = tar::Archive::new(bytes);
    let mut out = Vec::new();
    let Ok(entries) = archive.entries() else { return (out, false) };
    for entry in entries {
        let Ok(mut e) = entry else { return (out, false) };
        let Ok(path) = e.path().map(|p| p.to_string_lossy().into_owned()) else { return (out, false) };
        let link = e.link_name_bytes().map(|l| l.into_owned());
        let mut data = Vec::new();
        if e.read_to_end(&mut data).is_err() { return (out, false) }
        out.push(TarEntry { path, type_flag: e.header().entry_type().as_byte(), link, data });
    }
    (out, true)
}

/// The first entry, from index `i` on, that is the `php` binary.
pub open spec fn php_entry_from(es: Seq<(Seq<char>, u8, Option<Seq<u8>>, Seq<u8>)>, i: int) -> Option<int>
    decreases es.len() - i,
{
    if i < 0 || i >= es.len() {
        None
    } else if crate::paths::file_name_of(es[i].0) == Some("php"@) {
        Some(i)
    } else {
        php_entry_from(es, i + 1)
    }
}

/// The index of the first entry that is the `php` binary.
pub fn php_entry(entries: &Vec<TarEntry>) -> (r: Option<usize>)
    ensures
        match r {
            Some(k) => php_entry_from(entries_view(*entries), 0) == Some(k as int)
                && k < entries@.len(),
            None => php_entry_from(entries_view(*entries), 0) is None,
        },
{
    let ghost es = entries_view(*entries);
    let n = entries.len();
    let mut i: usize = 0;
    while i < n
        invariant
            n == entries@.len(),
            es == entries_view(*entries),
            es.len() == n,
            i <= n,
            php_entry_from(es, 0) == php_entry_from(es, i as int),
        decreases n - i,
    {
        assert(es[i as int].0 == entries@[i as int].path@);
        if is_php_entry(entries[i].path.as_str()) {
            return Some(i);
        }
        i = i + 1;
    }
    None
}

/// What unpacking the `php` entry puts in place. Type flags: `b'5'` (53) a
/// directory, `b'2'` (50) a symbolic link, `b'1'` (49) a hard link.
#[derive(Debug, PartialEq, Eq)]
pub enum PhpBinary {
    /// A file with this data (any type other than the ones below, as tar
    /// writes out unknown types as files).
    File(Vec<u8>),
    /// A symbolic link to this target.
    Symlink(Vec<u8>),
    /// A hard link to this path.
    HardLink(Vec<u8>),
    /// A directory.
    Directory,
}

/// What an entry unpacks to: `None` for a link without a target.
pub open spec fn unpacked(e: (Seq<char>, u8, Option<Seq<u8>>, Seq<u8>), r: PhpBinary) -> bool {
    if e.1 == 53u8 {
        r == PhpBinary::Directory
    } else if e.1 == 50u8 {
        r matches PhpBinary::Symlink(t) && e.2 == Some(t@)
    } else if e.1 == 49u8 {
        r matches PhpBinary::HardLink(t) && e.2 == Some(t@)
    } else {
        r matches PhpBinary::File(d) && d@ == e.3
    }
}

/// The `php` entry is complete: the gzip stream ended cleanly, or a later
/// entry was read after it (so its data were read in full).
pub open spec fn entry_complete(es_len: int, k: int, gz_ok: bool) -> bool {
    gz_ok || k + 1 < es_len
}

/// The `php` binary in a downloaded archive (gzip-compressed tar), read in
/// order as a stream: what its first entry whose file name is `php` unpacks
/// to, whatever follows it, once that entry was read in full. Otherwise:
/// `NoPhpInArchive` (with `file_name`, the archive's name) when the whole
/// archive was read and holds no such entry, else `ArchiveUnreadable`
/// (also for a link entry without a target).
pub fn php_binary_from_archive(archive: &[u8], file_name: &str) -> (r: Result<PhpBinary, PhmError>)
    ensures
        ({
            let (t, gz_ok) = gunzip_of(archive@);
            let (es, tar_ok) = tar_entries_of(t);
            match php_entry_from(es, 0) {
                Some(k) => if entry_complete(es.len() as int, k, gz_ok) && (es[k].1 == 49u8
                    || es[k].1 == 50u8 ==> es[k].2 is Some) {
                    r matches Ok(b) && unpacked(es[k], b)
                } else {
                    r == Err::<PhpBinary, PhmError>(PhmError::ArchiveUnreadable)
                },
                None => if gz_ok && tar_ok {
                    r matches Err(PhmError::NoPhpInArchive(f)) && f@ == file_name@
                } else {
                    r == Err::<PhpBinary, PhmError>(PhmError::ArchiveUnreadable)
                },
            }
        }),
{
    let (tar_bytes, gz_ok) = gunzip(archive);
    let (mut entries, tar_ok) = tar_entries(tar_bytes.as_slice());
    let ghost es = entries_view(entries);
    match php_entry(&entries) {
        Some(k) => {
            if !gz_ok && k >= entries.len() - 1 {
                return Err(PhmError::ArchiveUnreadable);
            }
            assert(es[k as int] == entry_view(entries@[k as int]));
            let e = entries.swap_remove(k);
            if e.type_flag == 53u8 {
                Ok(PhpBinary::Directory)
            } else if e.type_flag == 50u8 || e.type_flag == 49u8 {
                match e.link {
                    Some(t) => if e.type_flag == 50u8 {
                        Ok(PhpBinary::Symlink(t))
                    } else {
                        Ok(PhpBinary::HardLink(t))
                    },
                    None => Err(PhmError::ArchiveUnreadable),
                }
            } else {
                Ok(PhpBinary::File(e.data))
            }
        },
        None => if gz_ok && tar_ok {
            Err(PhmError::NoPhpInArchive(String::from_str(file_name)))
        } else {
            Err(PhmError::ArchiveUnreadable)
        },
    }
}

} // verus!
