//! Taking the JAR out of a downloaded zip archive.
//!
//! Reading the archive is the `zip` crate's work. Which entry is taken, and
//! what is reported when there is none, is decided here.

use vstd::prelude::*;
use vstd::string::*;
use crate::error::{bytes_outcome, LauncherError, LauncherErrorView};
use crate::search::first_index;
use crate::text::{ends_with, spec_ends_with, texts};

verus! {

/// The error type of the `zip` crate, carried through unread.
#[verifier::external_type_specification]
#[verifier::external_body]
pub struct ExZipError(zip::result::ZipError);

/// What `zip` finds when it opens `bytes` as an archive and lists the
/// entries: their names, in the order in which `ZipArchive::file_names`
/// yields them; `None` where it cannot open `bytes`.
pub uninterp spec fn zip_entry_names(bytes: Seq<u8>) -> Option<Seq<Seq<char>>>;

/// What `zip` reads from the entry called `name` of the archive made of
/// `bytes`: its unpacked content; `None` where the archive cannot be opened
/// or the entry cannot be found or read to its end.
pub uninterp spec fn zip_entry_content(bytes: Seq<u8>, name: Seq<char>) -> Option<Seq<u8>>;

/// Opens `bytes` with `zip::ZipArchive::new` and lists the names of the
/// entries with `ZipArchive::file_names`.
///
/// Trusted, and not proved: that what comes back depends on `bytes` alone,
/// so that it can be called `zip_entry_names(bytes)`. Nothing is claimed of
/// what the names are.
#[verifier::external_body]
fn read_entry_names(bytes: &Vec<u8>) -> (r: Result<Vec<String>, zip::result::ZipError>)
    ensures
        match r {
            Ok(names) => zip_entry_names(bytes@) == Some(texts(names@)),
            Err(_) => zip_entry_names(bytes@) is None,
        },
{
    let archive = zip::ZipArchive::new(std::io::Cursor::new(bytes.as_slice()))?;
    Ok(archive.file_names().map(|name| name.to_owned()).collect())
}

/// Opens `bytes` with `zip::ZipArchive::new`, finds the entry called `name`
/// with `ZipArchive::by_name` and reads it to its end.
///
/// Trusted, and not proved: that what comes back depends on `bytes` and
/// `name` alone, so that it can be called `zip_entry_content(bytes, name)`.
/// Nothing is claimed of what the content is, nor of its size: an entry is
/// unpacked whole, however large it turns out to be.
#[verifier::external_body]
fn read_entry(bytes: &Vec<u8>, name: &str) -> (r: Result<Vec<u8>, zip::result::ZipError>)
    ensures
        match r {
            Ok(content) => zip_entry_content(bytes@, name@) == Some(content@),
            Err(_) => zip_entry_content(bytes@, name@) is None,
        },
{
    let mut archive = zip::ZipArchive::new(std::io::Cursor::new(bytes.as_slice()))?;
    let mut entry = archive.by_name(name)?;
    let mut content = Vec::new();
    std::io::Read::read_to_end(&mut entry, &mut content)?;
    Ok(content)
}

/// The ending of a JAR's name.
pub open spec fn jar_suffix() -> Seq<char> {
    seq!['.', 'j', 'a', 'r']
}

/// The position of the first name that ends in `.jar`.
pub open spec fn spec_first_jar(names: Seq<Seq<char>>) -> Option<int> {
    first_index(|i: int| spec_ends_with(names[i], jar_suffix()), 0, names.len() as int)
}

/// The text of the failure for an archive that cannot be read.
pub open spec fn unreadable_archive_message() -> Seq<char> {
    "unreadable archive"@
}

/// The text of the failure for an archive without a JAR.
pub open spec fn no_jar_message() -> Seq<char> {
    "no JAR in archive"@
}

/// What taking the JAR out of `bytes` gives: the content of the first entry
/// whose name ends in `.jar`, or the failure.
pub open spec fn spec_extract_jar(bytes: Seq<u8>) -> Result<Seq<u8>, LauncherErrorView> {
    match zip_entry_names(bytes) {
        None => Err(LauncherErrorView::Archive(unreadable_archive_message())),
        Some(names) => match spec_first_jar(names) {
            None => Err(LauncherErrorView::InvalidDescriptor(no_jar_message())),
            Some(i) => match zip_entry_content(bytes, names[i]) {
                None => Err(LauncherErrorView::Archive(unreadable_archive_message())),
                Some(content) => Ok(content),
            },
        },
    }
}

/// The position of the first name that ends in `.jar`, if there is one.
pub fn first_jar(names: &Vec<String>) -> (r: Option<usize>)
    ensures
        match r {
            Some(i) => spec_first_jar(texts(names@)) == Some(i as int),
            None => spec_first_jar(texts(names@)) is None,
        },
        r matches Some(i) ==> i < names.len(),
{
    let ghost all = texts(names@);
    let ghost is_jar = |i: int| spec_ends_with(all[i], jar_suffix());
    let n: usize = names.len();
    let mut i: usize = 0;
    proof {
        reveal_strlit(".jar");
        assert(".jar"@ =~= jar_suffix());
    }
    while i < n
        invariant
            i <= n,
            n == names.len(),
            all == texts(names@),
            is_jar == (|i: int| spec_ends_with(all[i], jar_suffix())),
            ".jar"@ == jar_suffix(),
            first_index(is_jar, 0, n as int) == first_index(is_jar, i as int, n as int),
        decreases n - i,
    {
        assert(all[i as int] == names@[i as int]@);
        if ends_with(names[i].as_str(), ".jar") {
            assert(is_jar(i as int));
            return Some(i);
        }
        assert(!is_jar(i as int));
        i += 1;
    }
    None
}

/// The content of the first entry of the archive whose name ends in `.jar`.
///
/// Fails with `Archive` where the archive or that entry cannot be read, and
/// with `InvalidDescriptor` where no entry's name ends in `.jar`.
pub fn extract_jar(bytes: &Vec<u8>) -> (r: Result<Vec<u8>, LauncherError>)
    ensures
        bytes_outcome(r) == spec_extract_jar(bytes@),
{
    let names: Vec<String> = match read_entry_names(bytes) {
        Ok(names) => names,
        Err(_) => {
            return Err(LauncherError::Archive("unreadable archive".to_owned()));
        },
    };
    match first_jar(&names) {
        None => Err(LauncherError::InvalidDescriptor("no JAR in archive".to_owned())),
        Some(i) => {
            assert(texts(names@)[i as int] == names@[i as int]@);
            match read_entry(bytes, names[i].as_str()) {
                Ok(content) => Ok(content),
                Err(_) => Err(LauncherError::Archive("unreadable archive".to_owned())),
            }
        },
    }
}

} // verus!
