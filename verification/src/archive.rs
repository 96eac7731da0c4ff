//! The single file of a compressed download.
use vstd::prelude::*;

use crate::cloud::CloudError;

verus! {

/// Why a download was refused.
#[derive(Debug, PartialEq, Eq)]
pub enum DownloadError {
    /// What was transferred is no archive that can be read, for the reason given.
    Archive(String),
    /// The download is not the announced one.
    Cloud(CloudError),
}

/// What a `DownloadError` says.
pub enum DownloadFailure {
    Archive(Seq<char>),
    Cloud(CloudError),
}

impl View for DownloadError {
    type V = DownloadFailure;

    open spec fn view(&self) -> DownloadFailure {
        match *self {
            DownloadError::Archive(reason) => DownloadFailure::Archive(reason@),
            DownloadError::Cloud(error) => DownloadFailure::Cloud(error),
        }
    }
}

impl DownloadFailure {
    /// The message for the user.
    pub open spec fn text(self) -> Seq<char> {
        match self {
            DownloadFailure::Archive(reason) => reason,
            DownloadFailure::Cloud(error) => error.text(),
        }
    }
}

impl DownloadError {
    /// The message for the user.
    pub fn message(&self) -> (message: String)
        ensures
            message@ == self@.text(),
    {
        match self {
            DownloadError::Archive(reason) => reason.clone(),
            DownloadError::Cloud(error) => error.message(),
        }
    }
}

/// How many entries a ZIP archive lists, or why the bytes are none.
pub uninterp spec fn archive_entry_count(bytes: Seq<u8>) -> Result<usize, Seq<char>>;

/// Whether the first entry of a ZIP archive is a directory, and its announced size, or why it
/// cannot be opened.
pub uninterp spec fn archive_first_entry(bytes: Seq<u8>) -> Result<(bool, u64), Seq<char>>;

/// What the first entry of a ZIP archive holds, up to `limit` bytes of it, or why it cannot be
/// unpacked.
pub uninterp spec fn archive_first_contents(bytes: Seq<u8>, limit: u64) -> Result<
    Seq<u8>,
    Seq<char>,
>;

/// `zip::ZipArchive::len`: how many entries the archive lists, or the text of the error with
/// which `zip::ZipArchive::new` refuses the bytes.
#[verifier::external_body]
fn entry_count(bytes: &[u8]) -> (count: Result<usize, String>)
    ensures
        match count {
            Ok(count) => archive_entry_count(bytes@) == Ok::<usize, Seq<char>>(count),
            Err(reason) => archive_entry_count(bytes@) == Err::<usize, Seq<char>>(reason@),
        },
{
    let archive = zip::ZipArchive::new(std::io::Cursor::new(bytes)).map_err(anyhow::Error::new);
    archive.map(|archive| archive.len()).map_err(|error| format!("{error:#}"))
}

/// `zip::ZipArchive::by_index` for the first entry: whether it is a directory and which size it
/// announces, or the text of the error with which it cannot be opened.
#[verifier::external_body]
fn first_entry(bytes: &[u8]) -> (entry: Result<(bool, u64), String>)
    ensures
        match entry {
            Ok(entry) => archive_first_entry(bytes@) == Ok::<(bool, u64), Seq<char>>(entry),
            Err(reason) => archive_first_entry(bytes@) == Err::<(bool, u64), Seq<char>>(reason@),
        },
{
    let mut archive = zip::ZipArchive::new(std::io::Cursor::new(bytes))
        .map_err(|error| format!("{:#}", anyhow::Error::new(error)))?;
    let entry = archive.by_index(0).map_err(|error| format!("{:#}", anyhow::Error::new(error)))?;
    Ok((entry.is_dir(), entry.size()))
}

/// `zip::read::ZipFile` as a reader: what the first entry holds when it is unpacked, cut off
/// behind `limit` bytes, or the text of the error with which it cannot be unpacked.
#[verifier::external_body]
fn first_contents(bytes: &[u8], limit: u64) -> (contents: Result<Vec<u8>, String>)
    ensures
        match contents {
            Ok(contents) => archive_first_contents(bytes@, limit) == Ok::<Seq<u8>, Seq<char>>(
                contents@,
            ) && contents@.len() <= limit,
            Err(reason) => archive_first_contents(bytes@, limit) == Err::<Seq<u8>, Seq<char>>(
                reason@,
            ),
        },
{
    let mut archive = zip::ZipArchive::new(std::io::Cursor::new(bytes))
        .map_err(|error| format!("{:#}", anyhow::Error::new(error)))?;
    let entry = archive.by_index(0).map_err(|error| format!("{:#}", anyhow::Error::new(error)))?;
    let mut contents = Vec::new();
    std::io::Read::read_to_end(&mut std::io::Read::take(entry, limit), &mut contents)
        .map_err(|error| format!("{:#}", anyhow::Error::new(error)))?;
    Ok(contents)
}

/// Why an archive is refused by the number of its entries, if it is.
pub open spec fn count_refusal(count: Result<usize, Seq<char>>) -> Option<DownloadFailure> {
    match count {
        Ok(count) => if count == 1 {
            None
        } else {
            Some(DownloadFailure::Cloud(CloudError::ArchiveEntryCount))
        },
        Err(reason) => Some(DownloadFailure::Archive(reason)),
    }
}

/// Checks that an archive holds one entry.
pub fn check_entry_count(count: Result<usize, String>) -> (result: Result<(), DownloadError>)
    ensures
        refusal_of(result) == count_refusal(
            match count {
                Ok(count) => Ok(count),
                Err(reason) => Err(reason@),
            },
        ),
{
    match count {
        Ok(count) => if count != 1 {
            Err(DownloadError::Cloud(CloudError::ArchiveEntryCount))
        } else {
            Ok(())
        },
        Err(reason) => Err(DownloadError::Archive(reason)),
    }
}

/// Why an archive is refused by what its entry announces, if it is.
pub open spec fn entry_refusal(entry: Result<(bool, u64), Seq<char>>, max_output: usize) -> Option<
    DownloadFailure,
> {
    match entry {
        Ok((is_dir, size)) => if is_dir {
            Some(DownloadFailure::Cloud(CloudError::ArchiveDirectory))
        } else if size > max_output {
            Some(DownloadFailure::Cloud(CloudError::ArchiveTooLarge))
        } else {
            None
        },
        Err(reason) => Some(DownloadFailure::Archive(reason)),
    }
}

/// Checks that the entry is a file of at most `max_output` bytes.
pub fn check_entry(entry: Result<(bool, u64), String>, max_output: usize) -> (result: Result<
    (),
    DownloadError,
>)
    ensures
        refusal_of(result) == entry_refusal(
            match entry {
                Ok(entry) => Ok(entry),
                Err(reason) => Err(reason@),
            },
            max_output,
        ),
{
    match entry {
        Ok((is_dir, size)) => if is_dir {
            Err(DownloadError::Cloud(CloudError::ArchiveDirectory))
        } else if size > max_output as u64 {
            Err(DownloadError::Cloud(CloudError::ArchiveTooLarge))
        } else {
            Ok(())
        },
        Err(reason) => Err(DownloadError::Archive(reason)),
    }
}

/// What is made of the unpacked bytes: they count only up to the announced size.
pub open spec fn bounded_contents(
    contents: Result<Seq<u8>, Seq<char>>,
    max_output: usize,
) -> Result<Seq<u8>, DownloadFailure> {
    match contents {
        Ok(contents) => if contents.len() > max_output {
            Err(DownloadFailure::Cloud(CloudError::ArchiveTooLarge))
        } else {
            Ok(contents)
        },
        Err(reason) => Err(DownloadFailure::Archive(reason)),
    }
}

/// Checks that no more than `max_output` bytes were unpacked.
pub fn check_contents(contents: Result<Vec<u8>, String>, max_output: usize) -> (result: Result<
    Vec<u8>,
    DownloadError,
>)
    ensures
        download_result(result) == bounded_contents(
            match contents {
                Ok(contents) => Ok(contents@),
                Err(reason) => Err(reason@),
            },
            max_output,
        ),
{
    match contents {
        Ok(contents) => if contents.len() > max_output {
            Err(DownloadError::Cloud(CloudError::ArchiveTooLarge))
        } else {
            Ok(contents)
        },
        Err(reason) => Err(DownloadError::Archive(reason)),
    }
}

/// Why something was refused, if it was.
pub open spec fn refusal_of(result: Result<(), DownloadError>) -> Option<DownloadFailure> {
    match result {
        Ok(()) => None,
        Err(error) => Some(error@),
    }
}

/// What a download gave, in the terms of its contract.
pub open spec fn download_result(result: Result<Vec<u8>, DownloadError>) -> Result<
    Seq<u8>,
    DownloadFailure,
> {
    match result {
        Ok(bytes) => Ok(bytes@),
        Err(error) => Err(error@),
    }
}

/// One more than the number of bytes that are accepted, so that too many can be told apart.
pub open spec fn read_limit(max_output: usize) -> u64 {
    if max_output == usize::MAX {
        max_output as u64
    } else {
        (max_output + 1) as u64
    }
}

/// The contents of the only file of an archive of at most `max_output` unpacked bytes.
pub open spec fn unpacked(bytes: Seq<u8>, max_output: usize) -> Result<Seq<u8>, DownloadFailure> {
    match count_refusal(archive_entry_count(bytes)) {
        Some(failure) => Err(failure),
        None => match entry_refusal(archive_first_entry(bytes), max_output) {
            Some(failure) => Err(failure),
            None => bounded_contents(
                archive_first_contents(bytes, read_limit(max_output)),
                max_output,
            ),
        },
    }
}

/// The contents of the only file of an archive.
pub fn unpack_single_zip_entry(bytes: &[u8], max_output: usize) -> (result: Result<
    Vec<u8>,
    DownloadError,
>)
    ensures
        download_result(result) == unpacked(bytes@, max_output),
        result matches Ok(contents) ==> contents@.len() <= max_output,
{
    match check_entry_count(entry_count(bytes)) {
        Ok(()) => {},
        Err(error) => return Err(error),
    }
    match check_entry(first_entry(bytes), max_output) {
        Ok(()) => {},
        Err(error) => return Err(error),
    }
    let limit: u64 = if max_output == usize::MAX {
        max_output as u64
    } else {
        (max_output + 1) as u64
    };
    check_contents(first_contents(bytes, limit), max_output)
}

} // verus!
