//! Reading zip archives held in memory. The `zip` crate does the parsing
//! and decompression; the library speaks of an archive's entries through
//! named results that are functions of the payload bytes alone.

use vstd::prelude::*;
use std::io::Read;

verus! {

#[verifier::external_type_specification]
#[verifier::external_body]
#[verifier::reject_recursive_types(R)]
pub struct ExZipArchive<R>(zip::read::ZipArchive<R>);

#[verifier::external_type_specification]
#[verifier::external_body]
pub struct ExZipError(zip::result::ZipError);

#[verifier::external_type_specification]
#[verifier::external_body]
#[verifier::reject_recursive_types(T)]
pub struct ExCursor<T>(std::io::Cursor<T>);

/// Whether `zip::ZipArchive::new` accepts the bytes as an archive.
pub uninterp spec fn zip_ok(bytes: Seq<u8>) -> bool;

/// How many entries the archive of these bytes holds.
pub uninterp spec fn zip_num_entries(bytes: Seq<u8>) -> nat;

/// Whether the entry at one index can be opened and its name read.
pub uninterp spec fn zip_entry_ok(bytes: Seq<u8>, i: int) -> bool;

/// The name of the entry at one index.
pub uninterp spec fn zip_entry_name(bytes: Seq<u8>, i: int) -> Seq<char>;

/// Whether the entry at one index decompresses without error.
pub uninterp spec fn zip_entry_data_ok(bytes: Seq<u8>, i: int) -> bool;

/// The decompressed contents of the entry at one index.
pub uninterp spec fn zip_entry_data(bytes: Seq<u8>, i: int) -> Seq<u8>;

/// An archive opened over an in-memory payload, remembering the payload it
/// was opened from.
pub struct Archive {
    bytes: Vec<u8>,
    inner: zip::read::ZipArchive<std::io::Cursor<Vec<u8>>>,
}

impl Archive {
    /// The payload this archive was opened from.
    pub closed spec fn bytes_view(&self) -> Seq<u8> {
        self.bytes@
    }

    /// Relies on `zip::ZipArchive::new` over an in-memory cursor: whether
    /// the bytes form a readable archive is a function of the bytes alone.
    #[verifier::external_body]
    pub(crate) fn open(bytes: Vec<u8>) -> (r: Result<Archive, zip::result::ZipError>)
        ensures
            r is Ok <==> zip_ok(bytes@),
            (r matches Ok(a) ==> a.bytes_view() == bytes@),
    {
        let cursor = std::io::Cursor::new(bytes.clone());
        match zip::read::ZipArchive::new(cursor) {
            Ok(inner) => Ok(Archive { bytes, inner }),
            Err(e) => Err(e),
        }
    }

    /// Relies on `zip::ZipArchive::len`: the entry count is a function of
    /// the bytes alone.
    #[verifier::external_body]
    pub(crate) fn entry_count(&self) -> (r: usize)
        ensures
            r == zip_num_entries(self.bytes_view()),
    {
        self.inner.len()
    }

    /// Relies on `zip::ZipArchive::by_index` and `zip::read::ZipFile::name`:
    /// whether an entry opens, and what its name is, are functions of the
    /// bytes and the index alone.
    #[verifier::external_body]
    pub(crate) fn entry_name(&mut self, i: usize) -> (r: Result<String, zip::result::ZipError>)
        requires
            i < zip_num_entries(old(self).bytes_view()),
        ensures
            final(self).bytes_view() == old(self).bytes_view(),
            r is Ok <==> zip_entry_ok(old(self).bytes_view(), i as int),
            (r matches Ok(n) ==> n@ == zip_entry_name(old(self).bytes_view(), i as int)),
    {
        match self.inner.by_index(i) {
            Ok(f) => Ok(f.name().to_string()),
            Err(e) => Err(e),
        }
    }

    /// Relies on `zip::ZipArchive::by_index` and `std::io::Read::read_to_end`
    /// on the entry reader: whether an entry decompresses, and to what
    /// bytes, are functions of the bytes and the index alone.
    #[verifier::external_body]
    pub(crate) fn entry_data(&mut self, i: usize) -> (r: Result<Vec<u8>, zip::result::ZipError>)
        requires
            i < zip_num_entries(old(self).bytes_view()),
        ensures
            final(self).bytes_view() == old(self).bytes_view(),
            r is Ok <==> (zip_entry_ok(old(self).bytes_view(), i as int) && zip_entry_data_ok(
                old(self).bytes_view(),
                i as int,
            )),
            (r matches Ok(d) ==> d@ == zip_entry_data(old(self).bytes_view(), i as int)),
    {
        match self.inner.by_index(i) {
            Ok(mut f) => {
                let mut buf: Vec<u8> = Vec::new();
                match f.read_to_end(&mut buf) {
                    Ok(_) => Ok(buf),
                    Err(e) => Err(zip::result::ZipError::Io(e)),
                }
            },
            Err(e) => Err(e),
        }
    }
}

} // verus!
