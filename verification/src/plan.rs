//! Storage planning for downloaded artifacts: which files to write, where
//! under the data root, and with what bytes. In raw mode the payload is
//! stored verbatim as one archive file; in extract mode every archive entry
//! becomes one file inside the package/artifact subtree, and entries that
//! would land outside it are rejected.

use vstd::prelude::*;
use vstd::string::StrSliceExecFns;
use crate::archive::{
    zip_entry_data, zip_entry_data_ok, zip_entry_name, zip_entry_ok, zip_num_entries, zip_ok,
    Archive,
};
use crate::errors::SyncError;
use crate::paths::{enclosed_model, enclosed_segments, lemma_enclosed_segments_plain, plain_seg};

verus! {

/// One planned filesystem write: a path, as segments below the data root,
/// and the bytes to store there.
pub struct WriteItem {
    pub segments: Vec<String>,
    pub data: Vec<u8>,
}

/// The mathematical content of one planned write.
pub ghost struct ItemModel {
    pub segments: Seq<Seq<char>>,
    pub data: Seq<u8>,
}

impl View for WriteItem {
    type V = ItemModel;

    open spec fn view(&self) -> ItemModel {
        ItemModel {
            segments: self.segments@.map_values(|x: String| x@),
            data: self.data@,
        }
    }
}

/// A directory entry: its name ends in a slash, and it names no file.
pub open spec fn entry_is_dir(name: Seq<char>) -> bool {
    name.len() > 0 && name[name.len() - 1] == '/'
}

/// An entry the extraction plan cannot accept: it does not open, its name
/// would escape the extraction root, or it does not decompress.
pub open spec fn entry_bad(bytes: Seq<u8>, i: int) -> bool {
    ||| !zip_entry_ok(bytes, i)
    ||| (!entry_is_dir(zip_entry_name(bytes, i)) && (enclosed_model(zip_entry_name(bytes, i))
        is None || !zip_entry_data_ok(bytes, i)))
}

/// The writes the first `n` entries of an archive plan: one per file entry,
/// in entry order, under `<package>/<artifact>/`.
pub open spec fn plan_model(bytes: Seq<u8>, pkg: Seq<char>, art: Seq<char>, n: int) -> Seq<
    ItemModel,
>
    decreases n,
{
    if n <= 0 {
        Seq::empty()
    } else {
        let rest = plan_model(bytes, pkg, art, n - 1);
        let name = zip_entry_name(bytes, n - 1);
        if entry_is_dir(name) {
            rest
        } else {
            rest.push(
                ItemModel {
                    segments: seq![pkg, art] + enclosed_model(name)->0,
                    data: zip_entry_data(bytes, n - 1),
                },
            )
        }
    }
}

/// A write that stays inside `<data_root>/<package>/<artifact>/`: its first
/// two segments are the package and artifact identifiers, and everything
/// after them is a plain segment that cannot climb out.
pub open spec fn item_inside(m: ItemModel, pkg: Seq<char>, art: Seq<char>) -> bool {
    &&& m.segments.len() >= 3
    &&& m.segments[0] == pkg
    &&& m.segments[1] == art
    &&& forall|k: int| 2 <= k < m.segments.len() ==> plain_seg(#[trigger] m.segments[k])
}

/// The single write of a raw-mode store: the payload, byte for byte, at
/// `<package>/<artifact>.zip` below the data root.
pub fn raw_plan(package_id: &str, artifact_id: &str, payload: Vec<u8>) -> (r: WriteItem)
    ensures
        r@.segments.len() == 2,
        r@.segments[0] == package_id@,
        r@.segments[1] == artifact_id@ + ".zip"@,
        r@.data == payload@,
{
    let mut file_name = artifact_id.to_owned();
    file_name.append(".zip");
    let mut segments: Vec<String> = Vec::new();
    segments.push(package_id.to_owned());
    segments.push(file_name);
    let r = WriteItem { segments, data: payload };
    proof {
        assert(r@.segments =~= seq![package_id@, artifact_id@ + ".zip"@]);
    }
    r
}

/// The writes of an extract-mode store: the payload is opened as a zip
/// archive and every file entry becomes one write at
/// `<package>/<artifact>/<normalized entry path>` below the data root.
/// Fails with `ArchiveCorrupt` when the payload is not a readable archive,
/// when an entry does not open or decompress, or when an entry name would
/// escape the extraction root.
pub fn extract_plan(package_id: &str, artifact_id: &str, payload: Vec<u8>) -> (r: Result<
    Vec<WriteItem>,
    SyncError,
>)
    ensures
        (r matches Err(e) ==> e is ArchiveCorrupt),
        r is Ok <==> (zip_ok(payload@) && forall|i: int|
            0 <= i < zip_num_entries(payload@) ==> !entry_bad(payload@, i)),
        (r matches Ok(items) ==> items@.map_values(|w: WriteItem| w@) == plan_model(
            payload@,
            package_id@,
            artifact_id@,
            zip_num_entries(payload@) as int,
        )),
        (r matches Ok(items) ==> forall|k: int|
            0 <= k < items@.len() ==> item_inside(
                #[trigger] items@[k]@,
                package_id@,
                artifact_id@,
            )),
{
    let ghost bytes = payload@;
    let mut archive = match Archive::open(payload) {
        Ok(a) => a,
        Err(_) => {
            return Err(SyncError::ArchiveCorrupt);
        },
    };
    let count = archive.entry_count();
    let mut items: Vec<WriteItem> = Vec::new();
    proof {
        assert(items@.map_values(|w: WriteItem| w@) =~= plan_model(
            bytes,
            package_id@,
            artifact_id@,
            0,
        ));
    }
    let mut i: usize = 0;
    while i < count
        invariant
            bytes == payload@,
            zip_ok(bytes),
            archive.bytes_view() == bytes,
            count == zip_num_entries(bytes),
            i <= count,
            forall|j: int| 0 <= j < i ==> !entry_bad(bytes, j),
            items@.map_values(|w: WriteItem| w@) == plan_model(
                bytes,
                package_id@,
                artifact_id@,
                i as int,
            ),
            forall|k: int|
                0 <= k < items@.len() ==> item_inside(
                    #[trigger] items@[k]@,
                    package_id@,
                    artifact_id@,
                ),
        decreases count - i,
    {
        let name = match archive.entry_name(i) {
            Ok(n) => n,
            Err(_) => {
                proof {
                    assert(entry_bad(bytes, i as int));
                    assert(!(forall|j: int|
                        0 <= j < zip_num_entries(bytes) ==> !entry_bad(bytes, j))) by {
                        assert((i as int) < zip_num_entries(bytes) && entry_bad(
                            bytes,
                            i as int,
                        ));
                    }
                }
                return Err(SyncError::ArchiveCorrupt);
            },
        };
        let nlen = name.as_str().unicode_len();
        if nlen > 0 && name.as_str().get_char(nlen - 1) == '/' {
            // a directory entry: parent directories are created with the
            // files that need them, so it plans no write of its own
            proof {
                assert(entry_is_dir(zip_entry_name(bytes, i as int)));
                assert(!entry_bad(bytes, i as int));
            }
        } else {
            proof {
                assert(!entry_is_dir(zip_entry_name(bytes, i as int)));
            }
            let segs = match enclosed_segments(name.as_str()) {
                Some(v) => v,
                None => {
                    proof {
                        assert(entry_bad(bytes, i as int));
                        assert(!(forall|j: int|
                            0 <= j < zip_num_entries(bytes) ==> !entry_bad(bytes, j))) by {
                            assert((i as int) < zip_num_entries(bytes) && entry_bad(
                                bytes,
                                i as int,
                            ));
                        }
                    }
                    return Err(SyncError::ArchiveCorrupt);
                },
            };
            let data = match archive.entry_data(i) {
                Ok(d) => d,
                Err(_) => {
                    proof {
                        assert(entry_bad(bytes, i as int));
                        assert(!(forall|j: int|
                            0 <= j < zip_num_entries(bytes) ==> !entry_bad(bytes, j))) by {
                            assert((i as int) < zip_num_entries(bytes) && entry_bad(
                                bytes,
                                i as int,
                            ));
                        }
                    }
                    return Err(SyncError::ArchiveCorrupt);
                },
            };
            let mut segments: Vec<String> = Vec::new();
            segments.push(package_id.to_owned());
            segments.push(artifact_id.to_owned());
            let mut tail = segs;
            segments.append(&mut tail);
            let item = WriteItem { segments, data };
            proof {
                lemma_enclosed_segments_plain(name@);
                assert(item@.segments =~= seq![package_id@, artifact_id@] + enclosed_model(
                    name@,
                )->0);
                assert(item_inside(item@, package_id@, artifact_id@));
            }
            items.push(item);
            proof {
                assert(items@.map_values(|w: WriteItem| w@) =~= plan_model(
                    bytes,
                    package_id@,
                    artifact_id@,
                    i as int + 1,
                ));
                assert(!entry_bad(bytes, i as int));
            }
        }
        i += 1;
    }
    Ok(items)
}

} // verus!
