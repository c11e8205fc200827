//! Interpretation of backend metadata and directory-listing replies, handed
//! over as plain values by the I/O layer, and the request URLs they answer.

use vstd::prelude::*;

use crate::encoding;
use crate::text;

verus! {

/// Mathematical model of a resolved remote entry.
#[verifier::ext_equal]
pub struct MetaModel {
    pub fsid: u64,
    pub filename: Seq<char>,
    pub path: Seq<char>,
    pub is_dir: bool,
}

/// A remote entry: its identifier, display name, canonical path, and kind.
pub struct FsidMeta {
    pub fsid: u64,
    pub filename: String,
    pub path: String,
    pub is_dir: bool,
}

impl View for FsidMeta {
    type V = MetaModel;

    open spec fn view(&self) -> MetaModel {
        MetaModel {
            fsid: self.fsid,
            filename: self.filename@,
            path: self.path@,
            is_dir: self.is_dir,
        }
    }
}

impl DeepView for FsidMeta {
    type V = MetaModel;

    open spec fn deep_view(&self) -> MetaModel {
        self@
    }
}

/// Metadata resolution failure.
#[derive(Debug, PartialEq, Eq, Structural)]
pub enum MetaError {
    /// The backend returned an empty result list for the identifier.
    NotFound,
    /// The backend embedded a non-zero status code in its reply.
    BackendError(i32),
}

/// One item of a metadata-by-id reply, as decoded by the I/O layer; absent
/// fields arrive as their defaults.
pub struct RawMetaItem {
    pub filename: String,
    pub path: String,
    pub isdir: i32,
}

/// Turns a metadata-by-id reply into the entry it describes: a non-zero
/// status code is a backend error, an empty list means the identifier was
/// not found, and otherwise the first item gives name, path and kind.
pub fn interpret_file_metas(fsid: u64, errno: i32, items: &Vec<RawMetaItem>) -> (r: Result<
    FsidMeta,
    MetaError,
>)
    ensures
        errno != 0 ==> r == Err::<FsidMeta, MetaError>(MetaError::BackendError(errno)),
        errno == 0 && items@.len() == 0 ==> r == Err::<FsidMeta, MetaError>(MetaError::NotFound),
        errno == 0 && items@.len() > 0 ==> {
            &&& r is Ok
            &&& r->Ok_0@ == (MetaModel {
                fsid: fsid,
                filename: items@[0].filename@,
                path: items@[0].path@,
                is_dir: items@[0].isdir == 1,
            })
        },
{
    if errno != 0 {
        return Err(MetaError::BackendError(errno));
    }
    if items.len() == 0 {
        return Err(MetaError::NotFound);
    }
    let first = &items[0];
    Ok(
        FsidMeta {
            fsid,
            filename: first.filename.clone(),
            path: first.path.clone(),
            is_dir: first.isdir == 1,
        },
    )
}

/// Mathematical model of one directory-listing item.
#[verifier::ext_equal]
pub struct ListedModel {
    pub fs_id: u64,
    pub server_filename: Seq<char>,
    pub path: Seq<char>,
    pub isdir: i32,
}

/// One item of a directory-listing reply, as decoded by the I/O layer.
pub struct RawListedItem {
    pub fs_id: u64,
    pub server_filename: String,
    pub path: String,
    pub isdir: i32,
}

impl View for RawListedItem {
    type V = ListedModel;

    open spec fn view(&self) -> ListedModel {
        ListedModel {
            fs_id: self.fs_id,
            server_filename: self.server_filename@,
            path: self.path@,
            isdir: self.isdir,
        }
    }
}

impl DeepView for RawListedItem {
    type V = ListedModel;

    open spec fn deep_view(&self) -> ListedModel {
        self@
    }
}

/// The path reconstructed when a listing item's path field is absent: the
/// listed directory, without trailing slashes, then `/`, then the name.
pub open spec fn fallback_path(dir_path: Seq<char>, name: Seq<char>) -> Seq<char> {
    text::spec_trim_end_slashes(dir_path) + "/"@ + name
}

/// The remote entry a listing item denotes under the listed directory.
pub open spec fn listed_entry(dir_path: Seq<char>, it: ListedModel) -> MetaModel {
    MetaModel {
        fsid: it.fs_id,
        filename: it.server_filename,
        path: if it.path.len() == 0 {
            fallback_path(dir_path, it.server_filename)
        } else {
            it.path
        },
        is_dir: it.isdir == 1,
    }
}

/// Turns a directory-listing reply into entries: a non-zero status code is
/// a backend error; otherwise each item maps to an entry in order, with an
/// absent path reconstructed from the listed directory and the item's name.
pub fn interpret_dir_listing(dir_path: &str, errno: i32, items: &Vec<RawListedItem>) -> (r: Result<
    Vec<FsidMeta>,
    MetaError,
>)
    ensures
        errno != 0 ==> r == Err::<Vec<FsidMeta>, MetaError>(MetaError::BackendError(errno)),
        errno == 0 ==> {
            &&& r is Ok
            &&& r->Ok_0.deep_view() == items.deep_view().map_values(
                |it: ListedModel| listed_entry(dir_path@, it),
            )
        },
{
    if errno != 0 {
        return Err(MetaError::BackendError(errno));
    }
    let ghost all = items.deep_view();
    let mut out: Vec<FsidMeta> = Vec::new();
    let mut i: usize = 0;
    while i < items.len()
        invariant
            i <= items@.len(),
            all == items.deep_view(),
            out.deep_view() =~= all.take(i as int).map_values(
                |it: ListedModel| listed_entry(dir_path@, it),
            ),
        decreases items@.len() - i,
    {
        let it = &items[i];
        let path = if it.path.as_str().unicode_len() == 0 {
            let p = text::concat3(
                text::trim_end_slashes(dir_path).as_str(),
                "/",
                it.server_filename.as_str(),
            );
            assert(p@ =~= fallback_path(dir_path@, it.server_filename@));
            p
        } else {
            it.path.clone()
        };
        let entry = FsidMeta {
            fsid: it.fs_id,
            filename: it.server_filename.clone(),
            path,
            is_dir: it.isdir == 1,
        };
        let ghost o0 = out.deep_view();
        let ghost ov0 = out@;
        out.push(entry);
        proof {
            assert(all[i as int] == items@[i as int]@);
            assert(o0.len() == i);
            assert(ov0.len() == i);
            assert(out.deep_view() =~= all.take(i + 1).map_values(
                |it: ListedModel| listed_entry(dir_path@, it),
            )) by {
                assert forall|k: int| 0 <= k <= i implies out@[k].deep_view() == all.take(
                    i + 1,
                ).map_values(|it: ListedModel| listed_entry(dir_path@, it))[k] by {
                    if k < i {
                        assert(out@[k] == ov0[k]);
                        assert(o0[k] == ov0[k].deep_view());
                        assert(o0[k] == all.take(i as int).map_values(
                            |it: ListedModel| listed_entry(dir_path@, it),
                        )[k]);
                    } else {
                        assert(out@[k] == entry);
                    }
                }
            }
        }
        i += 1;
    }
    proof {
        assert(all.take(items@.len() as int) =~= all);
    }
    Ok(out)
}

/// Turns a listing reply into the bare identifier list, in listed order.
pub fn interpret_id_listing(errno: i32, items: &Vec<RawListedItem>) -> (r: Result<
    Vec<u64>,
    MetaError,
>)
    ensures
        errno != 0 ==> r == Err::<Vec<u64>, MetaError>(MetaError::BackendError(errno)),
        errno == 0 ==> {
            &&& r is Ok
            &&& r->Ok_0@ == items.deep_view().map_values(|it: ListedModel| it.fs_id)
        },
{
    if errno != 0 {
        return Err(MetaError::BackendError(errno));
    }
    let ghost all = items.deep_view();
    let mut out: Vec<u64> = Vec::new();
    let mut i: usize = 0;
    while i < items.len()
        invariant
            i <= items@.len(),
            all == items.deep_view(),
            out@ =~= all.take(i as int).map_values(|it: ListedModel| it.fs_id),
        decreases items@.len() - i,
    {
        proof {
            assert(all[i as int] == items@[i as int]@);
        }
        out.push(items[i].fs_id);
        assert(out@ =~= all.take(i + 1).map_values(|it: ListedModel| it.fs_id));
        i += 1;
    }
    proof {
        assert(all.take(items@.len() as int) =~= all);
    }
    Ok(out)
}

/// Turns a listing reply into `(identifier, name)` pairs, in listed order.
pub fn interpret_file_listing(errno: i32, items: &Vec<RawListedItem>) -> (r: Result<
    Vec<(u64, String)>,
    MetaError,
>)
    ensures
        errno != 0 ==> r == Err::<Vec<(u64, String)>, MetaError>(MetaError::BackendError(errno)),
        errno == 0 ==> {
            &&& r is Ok
            &&& r->Ok_0.deep_view() == items.deep_view().map_values(
                |it: ListedModel| (it.fs_id, it.server_filename),
            )
        },
{
    if errno != 0 {
        return Err(MetaError::BackendError(errno));
    }
    let ghost all = items.deep_view();
    let mut out: Vec<(u64, String)> = Vec::new();
    let mut i: usize = 0;
    while i < items.len()
        invariant
            i <= items@.len(),
            all == items.deep_view(),
            out.deep_view() =~= all.take(i as int).map_values(
                |it: ListedModel| (it.fs_id, it.server_filename),
            ),
        decreases items@.len() - i,
    {
        let pair = (items[i].fs_id, items[i].server_filename.clone());
        let ghost o0 = out.deep_view();
        let ghost ov0 = out@;
        out.push(pair);
        proof {
            assert(all[i as int] == items@[i as int]@);
            assert(o0.len() == i);
            assert(ov0.len() == i);
            assert(out.deep_view() =~= all.take(i + 1).map_values(
                |it: ListedModel| (it.fs_id, it.server_filename),
            )) by {
                assert forall|k: int| 0 <= k <= i implies out@[k].deep_view() == all.take(
                    i + 1,
                ).map_values(|it: ListedModel| (it.fs_id, it.server_filename))[k] by {
                    if k < i {
                        assert(out@[k] == ov0[k]);
                        assert(o0[k] == ov0[k].deep_view());
                        assert(o0[k] == all.take(i as int).map_values(
                            |it: ListedModel| (it.fs_id, it.server_filename),
                        )[k]);
                    } else {
                        assert(out@[k] == pair);
                    }
                }
            }
        }
        i += 1;
    }
    proof {
        assert(all.take(items@.len() as int) =~= all);
    }
    Ok(out)
}

/// The metadata-by-id request URL, download link included.
pub fn file_metas_url(fsid: u64, access_token: &str) -> (r: String)
    ensures
        r@ == "https://pan.baidu.com/rest/2.0/xpan/multimedia?method=filemetas&fsids=["@
            + text::dec_of(fsid as nat) + "]&dlink=1&access_token="@ + encoding::percent_encoded(
            access_token@,
        ),
{
    let mut r = String::from_str(
        "https://pan.baidu.com/rest/2.0/xpan/multimedia?method=filemetas&fsids=[",
    );
    r.append(text::u64_to_dec(fsid).as_str());
    r.append("]&dlink=1&access_token=");
    r.append(encoding::percent_encode(access_token).as_str());
    r
}

/// The open-platform download request URL for a file named by path; the
/// credential rides along unencoded, as the endpoint expects it.
pub fn open_download_url(path: &str, access_token: &str) -> (r: String)
    ensures
        r@ == "https://pan.baidu.com/rest/2.0/xpan/file?method=download&path="@
            + encoding::percent_encoded(path@) + "&access_token="@ + access_token@,
{
    let mut r = String::from_str("https://pan.baidu.com/rest/2.0/xpan/file?method=download&path=");
    r.append(encoding::percent_encode(path).as_str());
    r.append("&access_token=");
    r.append(access_token);
    r
}

/// The directory-listing request URL used while expanding a tree: one page
/// of up to 1000 children, oldest first.
pub fn dir_list_url(dir_path: &str) -> (r: String)
    ensures
        r@ == "https://pan.baidu.com/api/list?dir="@ + encoding::percent_encoded(dir_path@)
            + "&num=1000&order=time&desc=0"@,
{
    let mut r = String::from_str("https://pan.baidu.com/api/list?dir=");
    r.append(encoding::percent_encode(dir_path).as_str());
    r.append("&num=1000&order=time&desc=0");
    r
}

/// The directory-listing request URL used to pick up recent transfers: one
/// page of up to 100 children, newest first.
pub fn recent_list_url(dir_path: &str) -> (r: String)
    ensures
        r@ == "https://pan.baidu.com/api/list?dir="@ + encoding::percent_encoded(dir_path@)
            + "&num=100&order=time&desc=1"@,
{
    let mut r = String::from_str("https://pan.baidu.com/api/list?dir=");
    r.append(encoding::percent_encode(dir_path).as_str());
    r.append("&num=100&order=time&desc=1");
    r
}

} // verus!
