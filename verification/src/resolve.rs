//! Resolution of a remote file identifier to a time-limited direct download
//! URL, and classification of content-fetch outcomes. The network calls are
//! made by the caller; this module decides what to send and what each reply
//! means.

use vstd::prelude::*;

use crate::encoding;

verus! {

/// Link resolution failure.
#[derive(Debug, PartialEq, Eq, Structural)]
pub enum ResolveError {
    /// The identifier names a directory, which has no direct link.
    IsDirectory(u64),
    /// The backend returned an empty result list for the identifier.
    NotFound,
    /// The backend's intermediate link field was empty.
    EmptyLink,
    /// The backend signalled a redirect without a usable location.
    MissingLocation,
    /// The backend embedded a non-zero status code in its reply.
    BackendError(i32),
    /// The backend answered with a non-success HTTP status.
    HttpStatus(u16),
    /// The backend's reply could not be decoded.
    UnreadableReply,
}

/// Mathematical model of a resolved link.
#[verifier::ext_equal]
pub struct LinkModel {
    pub filename: Seq<char>,
    pub url: Seq<char>,
}

/// A resolved direct link: the file's display name and its short-lived
/// download URL. Valid only briefly; not to be persisted.
pub struct ResolvedLink {
    pub filename: String,
    pub url: String,
}

impl View for ResolvedLink {
    type V = LinkModel;

    open spec fn view(&self) -> LinkModel {
        LinkModel { filename: self.filename@, url: self.url@ }
    }
}

/// One item of a metadata-by-id reply when the download link is requested.
pub struct RawLinkItem {
    pub dlink: String,
    pub filename: String,
    pub path: String,
    pub isdir: i32,
}

/// The probe a caller must send to learn the final URL: a request against
/// `url` whose redirect target, if any, supersedes it. Obtainable only from
/// `prepare_direct_link`, so no probe is ever issued for a directory.
pub struct ProbeRequest {
    filename: String,
    url: String,
}

impl View for ProbeRequest {
    type V = LinkModel;

    closed spec fn view(&self) -> LinkModel {
        LinkModel { filename: self.filename@, url: self.url@ }
    }
}

impl ProbeRequest {
    /// The URL to probe.
    pub fn url(&self) -> (r: &str)
        ensures
            r@ == self@.url,
    {
        self.url.as_str()
    }

    /// The display name the resolved link will carry.
    pub fn filename(&self) -> (r: &str)
        ensures
            r@ == self@.filename,
    {
        self.filename.as_str()
    }
}

/// Decides what a metadata-by-id reply means for link resolution: backend
/// errors, unknown identifiers, directories and empty link fields are
/// failures, each if and only if its condition holds; otherwise the probe
/// URL is the intermediate link with the credential appended as a query
/// parameter. A directory identifier fails here, before any probe exists,
/// so the redirect probe is never issued for one.
pub fn prepare_direct_link(
    fsid: u64,
    errno: i32,
    items: &Vec<RawLinkItem>,
    access_token: &str,
) -> (r: Result<ProbeRequest, ResolveError>)
    ensures
        errno != 0 ==> r == Err::<ProbeRequest, ResolveError>(ResolveError::BackendError(errno)),
        errno == 0 && items@.len() == 0 ==> r == Err::<ProbeRequest, ResolveError>(
            ResolveError::NotFound,
        ),
        errno == 0 && items@.len() > 0 && items@[0].isdir == 1 ==> r == Err::<
            ProbeRequest,
            ResolveError,
        >(ResolveError::IsDirectory(fsid)),
        errno == 0 && items@.len() > 0 && items@[0].isdir != 1 && items@[0].dlink@.len() == 0
            ==> r == Err::<ProbeRequest, ResolveError>(ResolveError::EmptyLink),
        errno == 0 && items@.len() > 0 && items@[0].isdir != 1 && items@[0].dlink@.len() > 0 ==> {
            &&& r is Ok
            &&& r->Ok_0@ == (LinkModel {
                filename: items@[0].filename@,
                url: items@[0].dlink@ + "?access_token="@ + encoding::percent_encoded(
                    access_token@,
                ),
            })
        },
{
    if errno != 0 {
        return Err(ResolveError::BackendError(errno));
    }
    if items.len() == 0 {
        return Err(ResolveError::NotFound);
    }
    let item = &items[0];
    if item.isdir == 1 {
        return Err(ResolveError::IsDirectory(fsid));
    }
    if item.dlink.as_str().unicode_len() == 0 {
        return Err(ResolveError::EmptyLink);
    }
    let mut url = item.dlink.clone();
    url.append("?access_token=");
    url.append(encoding::percent_encode(access_token).as_str());
    Ok(ProbeRequest { filename: item.filename.clone(), url })
}

/// Decides what the probe's outcome means: on a redirect status the
/// location header is the final URL and is required; any other status
/// leaves the probed URL itself as the final one. The probe is sent once
/// and never retried.
pub fn resolve_probe(req: ProbeRequest, status: u16, location: Option<String>) -> (r: Result<
    ResolvedLink,
    ResolveError,
>)
    ensures
        300 <= status < 400 && location is None ==> r == Err::<ResolvedLink, ResolveError>(
            ResolveError::MissingLocation,
        ),
        300 <= status < 400 && location is Some ==> {
            &&& r is Ok
            &&& r->Ok_0@ == (LinkModel { filename: req@.filename, url: location->0@ })
        },
        !(300 <= status < 400) ==> {
            &&& r is Ok
            &&& r->Ok_0@ == req@
        },
{
    if 300 <= status && status < 400 {
        match location {
            Some(l) => Ok(ResolvedLink { filename: req.filename, url: l }),
            None => Err(ResolveError::MissingLocation),
        }
    } else {
        Ok(ResolvedLink { filename: req.filename, url: req.url })
    }
}

/// Mathematical model of one alternative URL holder.
#[verifier::ext_equal]
pub struct UrlItemModel {
    pub dlink: Seq<char>,
    pub url: Seq<char>,
}

/// One alternative URL holder of an open-platform download reply.
pub struct RawUrlItem {
    pub dlink: String,
    pub url: String,
}

impl View for RawUrlItem {
    type V = UrlItemModel;

    open spec fn view(&self) -> UrlItemModel {
        UrlItemModel { dlink: self.dlink@, url: self.url@ }
    }
}

impl DeepView for RawUrlItem {
    type V = UrlItemModel;

    open spec fn deep_view(&self) -> UrlItemModel {
        self@
    }
}

/// Mathematical model of an open-platform download reply.
#[verifier::ext_equal]
pub struct OpenDownloadModel {
    pub errno: i32,
    pub error_code: i32,
    pub dlink: Seq<char>,
    pub list: Seq<UrlItemModel>,
    pub urls: Seq<UrlItemModel>,
}

/// The open-platform download reply's relevant fields, as decoded by the
/// I/O layer; absent fields arrive as their defaults.
pub struct RawOpenDownload {
    pub errno: i32,
    pub error_code: i32,
    pub dlink: String,
    pub list: Vec<RawUrlItem>,
    pub urls: Vec<RawUrlItem>,
}

impl DeepView for RawOpenDownload {
    type V = OpenDownloadModel;

    open spec fn deep_view(&self) -> OpenDownloadModel {
        OpenDownloadModel {
            errno: self.errno,
            error_code: self.error_code,
            dlink: self.dlink@,
            list: self.list.deep_view(),
            urls: self.urls.deep_view(),
        }
    }
}

/// The status code an open-platform reply carries: the primary field when
/// set, else the secondary one.
pub open spec fn spec_open_code(b: OpenDownloadModel) -> i32 {
    if b.errno != 0 {
        b.errno
    } else {
        b.error_code
    }
}

/// The download URL an open-platform reply offers: the top-level link
/// field when non-empty, else the first item of its `list` (or, when that
/// is empty, of its `urls`), taking that item's link field over its plain
/// URL field.
pub open spec fn spec_pick_url(b: OpenDownloadModel) -> Option<Seq<char>> {
    if b.dlink.len() > 0 {
        Option::Some(b.dlink)
    } else {
        let items = if b.list.len() > 0 {
            b.list
        } else {
            b.urls
        };
        if items.len() == 0 {
            Option::<Seq<char>>::None
        } else if items[0].dlink.len() > 0 {
            Option::Some(items[0].dlink)
        } else if items[0].url.len() > 0 {
            Option::Some(items[0].url)
        } else {
            Option::<Seq<char>>::None
        }
    }
}

/// What an open-platform download reply means: a redirect status hands the
/// final URL in its location, which must be non-empty; a non-success status
/// fails; otherwise the body must decode, carry no error code, and offer a
/// URL.
pub open spec fn spec_open_download(
    status: u16,
    location: Option<Seq<char>>,
    body: Option<OpenDownloadModel>,
) -> Result<Seq<char>, ResolveError> {
    if 300 <= status < 400 {
        match location {
            Option::Some(l) => if l.len() > 0 {
                Ok(l)
            } else {
                Err(ResolveError::MissingLocation)
            },
            Option::None => Err(ResolveError::MissingLocation),
        }
    } else if !(200 <= status < 300) {
        Err(ResolveError::HttpStatus(status))
    } else {
        match body {
            Option::None => Err(ResolveError::UnreadableReply),
            Option::Some(b) => if spec_open_code(b) != 0 {
                Err(ResolveError::BackendError(spec_open_code(b)))
            } else {
                match spec_pick_url(b) {
                    Option::Some(u) => Ok(u),
                    Option::None => Err(ResolveError::EmptyLink),
                }
            },
        }
    }
}

/// Decides what the open-platform download endpoint returned, as
/// `spec_open_download` says.
pub fn interpret_open_download(
    status: u16,
    location: Option<String>,
    body: Option<RawOpenDownload>,
) -> (r: Result<String, ResolveError>)
    ensures
        match r {
            Ok(u) => spec_open_download(status, location.deep_view(), body.deep_view()) == Ok::<
                Seq<char>,
                ResolveError,
            >(u@),
            Err(e) => spec_open_download(status, location.deep_view(), body.deep_view()) == Err::<
                Seq<char>,
                ResolveError,
            >(e),
        },
{
    if 300 <= status && status < 400 {
        return match location {
            Some(l) => {
                if l.as_str().unicode_len() > 0 {
                    Ok(l)
                } else {
                    Err(ResolveError::MissingLocation)
                }
            },
            None => Err(ResolveError::MissingLocation),
        };
    }
    if !(200 <= status && status < 300) {
        return Err(ResolveError::HttpStatus(status));
    }
    let b = match body {
        None => {
            return Err(ResolveError::UnreadableReply);
        },
        Some(b) => b,
    };
    let code = if b.errno != 0 {
        b.errno
    } else {
        b.error_code
    };
    if code != 0 {
        return Err(ResolveError::BackendError(code));
    }
    if b.dlink.as_str().unicode_len() > 0 {
        return Ok(b.dlink);
    }
    let items = if b.list.len() > 0 {
        &b.list
    } else {
        &b.urls
    };
    if items.len() == 0 {
        return Err(ResolveError::EmptyLink);
    }
    proof {
        assert(items.deep_view()[0] == items@[0]@);
    }
    let item = &items[0];
    if item.dlink.as_str().unicode_len() > 0 {
        Ok(item.dlink.clone())
    } else if item.url.as_str().unicode_len() > 0 {
        Ok(item.url.clone())
    } else {
        Err(ResolveError::EmptyLink)
    }
}

/// Content-fetch failure.
#[derive(Debug, PartialEq, Eq, Structural)]
pub enum FetchError {
    /// The download answered with a non-success HTTP status.
    NonSuccessStatus(u16),
}

/// Decides whether fetched content may be used: any status outside the
/// `2xx` success range is a hard failure, with no retry and no partial
/// content.
pub fn check_fetch_status(status: u16) -> (r: Result<(), FetchError>)
    ensures
        r is Ok <==> 200 <= status < 300,
        r is Err ==> r->Err_0 == FetchError::NonSuccessStatus(status),
{
    if 200 <= status && status < 300 {
        Ok(())
    } else {
        Err(FetchError::NonSuccessStatus(status))
    }
}

/// Batch link-listing failure.
#[derive(Debug, PartialEq, Eq, Structural)]
pub enum BatchError {
    /// No identifiers were given.
    EmptyInput,
    /// Every item of the batch failed to resolve.
    AllFailed,
}

/// Rejects an empty identifier batch before any work is done.
pub fn check_batch_input(fsids: &Vec<u64>) -> (r: Result<(), BatchError>)
    ensures
        r is Ok <==> fsids@.len() > 0,
        r is Err ==> r->Err_0 == BatchError::EmptyInput,
{
    if fsids.len() == 0 {
        Err(BatchError::EmptyInput)
    } else {
        Ok(())
    }
}

/// Closes a best-effort batch: it succeeds with the links that resolved,
/// as long as at least one did.
pub fn finish_link_batch(links: Vec<ResolvedLink>) -> (r: Result<Vec<ResolvedLink>, BatchError>)
    ensures
        links@.len() == 0 ==> r == Err::<Vec<ResolvedLink>, BatchError>(BatchError::AllFailed),
        links@.len() > 0 ==> {
            &&& r is Ok
            &&& r->Ok_0 == links
        },
{
    if links.len() == 0 {
        Err(BatchError::AllFailed)
    } else {
        Ok(links)
    }
}

} // verus!
