//! Expansion of root identifiers into a flat, ordered list of file jobs.
//!
//! The machine performs no I/O itself: the caller asks `next_action` what is
//! needed, fetches metadata or a directory listing, and hands the plain
//! values back. Directories are walked with an explicit stack, so sibling
//! directories are listed in last-in-first-out order.

use vstd::prelude::*;

use crate::metadata::{FsidMeta, MetaModel};
use crate::text;

verus! {

/// Mathematical model of one file job.
#[verifier::ext_equal]
pub struct JobModel {
    pub archive_path: Seq<char>,
    pub remote_id: u64,
}

/// One file to fetch: the path it will occupy inside the archive, and its
/// remote identifier.
pub struct FileJob {
    pub archive_path: String,
    pub remote_id: u64,
}

impl View for FileJob {
    type V = JobModel;

    open spec fn view(&self) -> JobModel {
        JobModel { archive_path: self.archive_path@, remote_id: self.remote_id }
    }
}

impl DeepView for FileJob {
    type V = JobModel;

    open spec fn deep_view(&self) -> JobModel {
        self@
    }
}

/// Expansion failure.
#[derive(Debug, PartialEq, Eq, Structural)]
pub enum ExpandError {
    /// No root identifiers were given.
    EmptyInput,
    /// A directory subtree yielded no files, or the whole expansion did.
    NoFilesFound,
}

/// Mathematical model of the expansion state.
#[verifier::ext_equal]
pub struct ExpandModel {
    pub roots: Seq<u64>,
    pub next_root: int,
    /// Whether a directory root is being walked.
    pub in_dir: bool,
    /// Display name of the directory root being walked.
    pub root_name: Seq<char>,
    /// Canonical path of that root, trailing slashes removed.
    pub base: Seq<char>,
    /// Directories still to list, the next one last.
    pub stack: Seq<Seq<char>>,
    /// How many jobs existed when this root's walk began.
    pub start: int,
    pub jobs: Seq<JobModel>,
}

/// What the driving loop must do next.
pub enum ExpandAction {
    /// Resolve this identifier's metadata and hand it to `supply_meta`.
    NeedMeta(u64),
    /// List this directory path and hand the entries to `supply_listing`.
    NeedListing(String),
    /// All roots are processed; call `finish`.
    Done,
}

/// The state in which an expansion of `roots` begins.
pub open spec fn spec_init(roots: Seq<u64>) -> ExpandModel {
    ExpandModel {
        roots,
        next_root: 0,
        in_dir: false,
        root_name: Seq::<char>::empty(),
        base: Seq::<char>::empty(),
        stack: Seq::<Seq<char>>::empty(),
        start: 0,
        jobs: Seq::<JobModel>::empty(),
    }
}

/// The name a listed file gets relative to the root being expanded: its
/// path with the root's base stripped and leading slashes removed. When the
/// relative path cannot be computed — the base is no prefix of the listed
/// path, a backend inconsistency — or comes out empty, the bare filename
/// serves instead.
pub open spec fn spec_rel_name(base: Seq<char>, e: MetaModel) -> Seq<char> {
    if base.is_prefix_of(e.path) {
        let rel = text::spec_trim_start_slashes(e.path.skip(base.len() as int));
        if rel.len() == 0 {
            e.filename
        } else {
            rel
        }
    } else {
        e.filename
    }
}

/// The archive path of a listed file: the root's display name, a slash,
/// then the relative name; the bare root name if that name is empty.
pub open spec fn spec_job_path(root_name: Seq<char>, base: Seq<char>, e: MetaModel) -> Seq<char> {
    let name = spec_rel_name(base, e);
    if name.len() == 0 {
        root_name
    } else {
        root_name + "/"@ + name
    }
}

/// The jobs one directory listing contributes, in listing order.
pub open spec fn listing_jobs(root_name: Seq<char>, base: Seq<char>, es: Seq<MetaModel>) -> Seq<
    JobModel,
>
    decreases es.len(),
{
    if es.len() == 0 {
        Seq::<JobModel>::empty()
    } else {
        let rest = listing_jobs(root_name, base, es.drop_first());
        if es[0].is_dir {
            rest
        } else {
            seq![
                JobModel { archive_path: spec_job_path(root_name, base, es[0]), remote_id: es[0].fsid },
            ] + rest
        }
    }
}

/// The subdirectory paths one directory listing pushes, in listing order.
pub open spec fn listing_dirs(es: Seq<MetaModel>) -> Seq<Seq<char>>
    decreases es.len(),
{
    if es.len() == 0 {
        Seq::<Seq<char>>::empty()
    } else {
        let rest = listing_dirs(es.drop_first());
        if es[0].is_dir {
            seq![es[0].path] + rest
        } else {
            rest
        }
    }
}

/// The state after the next root's metadata arrives: a file root emits one
/// job named by its display name; a directory root starts a walk at its
/// canonical path, trailing slashes removed.
pub open spec fn spec_step_meta(m: ExpandModel, meta: MetaModel) -> ExpandModel {
    if !meta.is_dir {
        ExpandModel {
            next_root: m.next_root + 1,
            jobs: m.jobs.push(
                JobModel { archive_path: meta.filename, remote_id: m.roots[m.next_root] },
            ),
            ..m
        }
    } else {
        ExpandModel {
            next_root: m.next_root + 1,
            in_dir: true,
            root_name: meta.filename,
            base: text::spec_trim_end_slashes(meta.path),
            stack: seq![text::spec_trim_end_slashes(meta.path)],
            start: m.jobs.len() as int,
            ..m
        }
    }
}

/// The state after a listing of the top-of-stack directory arrives, and
/// whether the walk may go on: subdirectories are pushed, files become
/// jobs; when the stack empties, the walk ends, and a root whose whole
/// subtree yielded no files is a failure.
pub open spec fn spec_step_listing(m: ExpandModel, es: Seq<MetaModel>) -> (ExpandModel, bool) {
    let stack1 = m.stack.drop_last() + listing_dirs(es);
    let jobs1 = m.jobs + listing_jobs(m.root_name, m.base, es);
    if stack1.len() == 0 {
        let m1 = ExpandModel { in_dir: false, stack: stack1, jobs: jobs1, ..m };
        (m1, jobs1.len() > m.start)
    } else {
        (ExpandModel { stack: stack1, jobs: jobs1, ..m }, true)
    }
}

/// Expansion of a list of root identifiers into file jobs, driven from
/// outside one metadata or listing reply at a time.
pub struct Expansion {
    roots: Vec<u64>,
    next_root: usize,
    in_dir: bool,
    root_name: String,
    base: String,
    stack: Vec<String>,
    start: usize,
    jobs: Vec<FileJob>,
}

impl View for Expansion {
    type V = ExpandModel;

    closed spec fn view(&self) -> ExpandModel {
        ExpandModel {
            roots: self.roots@,
            next_root: self.next_root as int,
            in_dir: self.in_dir,
            root_name: self.root_name@,
            base: self.base@,
            stack: self.stack.deep_view(),
            start: self.start as int,
            jobs: self.jobs.deep_view(),
        }
    }
}

impl Expansion {
    /// The machine's internal consistency: the root index is in range, and
    /// during a walk the stack is non-empty and the start mark is below the
    /// job count.
    pub open spec fn inv(&self) -> bool {
        &&& self@.next_root <= self@.roots.len()
        &&& self@.in_dir ==> {
            &&& self@.stack.len() > 0
            &&& 0 <= self@.start <= self@.jobs.len()
            &&& self@.next_root >= 1
        }
    }

    /// Starts an expansion; an empty root list is rejected at once.
    pub fn new(roots: Vec<u64>) -> (r: Result<Expansion, ExpandError>)
        ensures
            roots@.len() == 0 ==> r is Err && r->Err_0 == ExpandError::EmptyInput,
            roots@.len() > 0 ==> {
                &&& r is Ok
                &&& r->Ok_0@ == spec_init(roots@)
                &&& r->Ok_0.inv()
            },
    {
        if roots.len() == 0 {
            return Err(ExpandError::EmptyInput);
        }
        let e = Expansion {
            roots,
            next_root: 0,
            in_dir: false,
            root_name: String::new(),
            base: String::new(),
            stack: Vec::new(),
            start: 0,
            jobs: Vec::new(),
        };
        proof {
            assert(e.stack.deep_view() =~= Seq::<Seq<char>>::empty());
            assert(e.jobs.deep_view() =~= Seq::<JobModel>::empty());
            assert(e@ =~= spec_init(e.roots@));
        }
        Ok(e)
    }

    /// What the driver must do next: list the top-of-stack directory while
    /// a walk is open, else resolve the next root, else finish.
    pub fn next_action(&self) -> (a: ExpandAction)
        requires
            self.inv(),
        ensures
            match a {
                ExpandAction::NeedListing(d) => {
                    &&& self@.in_dir
                    &&& self@.stack.len() > 0
                    &&& d@ == self@.stack.last()
                },
                ExpandAction::NeedMeta(id) => {
                    &&& !self@.in_dir
                    &&& self@.next_root < self@.roots.len()
                    &&& id == self@.roots[self@.next_root]
                },
                ExpandAction::Done => {
                    &&& !self@.in_dir
                    &&& self@.next_root == self@.roots.len()
                },
            },
    {
        if self.in_dir {
            let d = self.stack[self.stack.len() - 1].clone();
            proof {
                assert(self.stack.deep_view().last() == self.stack@[self.stack@.len() - 1]@);
            }
            ExpandAction::NeedListing(d)
        } else if self.next_root < self.roots.len() {
            ExpandAction::NeedMeta(self.roots[self.next_root])
        } else {
            ExpandAction::Done
        }
    }

    /// Feeds the metadata of the next root in.
    pub fn supply_meta(&mut self, meta: FsidMeta)
        requires
            old(self).inv(),
            !old(self)@.in_dir,
            old(self)@.next_root < old(self)@.roots.len(),
        ensures
            final(self).inv(),
            final(self)@ == spec_step_meta(old(self)@, meta@),
    {
        let n = self.roots.len();
        assert(self.next_root < n);
        if !meta.is_dir {
            let job = FileJob {
                archive_path: meta.filename,
                remote_id: self.roots[self.next_root],
            };
            let ghost j0 = self.jobs.deep_view();
            self.jobs.push(job);
            self.next_root += 1;
            proof {
                assert(self.jobs.deep_view() =~= j0.push(job@));
                assert(self@ =~= spec_step_meta(old(self)@, meta@));
            }
        } else {
            let base = text::trim_end_slashes(meta.path.as_str());
            self.root_name = meta.filename;
            self.base = base.clone();
            self.stack = Vec::new();
            self.stack.push(base);
            self.start = self.jobs.len();
            self.next_root += 1;
            self.in_dir = true;
            proof {
                assert(self.stack.deep_view() =~= seq![text::spec_trim_end_slashes(meta.path@)]);
                assert(self@ =~= spec_step_meta(old(self)@, meta@));
            }
        }
    }

    /// Feeds the listing of the directory named by `next_action` in. An
    /// `Err` means the walked root's subtree held no files; the expansion
    /// is then abandoned.
    pub fn supply_listing(&mut self, entries: &Vec<FsidMeta>) -> (r: Result<(), ExpandError>)
        requires
            old(self).inv(),
            old(self)@.in_dir,
        ensures
            final(self).inv(),
            final(self)@ == spec_step_listing(old(self)@, entries.deep_view()).0,
            r is Ok <==> spec_step_listing(old(self)@, entries.deep_view()).1,
            r is Err ==> r->Err_0 == ExpandError::NoFilesFound,
    {
        let ghost es = entries.deep_view();
        let ghost m0 = self@;
        let popped = self.stack.pop();
        proof {
            assert(self.stack.deep_view() =~= m0.stack.drop_last());
        }
        let ghost stack_base = self.stack.deep_view();
        let ghost jobs_base = self.jobs.deep_view();
        let mut i: usize = 0;
        while i < entries.len()
            invariant
                i <= entries@.len(),
                es == entries.deep_view(),
                self.in_dir == m0.in_dir,
                self.roots@ == m0.roots,
                self.next_root as int == m0.next_root,
                self.root_name@ == m0.root_name,
                self.base@ == m0.base,
                self.start as int == m0.start,
                self.stack.deep_view() =~= stack_base + listing_dirs(es.take(i as int)),
                self.jobs.deep_view() =~= jobs_base + listing_jobs(
                    m0.root_name,
                    m0.base,
                    es.take(i as int),
                ),
            decreases entries@.len() - i,
        {
            proof {
                assert(es[i as int] == entries@[i as int]@);
                lemma_listing_snoc(m0.root_name, m0.base, es.take(i as int), es[i as int]);
                assert(es.take(i + 1) =~= es.take(i as int).push(es[i as int]));
            }
            let e = &entries[i];
            if e.is_dir {
                let ghost s0 = self.stack.deep_view();
                let ghost sv0 = self.stack@;
                self.stack.push(e.path.clone());
                proof {
                    assert(self.stack.deep_view() =~= s0.push(e.path@)) by {
                        assert forall|k: int|
                            0 <= k < self.stack@.len() implies self.stack@[k].deep_view()
                            == s0.push(e.path@)[k] by {
                            if k < sv0.len() {
                                assert(self.stack@[k] == sv0[k]);
                                assert(s0[k] == sv0[k].deep_view());
                            } else {
                                assert(self.stack@[k] == self.stack@[self.stack@.len() - 1]);
                            }
                        }
                    }
                    assert(s0.push(e.path@) =~= stack_base + listing_dirs(es.take(i + 1)));
                }
            } else {
                let name = match text::strip_prefix_str(e.path.as_str(), self.base.as_str()) {
                    Some(stripped) => {
                        let rel = text::trim_start_slashes(stripped.as_str());
                        if rel.as_str().unicode_len() == 0 {
                            e.filename.clone()
                        } else {
                            rel
                        }
                    },
                    None => e.filename.clone(),
                };
                assert(name@ == spec_rel_name(m0.base, e@));
                let archive_path = if name.as_str().unicode_len() == 0 {
                    self.root_name.clone()
                } else {
                    text::concat3(self.root_name.as_str(), "/", name.as_str())
                };
                let job = FileJob { archive_path, remote_id: e.fsid };
                assert(job@ == (JobModel {
                    archive_path: spec_job_path(m0.root_name, m0.base, e@),
                    remote_id: e@.fsid,
                }));
                let ghost j0 = self.jobs.deep_view();
                let ghost jv0 = self.jobs@;
                self.jobs.push(job);
                proof {
                    assert(self.jobs.deep_view() =~= j0.push(job@)) by {
                        assert forall|k: int|
                            0 <= k < self.jobs@.len() implies self.jobs@[k].deep_view() == j0.push(
                            job@,
                        )[k] by {
                            if k < jv0.len() {
                                assert(self.jobs@[k] == jv0[k]);
                                assert(j0[k] == jv0[k].deep_view());
                            } else {
                                assert(self.jobs@[k] == self.jobs@[self.jobs@.len() - 1]);
                            }
                        }
                    }
                    assert(j0.push(job@) =~= jobs_base + listing_jobs(
                        m0.root_name,
                        m0.base,
                        es.take(i + 1),
                    ));
                }
            }
            i += 1;
        }
        proof {
            assert(es.take(entries@.len() as int) =~= es);
        }
        if self.stack.len() == 0 {
            self.in_dir = false;
            if self.jobs.len() == self.start {
                proof {
                    assert(self@ =~= spec_step_listing(m0, es).0);
                }
                return Err(ExpandError::NoFilesFound);
            }
            proof {
                assert(self@ =~= spec_step_listing(m0, es).0);
            }
            Ok(())
        } else {
            proof {
                assert(self@ =~= spec_step_listing(m0, es).0);
            }
            Ok(())
        }
    }

    /// Whether every root has been processed.
    pub fn is_done(&self) -> (b: bool)
        ensures
            b == (!self@.in_dir && self@.next_root == self@.roots.len()),
    {
        !self.in_dir && self.next_root == self.roots.len()
    }

    /// Hands the accumulated jobs out; an expansion that produced none
    /// fails.
    pub fn finish(self) -> (r: Result<Vec<FileJob>, ExpandError>)
        requires
            self.inv(),
            !self@.in_dir,
            self@.next_root == self@.roots.len(),
        ensures
            self@.jobs.len() == 0 ==> r is Err && r->Err_0 == ExpandError::NoFilesFound,
            self@.jobs.len() > 0 ==> {
                &&& r is Ok
                &&& r->Ok_0.deep_view() == self@.jobs
            },
    {
        if self.jobs.len() == 0 {
            Err(ExpandError::NoFilesFound)
        } else {
            Ok(self.jobs)
        }
    }
}

/// Law: expanding a single file identifier gives a finished machine holding
/// exactly one job, whose archive path is the file's display name, bare and
/// unprefixed; `finish` then returns that one-element job list.
pub proof fn lemma_single_file_expansion(id: u64, meta: MetaModel)
    requires
        !meta.is_dir,
    ensures
        ({
            let m = spec_step_meta(spec_init(seq![id]), meta);
            &&& m.jobs == seq![JobModel { archive_path: meta.filename, remote_id: id }]
            &&& !m.in_dir
            &&& m.next_root == m.roots.len()
        }),
{
    let m = spec_step_meta(spec_init(seq![id]), meta);
    assert(m.jobs =~= seq![JobModel { archive_path: meta.filename, remote_id: id }]);
}

proof fn lemma_job_path_prefixed(root_name: Seq<char>, base: Seq<char>, e: MetaModel)
    ensures
        root_name.is_prefix_of(spec_job_path(root_name, base, e)),
{
    let name = spec_rel_name(base, e);
    if name.len() == 0 {
        assert(spec_job_path(root_name, base, e).take(root_name.len() as int) =~= root_name);
    } else {
        assert((root_name + "/"@ + name).take(root_name.len() as int) =~= root_name);
    }
}

proof fn lemma_listing_jobs_prefixed(root_name: Seq<char>, base: Seq<char>, es: Seq<MetaModel>)
    ensures
        forall|k: int|
            0 <= k < listing_jobs(root_name, base, es).len() ==> root_name.is_prefix_of(
                (#[trigger] listing_jobs(root_name, base, es)[k]).archive_path,
            ),
    decreases es.len(),
{
    if es.len() > 0 {
        lemma_listing_jobs_prefixed(root_name, base, es.drop_first());
        let whole = listing_jobs(root_name, base, es);
        let rest = listing_jobs(root_name, base, es.drop_first());
        if es[0].is_dir {
            assert(forall|k: int| 0 <= k < whole.len() ==> whole[k] == rest[k]);
        } else {
            lemma_job_path_prefixed(root_name, base, es[0]);
            assert forall|k: int| 0 <= k < whole.len() implies root_name.is_prefix_of(
                (#[trigger] whole[k]).archive_path,
            ) by {
                if k == 0 {
                    assert(whole[0].archive_path == spec_job_path(root_name, base, es[0]));
                } else {
                    assert(whole[k] == rest[k - 1]);
                }
            }
        }
    }
}

/// Law: every job a directory listing contributes while a directory root is
/// being walked carries that root's display name as a prefix of its archive
/// path. (A file root's job, by contrast, is the bare display name: see
/// `lemma_single_file_expansion`.)
pub proof fn lemma_directory_jobs_prefixed(m: ExpandModel, es: Seq<MetaModel>)
    requires
        m.in_dir,
    ensures
        ({
            let m1 = spec_step_listing(m, es).0;
            &&& m1.jobs.len() >= m.jobs.len()
            &&& forall|k: int|
                m.jobs.len() <= k < m1.jobs.len() ==> m.root_name.is_prefix_of(
                    (#[trigger] m1.jobs[k]).archive_path,
                )
        }),
{
    let m1 = spec_step_listing(m, es).0;
    let added = listing_jobs(m.root_name, m.base, es);
    lemma_listing_jobs_prefixed(m.root_name, m.base, es);
    assert(m1.jobs == m.jobs + added);
    assert forall|k: int| m.jobs.len() <= k < m1.jobs.len() implies m.root_name.is_prefix_of(
        (#[trigger] m1.jobs[k]).archive_path,
    ) by {
        assert(m1.jobs[k] == added[k - m.jobs.len()]);
    }
}

proof fn lemma_listing_snoc(root_name: Seq<char>, base: Seq<char>, es: Seq<MetaModel>, e: MetaModel)
    ensures
        listing_jobs(root_name, base, es.push(e)) == listing_jobs(root_name, base, es) + (
        if e.is_dir {
            Seq::<JobModel>::empty()
        } else {
            seq![JobModel { archive_path: spec_job_path(root_name, base, e), remote_id: e.fsid }]
        }),
        listing_dirs(es.push(e)) == listing_dirs(es) + (
        if e.is_dir {
            seq![e.path]
        } else {
            Seq::<Seq<char>>::empty()
        }),
    decreases es.len(),
{
    if es.len() == 0 {
        assert(es.push(e)[0] == e);
        assert(es.push(e).drop_first() =~= Seq::<MetaModel>::empty());
        assert(listing_jobs(root_name, base, Seq::<MetaModel>::empty())
            =~= Seq::<JobModel>::empty());
        assert(listing_dirs(Seq::<MetaModel>::empty()) =~= Seq::<Seq<char>>::empty());
        if e.is_dir {
            assert(listing_jobs(root_name, base, es.push(e)) =~= listing_jobs(root_name, base, es)
                + Seq::<JobModel>::empty());
            assert(listing_dirs(es.push(e)) =~= listing_dirs(es) + seq![e.path]);
        } else {
            assert(listing_jobs(root_name, base, es.push(e)) =~= listing_jobs(root_name, base, es)
                + seq![
                JobModel { archive_path: spec_job_path(root_name, base, e), remote_id: e.fsid },
            ]);
            assert(listing_dirs(es.push(e)) =~= listing_dirs(es) + Seq::<Seq<char>>::empty());
        }
    } else {
        lemma_listing_snoc(root_name, base, es.drop_first(), e);
        assert(es.push(e)[0] == es[0]);
        assert(es.push(e).drop_first() =~= es.drop_first().push(e));
        if e.is_dir {
            assert(listing_jobs(root_name, base, es.push(e)) =~= listing_jobs(
                root_name,
                base,
                es,
            ) + Seq::<JobModel>::empty());
            assert(listing_dirs(es.push(e)) =~= listing_dirs(es) + seq![e.path]);
        } else {
            assert(listing_jobs(root_name, base, es.push(e)) =~= listing_jobs(root_name, base, es)
                + seq![
                JobModel { archive_path: spec_job_path(root_name, base, e), remote_id: e.fsid },
            ]);
            assert(listing_dirs(es.push(e)) =~= listing_dirs(es) + Seq::<Seq<char>>::empty());
        }
    }
}

} // verus!
