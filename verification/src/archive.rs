//! Volume planning and ZIP assembly: a list of `(path, bytes)` entries is
//! split into buckets whose accumulated input size stays under a limit, and
//! each bucket is compressed into one independent ZIP volume.

use vstd::prelude::*;

use crate::text;

verus! {

/// Mathematical model of one archive entry: its path and its raw bytes.
#[verifier::ext_equal]
pub struct EntryModel {
    pub path: Seq<char>,
    pub data: Seq<u8>,
}

/// One entry destined for the archive: the slash-separated path it will
/// occupy inside the ZIP, and its uncompressed content.
pub struct ArchiveEntry {
    pub path: String,
    pub data: Vec<u8>,
}

impl View for ArchiveEntry {
    type V = EntryModel;

    open spec fn view(&self) -> EntryModel {
        EntryModel { path: self.path@, data: self.data@ }
    }
}

impl DeepView for ArchiveEntry {
    type V = EntryModel;

    open spec fn deep_view(&self) -> EntryModel {
        self@
    }
}

/// The number of uncompressed input bytes an entry contributes.
pub open spec fn entry_size(e: EntryModel) -> nat {
    e.data.len()
}

/// The sum of the entries' uncompressed sizes.
pub open spec fn total_size(s: Seq<EntryModel>) -> nat
    decreases s.len(),
{
    if s.len() == 0 {
        0
    } else {
        entry_size(s[0]) + total_size(s.drop_first())
    }
}

pub proof fn lemma_total_size_concat(a: Seq<EntryModel>, b: Seq<EntryModel>)
    ensures
        total_size(a + b) == total_size(a) + total_size(b),
    decreases a.len(),
{
    if a.len() == 0 {
        assert(a + b =~= b);
    } else {
        assert((a + b).drop_first() =~= a.drop_first() + b);
        lemma_total_size_concat(a.drop_first(), b);
    }
}

pub proof fn lemma_total_size_singleton(e: EntryModel)
    ensures
        total_size(seq![e]) == entry_size(e),
{
    assert(seq![e].drop_first() =~= Seq::<EntryModel>::empty());
    assert(total_size(Seq::<EntryModel>::empty()) == 0);
}

pub proof fn lemma_total_size_push(s: Seq<EntryModel>, e: EntryModel)
    ensures
        total_size(s.push(e)) == total_size(s) + entry_size(e),
{
    assert(s.push(e) =~= s + seq![e]);
    lemma_total_size_concat(s, seq![e]);
    lemma_total_size_singleton(e);
}

pub proof fn lemma_total_size_take_le(s: Seq<EntryModel>, k: int)
    requires
        0 <= k <= s.len(),
    ensures
        total_size(s.take(k)) <= total_size(s),
{
    assert(s =~= s.take(k) + s.skip(k));
    lemma_total_size_concat(s.take(k), s.skip(k));
}

/// Hard ceiling on one volume's input size: one gibibyte.
pub const VOLUME_CEILING: u64 = 1073741824;

/// The per-volume limit used when splitting: the configured maximum, capped
/// by the one-gibibyte ceiling.
pub open spec fn effective_limit(max_volume_size: u64) -> nat {
    if max_volume_size < VOLUME_CEILING {
        max_volume_size as nat
    } else {
        VOLUME_CEILING as nat
    }
}

/// The greedy split: entries are taken in order; before an entry is added to
/// a non-empty bucket that it would push over `limit`, the bucket is closed
/// and a fresh one started. An entry is never split, so a bucket holding a
/// single oversized entry may exceed `limit`.
pub open spec fn greedy_fill(
    rest: Seq<EntryModel>,
    limit: nat,
    cur: Seq<EntryModel>,
) -> Seq<Seq<EntryModel>>
    decreases rest.len(),
{
    if rest.len() == 0 {
        if cur.len() == 0 {
            Seq::<Seq<EntryModel>>::empty()
        } else {
            seq![cur]
        }
    } else {
        let e = rest[0];
        if cur.len() > 0 && total_size(cur) + entry_size(e) > limit {
            seq![cur] + greedy_fill(rest.drop_first(), limit, seq![e])
        } else {
            greedy_fill(rest.drop_first(), limit, cur.push(e))
        }
    }
}

/// How `build` distributes entries over volumes: everything in one volume
/// when the total fits under the configured maximum, else the greedy split
/// under the effective limit.
pub open spec fn spec_plan(entries: Seq<EntryModel>, max_volume_size: u64) -> Seq<Seq<EntryModel>> {
    if total_size(entries) <= max_volume_size {
        seq![entries]
    } else {
        greedy_fill(entries, effective_limit(max_volume_size), Seq::<EntryModel>::empty())
    }
}

/// The concatenation of a sequence of volumes' entry lists.
pub open spec fn concat_volumes(vs: Seq<Seq<EntryModel>>) -> Seq<EntryModel>
    decreases vs.len(),
{
    if vs.len() == 0 {
        Seq::<EntryModel>::empty()
    } else {
        vs[0] + concat_volumes(vs.drop_first())
    }
}

proof fn lemma_concat_volumes_singleton(v: Seq<EntryModel>)
    ensures
        concat_volumes(seq![v]) == v,
{
    assert(seq![v].drop_first() =~= Seq::<Seq<EntryModel>>::empty());
    assert(concat_volumes(Seq::<Seq<EntryModel>>::empty()) =~= Seq::<EntryModel>::empty());
    assert(v + Seq::<EntryModel>::empty() =~= v);
}

proof fn lemma_concat_volumes_concat(a: Seq<Seq<EntryModel>>, b: Seq<Seq<EntryModel>>)
    ensures
        concat_volumes(a + b) == concat_volumes(a) + concat_volumes(b),
    decreases a.len(),
{
    if a.len() == 0 {
        assert(a + b =~= b);
        assert(concat_volumes(a) + concat_volumes(b) =~= concat_volumes(b));
    } else {
        assert((a + b).drop_first() =~= a.drop_first() + b);
        lemma_concat_volumes_concat(a.drop_first(), b);
        assert(concat_volumes(a + b) =~= concat_volumes(a) + concat_volumes(b));
    }
}

proof fn lemma_greedy_fill_concat(rest: Seq<EntryModel>, limit: nat, cur: Seq<EntryModel>)
    ensures
        concat_volumes(greedy_fill(rest, limit, cur)) == cur + rest,
    decreases rest.len(),
{
    if rest.len() == 0 {
        if cur.len() == 0 {
            assert(concat_volumes(greedy_fill(rest, limit, cur)) =~= cur + rest);
        } else {
            lemma_concat_volumes_singleton(cur);
            assert(cur + rest =~= cur);
        }
    } else {
        let e = rest[0];
        if cur.len() > 0 && total_size(cur) + entry_size(e) > limit {
            lemma_greedy_fill_concat(rest.drop_first(), limit, seq![e]);
            lemma_concat_volumes_concat(seq![cur], greedy_fill(rest.drop_first(), limit, seq![e]));
            lemma_concat_volumes_singleton(cur);
            assert(cur + (seq![e] + rest.drop_first()) =~= cur + rest);
        } else {
            lemma_greedy_fill_concat(rest.drop_first(), limit, cur.push(e));
            assert(cur.push(e) + rest.drop_first() =~= cur + rest);
        }
    }
}

/// No entry is dropped or reordered: the volumes of the plan, concatenated
/// in order, are exactly the input entry sequence.
pub proof fn lemma_plan_preserves_entries(entries: Seq<EntryModel>, max_volume_size: u64)
    ensures
        concat_volumes(spec_plan(entries, max_volume_size)) == entries,
{
    if total_size(entries) <= max_volume_size {
        lemma_concat_volumes_singleton(entries);
    } else {
        lemma_greedy_fill_concat(
            entries,
            effective_limit(max_volume_size),
            Seq::<EntryModel>::empty(),
        );
        assert(Seq::<EntryModel>::empty() + entries =~= entries);
    }
}

/// A non-empty entry set whose total size fits under the configured maximum
/// is packed into exactly one volume holding all entries.
pub proof fn lemma_plan_single_volume(entries: Seq<EntryModel>, max_volume_size: u64)
    requires
        entries.len() > 0,
        total_size(entries) <= max_volume_size,
    ensures
        spec_plan(entries, max_volume_size).len() == 1,
        spec_plan(entries, max_volume_size)[0] == entries,
{
}

proof fn lemma_greedy_fill_bucket_bound(rest: Seq<EntryModel>, limit: nat, cur: Seq<EntryModel>)
    requires
        cur.len() <= 1 || total_size(cur) <= limit,
    ensures
        forall|k: int|
            0 <= k < greedy_fill(rest, limit, cur).len() ==> (#[trigger] greedy_fill(
                rest,
                limit,
                cur,
            )[k]).len() == 1 || total_size(greedy_fill(rest, limit, cur)[k]) <= limit,
    decreases rest.len(),
{
    if rest.len() == 0 {
        if cur.len() > 0 {
            assert(greedy_fill(rest, limit, cur) =~= seq![cur]);
            assert(greedy_fill(rest, limit, cur)[0] == cur);
        }
    } else {
        let e = rest[0];
        if cur.len() > 0 && total_size(cur) + entry_size(e) > limit {
            lemma_greedy_fill_bucket_bound(rest.drop_first(), limit, seq![e]);
            let whole = greedy_fill(rest, limit, cur);
            let tail = greedy_fill(rest.drop_first(), limit, seq![e]);
            assert forall|k: int| 0 <= k < whole.len() implies (#[trigger] whole[k]).len() == 1
                || total_size(whole[k]) <= limit by {
                if k == 0 {
                    assert(whole[0] == cur);
                } else {
                    assert(whole[k] == tail[k - 1]);
                }
            }
        } else {
            lemma_total_size_push(cur, e);
            lemma_greedy_fill_bucket_bound(rest.drop_first(), limit, cur.push(e));
            let whole = greedy_fill(rest, limit, cur);
            let tail = greedy_fill(rest.drop_first(), limit, cur.push(e));
            assert(whole == tail);
            assert forall|k: int| 0 <= k < whole.len() implies (#[trigger] whole[k]).len() == 1
                || total_size(whole[k]) <= limit by {
                assert(whole[k] == tail[k]);
            }
        }
    }
}

proof fn lemma_greedy_fill_len_ge_1(rest: Seq<EntryModel>, limit: nat, cur: Seq<EntryModel>)
    requires
        cur.len() > 0 || rest.len() > 0,
    ensures
        greedy_fill(rest, limit, cur).len() >= 1,
    decreases rest.len(),
{
    if rest.len() > 0 {
        let e = rest[0];
        if cur.len() > 0 && total_size(cur) + entry_size(e) > limit {
            lemma_greedy_fill_len_ge_1(rest.drop_first(), limit, seq![e]);
        } else {
            lemma_greedy_fill_len_ge_1(rest.drop_first(), limit, cur.push(e));
        }
    }
}

proof fn lemma_greedy_fill_splits(rest: Seq<EntryModel>, limit: nat, cur: Seq<EntryModel>)
    requires
        rest.len() >= 1,
        total_size(cur) + total_size(rest.drop_last()) > 0,
        total_size(cur) + total_size(rest) > limit,
    ensures
        greedy_fill(rest, limit, cur).len() >= 2,
    decreases rest.len(),
{
    let e = rest[0];
    assert(entry_size(e) + total_size(rest.drop_first()) == total_size(rest));
    if rest.len() == 1 {
        assert(rest.drop_last() =~= Seq::<EntryModel>::empty());
        assert(total_size(cur) > 0);
        assert(cur.len() > 0) by {
            if cur.len() == 0 {
                assert(total_size(cur) == 0);
            }
        }
        assert(total_size(cur) + entry_size(e) > limit) by {
            assert(rest.drop_first() =~= Seq::<EntryModel>::empty());
        }
        lemma_greedy_fill_len_ge_1(rest.drop_first(), limit, seq![e]);
    } else {
        if cur.len() > 0 && total_size(cur) + entry_size(e) > limit {
            lemma_greedy_fill_len_ge_1(rest.drop_first(), limit, seq![e]);
        } else {
            lemma_total_size_push(cur, e);
            assert(rest.drop_first().drop_last() =~= rest.drop_last().drop_first());
            assert(entry_size(e) + total_size(rest.drop_last().drop_first()) == total_size(
                rest.drop_last(),
            )) by {
                assert(rest.drop_last()[0] == e);
            }
            lemma_greedy_fill_splits(rest.drop_first(), limit, cur.push(e));
        }
    }
}

/// When the total size exceeds the configured maximum and the entries before
/// the last one contribute at least one byte, the plan has at least two
/// volumes, and every volume respects the effective limit unless it holds a
/// single oversized entry.
///
/// The size premise is needed: a single oversized entry (or one preceded
/// only by empty entries) travels alone in one volume that exceeds the
/// limit.
pub proof fn lemma_plan_splits(entries: Seq<EntryModel>, max_volume_size: u64)
    requires
        total_size(entries) > max_volume_size,
        entries.len() >= 1,
        total_size(entries.drop_last()) > 0,
    ensures
        spec_plan(entries, max_volume_size).len() >= 2,
        forall|k: int|
            0 <= k < spec_plan(entries, max_volume_size).len() ==> (#[trigger] spec_plan(
                entries,
                max_volume_size,
            )[k]).len() == 1 || total_size(spec_plan(entries, max_volume_size)[k])
                <= effective_limit(max_volume_size),
{
    let limit = effective_limit(max_volume_size);
    lemma_greedy_fill_splits(entries, limit, Seq::<EntryModel>::empty());
    lemma_greedy_fill_bucket_bound(entries, limit, Seq::<EntryModel>::empty());
}

/// The total of the entries' sizes, computed in one pass.
pub fn total_entry_size(entries: &Vec<ArchiveEntry>) -> (t: u64)
    requires
        total_size(entries.deep_view()) <= u64::MAX,
    ensures
        t == total_size(entries.deep_view()),
{
    let ghost all = entries.deep_view();
    let mut t: u64 = 0;
    let mut i: usize = 0;
    while i < entries.len()
        invariant
            i <= entries.len(),
            all == entries.deep_view(),
            total_size(all) <= u64::MAX,
            t == total_size(all.take(i as int)),
        decreases entries.len() - i,
    {
        proof {
            assert(all.take(i + 1).drop_last() =~= all.take(i as int));
            lemma_total_size_push(all.take(i as int), all[i as int]);
            assert(all.take(i + 1) =~= all.take(i as int).push(all[i as int]));
            lemma_total_size_take_le(all, i + 1);
        }
        t = t + entries[i].data.len() as u64;
        i += 1;
    }
    proof {
        assert(all.take(entries.len() as int) =~= all);
    }
    t
}

/// Distributes the entries over volumes as `spec_plan` says, preserving
/// order and never splitting an entry.
pub fn plan_volumes(entries: Vec<ArchiveEntry>, max_volume_size: u64) -> (volumes: Vec<
    Vec<ArchiveEntry>,
>)
    requires
        total_size(entries.deep_view()) <= u64::MAX,
    ensures
        volumes.deep_view() == spec_plan(entries.deep_view(), max_volume_size),
{
    let ghost all = entries.deep_view();
    let total = total_entry_size(&entries);
    if total <= max_volume_size {
        let mut volumes: Vec<Vec<ArchiveEntry>> = Vec::new();
        volumes.push(entries);
        assert(volumes.deep_view() =~~= spec_plan(all, max_volume_size));
        return volumes;
    }
    let limit: u64 = if max_volume_size < VOLUME_CEILING {
        max_volume_size
    } else {
        VOLUME_CEILING
    };
    let mut rest = entries;
    let mut volumes: Vec<Vec<ArchiveEntry>> = Vec::new();
    let mut cur: Vec<ArchiveEntry> = Vec::new();
    let mut cur_size: u64 = 0;
    proof {
        assert(volumes.deep_view() =~~= Seq::<Seq<EntryModel>>::empty());
        assert(cur.deep_view() =~= Seq::<EntryModel>::empty());
        assert(total_size(Seq::<EntryModel>::empty()) == 0);
        assert(rest.deep_view() == all);
        assert(Seq::<Seq<EntryModel>>::empty() + greedy_fill(
            all,
            limit as nat,
            Seq::<EntryModel>::empty(),
        ) =~~= greedy_fill(all, limit as nat, Seq::<EntryModel>::empty()));
    }
    while rest.len() > 0
        invariant
            limit == effective_limit(max_volume_size),
            cur_size == total_size(cur.deep_view()),
            total_size(cur.deep_view()) + total_size(rest.deep_view()) <= u64::MAX,
            volumes.deep_view() + greedy_fill(rest.deep_view(), limit as nat, cur.deep_view())
                == greedy_fill(all, limit as nat, Seq::<EntryModel>::empty()),
        decreases rest.len(),
    {
        let ghost rest0 = rest.deep_view();
        let ghost cur0 = cur.deep_view();
        let ghost vol0 = volumes.deep_view();
        let e = rest.remove(0);
        proof {
            assert(e@ == rest0[0]);
            assert(rest.deep_view() =~= rest0.drop_first());
            assert(entry_size(e@) + total_size(rest0.drop_first()) == total_size(rest0));
        }
        let esize = e.data.len() as u64;
        if cur.len() > 0 && cur_size + esize > limit {
            volumes.push(cur);
            cur = Vec::new();
            cur.push(e);
            cur_size = esize;
            proof {
                assert(cur.deep_view() =~= seq![e@]);
                lemma_total_size_singleton(e@);
                assert(greedy_fill(rest0, limit as nat, cur0) == seq![cur0] + greedy_fill(
                    rest0.drop_first(),
                    limit as nat,
                    seq![e@],
                ));
                assert(volumes.deep_view() =~~= vol0.push(cur0));
                assert(vol0.push(cur0) + greedy_fill(
                    rest.deep_view(),
                    limit as nat,
                    cur.deep_view(),
                ) =~~= vol0 + (seq![cur0] + greedy_fill(
                    rest0.drop_first(),
                    limit as nat,
                    seq![e@],
                )));
            }
        } else {
            cur.push(e);
            cur_size = cur_size + esize;
            proof {
                assert(cur.deep_view() =~= cur0.push(e@));
                lemma_total_size_push(cur0, e@);
                assert(greedy_fill(rest0, limit as nat, cur0) == greedy_fill(
                    rest0.drop_first(),
                    limit as nat,
                    cur0.push(e@),
                ));
            }
        }
    }
    let ghost vol1 = volumes.deep_view();
    let ghost cur1 = cur.deep_view();
    proof {
        assert(rest.deep_view() =~= Seq::<EntryModel>::empty());
    }
    if cur.len() > 0 {
        proof {
            assert(greedy_fill(Seq::<EntryModel>::empty(), limit as nat, cur1) =~~= seq![cur1]);
            assert(vol1 + seq![cur1] =~~= vol1.push(cur1));
        }
        volumes.push(cur);
        proof {
            assert(volumes.deep_view() =~~= vol1.push(cur1));
        }
    } else {
        proof {
            assert(greedy_fill(Seq::<EntryModel>::empty(), limit as nat, cur1)
                =~~= Seq::<Seq<EntryModel>>::empty());
            assert(vol1 + Seq::<Seq<EntryModel>>::empty() =~~= vol1);
        }
    }
    volumes
}

/// Archive assembly failure: the ZIP writer reported an error.
#[derive(Debug, PartialEq, Eq, Structural)]
pub enum ArchiveError {
    CompressionError,
}

/// What the ZIP writer produces for the given entries, in order, at this
/// crate's fixed settings (Deflate, fixed metadata), over an in-memory
/// buffer: the complete archive's bytes, or nothing where the writer
/// rejects the entries (an over-large entry, for one). Success and content
/// are both functions of the entries alone.
pub uninterp spec fn zip_result_of(entries: Seq<EntryModel>) -> Option<Seq<u8>>;

#[verifier::external_type_specification]
#[verifier::external_body]
pub struct ExZipError(zip::result::ZipError);

/// Relies on zip::write::ZipWriter over an in-memory cursor: `start_file`
/// opens one Deflate entry per input pair, `write_all` stores its bytes and
/// `finish` completes the archive. Without the crate's `time` feature the
/// entry metadata is fixed, and nothing environmental can fail over the
/// in-memory buffer, so success and output depend on the entries alone.
#[verifier::external_body]
fn compress_volume(entries: &Vec<ArchiveEntry>) -> (r: Result<Vec<u8>, zip::result::ZipError>)
    ensures
        r is Ok <==> zip_result_of(entries.deep_view()) is Some,
        r matches Ok(bytes) ==> bytes@ == zip_result_of(entries.deep_view())->0,
{
    let cursor = std::io::Cursor::new(Vec::new());
    let mut writer = zip::write::ZipWriter::new(cursor);
    let options = zip::write::SimpleFileOptions::default().compression_method(
        zip::CompressionMethod::Deflated,
    );
    for e in entries.iter() {
        writer.start_file(e.path.as_str(), options)?;
        std::io::Write::write_all(&mut writer, e.data.as_slice())?;
    }
    Ok(writer.finish()?.into_inner())
}

/// An entry with its path normalized to forward slashes.
pub open spec fn normalize_entry(e: EntryModel) -> EntryModel {
    EntryModel { path: text::spec_normalize_separators(e.path), data: e.data }
}

/// The ZIP outcome for one volume: its entries, paths normalized, handed
/// to the writer.
pub open spec fn volume_result(v: Seq<EntryModel>) -> Option<Seq<u8>> {
    zip_result_of(v.map_values(|e: EntryModel| normalize_entry(e)))
}

/// Every volume of the plan compresses.
pub open spec fn all_volumes_compress(plan: Seq<Seq<EntryModel>>) -> bool {
    forall|k: int| 0 <= k < plan.len() ==> (#[trigger] volume_result(plan[k])) is Some
}

fn normalize_volume(v: Vec<ArchiveEntry>) -> (r: Vec<ArchiveEntry>)
    ensures
        r.deep_view() == v.deep_view().map_values(|e: EntryModel| normalize_entry(e)),
{
    let ghost v0 = v.deep_view();
    let mut rest = v;
    let mut r: Vec<ArchiveEntry> = Vec::new();
    while rest.len() > 0
        invariant
            v0.skip(v0.len() - rest.len()) =~= rest.deep_view(),
            rest.len() <= v0.len(),
            r.deep_view() =~= v0.take(v0.len() - rest.len()).map_values(
                |e: EntryModel| normalize_entry(e),
            ),
        decreases rest.len(),
    {
        let ghost i = v0.len() - rest.len();
        let ghost r0 = rest.deep_view();
        let ghost rv0 = rest@;
        let e = rest.remove(0);
        proof {
            assert(r0 == v0.skip(i));
            assert(r0[0] == rv0[0].deep_view());
            assert(e@ == v0[i]);
            assert(rest.deep_view() =~= v0.skip(i + 1)) by {
                assert forall|k: int| 0 <= k < rest@.len() implies rest@[k].deep_view() == v0.skip(
                    i + 1,
                )[k] by {
                    assert(rest@[k] == rv0[k + 1]);
                    assert(r0[k + 1] == rv0[k + 1].deep_view());
                }
            }
        }
        let ne = ArchiveEntry { path: text::normalize_separators(e.path.as_str()), data: e.data };
        let ghost o0 = r.deep_view();
        let ghost ov0 = r@;
        r.push(ne);
        proof {
            assert(ne@ == normalize_entry(v0[i]));
            assert(o0.len() == i);
            assert(ov0.len() == i);
            assert(r.deep_view() =~= v0.take(i + 1).map_values(
                |e: EntryModel| normalize_entry(e),
            )) by {
                assert forall|k: int| 0 <= k <= i implies r@[k].deep_view() == v0.take(
                    i + 1,
                ).map_values(|e: EntryModel| normalize_entry(e))[k] by {
                    if k < i {
                        assert(r@[k] == ov0[k]);
                        assert(o0[k] == ov0[k].deep_view());
                        assert(o0[k] == v0.take(i).map_values(
                            |e: EntryModel| normalize_entry(e),
                        )[k]);
                    } else {
                        assert(r@[k] == ne);
                    }
                }
            }
        }
    }
    proof {
        assert(v0.take(v0.len() as int) =~= v0);
    }
    r
}

/// Packs the entries into one or more ZIP volumes: one volume when the
/// total input size fits under `max_volume_size`, else the greedy split of
/// `spec_plan`. Entry paths are normalized to forward slashes; entries are
/// never dropped, reordered or split across volumes. It succeeds if and
/// only if the writer accepts every planned volume.
pub fn build(entries: Vec<ArchiveEntry>, max_volume_size: u64) -> (r: Result<
    Vec<Vec<u8>>,
    ArchiveError,
>)
    requires
        total_size(entries.deep_view()) <= u64::MAX,
    ensures
        r is Ok <==> all_volumes_compress(spec_plan(entries.deep_view(), max_volume_size)),
        r matches Ok(vols) ==> vols.deep_view() == spec_plan(
            entries.deep_view(),
            max_volume_size,
        ).map_values(|v: Seq<EntryModel>| volume_result(v)->0),
        r is Err ==> r->Err_0 == ArchiveError::CompressionError,
{
    let ghost full = spec_plan(entries.deep_view(), max_volume_size);
    let mut volumes = plan_volumes(entries, max_volume_size);
    let mut out: Vec<Vec<u8>> = Vec::new();
    proof {
        assert(volumes.deep_view() =~~= full.skip(0));
    }
    while volumes.len() > 0
        invariant
            full == spec_plan(entries.deep_view(), max_volume_size),
            volumes.deep_view() =~~= full.skip(full.len() - volumes.len()),
            volumes.len() <= full.len(),
            forall|j: int|
                0 <= j < full.len() - volumes.len() ==> (#[trigger] volume_result(full[j]))
                    is Some,
            out.deep_view() =~~= full.take(full.len() - volumes.len()).map_values(
                |v: Seq<EntryModel>| volume_result(v)->0,
            ),
        decreases volumes.len(),
    {
        let ghost i = full.len() - volumes.len();
        let ghost w0 = volumes.deep_view();
        let ghost wv0 = volumes@;
        let v = volumes.remove(0);
        proof {
            assert(w0 == full.skip(i));
            assert(w0[0] == wv0[0].deep_view());
            assert(v.deep_view() == full[i]);
            assert(volumes.deep_view() =~~= full.skip(i + 1)) by {
                assert forall|k: int| 0 <= k < volumes@.len() implies volumes@[k].deep_view()
                    == full.skip(i + 1)[k] by {
                    assert(volumes@[k] == wv0[k + 1]);
                    assert(w0[k + 1] == wv0[k + 1].deep_view());
                }
            }
        }
        let nv = normalize_volume(v);
        let bytes = match compress_volume(&nv) {
            Ok(b) => b,
            Err(_) => {
                proof {
                    assert(volume_result(full[i]) is None);
                    assert(!all_volumes_compress(full));
                }
                return Err(ArchiveError::CompressionError);
            },
        };
        let ghost o0 = out.deep_view();
        let ghost ov0 = out@;
        out.push(bytes);
        proof {
            assert(volume_result(full[i]) is Some);
            assert(bytes@ == volume_result(full[i])->0);
            assert(o0.len() == i);
            assert(ov0.len() == i);
            assert(out.deep_view() =~~= full.take(i + 1).map_values(
                |v: Seq<EntryModel>| volume_result(v)->0,
            )) by {
                assert forall|k: int| 0 <= k <= i implies out@[k].deep_view() == full.take(
                    i + 1,
                ).map_values(|v: Seq<EntryModel>| volume_result(v)->0)[k] by {
                    if k < i {
                        assert(out@[k] == ov0[k]);
                        assert(o0[k] == ov0[k].deep_view());
                        assert(o0[k] == full.take(i).map_values(
                            |v: Seq<EntryModel>| volume_result(v)->0,
                        )[k]);
                    } else {
                        assert(out@[k] == bytes);
                    }
                }
            }
        }
    }
    proof {
        assert(full.take(full.len() as int) =~= full);
        assert(all_volumes_compress(full));
    }
    Ok(out)
}

/// The base archive name: a trailing `.zip` removed, as the front end does
/// before numbering volume files.
pub open spec fn spec_archive_base_name(s: Seq<char>) -> Seq<char> {
    if ".zip"@.is_suffix_of(s) {
        s.take(s.len() - 4)
    } else {
        s
    }
}

/// `name` without a trailing `.zip`.
pub fn archive_base_name(name: &str) -> (r: String)
    ensures
        r@ == spec_archive_base_name(name@),
{
    if text::ends_with(name, ".zip") {
        proof {
            reveal_strlit(".zip");
        }
        name.substring_char(0, name.unicode_len() - 4).to_owned()
    } else {
        name.to_owned()
    }
}

/// The download filename: `name` itself when it already ends in `.zip`,
/// else `name` with `.zip` appended.
pub open spec fn spec_zip_filename(s: Seq<char>) -> Seq<char> {
    if ".zip"@.is_suffix_of(s) {
        s
    } else {
        s + ".zip"@
    }
}

/// `name` with a `.zip` suffix guaranteed.
pub fn zip_filename(name: &str) -> (r: String)
    ensures
        r@ == spec_zip_filename(name@),
{
    if text::ends_with(name, ".zip") {
        name.to_owned()
    } else {
        text::concat2(name, ".zip")
    }
}

/// A part number rendered with at least two digits.
pub open spec fn spec_pad2(n: nat) -> Seq<char> {
    if n < 10 {
        seq!['0'] + text::dec_of(n)
    } else {
        text::dec_of(n)
    }
}

/// The filename of one volume: `base`, then `.z`, then the two-digit part
/// number.
pub open spec fn spec_part_filename(base: Seq<char>, part_num: nat) -> Seq<char> {
    base + ".z"@ + spec_pad2(part_num)
}

/// The filename of volume number `part_num` (counted from one).
pub fn part_filename(base: &str, part_num: u64) -> (r: String)
    ensures
        r@ == spec_part_filename(base@, part_num as nat),
{
    let digits = text::u64_to_dec(part_num);
    let padded = if part_num < 10 {
        let p = text::concat2("0", digits.as_str());
        proof {
            reveal_strlit("0");
            assert(p@ =~= spec_pad2(part_num as nat));
        }
        p
    } else {
        digits
    };
    let r = text::concat3(base, ".z", padded.as_str());
    assert(r@ =~= spec_part_filename(base@, part_num as nat));
    r
}

/// One row of the multi-volume descriptor.
pub struct VolumePart {
    pub part_num: u64,
    pub filename: String,
    pub size_bytes: u64,
}

/// The descriptor returned when a request produced several volumes.
pub struct VolumeDescriptor {
    pub total_parts: u64,
    pub total_size: u64,
    pub parts: Vec<VolumePart>,
    pub message: String,
}

/// The sum of the volumes' byte lengths.
pub open spec fn bytes_total(vs: Seq<Seq<u8>>) -> nat
    decreases vs.len(),
{
    if vs.len() == 0 {
        0
    } else {
        vs[0].len() + bytes_total(vs.drop_first())
    }
}

proof fn lemma_bytes_total_take_step(vs: Seq<Seq<u8>>, k: int)
    requires
        0 <= k < vs.len(),
    ensures
        bytes_total(vs.take(k + 1)) == bytes_total(vs.take(k)) + vs[k].len(),
    decreases vs.len(),
{
    if k == 0 {
        assert(vs.take(1).drop_first() =~= Seq::<Seq<u8>>::empty());
        assert(vs.take(0) =~= Seq::<Seq<u8>>::empty());
        assert(bytes_total(Seq::<Seq<u8>>::empty()) == 0);
        assert(vs.take(1)[0] == vs[0]);
    } else {
        lemma_bytes_total_take_step(vs.drop_first(), k - 1);
        assert(vs.take(k + 1).drop_first() =~= vs.drop_first().take(k));
        assert(vs.take(k).drop_first() =~= vs.drop_first().take(k - 1));
        assert(vs.take(k + 1)[0] == vs[0]);
        assert(vs.take(k)[0] == vs[0]);
        assert(vs.drop_first()[k - 1] == vs[k]);
    }
}

proof fn lemma_bytes_total_take_le(vs: Seq<Seq<u8>>, k: int)
    requires
        0 <= k <= vs.len(),
    ensures
        bytes_total(vs.take(k)) <= bytes_total(vs),
    decreases vs.len() - k,
{
    if k < vs.len() {
        lemma_bytes_total_take_step(vs, k);
        lemma_bytes_total_take_le(vs, k + 1);
    } else {
        assert(vs.take(k) =~= vs);
    }
}

/// Builds the JSON-facing description of a multi-volume result: each part's
/// number (from one), filename and size, and the total count and size.
pub fn volume_descriptor(base: &str, volumes: &Vec<Vec<u8>>) -> (d: VolumeDescriptor)
    requires
        bytes_total(volumes.deep_view()) <= u64::MAX,
        volumes@.len() <= u64::MAX,
    ensures
        d.total_parts == volumes@.len(),
        d.total_size == bytes_total(volumes.deep_view()),
        d.parts@.len() == volumes@.len(),
        forall|i: int|
            0 <= i < volumes@.len() ==> {
                &&& (#[trigger] d.parts@[i]).part_num == i + 1
                &&& d.parts@[i].filename@ == spec_part_filename(base@, (i + 1) as nat)
                &&& d.parts@[i].size_bytes == volumes@[i]@.len()
            },
        d.message@
            == "total size exceeds the volume limit; the archive was split, download each part"@,
{
    let ghost vs = volumes.deep_view();
    let mut parts: Vec<VolumePart> = Vec::new();
    let mut total_size: u64 = 0;
    let mut i: usize = 0;
    while i < volumes.len()
        invariant
            i <= volumes.len(),
            vs == volumes.deep_view(),
            volumes@.len() <= u64::MAX,
            bytes_total(vs) <= u64::MAX,
            parts@.len() == i,
            total_size == bytes_total(vs.take(i as int)),
            forall|j: int|
                0 <= j < i ==> {
                    &&& (#[trigger] parts@[j]).part_num == j + 1
                    &&& parts@[j].filename@ == spec_part_filename(base@, (j + 1) as nat)
                    &&& parts@[j].size_bytes == volumes@[j]@.len()
                },
        decreases volumes.len() - i,
    {
        proof {
            lemma_bytes_total_take_step(vs, i as int);
            lemma_bytes_total_take_le(vs, i + 1);
        }
        let num = (i as u64) + 1;
        let filename = part_filename(base, num);
        let size = volumes[i].len() as u64;
        parts.push(VolumePart { part_num: num, filename, size_bytes: size });
        total_size = total_size + size;
        i += 1;
    }
    proof {
        assert(vs.take(volumes@.len() as int) =~= vs);
    }
    VolumeDescriptor {
        total_parts: volumes.len() as u64,
        total_size,
        parts,
        message: String::from_str(
            "total size exceeds the volume limit; the archive was split, download each part",
        ),
    }
}

} // verus!
