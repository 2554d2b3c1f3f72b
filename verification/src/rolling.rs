//! The rotating file set.
//!
//! A rolling sink owns a sequence of files, each keyed by the time bucket
//! whose records it holds. Every write names its own logical time; when the
//! write's bucket differs from the active file's, the sink starts a fresh
//! file (pruning the oldest ones beyond the retention limit first), so that
//! no file ever holds records of two buckets.

use vstd::prelude::*;
use vstd::string::StringExecFns;

use crate::text::spec_dec_pad;
use crate::text::u64_to_dec_pad;
use crate::timefmt::civil_from_epoch;
use crate::timefmt::spec_civil;
use crate::Rotation;

verus! {

/// The index of the time bucket that holds second `secs`: which minute,
/// hour or day it falls in; a never-rotated sink has a single bucket.
pub open spec fn spec_bucket(r: Rotation, secs: nat) -> nat {
    match r {
        Rotation::Minutely => secs / 60,
        Rotation::Hourly => secs / 3600,
        Rotation::Daily => secs / 86400,
        Rotation::Never => 0,
    }
}

/// Compute the bucket of an instant.
pub fn bucket_of(r: Rotation, secs: u64) -> (b: u64)
    ensures
        b == spec_bucket(r, secs as nat),
{
    match r {
        Rotation::Minutely => secs / 60,
        Rotation::Hourly => secs / 3600,
        Rotation::Daily => secs / 86400,
        Rotation::Never => 0,
    }
}

/// The timestamp component of a file name, at the granularity of the
/// rotation policy (a never-rotated file name carries the date only when
/// it has to stand in for an absent prefix and suffix).
pub open spec fn spec_date_component(r: Rotation, secs: nat) -> Seq<char> {
    let (y, m, d) = spec_civil(secs);
    let date = spec_dec_pad(y, 4) + "-"@ + spec_dec_pad(m, 2) + "-"@ + spec_dec_pad(d, 2);
    match r {
        Rotation::Minutely => date + "-"@ + spec_dec_pad((secs % 86400) / 3600, 2) + "-"@
            + spec_dec_pad((secs % 3600) / 60, 2),
        Rotation::Hourly => date + "-"@ + spec_dec_pad((secs % 86400) / 3600, 2),
        Rotation::Daily => date,
        Rotation::Never => date,
    }
}

/// Render the timestamp component of a file name.
pub fn date_component(r: Rotation, secs: u64) -> (out: String)
    ensures
        out@ == spec_date_component(r, secs as nat),
{
    let c = civil_from_epoch(secs);
    let mut s = u64_to_dec_pad(c.year, 4);
    s.append("-");
    s.append(u64_to_dec_pad(c.month, 2).as_str());
    s.append("-");
    s.append(u64_to_dec_pad(c.day, 2).as_str());
    match r {
        Rotation::Minutely => {
            s.append("-");
            s.append(u64_to_dec_pad(c.hour, 2).as_str());
            s.append("-");
            s.append(u64_to_dec_pad(c.minute, 2).as_str());
        },
        Rotation::Hourly => {
            s.append("-");
            s.append(u64_to_dec_pad(c.hour, 2).as_str());
        },
        Rotation::Daily => {},
        Rotation::Never => {},
    }
    s
}

/// The view of an optional name part.
pub open spec fn spec_opt_str(o: Option<String>) -> Option<Seq<char>> {
    match o {
        Some(s) => Some(s@),
        Option::None => Option::None,
    }
}

/// The name of the file that bucket `secs` falls into: the prefix, the
/// timestamp component and the suffix, joined by dots; a never-rotated
/// file takes no timestamp unless both other parts are absent.
pub open spec fn spec_file_name(
    r: Rotation,
    prefix: Option<Seq<char>>,
    suffix: Option<Seq<char>>,
    secs: nat,
) -> Seq<char> {
    let date = spec_date_component(r, secs);
    match r {
        Rotation::Never => match (prefix, suffix) {
            (Some(p), Option::None) => p,
            (Some(p), Some(sfx)) => p + "."@ + sfx,
            (Option::None, Some(sfx)) => sfx,
            (Option::None, Option::None) => date,
        },
        _ => match (prefix, suffix) {
            (Some(p), Some(sfx)) => p + "."@ + date + "."@ + sfx,
            (Some(p), Option::None) => p + "."@ + date,
            (Option::None, Some(sfx)) => date + "."@ + sfx,
            (Option::None, Option::None) => date,
        },
    }
}

/// Render the name of the file that an instant's records belong in.
pub fn file_name(
    r: Rotation,
    prefix: &Option<String>,
    suffix: &Option<String>,
    secs: u64,
) -> (out: String)
    ensures
        out@ == spec_file_name(r, spec_opt_str(*prefix), spec_opt_str(*suffix), secs as nat),
{
    let never = match r {
        Rotation::Never => true,
        _ => false,
    };
    if never {
        match (prefix, suffix) {
            (Some(p), Option::None) => p.clone(),
            (Some(p), Some(sfx)) => {
                let mut s = p.clone();
                s.append(".");
                s.append(sfx.as_str());
                s
            },
            (Option::None, Some(sfx)) => sfx.clone(),
            (Option::None, Option::None) => date_component(r, secs),
        }
    } else {
        let date = date_component(r, secs);
        match (prefix, suffix) {
            (Some(p), Some(sfx)) => {
                let mut s = p.clone();
                s.append(".");
                s.append(date.as_str());
                s.append(".");
                s.append(sfx.as_str());
                s
            },
            (Some(p), Option::None) => {
                let mut s = p.clone();
                s.append(".");
                s.append(date.as_str());
                s
            },
            (Option::None, Some(sfx)) => {
                let mut s = date;
                s.append(".");
                s.append(sfx.as_str());
                s
            },
            (Option::None, Option::None) => date,
        }
    }
}

/// One file of the set, with the bucket it holds and the bytes written
/// to it so far.
#[derive(Debug, Clone, PartialEq, Eq)]
pub struct LogFile {
    pub name: String,
    pub bucket: u64,
    pub data: Vec<u8>,
}

/// The mathematical image of one file.
#[verifier::ext_equal]
pub ghost struct LogFileView {
    pub name: Seq<char>,
    pub bucket: nat,
    pub data: Seq<u8>,
}

impl View for LogFile {
    type V = LogFileView;

    open spec fn view(&self) -> LogFileView {
        LogFileView { name: self.name@, bucket: self.bucket as nat, data: self.data@ }
    }
}

/// The mathematical image of the whole set: its policy and its files,
/// oldest first; the last file is the active one.
#[verifier::ext_equal]
pub ghost struct RollView {
    pub rotation: Rotation,
    pub prefix: Option<Seq<char>>,
    pub suffix: Option<Seq<char>>,
    pub limit: Option<nat>,
    pub files: Seq<LogFileView>,
}

/// A live rotating file set, modelled down to each file's contents.
#[derive(Debug, Clone, PartialEq, Eq)]
pub struct RollState {
    pub rotation: Rotation,
    pub prefix: Option<String>,
    pub suffix: Option<String>,
    pub limit: Option<usize>,
    pub files: Vec<LogFile>,
}

impl View for RollState {
    type V = RollView;

    open spec fn view(&self) -> RollView {
        RollView {
            rotation: self.rotation,
            prefix: spec_opt_str(self.prefix),
            suffix: spec_opt_str(self.suffix),
            limit: match self.limit {
                Some(l) => Some(l as nat),
                Option::None => Option::None,
            },
            files: self.files@.map_values(|f: LogFile| f@),
        }
    }
}

/// The files kept when a fresh one is about to be created under retention
/// limit `limit`: the newest `limit - 1`, so that the set never exceeds
/// the limit once the fresh file joins it.
pub open spec fn spec_pruned(files: Seq<LogFileView>, limit: Option<nat>) -> Seq<LogFileView> {
    match limit {
        Option::None => files,
        Some(l) => if l == 0 {
            Seq::empty()
        } else if files.len() > l - 1 {
            files.skip(files.len() - (l - 1))
        } else {
            files
        },
    }
}

/// One write against the set: append to the active file when the write's
/// bucket matches it, otherwise prune and start a fresh file named after
/// the write's instant.
pub open spec fn spec_roll_write(v: RollView, buf: Seq<u8>, secs: nat) -> RollView {
    let b = spec_bucket(v.rotation, secs);
    if v.files.len() > 0 && v.files.last().bucket == b {
        let f = v.files.last();
        RollView {
            files: v.files.update(
                v.files.len() - 1,
                LogFileView { data: f.data + buf, ..f },
            ),
            ..v
        }
    } else {
        let name = spec_file_name(v.rotation, v.prefix, v.suffix, secs);
        RollView {
            files: spec_pruned(v.files, v.limit).push(
                LogFileView { name, bucket: b, data: buf },
            ),
            ..v
        }
    }
}

/// What one write did, for the host to mirror against the real directory:
/// either the active file grew, or a fresh file of the returned name was
/// started (after pruning, when a limit is set).
#[derive(Debug, Clone, PartialEq, Eq)]
pub enum RollEffect {
    Appended,
    Rotated(String),
}

impl RollState {
    /// A set with no file open yet.
    pub fn new(
        rotation: Rotation,
        prefix: Option<String>,
        suffix: Option<String>,
        limit: Option<usize>,
    ) -> (r: RollState)
        ensures
            r@.rotation == rotation,
            r@.prefix == spec_opt_str(prefix),
            r@.suffix == spec_opt_str(suffix),
            r@.limit == (match limit {
                Some(l) => Some(l as nat),
                Option::None => Option::None::<nat>,
            }),
            r@.files.len() == 0,
    {
        let r = RollState { rotation, prefix, suffix, limit, files: Vec::new() };
        proof {
            assert(r@.files =~= Seq::<LogFileView>::empty());
        }
        r
    }

    /// Write one record, dated `now_secs`, rotating first when the record
    /// belongs to a bucket the active file does not hold.
    pub fn write(&mut self, buf: &Vec<u8>, now_secs: u64) -> (eff: RollEffect)
        ensures
            final(self)@ == spec_roll_write(old(self)@, buf@, now_secs as nat),
            match eff {
                RollEffect::Appended => old(self)@.files.len() > 0 && old(self)@.files.last().bucket
                    == spec_bucket(old(self)@.rotation, now_secs as nat),
                RollEffect::Rotated(name) => (old(self)@.files.len() == 0 || old(
                    self,
                )@.files.last().bucket != spec_bucket(old(self)@.rotation, now_secs as nat))
                    && name@ == spec_file_name(
                    old(self)@.rotation,
                    old(self)@.prefix,
                    old(self)@.suffix,
                    now_secs as nat,
                ),
            },
    {
        let b = bucket_of(self.rotation, now_secs);
        let n = self.files.len();
        let same = if n == 0 {
            false
        } else {
            self.files[n - 1].bucket == b
        };
        if same {
            let mut f = self.files.pop().unwrap();
            f.data.extend_from_slice(buf.as_slice());
            self.files.push(f);
            proof {
                assert(self@.files =~~= spec_roll_write(old(self)@, buf@, now_secs as nat).files);
                assert(self@ =~~= spec_roll_write(old(self)@, buf@, now_secs as nat));
            }
            RollEffect::Appended
        } else {
            let ghost pre = self.files@;
            let ghost s0 = *self;
            if let Some(l) = self.limit {
                if l == 0 {
                    self.files.clear();
                } else {
                    while self.files.len() > l - 1
                        invariant
                            l >= 1,
                            self.rotation == s0.rotation,
                            self.prefix == s0.prefix,
                            self.suffix == s0.suffix,
                            self.limit == s0.limit,
                            self.files@.len() <= pre.len(),
                            self.files@.len() >= l - 1 || self.files@.len() == pre.len(),
                            self.files@ =~= pre.skip(pre.len() - self.files@.len()),
                        decreases self.files@.len(),
                    {
                        self.files.remove(0);
                        proof {
                            assert(self.files@ =~= pre.skip(pre.len() - self.files@.len()));
                        }
                    }
                }
            }
            proof {
                assert(self.files@.map_values(|f: LogFile| f@) =~~= spec_pruned(
                    old(self)@.files,
                    old(self)@.limit,
                ));
            }
            let name = file_name(self.rotation, &self.prefix, &self.suffix, now_secs);
            let mut data: Vec<u8> = Vec::new();
            data.extend_from_slice(buf.as_slice());
            let out_name = name.clone();
            let ghost prev = self.files@;
            let ghost namev = name@;
            let ghost datav = data@;
            self.files.push(LogFile { name, bucket: b, data });
            proof {
                let ghost target = spec_roll_write(old(self)@, buf@, now_secs as nat);
                assert(target.files == spec_pruned(old(self)@.files, old(self)@.limit).push(
                    LogFileView {
                        name: spec_file_name(
                            old(self)@.rotation,
                            old(self)@.prefix,
                            old(self)@.suffix,
                            now_secs as nat,
                        ),
                        bucket: spec_bucket(old(self)@.rotation, now_secs as nat),
                        data: buf@,
                    },
                ));
                assert(self@.files.len() == target.files.len());
                assert(prev.map_values(|f: LogFile| f@) == spec_pruned(
                    old(self)@.files,
                    old(self)@.limit,
                ));
                assert forall|i: int| 0 <= i < self@.files.len() implies self@.files[i]
                    =~~= target.files[i] by {
                    assert(self.files@ == prev.push(self.files@.last()));
                    assert(self@.files[i] == self.files@[i]@);
                    if i < prev.len() {
                        assert(self.files@[i] == prev[i]);
                        assert(target.files[i] == prev.map_values(|f: LogFile| f@)[i]);
                        assert(prev.map_values(|f: LogFile| f@)[i] == prev[i]@);
                    } else {
                        assert(self.files@[i].name@ == namev);
                        assert(self.files@[i].data@ == datav);
                        assert(datav =~= buf@);
                        assert(self.prefix == old(self).prefix);
                        assert(namev == spec_file_name(
                            old(self)@.rotation,
                            old(self)@.prefix,
                            old(self)@.suffix,
                            now_secs as nat,
                        ));
                    }
                }
                assert(self@.files =~~= target.files);
                assert(self@ =~~= target);
            }
            RollEffect::Rotated(out_name)
        }
    }

    /// How many files the set holds.
    pub fn file_count(&self) -> (n: usize)
        ensures
            n == self@.files.len(),
    {
        self.files.len()
    }

    /// The file at `i`, oldest first.
    pub fn file_at(&self, i: usize) -> (f: &LogFile)
        requires
            i < self@.files.len(),
        ensures
            f@ == self@.files[i as int],
    {
        &self.files[i]
    }
}

/// Whether every file's bucket is strictly newer than the previous file's:
/// the shape every reachable set has under a forward-moving clock.
pub open spec fn spec_buckets_increasing(files: Seq<LogFileView>) -> bool {
    forall|i: int, j: int| 0 <= i < j < files.len() ==> files[i].bucket < files[j].bucket
}

/// Every write lands in the file of its own bucket: afterwards the active
/// file carries the write's bucket and its data ends with the written
/// bytes; when a fresh file was started, it holds exactly them. So a
/// record can never appear in a file of another bucket.
pub proof fn lemma_write_no_bucket_mixing(v: RollView, buf: Seq<u8>, secs: nat)
    ensures
        spec_roll_write(v, buf, secs).files.len() > 0,
        spec_roll_write(v, buf, secs).files.last().bucket == spec_bucket(v.rotation, secs),
        spec_roll_write(v, buf, secs).files.last().data.len() >= buf.len(),
        spec_roll_write(v, buf, secs).files.last().data.skip(
            spec_roll_write(v, buf, secs).files.last().data.len() - buf.len(),
        ) =~= buf,
        (v.files.len() == 0 || v.files.last().bucket != spec_bucket(v.rotation, secs))
            ==> spec_roll_write(v, buf, secs).files.last().data =~= buf,
{
    let r = spec_roll_write(v, buf, secs);
    let b = spec_bucket(v.rotation, secs);
    if v.files.len() > 0 && v.files.last().bucket == b {
        assert(r.files.last() == LogFileView {
            data: v.files.last().data + buf,
            ..v.files.last()
        });
        assert(r.files.last().data.skip(r.files.last().data.len() - buf.len()) =~= buf);
    } else {
        assert(r.files.last().data =~= buf);
    }
}

/// A write under a clock that has not moved backwards keeps the files'
/// buckets strictly increasing, and leaves every file but the active one
/// exactly as some file of the old set: once a file stops being active
/// its contents never change again.
pub proof fn lemma_write_keeps_older_files(v: RollView, buf: Seq<u8>, secs: nat)
    requires
        spec_buckets_increasing(v.files),
        v.files.len() > 0 ==> v.files.last().bucket <= spec_bucket(v.rotation, secs),
    ensures
        spec_buckets_increasing(spec_roll_write(v, buf, secs).files),
        forall|i: int|
            0 <= i < spec_roll_write(v, buf, secs).files.len() - 1 ==> exists|j: int|
                0 <= j < v.files.len() && #[trigger] spec_roll_write(v, buf, secs).files[i]
                    == #[trigger] v.files[j],
{
    let r = spec_roll_write(v, buf, secs);
    let b = spec_bucket(v.rotation, secs);
    if v.files.len() > 0 && v.files.last().bucket == b {
        assert forall|i: int| 0 <= i < r.files.len() - 1 implies exists|j: int|
            0 <= j < v.files.len() && #[trigger] r.files[i] == #[trigger] v.files[j] by {
            assert(r.files[i] == v.files[i]);
        }
    } else {
        let kept = spec_pruned(v.files, v.limit);
        let off = v.files.len() - kept.len();
        assert forall|i: int| 0 <= i < r.files.len() - 1 implies exists|j: int|
            0 <= j < v.files.len() && #[trigger] r.files[i] == #[trigger] v.files[j] by {
            assert(r.files[i] == v.files[i + off]);
        }
        assert forall|i: int, j: int| 0 <= i < j < r.files.len() implies r.files[i].bucket
            < r.files[j].bucket by {
            if j < r.files.len() - 1 {
                assert(r.files[i] == v.files[i + off]);
                assert(r.files[j] == v.files[j + off]);
            } else {
                assert(r.files[i] == v.files[i + off]);
                assert(r.files[j].bucket == b);
            }
        }
    }
}


/// A whole run of dated writes, applied in order.
pub open spec fn spec_roll_run(v: RollView, ws: Seq<(nat, Seq<u8>)>) -> RollView
    decreases ws.len(),
{
    if ws.len() == 0 {
        v
    } else {
        spec_roll_run(spec_roll_write(v, ws[0].1, ws[0].0), ws.drop_first())
    }
}

/// The concatenation of a run's payloads that fall in bucket `b`, in
/// write order.
pub open spec fn spec_bucket_payload(rot: Rotation, ws: Seq<(nat, Seq<u8>)>, b: nat) -> Seq<u8>
    decreases ws.len(),
{
    if ws.len() == 0 {
        Seq::empty()
    } else {
        (if spec_bucket(rot, ws[0].0) == b {
            ws[0].1
        } else {
            Seq::empty()
        }) + spec_bucket_payload(rot, ws.drop_first(), b)
    }
}

/// The buckets a run touches beyond the one already active, each listed
/// once, in order of first touch.
pub open spec fn spec_bucket_trace(rot: Rotation, ws: Seq<(nat, Seq<u8>)>, cur: Option<nat>) -> Seq<
    nat,
>
    decreases ws.len(),
{
    if ws.len() == 0 {
        Seq::empty()
    } else {
        let b = spec_bucket(rot, ws[0].0);
        if cur == Some(b) {
            spec_bucket_trace(rot, ws.drop_first(), cur)
        } else {
            seq![b] + spec_bucket_trace(rot, ws.drop_first(), Some(b))
        }
    }
}

/// Whether a run's write times never move backwards.
pub open spec fn spec_times_nondecreasing(ws: Seq<(nat, Seq<u8>)>) -> bool {
    forall|i: int, j: int| 0 <= i < j < ws.len() ==> (#[trigger] ws[i]).0 <= (#[trigger] ws[j]).0
}

/// The bucket currently receiving writes, if a file is open.
pub open spec fn spec_active_bucket(v: RollView) -> Option<nat> {
    if v.files.len() == 0 {
        Option::None
    } else {
        Some(v.files.last().bucket)
    }
}

/// A later instant never falls in an earlier bucket.
proof fn lemma_bucket_monotone(rot: Rotation, t1: nat, t2: nat)
    requires
        t1 <= t2,
    ensures
        spec_bucket(rot, t1) <= spec_bucket(rot, t2),
{
    match rot {
        Rotation::Minutely => {
            vstd::arithmetic::div_mod::lemma_div_is_ordered(t1 as int, t2 as int, 60);
        },
        Rotation::Hourly => {
            vstd::arithmetic::div_mod::lemma_div_is_ordered(t1 as int, t2 as int, 3600);
        },
        Rotation::Daily => {
            vstd::arithmetic::div_mod::lemma_div_is_ordered(t1 as int, t2 as int, 86400);
        },
        Rotation::Never => {},
    }
}

/// A bucket no write of the run falls in collects nothing.
proof fn lemma_payload_absent(rot: Rotation, ws: Seq<(nat, Seq<u8>)>, b: nat)
    requires
        forall|k: int| 0 <= k < ws.len() ==> spec_bucket(rot, (#[trigger] ws[k]).0) != b,
    ensures
        spec_bucket_payload(rot, ws, b) =~= Seq::<u8>::empty(),
    decreases ws.len(),
{
    if ws.len() > 0 {
        assert(ws.drop_first() =~= ws.skip(1));
        assert(forall|k: int|
            0 <= k < ws.drop_first().len() ==> #[trigger] ws.drop_first()[k] == ws[k + 1]);
        lemma_payload_absent(rot, ws.drop_first(), b);
    }
}

/// Under a clock that never moves backwards and with no retention limit,
/// a run partitions its records exactly by bucket: the files that were
/// already closed stay untouched, the file that was active collects
/// precisely the remaining records of its own bucket, and one fresh file
/// appears per newly touched bucket, holding precisely that bucket's
/// records, in write order.
#[verifier::rlimit(100)]
pub proof fn lemma_roll_run_partition(v: RollView, ws: Seq<(nat, Seq<u8>)>)
    requires
        v.limit is None,
        spec_buckets_increasing(v.files),
        spec_times_nondecreasing(ws),
        v.files.len() > 0 ==> forall|k: int|
            0 <= k < ws.len() ==> v.files.last().bucket <= spec_bucket(
                v.rotation,
                (#[trigger] ws[k]).0,
            ),
    ensures
        spec_roll_run(v, ws).files.len() == v.files.len() + spec_bucket_trace(
            v.rotation,
            ws,
            spec_active_bucket(v),
        ).len(),
        forall|k: int|
            0 <= k < v.files.len() - 1 ==> #[trigger] spec_roll_run(v, ws).files[k] == v.files[k],
        v.files.len() > 0 ==> {
            let k = v.files.len() - 1;
            &&& spec_roll_run(v, ws).files[k].name == v.files[k].name
            &&& spec_roll_run(v, ws).files[k].bucket == v.files[k].bucket
            &&& spec_roll_run(v, ws).files[k].data =~= v.files[k].data + spec_bucket_payload(
                v.rotation,
                ws,
                v.files[k].bucket,
            )
        },
        forall|n: int|
            0 <= n < spec_bucket_trace(v.rotation, ws, spec_active_bucket(v)).len() ==> {
                &&& (#[trigger] spec_roll_run(v, ws).files[v.files.len() + n]).bucket
                    == spec_bucket_trace(v.rotation, ws, spec_active_bucket(v))[n]
                &&& spec_roll_run(v, ws).files[v.files.len() + n].data =~= spec_bucket_payload(
                    v.rotation,
                    ws,
                    spec_roll_run(v, ws).files[v.files.len() + n].bucket,
                )
            },
        spec_buckets_increasing(spec_roll_run(v, ws).files),
    decreases ws.len(),
{
    if ws.len() == 0 {
        if v.files.len() > 0 {
            let k = v.files.len() - 1;
            assert(spec_bucket_payload(v.rotation, ws, v.files[k].bucket)
                =~= Seq::<u8>::empty());
            assert(spec_roll_run(v, ws).files[k].data =~= v.files[k].data
                + spec_bucket_payload(v.rotation, ws, v.files[k].bucket));
        }
    } else {
        let rot = v.rotation;
        let w = ws[0];
        let b = spec_bucket(rot, w.0);
        let rest = ws.drop_first();
        let v1 = spec_roll_write(v, w.1, w.0);
        let r = spec_roll_run(v, ws);
        assert(r == spec_roll_run(v1, rest));
        assert(rest =~= ws.skip(1));
        assert(forall|k: int| 0 <= k < rest.len() ==> #[trigger] rest[k] == ws[k + 1]);
        assert(spec_times_nondecreasing(rest));
        assert forall|k: int| 0 <= k < rest.len() implies b <= spec_bucket(
            rot,
            (#[trigger] rest[k]).0,
        ) by {
            lemma_bucket_monotone(rot, w.0, rest[k].0);
        }
        if v.files.len() > 0 && v.files.last().bucket == b {
            // the record joins the active file
            assert(v1.files =~= v.files.update(
                v.files.len() - 1,
                LogFileView { data: v.files.last().data + w.1, ..v.files.last() },
            ));
            assert(spec_buckets_increasing(v1.files));
            assert(spec_active_bucket(v1) == Some(b));
            assert(spec_bucket_trace(rot, ws, spec_active_bucket(v)) == spec_bucket_trace(
                rot,
                rest,
                spec_active_bucket(v1),
            ));
            lemma_roll_run_partition(v1, rest);
            let k = v.files.len() - 1;
            assert(r.files[k].data =~= v1.files[k].data + spec_bucket_payload(
                rot,
                rest,
                v1.files[k].bucket,
            ));
            assert(r.files[k].data =~= v.files[k].data + spec_bucket_payload(
                rot,
                ws,
                v.files[k].bucket,
            ));
            assert forall|n: int|
                0 <= n < spec_bucket_trace(rot, ws, spec_active_bucket(v)).len() implies {
                &&& (#[trigger] r.files[v.files.len() + n]).bucket == spec_bucket_trace(
                    rot,
                    ws,
                    spec_active_bucket(v),
                )[n]
                &&& r.files[v.files.len() + n].data =~= spec_bucket_payload(
                    rot,
                    ws,
                    r.files[v.files.len() + n].bucket,
                )
            } by {
                let kk = v.files.len() + n;
                assert(r.files[kk].bucket == spec_bucket_trace(rot, rest, Some(b))[n]);
                assert(r.files[kk].data =~= spec_bucket_payload(rot, rest, r.files[kk].bucket));
                // a fresh file's bucket is newer than the one that was
                // active, so this record contributes nothing to it
                assert(r.files[kk].bucket != b);
                assert(spec_bucket_payload(rot, ws, r.files[kk].bucket) =~= spec_bucket_payload(
                    rot,
                    rest,
                    r.files[kk].bucket,
                ));
            }
        } else {
            // a fresh file is started for this record's bucket
            assert(spec_pruned(v.files, v.limit) == v.files);
            let nf = LogFileView {
                name: spec_file_name(rot, v.prefix, v.suffix, w.0),
                bucket: b,
                data: w.1,
            };
            assert(v1.files =~= v.files.push(nf));
            if v.files.len() > 0 {
                assert(v.files.last().bucket < b);
            }
            assert(spec_buckets_increasing(v1.files));
            assert(spec_active_bucket(v1) == Some(b));
            assert(spec_bucket_trace(rot, ws, spec_active_bucket(v)) == seq![b]
                + spec_bucket_trace(rot, rest, Some(b)));
            lemma_roll_run_partition(v1, rest);
            // files older than the previously active one are untouched
            assert forall|k: int| 0 <= k < v.files.len() - 1 implies #[trigger] r.files[k]
                == v.files[k] by {
                assert(r.files[k] == v1.files[k]);
            }
            if v.files.len() > 0 {
                // the previously active file is now closed: no record of
                // this run falls in its bucket any more
                let k = v.files.len() - 1;
                assert(r.files[k] == v1.files[k]);
                assert forall|m: int| 0 <= m < ws.len() implies spec_bucket(
                    rot,
                    (#[trigger] ws[m]).0,
                ) != v.files[k].bucket by {
                    if m == 0 {
                        assert(spec_bucket(rot, ws[0].0) == b);
                    } else {
                        lemma_bucket_monotone(rot, ws[0].0, ws[m].0);
                    }
                }
                lemma_payload_absent(rot, ws, v.files[k].bucket);
                assert(r.files[k].data =~= v.files[k].data + spec_bucket_payload(
                    rot,
                    ws,
                    v.files[k].bucket,
                ));
            }
            let tr = spec_bucket_trace(rot, ws, spec_active_bucket(v));
            assert forall|n: int| 0 <= n < tr.len() implies {
                &&& (#[trigger] r.files[v.files.len() + n]).bucket == tr[n]
                &&& r.files[v.files.len() + n].data =~= spec_bucket_payload(
                    rot,
                    ws,
                    r.files[v.files.len() + n].bucket,
                )
            } by {
                let kk = v.files.len() + n;
                if n == 0 {
                    // the fresh file itself: it was active through the rest
                    let j = v1.files.len() - 1;
                    assert(kk == j);
                    assert(r.files[j].bucket == nf.bucket);
                    assert(r.files[j].data =~= nf.data + spec_bucket_payload(rot, rest, b));
                    assert(spec_bucket_payload(rot, ws, b) =~= w.1 + spec_bucket_payload(
                        rot,
                        rest,
                        b,
                    ));
                    assert(r.files[j].data =~= spec_bucket_payload(rot, ws, b));
                } else {
                    // files of later buckets collect nothing from this record
                    let m = n - 1;
                    assert(0 <= m < spec_bucket_trace(rot, rest, Some(b)).len());
                    assert((spec_roll_run(v1, rest).files[v1.files.len() + m]).bucket
                        == spec_bucket_trace(rot, rest, Some(b))[m]);
                    assert(spec_roll_run(v1, rest).files[v1.files.len() + m].data
                        =~= spec_bucket_payload(
                        rot,
                        rest,
                        spec_roll_run(v1, rest).files[v1.files.len() + m].bucket,
                    ));
                    assert(v1.files.len() + m == kk);
                    assert(r.files[kk].bucket == spec_bucket_trace(rot, rest, Some(b))[n - 1]);
                    assert(r.files[kk].data =~= spec_bucket_payload(
                        rot,
                        rest,
                        r.files[kk].bucket,
                    ));
                    assert(r.files[kk].bucket != b);
                    assert(spec_bucket_payload(rot, ws, r.files[kk].bucket)
                        =~= spec_bucket_payload(rot, rest, r.files[kk].bucket));
                }
            }
        }
    }
}

} // verus!
