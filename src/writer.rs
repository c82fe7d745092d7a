//! The rotating durable writer: one append-only file per hour bucket, the old
//! file flushed and synced before the next bucket's file is opened.
//!
//! The writer decides; the caller carries out each `WritePlan` on the file
//! system in the order its fields are listed.
use vstd::prelude::*;
use crate::clock::{key_text, BucketKey, CaptureTime};
use crate::text::{push_char, push_text};

verus! {

/// What has gone into one file: its bucket, the records appended to it in
/// order, and whether it has been flushed and synced and then let go.
pub type FileLog = (BucketKey, Seq<Seq<char>>, bool);

/// `<prefix>-<exchange>-<YYYY-MM-DD_HHZ>.log`.
pub open spec fn file_name_spec(prefix: Seq<char>, exchange: Seq<char>, key: BucketKey) -> Seq<
    char,
> {
    prefix + seq!['-'] + exchange + seq!['-'] + key_text(key) + seq!['.', 'l', 'o', 'g']
}

/// The name of the file that holds the records of one bucket.
pub fn file_name(prefix: &str, exchange: &str, key: &BucketKey) -> (r: String)
    ensures
        r@ == file_name_spec(prefix@, exchange@, *key),
{
    let mut s = String::new();
    push_text(&mut s, prefix);
    push_char(&mut s, '-');
    push_text(&mut s, exchange);
    push_char(&mut s, '-');
    let k = key.text();
    push_text(&mut s, k.as_str());
    push_char(&mut s, '.');
    push_char(&mut s, 'l');
    push_char(&mut s, 'o');
    push_char(&mut s, 'g');
    assert(s@ =~= file_name_spec(prefix@, exchange@, *key));
    s
}

/// Whether the next record of bucket `key` continues the last file.
pub open spec fn continues(files: Seq<FileLog>, key: BucketKey) -> bool {
    files.len() > 0 && files.last().0 == key
}

/// The files with the last one, if any, marked synced and let go.
pub open spec fn sealed(files: Seq<FileLog>) -> Seq<FileLog> {
    if files.len() > 0 {
        files.update(files.len() - 1, (files.last().0, files.last().1, true))
    } else {
        files
    }
}

/// The files after one record of bucket `key`: appended to the last file when
/// that file is of the same bucket, else to a new file opened after the last
/// one was synced.
pub open spec fn stored(files: Seq<FileLog>, key: BucketKey, payload: Seq<char>) -> Seq<FileLog> {
    if continues(files, key) {
        files.update(files.len() - 1, (key, files.last().1.push(payload), false))
    } else {
        sealed(files).push((key, seq![payload], false))
    }
}

/// The files after a sequence of records, each a bucket and a payload.
pub open spec fn feed(files: Seq<FileLog>, recs: Seq<(BucketKey, Seq<char>)>) -> Seq<FileLog>
    decreases recs.len(),
{
    if recs.len() == 0 {
        files
    } else {
        stored(feed(files, recs.drop_last()), recs.last().0, recs.last().1)
    }
}

/// The payloads of a sequence of records, in order.
pub open spec fn payloads(recs: Seq<(BucketKey, Seq<char>)>) -> Seq<Seq<char>> {
    recs.map_values(|r: (BucketKey, Seq<char>)| r.1)
}

/// What the caller does for one record, in this order: flush and sync the open
/// file and let it go (`sync_current`); open the named file for appending,
/// creating it if absent (`open`); append `payload` to the open file.
pub struct WritePlan {
    pub sync_current: bool,
    pub open: Option<String>,
    pub payload: String,
}

pub struct RotatingWriter {
    pub prefix: String,
    pub exchange: String,
    /// The bucket of the open file, if a file is open.
    pub current: Option<BucketKey>,
    /// Every file opened so far, in order, with what was appended to it.
    pub files: Ghost<Seq<FileLog>>,
}

/// How one record of `payload`, captured at `time`, takes writer `w` to `v`
/// with `plan`: the record joins the file of its hour, the open file when that
/// is of the same hour, else a new file; the open file is synced first when one
/// is open and of another hour.
pub open spec fn recorded(
    w: RotatingWriter,
    time: CaptureTime,
    payload: Seq<char>,
    v: RotatingWriter,
    plan: WritePlan,
) -> bool {
    let key = time.bucket_spec();
    &&& v.prefix == w.prefix
    &&& v.exchange == w.exchange
    &&& v.current == Some(key)
    &&& v.files@ == stored(w.files@, key, payload)
    &&& plan.sync_current == (w.current is Some && w.current != Some(key))
    &&& plan.open is Some == (w.current != Some(key))
    &&& plan.open is Some ==> plan.open->0@ == file_name_spec(w.prefix@, w.exchange@, key)
    &&& plan.payload@ == payload
}

impl RotatingWriter {
    /// The open file is the last one, of bucket `current`, and every earlier
    /// file was synced before it was let go.
    pub open spec fn wf(&self) -> bool {
        &&& self.current == if self.files@.len() == 0 {
            None::<BucketKey>
        } else {
            Some(self.files@.last().0)
        }
        &&& forall|i: int| 0 <= i < self.files@.len() - 1 ==> #[trigger] self.files@[i].2
        &&& self.files@.len() > 0 ==> !self.files@.last().2
    }

    /// A writer with no file open.
    pub fn new(prefix: String, exchange: String) -> (r: RotatingWriter)
        ensures
            r.wf(),
            r.prefix == prefix,
            r.exchange == exchange,
            r.current is None,
            r.files@ == Seq::<FileLog>::empty(),
    {
        RotatingWriter { prefix, exchange, current: None, files: Ghost(Seq::empty()) }
    }

    /// Records `payload`, captured at `time`, in the file of its hour bucket.
    /// The payload is written as it is: the writer adds no delimiter.
    pub fn record(&mut self, time: &CaptureTime, payload: String) -> (plan: WritePlan)
        requires
            old(self).wf(),
        ensures
            final(self).wf(),
            recorded(*old(self), *time, payload@, *final(self), plan),
    {
        let key = time.bucket();
        let ghost files = self.files@;
        let same = match self.current {
            Some(k) => k == key,
            None => false,
        };
        let sync_current = !same && self.current.is_some();
        let open = if same {
            None
        } else {
            Some(file_name(self.prefix.as_str(), self.exchange.as_str(), &key))
        };
        self.current = Some(key);
        self.files = Ghost(stored(files, key, payload@));
        proof {
            let n = self.files@;
            assert forall|i: int| 0 <= i < n.len() - 1 implies #[trigger] n[i].2 by {
                if !continues(files, key) && i == files.len() - 1 {
                } else {
                    assert(n[i] == files[i]);
                }
            }
        }
        WritePlan { sync_current, open, payload }
    }
}

/// Records that all fall in one hour go, in arrival order and each once, to a
/// single file: the open one when it is of that hour, else one new file; no
/// other file changes.
pub proof fn lemma_same_hour_one_file(
    files: Seq<FileLog>,
    key: BucketKey,
    recs: Seq<(BucketKey, Seq<char>)>,
)
    requires
        recs.len() > 0,
        forall|i: int| 0 <= i < recs.len() ==> #[trigger] recs[i].0 == key,
    ensures
        continues(files, key) ==> feed(files, recs) == files.update(
            files.len() - 1,
            (key, files.last().1 + payloads(recs), false),
        ),
        !continues(files, key) ==> feed(files, recs) == sealed(files).push(
            (key, payloads(recs), false),
        ),
    decreases recs.len(),
{
    let init = recs.drop_last();
    let p = recs.last().1;
    assert(payloads(recs) =~= payloads(init).push(p));
    if init.len() == 0 {
        assert(feed(files, init) == files);
        assert(payloads(init) =~= Seq::<Seq<char>>::empty());
        assert(files.last().1 + payloads(recs) =~= files.last().1.push(p));
        assert(payloads(recs) =~= seq![p]);
    } else {
        assert forall|i: int| 0 <= i < init.len() implies #[trigger] init[i].0 == key by {
            assert(init[i] == recs[i]);
        }
        lemma_same_hour_one_file(files, key, init);
        assert(files.last().1 + payloads(recs) =~= (files.last().1 + payloads(init)).push(p));
        if continues(files, key) {
            assert(feed(files, recs) =~= files.update(
                files.len() - 1,
                (key, files.last().1 + payloads(recs), false),
            ));
        } else {
            assert(feed(files, recs) =~= sealed(files).push((key, payloads(recs), false)));
        }
    }
}

/// Once a file is let go, later records never change it: every file but the
/// last stays as it is.
pub proof fn lemma_closed_files_kept(files: Seq<FileLog>, recs: Seq<(BucketKey, Seq<char>)>)
    requires
        files.len() > 0,
    ensures
        feed(files, recs).len() >= files.len(),
        feed(files, recs).take(files.len() - 1) == files.take(files.len() - 1),
    decreases recs.len(),
{
    if recs.len() > 0 {
        let init = recs.drop_last();
        lemma_closed_files_kept(files, init);
        let f = feed(files, init);
        let key = recs.last().0;
        let p = recs.last().1;
        assert(stored(f, key, p).take(files.len() - 1) =~= f.take(files.len() - 1));
    }
}

/// Crossing into a new hour: the open file is flushed, synced and let go with
/// its contents as they were, a new file for the new bucket receives the
/// record, and no later record ever goes to the old file.
pub proof fn lemma_rotation(
    files: Seq<FileLog>,
    key: BucketKey,
    payload: Seq<char>,
    later: Seq<(BucketKey, Seq<char>)>,
)
    requires
        files.len() > 0,
        files.last().0 != key,
    ensures
        stored(files, key, payload).len() == files.len() + 1,
        stored(files, key, payload)[files.len() - 1] == (files.last().0, files.last().1, true),
        stored(files, key, payload).last() == (key, seq![payload], false),
        feed(stored(files, key, payload), later).take(files.len() as int) == sealed(files),
{
    let s = stored(files, key, payload);
    lemma_closed_files_kept(s, later);
    assert(s.take(files.len() as int) =~= sealed(files));
}


/// The records of a run of calls, each the bucket of its time and its payload.
pub open spec fn records_of(times: Seq<CaptureTime>, texts: Seq<Seq<char>>) -> Seq<
    (BucketKey, Seq<char>),
> {
    Seq::new(times.len(), |i: int| (times[i].bucket_spec(), texts[i]))
}

/// A run of `record` calls: call `i`, with `times[i]` and `texts[i]`, took
/// writer `ws[i]` to `ws[i + 1]` and returned `plans[i]`.
pub open spec fn run_of(
    ws: Seq<RotatingWriter>,
    times: Seq<CaptureTime>,
    texts: Seq<Seq<char>>,
    plans: Seq<WritePlan>,
) -> bool {
    &&& ws.len() == times.len() + 1
    &&& texts.len() == times.len()
    &&& plans.len() == times.len()
    &&& forall|i: int|
        #![trigger plans[i]]
        0 <= i < times.len() ==> recorded(ws[i], times[i], texts[i], ws[i + 1], plans[i])
}

proof fn lemma_run_feeds(
    ws: Seq<RotatingWriter>,
    times: Seq<CaptureTime>,
    texts: Seq<Seq<char>>,
    plans: Seq<WritePlan>,
    k: int,
)
    requires
        run_of(ws, times, texts, plans),
        0 <= k <= times.len(),
    ensures
        ws[k].files@ == feed(ws[0].files@, records_of(times, texts).take(k)),
    decreases k,
{
    if k > 0 {
        lemma_run_feeds(ws, times, texts, plans, k - 1);
        assert(records_of(times, texts).take(k).drop_last() =~= records_of(times, texts).take(
            k - 1,
        ));
        assert(recorded(ws[k - 1], times[k - 1], texts[k - 1], ws[k], plans[k - 1]));
    }
}

/// Over any run of `record` calls whose times all fall in one hour: every
/// payload goes, in call order and each once, to a single file (the open one
/// when it is of that hour, else one new file), no other file changes, and no
/// call after the first syncs or opens a file.
pub proof fn lemma_same_hour_calls(
    ws: Seq<RotatingWriter>,
    times: Seq<CaptureTime>,
    texts: Seq<Seq<char>>,
    plans: Seq<WritePlan>,
    key: BucketKey,
)
    requires
        run_of(ws, times, texts, plans),
        times.len() > 0,
        forall|i: int| 0 <= i < times.len() ==> #[trigger] times[i].bucket_spec() == key,
    ensures
        continues(ws[0].files@, key) ==> ws.last().files@ == ws[0].files@.update(
            ws[0].files@.len() - 1,
            (key, ws[0].files@.last().1 + texts, false),
        ),
        !continues(ws[0].files@, key) ==> ws.last().files@ == sealed(ws[0].files@).push(
            (key, texts, false),
        ),
        ws.last().current == Some(key),
        forall|i: int|
            1 <= i < plans.len() ==> !(#[trigger] plans[i]).sync_current && plans[i].open is None,
{
    let n = times.len() as int;
    let recs = records_of(times, texts);
    lemma_run_feeds(ws, times, texts, plans, n);
    assert(recs.take(n) =~= recs);
    assert forall|i: int| 0 <= i < recs.len() implies #[trigger] recs[i].0 == key by {
        assert(times[i].bucket_spec() == key);
    }
    lemma_same_hour_one_file(ws[0].files@, key, recs);
    assert(payloads(recs) =~= texts);
    assert(recorded(ws[n - 1], times[n - 1], texts[n - 1], ws[n], plans[n - 1]));
    assert forall|i: int| 1 <= i < plans.len() implies !(#[trigger] plans[i]).sync_current
        && plans[i].open is None by {
        assert(recorded(ws[i - 1], times[i - 1], texts[i - 1], ws[i], plans[i - 1]));
        assert(recorded(ws[i], times[i], texts[i], ws[i + 1], plans[i]));
        assert(times[i - 1].bucket_spec() == key);
        assert(times[i].bucket_spec() == key);
    }
}

} // verus!
