//! Pipelined connections: requests of one window (up to and including a
//! `Flush`) are numbered as they are read and answered concurrently; the
//! answers are put back in request order before they are written.

use std::collections::BTreeMap;

use vstd::prelude::*;
use vstd::std_specs::iter::IteratorSpec;

use crate::types::{Request, RequestValue, Response, ResponseFlush, ResponseValue};

verus! {

/// Whether a response answers a `Flush`.
pub open spec fn is_flush(r: Response) -> bool {
    r.value matches Some(ResponseValue::Flush(_))
}

/// Whether a response answers a `Flush`.
pub fn is_flush_reponse(resp: &Response) -> (b: bool)
    ensures
        b == is_flush(*resp),
{
    match resp.value {
        Some(ResponseValue::Flush(_)) => true,
        _ => false,
    }
}

/// The answer to a `Flush`.
pub fn build_flush_resp() -> (r: Response)
    ensures
        r == (Response { value: Some(ResponseValue::Flush(ResponseFlush {})) }),
        is_flush(r),
{
    Response { value: Some(ResponseValue::Flush(ResponseFlush {})) }
}

/// `k` is the smallest key of `m`.
pub open spec fn is_least_key(m: Map<usize, Response>, k: usize) -> bool {
    &&& m.dom().contains(k)
    &&& forall|j: usize| #[trigger] m.dom().contains(j) ==> k <= j
}

/// The smallest key of `m`, or 0 if `m` is empty.
pub open spec fn first_key(m: Map<usize, Response>) -> usize {
    if exists|k: usize| is_least_key(m, k) {
        choose|k: usize| is_least_key(m, k)
    } else {
        0
    }
}

/// The smallest packet number waiting in `resps`, or 0 if none waits.
pub fn first_index(resps: &BTreeMap<usize, Response>) -> (k: usize)
    ensures
        k == first_key(resps@),
        resps@.dom().len() > 0 ==> is_least_key(resps@, k),
{
    let ghost m = resps@;
    let ghost keys_of = |e: (&usize, &Response)| *e.0;
    let entries = resps.iter();
    assert(vstd::std_specs::btree::increasing_seq(entries.remaining().map_values(keys_of)));
    for kv in it: entries
        invariant
            it.index() == 0,
            m == resps@,
            forall|e: (&usize, &Response)| #[trigger] keys_of(e) == *e.0,
            vstd::std_specs::btree::increasing_seq(it.seq().map_values(keys_of)),
            it.seq() == vstd::std_specs::btree::spec_btree_map_iter(resps).remaining(),
    {
        let k = *kv.0;
        proof {
            let rem = it.seq();
            assert(rem[0] == kv);
            assert(resps@.dom().contains(k));
            assert forall|j: usize| #[trigger] resps@.dom().contains(j) implies k <= j by {
                assert(rem.contains((&j, &resps@[j])));
                let i = choose|i: int| 0 <= i < rem.len() && rem[i] == (&j, &resps@[j]);
                if i > 0 {
                    let keys = rem.map_values(keys_of);
                    assert(keys[0] == keys_of(rem[0]));
                    assert(keys[i] == keys_of(rem[i]));
                    assert(vstd::std_specs::cmp::OrdSpec::cmp_spec(&keys[0], &keys[i]) is Less);
                }
            }
            assert(is_least_key(resps@, k));
        }
        return k;
    }
    proof {
        assert(resps@.dom() =~= Set::empty());
    }
    0
}


/// What leaves the reorder buffer when `m` waits and `latest` was the last
/// packet number written: as long as the smallest waiting number follows
/// `latest`, that response is written next. A `Flush` answer is written
/// and ends the window: nothing waits afterwards and numbering restarts.
/// Returns the responses written, in order, what still waits, and the new
/// last number.
pub open spec fn release(m: Map<usize, Response>, latest: int) -> (Seq<Response>, Map<usize, Response>, int)
    decreases m.dom().len(),
{
    let k = first_key(m);
    if m.dom().finite() && m.dom().contains(k) && k == latest + 1 {
        let v = m[k];
        if is_flush(v) {
            (seq![v], Map::empty(), 0)
        } else {
            let r = release(m.remove(k), k as int);
            (seq![v] + r.0, r.1, r.2)
        }
    } else {
        (Seq::empty(), m, latest)
    }
}

/// Puts the answers of one connection back in request order: answers come
/// in tagged with their packet number, in any order, and are written only
/// once every answer before them has been written.
pub struct ReorderBuffer {
    resps: BTreeMap<usize, Response>,
    latest: usize,
}

/// The mathematical value of a `ReorderBuffer`: the answers waiting, by
/// packet number, and the number of the last answer written (0 when none
/// was written in the current window).
pub struct ReorderModel {
    pub waiting: Map<usize, Response>,
    pub latest: int,
}

impl View for ReorderBuffer {
    type V = ReorderModel;

    closed spec fn view(&self) -> ReorderModel {
        ReorderModel { waiting: self.resps@, latest: self.latest as int }
    }
}

/// The buffer after `on_response(id, resp)`, and what it writes.
pub open spec fn after_response(b: ReorderModel, id: usize, resp: Response) -> (Seq<Response>, ReorderModel) {
    let r = release(b.waiting.insert(id, resp), b.latest);
    (r.0, ReorderModel { waiting: r.1, latest: r.2 })
}

impl ReorderBuffer {
    /// An empty buffer at the start of a window.
    pub fn new() -> (b: Self)
        ensures
            b@ == (ReorderModel { waiting: Map::empty(), latest: 0 }),
    {
        ReorderBuffer { resps: BTreeMap::new(), latest: 0 }
    }

    /// Takes the answer numbered `id` and returns the answers that may now
    /// be written, in the order they must be written.
    pub fn on_response(&mut self, id: usize, resp: Response) -> (out: Vec<Response>)
        ensures
            (out@, final(self)@) == after_response(old(self)@, id, resp),
    {
        let ghost total = release(old(self).resps@.insert(id, resp), old(self).latest as int);
        self.resps.insert(id, resp);
        let mut out: Vec<Response> = Vec::new();
        let mut first = first_index(&self.resps);
        while first >= 1 && first - 1 == self.latest
            invariant
                first == first_key(self.resps@),
                self.resps@.dom().len() > 0 ==> is_least_key(self.resps@, first),
                self.resps@.dom().finite(),
                ({
                    let r = release(self.resps@, self.latest as int);
                    (out@ + r.0, r.1, r.2) == total
                }),
            decreases self.resps@.dom().len(),
        {
            proof {
                assert(self.resps@.dom().contains(first));
            }
            let ghost before = self.resps@;
            let ghost out_before = out@;
            let v = self.resps.remove(&first).unwrap();
            proof {
                assert(v == before[first]);
                assert(self.resps@ == before.remove(first));
            }
            if is_flush_reponse(&v) {
                self.resps.clear();
                self.latest = 0;
                first = 0;
            }
            out.push(v);
            self.latest = first;
            first = first_index(&self.resps);
            proof {
                if is_flush(v) {
                    assert(self.resps@ =~= Map::empty());
                    assert(out@ + Seq::<Response>::empty() == out_before + seq![v]);
                } else {
                    let r = release(self.resps@, self.latest as int);
                    assert(out@ + r.0 == out_before + (seq![v] + r.0));
                }
            }
        }
        proof {
            let r = release(self.resps@, self.latest as int);
            if self.resps@.dom().contains(first_key(self.resps@)) {
                assert(self.resps@.dom().len() > 0);
            }
            assert(r.0 == Seq::<Response>::empty());
            assert(out@ + r.0 == out@);
        }
        out
    }
}


/// What to do with a request just read from a pipelined connection.
#[derive(Debug)]
pub enum ReadAction {
    /// Answer the request concurrently; its answer carries number `id`.
    Dispatch { id: usize, request: Request },
    /// Keep the request (an `EndBlock`) until the window's `Flush`.
    Hold,
    /// The window is complete: answer the kept `EndBlock`, if any, under
    /// its number, then answer the `Flush` under `flush_id`, which is also
    /// the number of answers the window produces.
    Flush { end_block: Option<(usize, Request)>, flush_id: usize },
}

/// Numbers the requests of a window as they are read. Every request but
/// `EndBlock` and `Flush` is numbered at once; the last `EndBlock` read is
/// kept and numbered when the `Flush` arrives, just before the `Flush`.
pub struct WindowReader {
    packet_num: usize,
    end_block: Option<Request>,
}

/// The mathematical value of a `WindowReader`: how many numbers the window
/// has handed out, and the `EndBlock` kept.
pub struct ReaderModel {
    pub count: int,
    pub held: Option<Request>,
}

impl View for WindowReader {
    type V = ReaderModel;

    closed spec fn view(&self) -> ReaderModel {
        ReaderModel { count: self.packet_num as int, held: self.end_block }
    }
}

/// The reader at the start of a window.
pub open spec fn fresh_reader() -> ReaderModel {
    ReaderModel { count: 0, held: None }
}

/// The action for a request read, and the reader afterwards.
pub open spec fn read_step(r: ReaderModel, req: Request) -> (ReadAction, ReaderModel) {
    match req.value {
        Some(RequestValue::EndBlock(_)) => (ReadAction::Hold, ReaderModel { held: Some(req), ..r }),
        Some(RequestValue::Flush(_)) => match r.held {
            Some(h) => (
                ReadAction::Flush {
                    end_block: Some(((r.count + 1) as usize, h)),
                    flush_id: (r.count + 2) as usize,
                },
                fresh_reader(),
            ),
            None => (
                ReadAction::Flush { end_block: None, flush_id: (r.count + 1) as usize },
                fresh_reader(),
            ),
        },
        _ => (
            ReadAction::Dispatch { id: (r.count + 1) as usize, request: req },
            ReaderModel { count: r.count + 1, ..r },
        ),
    }
}

impl WindowReader {
    /// A reader at the start of a window.
    pub fn new() -> (r: Self)
        ensures
            r@ == fresh_reader(),
    {
        WindowReader { packet_num: 0, end_block: None }
    }

    /// Whether two more numbers can be handed out in this window.
    pub fn has_room(&self) -> (b: bool)
        ensures
            b == (self@.count + 2 <= usize::MAX),
    {
        self.packet_num < usize::MAX - 1
    }

    /// Takes the next request read and says what to do with it.
    pub fn on_request(&mut self, req: Request) -> (a: ReadAction)
        requires
            old(self)@.count + 2 <= usize::MAX,
        ensures
            (a, final(self)@) == read_step(old(self)@, req),
            a matches ReadAction::Dispatch { id, request } ==> request == req && id == old(self)@.count + 1,
            a is Hold ==> final(self)@.held == Some(req),
            a matches ReadAction::Flush { end_block: Some((id, h)), .. } ==> old(self)@.held == Some(h),
    {
        match req.value {
            Some(RequestValue::EndBlock(_)) => {
                self.end_block = Some(req);
                ReadAction::Hold
            },
            Some(RequestValue::Flush(_)) => {
                let mut held: Option<Request> = None;
                std::mem::swap(&mut held, &mut self.end_block);
                let end_block = match held {
                    Some(r) => {
                        self.packet_num = self.packet_num + 1;
                        Some((self.packet_num, r))
                    },
                    None => None,
                };
                self.packet_num = self.packet_num + 1;
                let flush_id = self.packet_num;
                self.packet_num = 0;
                ReadAction::Flush { end_block, flush_id }
            },
            _ => {
                self.packet_num = self.packet_num + 1;
                ReadAction::Dispatch { id: self.packet_num, request: req }
            },
        }
    }
}


// ---------------------------------------------------------------------------
// Laws of the reorder buffer
// ---------------------------------------------------------------------------

/// An empty buffer at the start of a window.
pub open spec fn empty_buffer() -> ReorderModel {
    ReorderModel { waiting: Map::empty(), latest: 0 }
}

/// Feeds numbered answers to the buffer one after the other; returns all
/// that was written, in order, and the buffer afterwards.
pub open spec fn deliver_all(b: ReorderModel, ds: Seq<(usize, Response)>) -> (Seq<Response>, ReorderModel)
    decreases ds.len(),
{
    if ds.len() == 0 {
        (Seq::empty(), b)
    } else {
        let first = after_response(b, ds[0].0, ds[0].1);
        let rest = deliver_all(first.1, ds.drop_first());
        (first.0 + rest.0, rest.1)
    }
}

/// The answers of one window, in request order: the `Flush` answer comes
/// last and only there.
pub open spec fn is_window_answers(rs: Seq<Response>) -> bool {
    &&& rs.len() > 0
    &&& rs.len() <= usize::MAX
    &&& is_flush(rs.last())
    &&& forall|i: int| 0 <= i < rs.len() - 1 ==> !is_flush(#[trigger] rs[i])
}

/// `ds` hands every answer of `rs` to the buffer exactly once, in any
/// order, answer `rs[k - 1]` under number `k`.
pub open spec fn is_numbered_shuffle(rs: Seq<Response>, ds: Seq<(usize, Response)>) -> bool {
    &&& ds.len() == rs.len()
    &&& forall|i: int| 0 <= i < ds.len() ==> 1 <= (#[trigger] ds[i]).0 <= rs.len() && ds[i].1 == rs[ds[i].0 - 1]
    &&& forall|i: int, j: int| 0 <= i < ds.len() && 0 <= j < ds.len() && i != j ==> (#[trigger] ds[i]).0 != (#[trigger] ds[j]).0
    &&& forall|k: usize| 1 <= k <= rs.len() ==> #[trigger] delivered(ds, ds.len() as int, k)
}

/// Number `k` is among the first `i` deliveries.
pub open spec fn delivered(ds: Seq<(usize, Response)>, i: int, k: usize) -> bool {
    exists|j: int| 0 <= j < i && (#[trigger] ds[j]).0 == k
}

/// The buffer midway through a window: every answer up to `latest` has
/// been written in order, the one after it has not arrived, and exactly
/// the arrived answers beyond it wait.
spec fn midway(rs: Seq<Response>, d: Set<usize>, out: Seq<Response>, b: ReorderModel) -> bool {
    &&& 0 <= b.latest < rs.len()
    &&& out == rs.take(b.latest)
    &&& forall|k: usize| 1 <= k <= b.latest ==> #[trigger] d.contains(k)
    &&& !d.contains((b.latest + 1) as usize)
    &&& b.waiting.dom().finite()
    &&& forall|k: usize| #[trigger] b.waiting.dom().contains(k) <==> (d.contains(k) && k > b.latest)
    &&& forall|k: usize| #[trigger] b.waiting.dom().contains(k) ==> b.waiting[k] == rs[k - 1]
}

/// The buffer after the whole window was written.
spec fn finished(rs: Seq<Response>, d: Set<usize>, out: Seq<Response>, b: ReorderModel) -> bool {
    &&& out == rs
    &&& b == empty_buffer()
    &&& forall|k: usize| 1 <= k <= rs.len() ==> #[trigger] d.contains(k)
}

/// Releasing from a midway buffer writes the next run of consecutive
/// answers, and either stops midway or, on reaching the `Flush`, finishes.
proof fn lemma_release_run(rs: Seq<Response>, d: Set<usize>, m: Map<usize, Response>, latest: int)
    requires
        is_window_answers(rs),
        0 <= latest < rs.len(),
        forall|k: usize| 1 <= k <= latest ==> #[trigger] d.contains(k),
        forall|k: usize| #[trigger] d.contains(k) ==> 1 <= k <= rs.len(),
        m.dom().finite(),
        forall|k: usize| #[trigger] m.dom().contains(k) <==> (d.contains(k) && k > latest),
        forall|k: usize| #[trigger] m.dom().contains(k) ==> m[k] == rs[k - 1],
    ensures
        ({
            let r = release(m, latest);
            ||| (latest <= r.2 && midway(rs, d, rs.take(latest) + r.0, ReorderModel { waiting: r.1, latest: r.2 }))
            ||| finished(rs, d, rs.take(latest) + r.0, ReorderModel { waiting: r.1, latest: r.2 })
        }),
    decreases m.dom().len(),
{
    let next = (latest + 1) as usize;
    let r = release(m, latest);
    if d.contains(next) {
        assert(m.dom().contains(next));
        assert(is_least_key(m, next));
        assert(first_key(m) == next);
        let v = m[next];
        assert(v == rs[latest]);
        if latest == rs.len() - 1 {
            assert(is_flush(v));
            assert(r == (seq![v], Map::<usize, Response>::empty(), 0int));
            assert(rs.take(latest) + seq![v] =~= rs);
            assert(Map::<usize, Response>::empty() == empty_buffer().waiting);
            assert forall|k: usize| 1 <= k <= rs.len() implies #[trigger] d.contains(k) by {
                if k <= latest {
                } else {
                    assert(k == next);
                }
            }
        } else {
            assert(!is_flush(v));
            let m2 = m.remove(next);
            assert forall|k: usize| #[trigger] m2.dom().contains(k) <==> (d.contains(k) && k > latest + 1) by {}
            assert forall|k: usize| 1 <= k <= latest + 1 implies #[trigger] d.contains(k) by {
                if k == next {
                }
            }
            lemma_release_run(rs, d, m2, latest + 1);
            let r2 = release(m2, latest + 1);
            assert(r.0 == seq![v] + r2.0);
            assert(rs.take(latest) + (seq![v] + r2.0) =~= rs.take(latest + 1) + r2.0);
        }
    } else {
        assert(!m.dom().contains(next));
        assert(r == (Seq::<Response>::empty(), m, latest));
        assert(rs.take(latest) + Seq::<Response>::empty() == rs.take(latest));
    }
}

/// The set of numbers among the first `i` deliveries.
spec fn delivered_set(ds: Seq<(usize, Response)>, i: int) -> Set<usize> {
    Set::new(|k: usize| delivered(ds, i, k))
}

/// Delivering the rest of a window from a midway or finished buffer writes
/// the rest of the answers and empties the buffer.
proof fn lemma_deliver_rest(
    rs: Seq<Response>,
    ds: Seq<(usize, Response)>,
    i: int,
    out: Seq<Response>,
    b: ReorderModel,
)
    requires
        is_window_answers(rs),
        is_numbered_shuffle(rs, ds),
        0 <= i <= ds.len(),
        midway(rs, delivered_set(ds, i), out, b) || finished(rs, delivered_set(ds, i), out, b),
    ensures
        ({
            let r = deliver_all(b, ds.subrange(i, ds.len() as int));
            out + r.0 == rs && r.1 == empty_buffer()
        }),
    decreases ds.len() - i,
{
    let n = rs.len();
    let d = delivered_set(ds, i);
    let rest = ds.subrange(i, ds.len() as int);
    if i == ds.len() {
        assert(rest.len() == 0);
        if midway(rs, d, out, b) {
            let k = (b.latest + 1) as usize;
            assert(1 <= k <= n);
            let j = choose|j: int| 0 <= j < ds.len() && (#[trigger] ds[j]).0 == k;
            assert(delivered(ds, i, k));
            assert(d.contains(k));
        }
        assert(out + Seq::<Response>::empty() == out);
    } else {
        let (k, r) = ds[i];
        assert(rest[0] == ds[i]);
        assert(rest.drop_first() =~= ds.subrange(i + 1, ds.len() as int));
        let d2 = delivered_set(ds, i + 1);
        assert forall|x: usize| #[trigger] d2.contains(x) <==> (d.contains(x) || x == k) by {
            if d2.contains(x) {
                let j = choose|j: int| 0 <= j < i + 1 && (#[trigger] ds[j]).0 == x;
                if j < i {
                    assert(delivered(ds, i, x));
                }
            }
            if d.contains(x) {
                let j = choose|j: int| 0 <= j < i && (#[trigger] ds[j]).0 == x;
                assert(delivered(ds, i + 1, x));
            }
            if x == k {
                assert(ds[i].0 == x);
                assert(delivered(ds, i + 1, x));
            }
        }
        assert(!d.contains(k)) by {
            if d.contains(k) {
                let j = choose|j: int| 0 <= j < i && (#[trigger] ds[j]).0 == k;
                assert(ds[j].0 == ds[i].0);
            }
        }
        assert forall|x: usize| #[trigger] d2.contains(x) implies 1 <= x <= n by {
            let j = choose|j: int| 0 <= j < i + 1 && (#[trigger] ds[j]).0 == x;
        }
        assert(1 <= k <= n);
        assert(r == rs[k - 1]);
        if finished(rs, d, out, b) {
            assert(d.contains(k));
        }
        assert(midway(rs, d, out, b));
        let m = b.waiting.insert(k, r);
        assert(k > b.latest);
        assert forall|x: usize| #[trigger] m.dom().contains(x) <==> (d2.contains(x) && x > b.latest) by {}
        assert forall|x: usize| 1 <= x <= b.latest implies #[trigger] d2.contains(x) by {
            assert(d.contains(x));
        }
        lemma_release_run(rs, d2, m, b.latest);
        let step = after_response(b, k, r);
        let rel = release(m, b.latest);
        assert(step.0 == rel.0);
        let out2 = out + step.0;
        assert(out2 == rs.take(b.latest) + rel.0);
        lemma_deliver_rest(rs, ds, i + 1, out2, step.1);
        let tail = deliver_all(step.1, ds.subrange(i + 1, ds.len() as int));
        assert(deliver_all(b, rest) == (step.0 + tail.0, tail.1));
        assert(out + (step.0 + tail.0) == out2 + tail.0);
    }
}

/// Law: whatever order the answers of a window arrive in, the buffer
/// writes them in request order, the `Flush` answer last, and is empty
/// again afterwards, ready for the next window.
pub proof fn lemma_answers_written_in_order(rs: Seq<Response>, ds: Seq<(usize, Response)>)
    requires
        is_window_answers(rs),
        is_numbered_shuffle(rs, ds),
    ensures
        deliver_all(empty_buffer(), ds) == (rs, empty_buffer()),
{
    let d = delivered_set(ds, 0);
    assert forall|k: usize| !d.contains(k) by {}
    assert(empty_buffer().waiting.dom() =~= Set::empty());
    assert(rs.take(0) =~= Seq::<Response>::empty());
    assert(midway(rs, d, Seq::empty(), empty_buffer()));
    lemma_deliver_rest(rs, ds, 0, Seq::empty(), empty_buffer());
    assert(ds.subrange(0, ds.len() as int) =~= ds);
    assert(Seq::<Response>::empty() + deliver_all(empty_buffer(), ds).0 == deliver_all(empty_buffer(), ds).0);
}


// ---------------------------------------------------------------------------
// Laws of the window reader
// ---------------------------------------------------------------------------

/// Reads requests one after the other; returns the actions, in order, and
/// the reader afterwards.
pub open spec fn read_all(r: ReaderModel, ws: Seq<Request>) -> (Seq<ReadAction>, ReaderModel)
    decreases ws.len(),
{
    if ws.len() == 0 {
        (Seq::empty(), r)
    } else {
        let first = read_step(r, ws[0]);
        let rest = read_all(first.1, ws.drop_first());
        (seq![first.0] + rest.0, rest.1)
    }
}

/// The answer numbers an action hands out, in the order the answers are
/// produced.
pub open spec fn action_ids(a: ReadAction) -> Seq<usize> {
    match a {
        ReadAction::Dispatch { id, .. } => seq![id],
        ReadAction::Hold => Seq::empty(),
        ReadAction::Flush { end_block, flush_id } => match end_block {
            Some((id, _)) => seq![id, flush_id],
            None => seq![flush_id],
        },
    }
}

/// The answer numbers a sequence of actions hands out.
pub open spec fn all_ids(acts: Seq<ReadAction>) -> Seq<usize>
    decreases acts.len(),
{
    if acts.len() == 0 {
        Seq::empty()
    } else {
        action_ids(acts[0]) + all_ids(acts.drop_first())
    }
}

/// The numbers `lo, lo + 1, ..., hi - 1`.
pub open spec fn number_range(lo: int, hi: int) -> Seq<usize> {
    Seq::new((hi - lo) as nat, |i: int| (lo + i) as usize)
}

/// Whether a request is a `Flush`.
pub open spec fn is_flush_request(r: Request) -> bool {
    r.value matches Some(RequestValue::Flush(_))
}

/// One window as read from the connection: requests up to and including
/// the first `Flush`.
pub open spec fn is_window(ws: Seq<Request>) -> bool {
    &&& ws.len() > 0
    &&& is_flush_request(ws.last())
    &&& forall|i: int| 0 <= i < ws.len() - 1 ==> !is_flush_request(#[trigger] ws[i])
}

proof fn lemma_read_rest(r: ReaderModel, ws: Seq<Request>)
    requires
        is_window(ws),
        r.count >= 0,
        r.count + ws.len() + 1 <= usize::MAX,
    ensures
        ({
            let (acts, r2) = read_all(r, ws);
            &&& r2 == fresh_reader()
            &&& acts.len() == ws.len()
            &&& acts.last() is Flush
            &&& r.count + 1 <= acts.last()->flush_id
            &&& all_ids(acts) == number_range(r.count + 1, acts.last()->flush_id + 1)
        }),
    decreases ws.len(),
{
    let (a, r1) = read_step(r, ws[0]);
    let (acts, r2) = read_all(r, ws);
    if ws.len() == 1 {
        assert(ws[0] == ws.last());
        assert(ws.drop_first().len() == 0);
        assert(acts == seq![a]);
        assert(all_ids(acts) == action_ids(a) + all_ids(acts.drop_first()));
        assert(acts.drop_first().len() == 0);
        assert(action_ids(a) + Seq::<usize>::empty() == action_ids(a));
        match a {
            ReadAction::Flush { end_block, flush_id } => {
                match end_block {
                    Some((id, _)) => {
                        assert(action_ids(a) =~= number_range(r.count + 1, flush_id + 1));
                    },
                    None => {
                        assert(action_ids(a) =~= number_range(r.count + 1, flush_id + 1));
                    },
                }
            },
            _ => {},
        }
    } else {
        assert(!is_flush_request(ws[0]));
        let ws2 = ws.drop_first();
        assert(ws2.last() == ws.last());
        assert forall|i: int| 0 <= i < ws2.len() - 1 implies !is_flush_request(#[trigger] ws2[i]) by {
            assert(ws2[i] == ws[i + 1]);
        }
        lemma_read_rest(r1, ws2);
        let (acts2, r3) = read_all(r1, ws2);
        assert(acts == seq![a] + acts2);
        assert(acts.last() == acts2.last());
        assert(acts.drop_first() =~= acts2);
        let n = acts2.last()->flush_id;
        match a {
            ReadAction::Dispatch { id, .. } => {
                assert(action_ids(a) + number_range(r.count + 2, n + 1) =~= number_range(r.count + 1, n + 1));
            },
            _ => {
                assert(action_ids(a) + number_range(r.count + 1, n + 1) =~= number_range(r.count + 1, n + 1));
            },
        }
    }
}

/// Law: reading one window from the start hands out the answer numbers
/// `1, 2, ..., n` exactly once each, in read order, where `n`, the number
/// of the `Flush` answer, is the last; the kept `EndBlock` is numbered
/// just before the `Flush`, and the reader is ready for the next window.
pub proof fn lemma_window_numbering(ws: Seq<Request>)
    requires
        is_window(ws),
        ws.len() + 1 <= usize::MAX,
    ensures
        ({
            let (acts, r2) = read_all(fresh_reader(), ws);
            &&& r2 == fresh_reader()
            &&& acts.len() == ws.len()
            &&& acts.last() is Flush
            &&& 1 <= acts.last()->flush_id
            &&& all_ids(acts) == number_range(1, acts.last()->flush_id + 1)
        }),
{
    lemma_read_rest(fresh_reader(), ws);
}


/// Whether a request is an `EndBlock`.
pub open spec fn is_end_block_request(r: Request) -> bool {
    r.value matches Some(RequestValue::EndBlock(_))
}

/// How many requests of `ws` are neither `EndBlock` nor `Flush`.
pub open spec fn dispatched_count(ws: Seq<Request>) -> int
    decreases ws.len(),
{
    if ws.len() == 0 {
        0
    } else {
        (if is_end_block_request(ws[0]) || is_flush_request(ws[0]) { 0int } else { 1int })
            + dispatched_count(ws.drop_first())
    }
}

/// Whether `ws` holds an `EndBlock`.
pub open spec fn has_end_block(ws: Seq<Request>) -> bool
    decreases ws.len(),
{
    if ws.len() == 0 {
        false
    } else {
        is_end_block_request(ws[0]) || has_end_block(ws.drop_first())
    }
}

proof fn lemma_flush_number_rest(r: ReaderModel, ws: Seq<Request>)
    requires
        is_window(ws),
        r.count >= 0,
        r.count + ws.len() + 1 <= usize::MAX,
    ensures
        read_all(r, ws).0.last() is Flush,
        read_all(r, ws).0.last()->flush_id == r.count + dispatched_count(ws)
            + (if r.held is Some || has_end_block(ws) { 1int } else { 0int }) + 1,
    decreases ws.len(),
{
    lemma_read_rest(r, ws);
    let (a, r1) = read_step(r, ws[0]);
    let (acts, r2) = read_all(r, ws);
    if ws.len() == 1 {
        assert(ws[0] == ws.last());
        assert(ws.drop_first().len() == 0);
        assert(dispatched_count(ws.drop_first()) == 0);
        assert(!has_end_block(ws.drop_first()));
        assert(read_all(r1, ws.drop_first()).0.len() == 0);
        assert(acts =~= seq![a]);
    } else {
        let ws2 = ws.drop_first();
        assert(!is_flush_request(ws[0]));
        assert(ws2.last() == ws.last());
        assert forall|i: int| 0 <= i < ws2.len() - 1 implies !is_flush_request(#[trigger] ws2[i]) by {
            assert(ws2[i] == ws[i + 1]);
        }
        lemma_flush_number_rest(r1, ws2);
        lemma_read_rest(r1, ws2);
        let (acts2, r3) = read_all(r1, ws2);
        assert(acts == seq![a] + acts2);
        assert(acts.last() == acts2.last());
    }
}

/// Law: the number of a window's `Flush` answer, which is also the number
/// of answers the window produces, is the number of its requests that are
/// neither `EndBlock` nor `Flush`, plus one if it holds an `EndBlock`,
/// plus one for the `Flush`.
pub proof fn lemma_window_count(ws: Seq<Request>)
    requires
        is_window(ws),
        ws.len() + 1 <= usize::MAX,
    ensures
        read_all(fresh_reader(), ws).0.last() is Flush,
        read_all(fresh_reader(), ws).0.last()->flush_id == dispatched_count(ws)
            + (if has_end_block(ws) { 1int } else { 0int }) + 1,
{
    lemma_flush_number_rest(fresh_reader(), ws);
}

/// The requests of `ws` that are neither `EndBlock` nor `Flush`, in order.
pub open spec fn plain_requests(ws: Seq<Request>) -> Seq<Request>
    decreases ws.len(),
{
    if ws.len() == 0 {
        Seq::empty()
    } else if is_end_block_request(ws[0]) || is_flush_request(ws[0]) {
        plain_requests(ws.drop_first())
    } else {
        seq![ws[0]] + plain_requests(ws.drop_first())
    }
}

/// The last `EndBlock` of `ws`, or `held` if `ws` has none.
pub open spec fn last_end_block(ws: Seq<Request>, held: Option<Request>) -> Option<Request>
    decreases ws.len(),
{
    if ws.len() == 0 {
        held
    } else if is_end_block_request(ws[0]) {
        last_end_block(ws.drop_first(), Some(ws[0]))
    } else {
        last_end_block(ws.drop_first(), held)
    }
}

/// The requests that a sequence of actions sends to the application
/// concurrently, in order.
pub open spec fn dispatched_requests(acts: Seq<ReadAction>) -> Seq<Request>
    decreases acts.len(),
{
    if acts.len() == 0 {
        Seq::empty()
    } else {
        match acts[0] {
            ReadAction::Dispatch { request, .. } => seq![request] + dispatched_requests(acts.drop_first()),
            _ => dispatched_requests(acts.drop_first()),
        }
    }
}

/// The `EndBlock` request an action hands out at the window's end.
pub open spec fn flushed_end_block(a: ReadAction) -> Option<Request> {
    match a {
        ReadAction::Flush { end_block: Some((_, h)), .. } => Some(h),
        _ => None,
    }
}

proof fn lemma_requests_rest(r: ReaderModel, ws: Seq<Request>)
    requires
        is_window(ws),
        r.count >= 0,
        r.count + ws.len() + 1 <= usize::MAX,
    ensures
        dispatched_requests(read_all(r, ws).0) == plain_requests(ws),
        flushed_end_block(read_all(r, ws).0.last()) == last_end_block(ws, r.held),
    decreases ws.len(),
{
    lemma_read_rest(r, ws);
    let (a, r1) = read_step(r, ws[0]);
    let (acts, r2) = read_all(r, ws);
    assert(acts[0] == a);
    if ws.len() == 1 {
        assert(ws[0] == ws.last());
        assert(ws.drop_first().len() == 0);
        assert(read_all(r1, ws.drop_first()).0.len() == 0);
        assert(acts =~= seq![a]);
        assert(acts.drop_first().len() == 0);
        assert(plain_requests(ws.drop_first()).len() == 0);
        assert(dispatched_requests(acts.drop_first()).len() == 0);
        assert(is_flush_request(ws[0]));
        assert(a is Flush);
        assert(dispatched_requests(acts) == dispatched_requests(acts.drop_first()));
        assert(plain_requests(ws) == plain_requests(ws.drop_first()));
        assert(dispatched_requests(acts) =~= plain_requests(ws));
        assert(last_end_block(ws, r.held) == last_end_block(ws.drop_first(), r.held));
        assert(acts.last() == a);
    } else {
        let ws2 = ws.drop_first();
        assert(!is_flush_request(ws[0]));
        assert(ws2.last() == ws.last());
        assert forall|i: int| 0 <= i < ws2.len() - 1 implies !is_flush_request(#[trigger] ws2[i]) by {
            assert(ws2[i] == ws[i + 1]);
        }
        lemma_requests_rest(r1, ws2);
        lemma_read_rest(r1, ws2);
        let (acts2, r3) = read_all(r1, ws2);
        assert(acts == seq![a] + acts2);
        assert(acts.drop_first() =~= acts2);
        assert(acts.last() == acts2.last());
        if is_end_block_request(ws[0]) {
            assert(a is Hold);
            assert(dispatched_requests(acts) == dispatched_requests(acts2));
            assert(plain_requests(ws) == plain_requests(ws2));
            assert(last_end_block(ws, r.held) == last_end_block(ws2, Some(ws[0])));
        } else {
            assert(a == ReadAction::Dispatch { id: (r.count + 1) as usize, request: ws[0] });
            assert(dispatched_requests(acts) == seq![ws[0]] + dispatched_requests(acts2));
            assert(plain_requests(ws) == seq![ws[0]] + plain_requests(ws2));
            assert(last_end_block(ws, r.held) == last_end_block(ws2, r.held));
            assert(r1.held == r.held);
        }
    }
}

/// Law: reading a window sends the application exactly the window's
/// requests that are neither `EndBlock` nor `Flush`, unchanged and in read
/// order, and hands out at the `Flush` exactly the last `EndBlock` read
/// (none if the window holds no `EndBlock`).
pub proof fn lemma_window_requests_unchanged(ws: Seq<Request>)
    requires
        is_window(ws),
        ws.len() + 1 <= usize::MAX,
    ensures
        dispatched_requests(read_all(fresh_reader(), ws).0) == plain_requests(ws),
        flushed_end_block(read_all(fresh_reader(), ws).0.last()) == last_end_block(ws, None),
{
    lemma_requests_rest(fresh_reader(), ws);
}

/// Law: each request read that is neither `EndBlock` nor `Flush` is
/// dispatched exactly as read, under the next number; an `EndBlock` is kept
/// exactly as read; at a `Flush` the kept `EndBlock` is handed out
/// unchanged.
pub proof fn lemma_read_step_keeps_request(r: ReaderModel, req: Request)
    ensures
        ({
            let (a, r2) = read_step(r, req);
            &&& !is_end_block_request(req) && !is_flush_request(req) ==> a == (ReadAction::Dispatch {
                id: (r.count + 1) as usize,
                request: req,
            })
            &&& is_end_block_request(req) ==> a is Hold && r2.held == Some(req)
            &&& is_flush_request(req) ==> a is Flush && flushed_end_block(a) == r.held
        }),
{
}

// ---------------------------------------------------------------------------
// Laws of a whole window: numbering and reordering together
// ---------------------------------------------------------------------------

/// The answer to a `Flush`.
pub open spec fn flush_answer() -> Response {
    Response { value: Some(ResponseValue::Flush(ResponseFlush {})) }
}

/// The numbered answers a connection hands to its buffer for the actions
/// of a window, where `ans[i]` answers the `i`-th request read and `held`
/// is the answer to the `EndBlock` kept so far: a dispatched request's
/// answer under its number, the kept `EndBlock`'s answer under its number,
/// and the `Flush` answer under the `Flush` number.
pub open spec fn answered(acts: Seq<ReadAction>, ans: Seq<Response>, held: Option<Response>) -> Seq<(usize, Response)>
    decreases acts.len(),
{
    if acts.len() == 0 {
        Seq::empty()
    } else {
        match acts[0] {
            ReadAction::Dispatch { id, .. } => seq![(id, ans[0])] + answered(acts.drop_first(), ans.drop_first(), held),
            ReadAction::Hold => answered(acts.drop_first(), ans.drop_first(), Some(ans[0])),
            ReadAction::Flush { end_block, flush_id } => {
                let written = match (end_block, held) {
                    (Some((id, _)), Some(h)) => seq![(id, h), (flush_id, flush_answer())],
                    _ => seq![(flush_id, flush_answer())],
                };
                written + answered(acts.drop_first(), ans.drop_first(), None)
            },
        }
    }
}

/// The answers of a window in the order they must be written: the answers
/// of the requests that are neither `EndBlock` nor `Flush`, in read order,
/// then the answer to the last `EndBlock` (if any), then the `Flush`
/// answer. `held` is the answer to the last `EndBlock` read so far.
pub open spec fn expected_answers(ws: Seq<Request>, ans: Seq<Response>, held: Option<Response>) -> Seq<Response>
    decreases ws.len(),
{
    if ws.len() == 0 {
        Seq::empty()
    } else {
        match ws[0].value {
            Some(RequestValue::EndBlock(_)) => expected_answers(ws.drop_first(), ans.drop_first(), Some(ans[0])),
            Some(RequestValue::Flush(_)) => match held {
                Some(h) => seq![h, flush_answer()],
                None => seq![flush_answer()],
            },
            _ => seq![ans[0]] + expected_answers(ws.drop_first(), ans.drop_first(), held),
        }
    }
}

proof fn lemma_answered_rest(r: ReaderModel, held: Option<Response>, ws: Seq<Request>, ans: Seq<Response>)
    requires
        is_window(ws),
        ans.len() == ws.len(),
        r.count >= 0,
        r.count + ws.len() + 1 <= usize::MAX,
        (r.held is Some) == (held is Some),
    ensures
        ({
            let rs = expected_answers(ws, ans, held);
            let pairs = answered(read_all(r, ws).0, ans, held);
            &&& 1 <= rs.len() <= ws.len() + (if held is Some { 1int } else { 0int })
            &&& pairs.len() == rs.len()
            &&& forall|k: int| 0 <= k < rs.len() ==> #[trigger] pairs[k] == ((r.count + 1 + k) as usize, rs[k])
            &&& rs.last() == flush_answer()
            &&& (forall|i: int| 0 <= i < ws.len() - 1 ==> !is_flush(#[trigger] ans[i]))
                && (held matches Some(h) ==> !is_flush(h))
                ==> forall|k: int| 0 <= k < rs.len() - 1 ==> !is_flush(#[trigger] rs[k])
        }),
    decreases ws.len(),
{
    let (a, r1) = read_step(r, ws[0]);
    let (acts, r2) = read_all(r, ws);
    assert(acts[0] == a);
    let rs = expected_answers(ws, ans, held);
    let pairs = answered(acts, ans, held);
    if ws.len() == 1 {
        assert(ws[0] == ws.last());
        assert(ws.drop_first().len() == 0);
        assert(read_all(r1, ws.drop_first()).0.len() == 0);
        assert(acts.drop_first() =~= read_all(r1, ws.drop_first()).0);
        assert(acts.drop_first().len() == 0);
        assert(answered(acts.drop_first(), ans.drop_first(), None).len() == 0);
        match held {
            Some(h) => {
                assert(rs =~= seq![h, flush_answer()]);
                assert(pairs =~= seq![((r.count + 1) as usize, h), ((r.count + 2) as usize, flush_answer())]);
            },
            None => {
                assert(rs =~= seq![flush_answer()]);
                assert(pairs =~= seq![((r.count + 1) as usize, flush_answer())]);
            },
        }
    } else {
        assert(!is_flush_request(ws[0]));
        let ws2 = ws.drop_first();
        let ans2 = ans.drop_first();
        assert(ws2.last() == ws.last());
        assert forall|i: int| 0 <= i < ws2.len() - 1 implies !is_flush_request(#[trigger] ws2[i]) by {
            assert(ws2[i] == ws[i + 1]);
        }
        let (acts2, r3) = read_all(r1, ws2);
        assert(acts.drop_first() =~= acts2);
        if ws[0].value matches Some(RequestValue::EndBlock(_)) {
            lemma_answered_rest(r1, Some(ans[0]), ws2, ans2);
            assert(rs == expected_answers(ws2, ans2, Some(ans[0])));
            assert(pairs == answered(acts2, ans2, Some(ans[0])));
            if (forall|i: int| 0 <= i < ws.len() - 1 ==> !is_flush(#[trigger] ans[i])) {
                assert(!is_flush(ans[0]));
                assert forall|i: int| 0 <= i < ws2.len() - 1 implies !is_flush(#[trigger] ans2[i]) by {
                    assert(ans2[i] == ans[i + 1]);
                }
            }
        } else {
            lemma_answered_rest(r1, held, ws2, ans2);
            let rs2 = expected_answers(ws2, ans2, held);
            let pairs2 = answered(acts2, ans2, held);
            assert(rs == seq![ans[0]] + rs2);
            assert(pairs == seq![((r.count + 1) as usize, ans[0])] + pairs2);
            assert forall|k: int| 0 <= k < rs.len() implies #[trigger] pairs[k] == ((r.count + 1 + k) as usize, rs[k]) by {
                if k > 0 {
                    assert(pairs[k] == pairs2[k - 1]);
                    assert(rs[k] == rs2[k - 1]);
                }
            }
            assert(rs.last() == rs2.last());
            if (forall|i: int| 0 <= i < ws.len() - 1 ==> !is_flush(#[trigger] ans[i]))
                && (held matches Some(h) ==> !is_flush(h)) {
                assert(!is_flush(ans[0]));
                assert forall|i: int| 0 <= i < ws2.len() - 1 implies !is_flush(#[trigger] ans2[i]) by {
                    assert(ans2[i] == ans[i + 1]);
                }
                assert forall|k: int| 0 <= k < rs.len() - 1 implies !is_flush(#[trigger] rs[k]) by {
                    if k > 0 {
                        assert(rs[k] == rs2[k - 1]);
                    }
                }
            }
        }
    }
}

/// `ds` hands the pairs of `pairs` to the buffer, each exactly once, in
/// any order.
pub open spec fn is_delivery_order(ds: Seq<(usize, Response)>, pairs: Seq<(usize, Response)>) -> bool {
    &&& ds.len() == pairs.len()
    &&& forall|i: int| 0 <= i < ds.len() ==> pairs.contains(#[trigger] ds[i])
    &&& forall|k: int| 0 <= k < pairs.len() ==> ds.contains(#[trigger] pairs[k])
    &&& forall|i: int, j: int| 0 <= i < ds.len() && 0 <= j < ds.len() && i != j ==> (#[trigger] ds[i]).0 != (#[trigger] ds[j]).0
}

/// Law: for one window read from a fresh reader, whatever answer `ans[i]`
/// each request `i` gets (none but the `Flush` answered by a `Flush`
/// answer) and whatever order the numbered answers reach the buffer in,
/// the buffer writes exactly the answers of the requests that are neither
/// `EndBlock` nor `Flush`, in read order, then the answer to the window's
/// last `EndBlock` (if any), then the `Flush` answer; and it is empty
/// again afterwards.
pub proof fn lemma_window_answered_in_order(ws: Seq<Request>, ans: Seq<Response>, ds: Seq<(usize, Response)>)
    requires
        is_window(ws),
        ws.len() + 1 <= usize::MAX,
        ans.len() == ws.len(),
        forall|i: int| 0 <= i < ws.len() - 1 ==> !is_flush(#[trigger] ans[i]),
        is_delivery_order(ds, answered(read_all(fresh_reader(), ws).0, ans, None)),
    ensures
        deliver_all(empty_buffer(), ds) == (expected_answers(ws, ans, None), empty_buffer()),
{
    let rs = expected_answers(ws, ans, None);
    let pairs = answered(read_all(fresh_reader(), ws).0, ans, None);
    lemma_answered_rest(fresh_reader(), None, ws, ans);
    let n = rs.len();
    assert(is_window_answers(rs));
    assert forall|i: int| 0 <= i < ds.len() implies 1 <= (#[trigger] ds[i]).0 <= rs.len() && ds[i].1 == rs[ds[i].0 - 1] by {
        assert(pairs.contains(ds[i]));
        let k = choose|k: int| 0 <= k < pairs.len() && pairs[k] == ds[i];
        assert(pairs[k] == ((1 + k) as usize, rs[k]));
    }
    assert forall|k: usize| 1 <= k <= rs.len() implies #[trigger] delivered(ds, ds.len() as int, k) by {
        let m = k - 1;
        assert(pairs[m] == ((1 + m) as usize, rs[m]));
        assert(ds.contains(pairs[m]));
        let i = choose|i: int| 0 <= i < ds.len() && ds[i] == pairs[m];
        assert(ds[i].0 == k);
    }
    assert(is_numbered_shuffle(rs, ds));
    lemma_answers_written_in_order(rs, ds);
}

} // verus!
