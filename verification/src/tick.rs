//! One tick of the poll-detect-broadcast loop, as a pure step function.
//!
//! The loop itself — the timer, the fetch, the sends — lives outside the
//! crate. Each wake-up it hands the fetch result to [`tick`], which decides
//! everything: establishing the baseline on first activation, detecting the
//! entries above the watermark, the broadcast order, and how far the
//! watermark advances. The caller then delivers along the plan that
//! [`fan_out`] lays out over a subscriber snapshot.

use vstd::prelude::*;

use crate::entry::CatalogEntry;
use crate::watermark::{advanced, current_of, Watermark};

verus! {

/// Identifiers strictly descending: the batch arrives newest first, as the
/// catalog reports it.
pub open spec fn sorted_desc(batch: Seq<CatalogEntry>) -> bool {
    forall|i: int, j: int| 0 <= i < j < batch.len() ==> batch[i].id > batch[j].id
}

/// The contiguous leading run of entries whose identifier exceeds `w`:
/// scanning newest to oldest stops at the first entry at or below the
/// watermark. On a descending batch this is every new entry; on a batch
/// that breaks the sort assumption only this leading run is detected.
pub open spec fn fresh_prefix(batch: Seq<CatalogEntry>, w: u32) -> Seq<CatalogEntry>
    decreases batch.len(),
{
    if batch.len() == 0 || batch[0].id <= w {
        Seq::empty()
    } else {
        seq![batch[0]] + fresh_prefix(batch.skip(1), w)
    }
}

/// The fresh prefix is a prefix: entry for entry equal to the batch, every
/// identifier in it above `w`, and the entry right after it (if any) at or
/// below `w`.
pub proof fn lemma_fresh_prefix(batch: Seq<CatalogEntry>, w: u32)
    ensures
        fresh_prefix(batch, w).len() <= batch.len(),
        forall|i: int|
            0 <= i < fresh_prefix(batch, w).len() ==> #[trigger] fresh_prefix(batch, w)[i]
                == batch[i] && batch[i].id > w,
        fresh_prefix(batch, w).len() < batch.len() ==> batch[fresh_prefix(
            batch,
            w,
        ).len() as int].id <= w,
    decreases batch.len(),
{
    if batch.len() == 0 || batch[0].id <= w {
    } else {
        lemma_fresh_prefix(batch.skip(1), w);
        let rest = fresh_prefix(batch.skip(1), w);
        assert forall|i: int| 0 <= i < fresh_prefix(batch, w).len() implies #[trigger] fresh_prefix(
            batch,
            w,
        )[i] == batch[i] && batch[i].id > w by {
            if i == 0 {
            } else {
                assert(fresh_prefix(batch, w)[i] == rest[i - 1]);
                assert(batch.skip(1)[i - 1] == batch[i]);
            }
        }
        if fresh_prefix(batch, w).len() < batch.len() {
            assert(batch.skip(1)[rest.len() as int] == batch[rest.len() as int + 1]);
        }
    }
}

/// Detection against a batch sorted descending by identifier is exact: the
/// fresh prefix holds all entries above the watermark and nothing else, and
/// its reversal — the broadcast order — is strictly ascending, so entries
/// go out in publication order.
pub proof fn lemma_detect_exact(batch: Seq<CatalogEntry>, w: u32)
    requires
        sorted_desc(batch),
    ensures
        forall|i: int|
            0 <= i < fresh_prefix(batch, w).len() ==> #[trigger] fresh_prefix(batch, w)[i]
                == batch[i] && batch[i].id > w,
        forall|i: int|
            0 <= i < batch.len() && #[trigger] batch[i].id > w ==> i < fresh_prefix(
                batch,
                w,
            ).len(),
        forall|i: int, j: int|
            0 <= i < j < fresh_prefix(batch, w).len() ==> #[trigger] fresh_prefix(
                batch,
                w,
            ).reverse()[i].id < #[trigger] fresh_prefix(batch, w).reverse()[j].id,
{
    lemma_fresh_prefix(batch, w);
    let fp = fresh_prefix(batch, w);
    assert forall|i: int| 0 <= i < batch.len() && #[trigger] batch[i].id > w implies i
        < fp.len() by {
        if i >= fp.len() {
            assert(batch[fp.len() as int].id <= w);
            if i > fp.len() {
                assert(batch[fp.len() as int].id > batch[i].id);
            }
        }
    }
    assert forall|i: int, j: int| 0 <= i < j < fp.len() implies #[trigger] fp.reverse()[i].id
        < #[trigger] fp.reverse()[j].id by {
        assert(fp.reverse()[i] == fp[fp.len() - 1 - i]);
        assert(fp.reverse()[j] == fp[fp.len() - 1 - j]);
        assert(fp[fp.len() - 1 - i] == batch[fp.len() - 1 - i]);
        assert(fp[fp.len() - 1 - j] == batch[fp.len() - 1 - j]);
    }
}

/// Selects the entries to broadcast this tick: the leading run of `batch`
/// above the watermark `w`, reversed so that the oldest new entry goes out
/// first and broadcast order matches publication order.
pub fn select_new(batch: Vec<CatalogEntry>, w: u32) -> (r: Vec<CatalogEntry>)
    ensures
        r@ =~= fresh_prefix(batch@, w).reverse(),
{
    let ghost gb = batch@;
    let mut k: usize = 0;
    while k < batch.len() && batch[k].id > w
        invariant
            k <= gb.len(),
            batch@ == gb,
            forall|i: int| 0 <= i < k ==> gb[i].id > w,
        decreases batch.len() - k,
    {
        k += 1;
    }
    proof {
        lemma_fresh_prefix(gb, w);
        let l = fresh_prefix(gb, w).len();
        if l < k {
            assert(gb[l as int].id > w);
            assert(false);
        }
        if (k as int) < l {
            assert(fresh_prefix(gb, w)[k as int] == gb[k as int] && gb[k as int].id > w);
            assert(false);
        }
    }
    let mut rest = batch;
    rest.truncate(k);
    let mut r: Vec<CatalogEntry> = Vec::new();
    while rest.len() > 0
        invariant
            rest@.len() + r@.len() == k <= gb.len(),
            rest@ =~= gb.subrange(0, rest@.len() as int),
            forall|i: int| 0 <= i < r@.len() ==> #[trigger] r@[i] == gb[k - 1 - i],
        decreases rest.len(),
    {
        let e = rest.pop().unwrap();
        r.push(e);
    }
    proof {
        let fp = fresh_prefix(gb, w);
        assert forall|i: int| 0 <= i < k implies r@[i] == fp.reverse()[i] by {
            assert(fp.reverse()[i] == fp[k - 1 - i]);
            assert(fp[k - 1 - i] == gb[k - 1 - i]);
        }
    }
    r
}

/// The batch a fetch outcome carries: a failed fetch carries none, which the
/// tick treats exactly like an empty result.
pub open spec fn batch_of(fetched: Option<Vec<CatalogEntry>>) -> Seq<CatalogEntry> {
    match fetched {
        Some(b) => b@,
        None => Seq::empty(),
    }
}

/// What one tick decided.
pub enum TickStep {
    /// The fetch failed or returned nothing; nothing changed.
    Skipped,
    /// First activation: the newest identifier became the baseline, and
    /// nothing is broadcast, so historical entries are never spammed.
    Baselined {
        /// The identifier the baseline was set to.
        id: u32,
    },
    /// Nothing above the watermark; nothing changed.
    NoNews,
    /// New entries to deliver, oldest first.
    Broadcast {
        /// The detected new entries, in broadcast (ascending) order.
        entries: Vec<CatalogEntry>,
        /// The identifier the watermark advanced to: the newest of the batch.
        advanced_to: u32,
    },
}

/// One tick: compare the fetched batch against the watermark and decide.
///
/// An absent watermark is baselined to the newest identifier with no
/// broadcast; otherwise the leading run above the watermark is returned in
/// broadcast order and the watermark advances to the newest identifier.
/// A failed or empty fetch changes nothing, and is retried naturally on the
/// next tick. The watermark never regresses.
pub fn tick(wm: &mut Watermark, fetched: Option<Vec<CatalogEntry>>) -> (step: TickStep)
    ensures
        ({
            let b = batch_of(fetched);
            let w0 = old(wm)@;
            &&& current_of(final(wm)@) >= current_of(w0)
            &&& b.len() == 0 ==> step is Skipped && final(wm)@ == w0
            &&& b.len() > 0 && w0 is None ==> step == (TickStep::Baselined { id: b[0].id })
                && final(wm)@ == Some(b[0].id)
            &&& b.len() > 0 && w0 is Some && fresh_prefix(b, current_of(w0)).len() == 0
                ==> step is NoNews && final(wm)@ == w0
            &&& b.len() > 0 && w0 is Some && fresh_prefix(b, current_of(w0)).len() > 0 ==> {
                &&& step matches TickStep::Broadcast { entries, advanced_to }
                    && entries@ =~= fresh_prefix(b, current_of(w0)).reverse() && advanced_to == b[
                    0].id && final(wm)@ == advanced(w0, b[0].id)
                &&& final(wm)@ == Some(b[0].id)
            }
        }),
{
    match fetched {
        None => TickStep::Skipped,
        Some(batch) => {
            if batch.len() == 0 {
                TickStep::Skipped
            } else if !wm.is_set() {
                let id = batch[0].id;
                wm.baseline(id);
                TickStep::Baselined { id }
            } else {
                let w = wm.current();
                let newest = batch[0].id;
                proof {
                    lemma_fresh_prefix(batch@, w);
                }
                let entries = select_new(batch, w);
                if entries.len() == 0 {
                    TickStep::NoNews
                } else {
                    wm.advance(newest);
                    TickStep::Broadcast { entries, advanced_to: newest }
                }
            }
        },
    }
}

/// One planned delivery of the broadcast fan-out: the entry at
/// `entry_index` of the tick's broadcast list goes to `recipient`.
#[derive(Clone, Copy, PartialEq, Eq, Structural)]
pub struct Delivery {
    /// Index into the entries of [`TickStep::Broadcast`].
    pub entry_index: usize,
    /// The subscribed chat the notification goes to.
    pub recipient: i64,
}

/// The full fan-out plan: every entry to every recipient, entry-major, so
/// all deliveries of one entry precede those of the next.
pub open spec fn fan_out_spec(n_entries: int, recipients: Seq<i64>) -> Seq<Delivery>
    decreases n_entries,
{
    if n_entries <= 0 {
        Seq::empty()
    } else {
        fan_out_spec(n_entries - 1, recipients) + recipients.map_values(
            |r: i64|
                Delivery { entry_index: (n_entries - 1) as usize, recipient: r },
        )
    }
}

/// The plan has exactly one delivery per entry-recipient pair.
pub proof fn lemma_fan_out_len(n_entries: int, recipients: Seq<i64>)
    requires
        n_entries >= 0,
    ensures
        fan_out_spec(n_entries, recipients).len() == n_entries * (recipients.len() as int),
    decreases n_entries,
{
    let l = recipients.len() as int;
    if n_entries > 0 {
        lemma_fan_out_len(n_entries - 1, recipients);
        assert(fan_out_spec(n_entries, recipients).len() == (n_entries - 1) * l + l);
        assert((n_entries - 1) * l + l == n_entries * l) by (nonlinear_arith);
    } else {
        assert(n_entries * l == 0) by (nonlinear_arith)
            requires
                n_entries == 0,
        ;
    }
}

/// Lays out the delivery fan-out for one tick over a point-in-time snapshot
/// of the subscribers: every entry to every recipient, in order, one entry
/// at a time. With no subscribers the plan is empty and nothing is sent.
pub fn fan_out(entry_count: usize, recipients: &Vec<i64>) -> (plan: Vec<Delivery>)
    ensures
        plan@ =~= fan_out_spec(entry_count as int, recipients@),
        plan@.len() == entry_count * recipients@.len(),
{
    let mut plan: Vec<Delivery> = Vec::new();
    let mut e: usize = 0;
    while e < entry_count
        invariant
            e <= entry_count,
            plan@ =~= fan_out_spec(e as int, recipients@),
        decreases entry_count - e,
    {
        let mut j: usize = 0;
        while j < recipients.len()
            invariant
                j <= recipients@.len(),
                e < entry_count,
                plan@ =~= fan_out_spec(e as int, recipients@) + recipients@.take(
                    j as int,
                ).map_values(|r: i64| Delivery { entry_index: e, recipient: r }),
            decreases recipients.len() - j,
        {
            plan.push(Delivery { entry_index: e, recipient: recipients[j] });
            j += 1;
            proof {
                assert(recipients@.take(j as int).map_values(
                    |r: i64| Delivery { entry_index: e, recipient: r },
                ) =~= recipients@.take(j - 1).map_values(
                    |r: i64| Delivery { entry_index: e, recipient: r },
                ).push(Delivery { entry_index: e, recipient: recipients@[j - 1] }));
            }
        }
        e += 1;
        proof {
            assert(recipients@.take(recipients@.len() as int) =~= recipients@);
        }
    }
    proof {
        lemma_fan_out_len(entry_count as int, recipients@);
    }
    plan
}

/// With no subscribers at broadcast time nothing is delivered — the fan-out
/// plan is empty — while the watermark still advances to the newest
/// identifier of the batch, exactly as it would for any subscriber set.
pub proof fn lemma_empty_subscribers_still_advance(batch: Seq<CatalogEntry>, w: u32)
    requires
        fresh_prefix(batch, w).len() > 0,
    ensures
        fan_out_spec(fresh_prefix(batch, w).len() as int, Seq::<i64>::empty())
            =~= Seq::<Delivery>::empty(),
        advanced(Some(w), batch[0].id) == Some(batch[0].id),
{
    lemma_fan_out_len(fresh_prefix(batch, w).len() as int, Seq::<i64>::empty());
    lemma_fresh_prefix(batch, w);
    assert(batch[0].id > w);
}

/// How many entries the next tick must fetch: a single newest entry while
/// no baseline exists — enough to establish one — and the full `window`
/// afterwards.
pub fn plan_fetch_limit(wm: &Watermark, window: u8) -> (r: u8)
    ensures
        r == (if wm@ is Some {
            window
        } else {
            1u8
        }),
{
    if wm.is_set() {
        window
    } else {
        1
    }
}

/// The query for the `limit` most recently added entries, newest first.
pub open spec fn catalog_query_of(limit: u8) -> Seq<char> {
    "https://yts.mx/api/v2/list_movies.json?sort_by=date_added&order_by=desc&limit="@
        + crate::textutil::decimal_of(limit as int)
}

/// Builds the catalog request URL for the `limit` most recent entries.
pub fn catalog_query_url(limit: u8) -> (r: String)
    ensures
        r@ =~= catalog_query_of(limit),
{
    let mut r = String::from_str(
        "https://yts.mx/api/v2/list_movies.json?sort_by=date_added&order_by=desc&limit=",
    );
    let d = crate::textutil::u32_to_decimal(limit as u32);
    r.append(d.as_str());
    r
}

/// Collapses a catalog response to its entry list: a non-`"ok"` status or
/// an absent list counts as zero entries, not as an error.
pub fn resolve_fetch(status: &String, movies: Option<Vec<CatalogEntry>>) -> (r: Vec<CatalogEntry>)
    ensures
        status@ == "ok"@ && movies is Some ==> r == movies->Some_0,
        !(status@ == "ok"@ && movies is Some) ==> r@.len() == 0,
{
    let ok_marker = String::from_str("ok");
    if *status == ok_marker {
        match movies {
            Some(v) => v,
            None => Vec::new(),
        }
    } else {
        Vec::new()
    }
}

} // verus!
