//! The streaming query engine: a sorted result set served as a finite
//! sequence of bounded batches. Every row from the starting offset is
//! delivered exactly once and in order; every batch but the last is
//! full; the batch offsets rise strictly. A safety ceiling on the
//! cumulative offset guards against a pathological unbounded scan.

use vstd::prelude::*;
use crate::asset::{copy_asset, Asset};
use crate::error::DomainError;
use crate::ordering::{order_of_chars, OrderType};
use crate::queries::{get_all_assets, search_page_ok, sorted_assets, sorted_by_order, SortField};
use crate::store::AssetStore;

verus! {

/// No scan advances its cumulative offset past this ceiling.
pub const MAX_STREAM_OFFSET: usize = 9999999;

/// One served batch: the offset it starts at, how many rows it holds,
/// and the rows.
pub struct StreamBatch {
    pub offset: i64,
    pub total: i32,
    pub assets: Vec<Asset>,
}

/// All rows of the batches, in served order.
pub open spec fn flat_batches(bs: Seq<StreamBatch>) -> Seq<Asset>
    decreases bs.len(),
{
    if bs.len() == 0 {
        Seq::empty()
    } else {
        flat_batches(bs.drop_last()) + bs.last().assets@
    }
}

/// Offset and limit as the stream accepts them: a non-negative start
/// and a batch size of 1 to 100.
pub fn validate_request_parameters(start: i32, limit: i32) -> (r: Result<(), DomainError>)
    ensures
        r is Ok <==> (start >= 0 && 1 <= limit <= 100),
        r matches Err(e) ==> e is InvalidArgument,
{
    if start < 0 || limit < 0 || (start == 0 && limit == 0) {
        return Err(
            DomainError::InvalidArgument(String::from_str("start and limit must be positive")),
        );
    }
    if limit < 1 || limit > 100 {
        return Err(
            DomainError::InvalidArgument(String::from_str("limit must be between 1 and 100")),
        );
    }
    Ok(())
}

/// Parses the sort order and serves one page of the full listing: the
/// compute part of the paginated read path.
pub fn fetch_assets(store: &AssetStore, start: i64, limit: i64, sort_order: &str) -> (r: Result<
    Vec<Asset>,
    DomainError,
>)
    ensures
        r is Err <==> !(order_of_chars(sort_order@) is Some && 1 <= limit <= 100 && 0 <= start),
        r matches Err(e) ==> e is InvalidArgument,
        r matches Ok(page) ==> search_page_ok(
            store.assets@,
            SortField::Name,
            order_of_chars(sort_order@).unwrap(),
            start as int,
            limit as int,
            page@,
        ),
{
    let order = match OrderType::parse(sort_order) {
        Ok(o) => o,
        Err(_) => {
            return Err(DomainError::InvalidArgument(String::from_str("sort_order is invalid")));
        },
    };
    match get_all_assets(store, start, limit, order) {
        Ok(page) => Ok(page),
        Err(_) => Err(
            DomainError::InvalidArgument(String::from_str("limit must be between 1 and 100")),
        ),
    }
}

/// What the stream guarantees of its output, against some sorted view
/// `s` of the table: batch sizes are bounded by the limit and all but
/// the last batch is full; each batch is stamped with the offset it
/// starts at, rising strictly; and — as long as the safety ceiling is
/// not reached — the batches together hold every row from the starting
/// offset exactly once, in order.
pub open spec fn stream_output_ok(
    s: Seq<Asset>,
    table: Seq<Asset>,
    offset: int,
    limit: int,
    batches: Seq<StreamBatch>,
) -> bool {
    &&& s.to_multiset() == table.to_multiset()
    &&& s.len() == table.len()
    &&& forall|b: int|
        0 <= b < batches.len() ==> 0 < (#[trigger] batches[b]).assets@.len() <= limit
    &&& forall|b: int|
        0 <= b < batches.len() ==> (#[trigger] batches[b]).total as int == batches[b].assets@.len()
    &&& forall|b: int| 0 <= b < batches.len() - 1 ==> (#[trigger] batches[b]).assets@.len() == limit
    &&& (batches.len() > 0 ==> batches[0].offset == offset)
    &&& forall|b: int|
        0 < b < batches.len() ==> (#[trigger] batches[b]).offset == batches[b - 1].offset
            + batches[b - 1].total
    &&& (offset + s.len() < MAX_STREAM_OFFSET ==> flat_batches(batches) == (if offset <= s.len() {
        s.skip(offset)
    } else {
        Seq::<Asset>::empty()
    }))
}

/// The offsets of a served batch sequence rise strictly: each batch
/// starts after the previous one, because every batch holds at least
/// one row.
pub proof fn lemma_stream_offsets_increase(
    s: Seq<Asset>,
    table: Seq<Asset>,
    offset: int,
    limit: int,
    batches: Seq<StreamBatch>,
)
    requires
        stream_output_ok(s, table, offset, limit, batches),
    ensures
        forall|p: int, q: int|
            0 <= p < q < batches.len() ==> (#[trigger] batches[p]).offset < (
            #[trigger] batches[q]).offset,
{
    assert forall|p: int, q: int|
        0 <= p < q < batches.len() implies (#[trigger] batches[p]).offset < (
    #[trigger] batches[q]).offset by {
        lemma_offsets_increase_from(batches, p, q);
    }
}

/// One step of the induction behind [`lemma_stream_offsets_increase`].
proof fn lemma_offsets_increase_from(batches: Seq<StreamBatch>, p: int, q: int)
    requires
        0 <= p < q < batches.len(),
        forall|b: int|
            0 <= b < batches.len() ==> 0 < (#[trigger] batches[b]).total,
        forall|b: int|
            0 < b < batches.len() ==> (#[trigger] batches[b]).offset == batches[b - 1].offset
                + batches[b - 1].total,
    ensures
        batches[p].offset < batches[q].offset,
    decreases q - p,
{
    if q == p + 1 {
        assert(batches[q].offset == batches[p].offset + batches[p].total);
    } else {
        lemma_offsets_increase_from(batches, p, q - 1);
        assert(batches[q].offset == batches[q - 1].offset + batches[q - 1].total);
    }
}

/// Serves the sorted asset listing from `offset` as batches of at most
/// `limit` rows. The parameters and the sort order are validated before
/// storage is read.
pub fn get_streamed_assets(store: &AssetStore, offset: i32, limit: i32, sort_order: &str) -> (r:
    Result<Vec<StreamBatch>, DomainError>)
    ensures
        r is Err <==> !(offset >= 0 && 1 <= limit <= 100 && order_of_chars(sort_order@) is Some),
        r matches Err(e) ==> e is InvalidArgument,
        r matches Ok(batches) ==> exists|s: Seq<Asset>|
            #[trigger] sorted_by_order(order_of_chars(sort_order@).unwrap(), s)
                && stream_output_ok(s, store.assets@, offset as int, limit as int, batches@),
{
    validate_request_parameters(offset, limit)?;
    let order = match OrderType::parse(sort_order) {
        Ok(o) => o,
        Err(_) => {
            return Err(DomainError::InvalidArgument(String::from_str("sort_order is invalid")));
        },
    };
    let sorted = sorted_assets(store, order);
    let ghost s = sorted@;
    let n = sorted.len();
    let limit_us: usize = limit as usize;
    let offset_us: usize = offset as usize;
    let mut batches: Vec<StreamBatch> = Vec::new();
    if offset_us >= n {
        proof {
            assert(flat_batches(batches@) =~= Seq::<Asset>::empty());
            if offset as int <= s.len() {
                assert(s.skip(offset as int) =~= Seq::<Asset>::empty());
            }
            assert(stream_output_ok(s, store.assets@, offset as int, limit as int, batches@));
        }
        return Ok(batches);
    }
    let mut cur: usize = offset_us;
    while cur < n && cur < MAX_STREAM_OFFSET
        invariant
            offset_us <= cur <= n,
            s == sorted@,
            n == s.len(),
            1 <= limit_us <= 100,
            limit_us == limit as int,
            offset_us == offset as int,
            flat_batches(batches@) == s.subrange(offset_us as int, cur as int),
            forall|b: int|
                0 <= b < batches@.len() ==> 0 < (#[trigger] batches@[b]).assets@.len() <= limit_us,
            forall|b: int|
                0 <= b < batches@.len() ==> (#[trigger] batches@[b]).total as int
                    == batches@[b].assets@.len(),
            forall|b: int|
                0 <= b < batches@.len() - 1 ==> (#[trigger] batches@[b]).assets@.len() == limit_us,
            batches@.len() > 0 ==> (batches@.last().assets@.len() == limit_us || cur == n),
            batches@.len() > 0 ==> batches@[0].offset == offset as int,
            forall|b: int|
                0 < b < batches@.len() ==> (#[trigger] batches@[b]).offset == batches@[b
                    - 1].offset + batches@[b - 1].total,
            batches@.len() > 0 ==> batches@.last().offset + batches@.last().total == cur as int,
            batches@.len() == 0 ==> cur == offset_us,
        decreases n - cur,
    {
        let remaining = n - cur;
        let take: usize = if limit_us <= remaining {
            limit_us
        } else {
            remaining
        };
        let mut chunk: Vec<Asset> = Vec::new();
        let mut i: usize = 0;
        proof {
            assert(chunk@ =~= sorted@.subrange(cur as int, cur as int));
        }
        while i < take
            invariant
                i <= take,
                cur + take <= n,
                n == sorted@.len(),
                chunk@ == sorted@.subrange(cur as int, cur + i),
            decreases take - i,
        {
            chunk.push(copy_asset(&sorted[cur + i]));
            proof {
                assert(chunk@ =~= sorted@.subrange(cur as int, cur + i + 1));
            }
            i = i + 1;
        }
        let ghost batches0 = batches@;
        let batch = StreamBatch { offset: cur as i64, total: take as i32, assets: chunk };
        batches.push(batch);
        proof {
            assert(batches@.drop_last() =~= batches0);
            assert(flat_batches(batches@) == flat_batches(batches0) + batch.assets@);
            assert(flat_batches(batches@) =~= s.subrange(offset_us as int, cur + take));
            if batches0.len() > 0 {
                assert(batches0.last().assets@.len() == limit_us || cur == n);
                assert(cur < n);
            }
        }
        cur = cur + take;
    }
    proof {
        if offset as int + s.len() < MAX_STREAM_OFFSET {
            assert(cur == n);
            assert(s.subrange(offset_us as int, n as int) =~= s.skip(offset as int));
        }
        assert(stream_output_ok(s, store.assets@, offset as int, limit as int, batches@));
    }
    Ok(batches)
}

} // verus!
