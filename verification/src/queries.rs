//! The sorted read path the query engine is built on: assets ordered by
//! a key field, served as a bounded page with a validated limit, the
//! search queries over names, symbols and owners, and the wildcard
//! escaping the storage edge applies to search terms.

use vstd::prelude::*;
use crate::asset::{copy_asset, Asset};
use crate::error::DatabaseError;
use crate::ordering::OrderType;
use crate::store::AssetStore;
use crate::text::{chars_le, lemma_chars_le_total, lemma_chars_le_trans, str_le};
use vstd::string::StrSliceExecFns;

verus! {

broadcast use {vstd::seq_lib::group_to_multiset_ensures, vstd::multiset::group_multiset_axioms};

/// The field a listing is sorted by.
#[derive(Debug, Clone, Copy, PartialEq, Eq, Structural)]
pub enum SortField {
    Name,
    Symbol,
}

/// The sort key of an asset under the given field.
pub open spec fn sort_key(field: SortField, a: Asset) -> Seq<char> {
    match field {
        SortField::Name => a.name@,
        SortField::Symbol => a.symbol@,
    }
}

/// `a` comes no later than `b` under the given field and order.
pub open spec fn asset_le(field: SortField, order: OrderType, a: Asset, b: Asset) -> bool {
    match order {
        OrderType::Asc => chars_le(sort_key(field, a), sort_key(field, b)),
        OrderType::Desc => chars_le(sort_key(field, b), sort_key(field, a)),
    }
}

/// The sequence is sorted under the given field and order.
pub open spec fn sorted_by_key(field: SortField, order: OrderType, s: Seq<Asset>) -> bool {
    forall|p: int, q: int|
        0 <= p < q < s.len() ==> asset_le(field, order, #[trigger] s[p], #[trigger] s[q])
}

/// The sequence is sorted by name under the given order.
pub open spec fn sorted_by_order(order: OrderType, s: Seq<Asset>) -> bool {
    sorted_by_key(SortField::Name, order, s)
}

/// The executable key comparison for one field and order.
fn asset_le_exec(field: SortField, order: OrderType, a: &Asset, b: &Asset) -> (r: bool)
    ensures
        r == asset_le(field, order, *a, *b),
{
    let (x, y) = match order {
        OrderType::Asc => (a, b),
        OrderType::Desc => (b, a),
    };
    match field {
        SortField::Name => str_le(x.name.as_str(), y.name.as_str()),
        SortField::Symbol => str_le(x.symbol.as_str(), y.symbol.as_str()),
    }
}

/// The order on assets is total.
proof fn lemma_asset_le_total(field: SortField, order: OrderType, a: Asset, b: Asset)
    ensures
        asset_le(field, order, a, b) || asset_le(field, order, b, a),
{
    lemma_chars_le_total(sort_key(field, a), sort_key(field, b));
}

/// The order on assets is transitive.
proof fn lemma_asset_le_trans(field: SortField, order: OrderType, a: Asset, b: Asset, c: Asset)
    requires
        asset_le(field, order, a, b),
        asset_le(field, order, b, c),
    ensures
        asset_le(field, order, a, c),
{
    match order {
        OrderType::Asc => lemma_chars_le_trans(
            sort_key(field, a),
            sort_key(field, b),
            sort_key(field, c),
        ),
        OrderType::Desc => lemma_chars_le_trans(
            sort_key(field, c),
            sort_key(field, b),
            sort_key(field, a),
        ),
    }
}

/// The index of a least remaining element.
fn min_pos(v: &Vec<Asset>, field: SortField, order: OrderType) -> (m: usize)
    requires
        v@.len() > 0,
    ensures
        m < v@.len(),
        forall|j: int| 0 <= j < v@.len() ==> asset_le(field, order, v@[m as int], #[trigger] v@[j]),
{
    let n = v.len();
    let mut m: usize = 0;
    let mut i: usize = 1;
    proof {
        lemma_asset_le_total(field, order, v@[0], v@[0]);
    }
    while i < n
        invariant
            m < i <= n,
            n == v@.len(),
            forall|j: int| 0 <= j < i ==> asset_le(field, order, v@[m as int], #[trigger] v@[j]),
        decreases n - i,
    {
        if !asset_le_exec(field, order, &v[m], &v[i]) {
            proof {
                lemma_asset_le_total(field, order, v@[m as int], v@[i as int]);
                assert forall|j: int| 0 <= j < i + 1 implies asset_le(
                    field,
                    order,
                    v@[i as int],
                    #[trigger] v@[j],
                ) by {
                    if j < i {
                        lemma_asset_le_trans(field, order, v@[i as int], v@[m as int], v@[j]);
                    } else {
                        lemma_asset_le_total(field, order, v@[i as int], v@[i as int]);
                    }
                }
            }
            m = i;
        } else {
            proof {
                assert(asset_le(field, order, v@[m as int], v@[i as int]));
            }
        }
        i = i + 1;
    }
    m
}

/// The rows of `v`, sorted under the given field and order: same rows,
/// sorted.
pub fn sort_assets(v: Vec<Asset>, field: SortField, order: OrderType) -> (r: Vec<Asset>)
    ensures
        sorted_by_key(field, order, r@),
        r@.to_multiset() == v@.to_multiset(),
        r@.len() == v@.len(),
{
    let mut rest = v;
    let ghost v0 = rest@;
    let mut out: Vec<Asset> = Vec::new();
    while rest.len() > 0
        invariant
            out@.to_multiset().add(rest@.to_multiset()) =~= v0.to_multiset(),
            out@.len() + rest@.len() == v0.len(),
            sorted_by_key(field, order, out@),
            forall|p: int, q: int|
                0 <= p < out@.len() && 0 <= q < rest@.len() ==> asset_le(
                    field,
                    order,
                    #[trigger] out@[p],
                    #[trigger] rest@[q],
                ),
        decreases rest@.len(),
    {
        let m = min_pos(&rest, field, order);
        let ghost rest0 = rest@;
        let ghost out0 = out@;
        let x = rest.remove(m);
        out.push(x);
        proof {
            assert(rest@.to_multiset() =~= rest0.to_multiset().remove(x));
            assert(out@.to_multiset() =~= out0.to_multiset().insert(x));
            assert(out@.to_multiset().add(rest@.to_multiset()) =~= v0.to_multiset());
            assert forall|p: int, q: int|
                0 <= p < out@.len() && 0 <= q < rest@.len() implies asset_le(
                field,
                order,
                #[trigger] out@[p],
                #[trigger] rest@[q],
            ) by {
                let q0 = if q < m as int {
                    q
                } else {
                    q + 1
                };
                assert(rest@[q] == rest0[q0]);
                if p < out0.len() {
                    assert(out@[p] == out0[p]);
                    assert(asset_le(field, order, out0[p], rest0[q0]));
                } else {
                    assert(out@[p] == x);
                    assert(asset_le(field, order, x, rest0[q0]));
                }
            }
            assert forall|p: int, q: int| 0 <= p < q < out@.len() implies asset_le(
                field,
                order,
                #[trigger] out@[p],
                #[trigger] out@[q],
            ) by {
                if q < out0.len() {
                    assert(out@[p] == out0[p] && out@[q] == out0[q]);
                } else {
                    assert(out@[q] == x);
                    assert(out@[p] == out0[p]);
                    assert(asset_le(field, order, out0[p], rest0[m as int]));
                }
            }
        }
    }
    proof {
        assert(rest@.to_multiset().len() == 0);
        assert(out@.to_multiset().add(rest@.to_multiset()) =~= out@.to_multiset());
    }
    out
}

/// Every asset row of the store, as owned copies.
fn all_assets(store: &AssetStore) -> (r: Vec<Asset>)
    ensures
        r@ == store.assets@,
{
    let mut rows: Vec<Asset> = Vec::new();
    let n0 = store.assets.len();
    let mut i: usize = 0;
    while i < n0
        invariant
            i <= n0,
            n0 == store.assets@.len(),
            rows@ == store.assets@.subrange(0, i as int),
        decreases n0 - i,
    {
        rows.push(copy_asset(&store.assets[i]));
        proof {
            assert(rows@ =~= store.assets@.subrange(0, i as int + 1));
        }
        i = i + 1;
    }
    proof {
        assert(store.assets@.subrange(0, n0 as int) =~= store.assets@);
    }
    rows
}

/// The assets of the store, sorted by name under the given order: same
/// rows, sorted.
pub fn sorted_assets(store: &AssetStore, order: OrderType) -> (r: Vec<Asset>)
    ensures
        sorted_by_order(order, r@),
        r@.to_multiset() == store.assets@.to_multiset(),
        r@.len() == store.assets@.len(),
{
    sort_assets(all_assets(store), SortField::Name, order)
}

/// A bounded page of the sorted asset listing. The limit must lie in 1
/// to 100; anything else is rejected before storage is read. The page
/// holds the rows `offset..offset+limit` of the assets sorted by name.
pub fn get_all_assets(store: &AssetStore, offset: i64, limit: i64, order_by: OrderType) -> (r:
    Result<Vec<Asset>, DatabaseError>)
    ensures
        r is Err <==> !(1 <= limit <= 100 && 0 <= offset),
        r matches Err(e) ==> e is InvalidArgument,
        r matches Ok(page) ==> exists|s: Seq<Asset>|
            {
                &&& #[trigger] sorted_by_order(order_by, s)
                &&& s.to_multiset() == store.assets@.to_multiset()
                &&& s.len() == store.assets@.len()
                &&& page@ == s.subrange(
                    if offset <= s.len() {
                        offset as int
                    } else {
                        s.len() as int
                    },
                    if offset + limit <= s.len() {
                        offset + limit
                    } else {
                        s.len() as int
                    },
                )
            },
{
    if limit < 1 || limit > 100 {
        return Err(
            DatabaseError::InvalidArgument(String::from_str("limit must be between 1 and 100")),
        );
    }
    if offset < 0 {
        return Err(
            DatabaseError::InvalidArgument(String::from_str("offset must not be negative")),
        );
    }
    let sorted = sorted_assets(store, order_by);
    let page = slice_page(&sorted, offset as u64, limit as u64);
    proof {
        assert(sorted_by_order(order_by, sorted@));
    }
    Ok(page)
}

/// The window `offset..offset+limit` of a sorted listing, clamped to
/// its length.
fn slice_page(sorted: &Vec<Asset>, offset: u64, limit: u64) -> (page: Vec<Asset>)
    ensures
        page@ == sorted@.subrange(
            if offset <= sorted@.len() {
                offset as int
            } else {
                sorted@.len() as int
            },
            if offset + limit <= sorted@.len() {
                offset + limit
            } else {
                sorted@.len() as int
            },
        ),
{
    let n = sorted.len();
    let start: usize = if offset <= n as u64 {
        offset as usize
    } else {
        n
    };
    let remaining = n - start;
    let take: usize = if limit <= remaining as u64 {
        limit as usize
    } else {
        remaining
    };
    let end: usize = start + take;
    let mut page: Vec<Asset> = Vec::new();
    let mut i: usize = start;
    proof {
        assert(page@ =~= sorted@.subrange(start as int, start as int));
    }
    while i < end
        invariant
            start <= i <= end,
            end <= n,
            n == sorted@.len(),
            page@ == sorted@.subrange(start as int, i as int),
        decreases end - i,
    {
        page.push(copy_asset(&sorted[i]));
        proof {
            assert(page@ =~= sorted@.subrange(start as int, i as int + 1));
        }
        i = i + 1;
    }
    proof {
        assert(start as int == if offset <= sorted@.len() {
            offset as int
        } else {
            sorted@.len() as int
        });
        assert(end as int == if offset + limit <= sorted@.len() {
            offset + limit
        } else {
            sorted@.len() as int
        });
    }
    page
}

/// An asset matches a name search when its name holds the term,
/// compared without regard to ASCII case — what the storage edge's
/// case-insensitive match with escaped wildcards selects.
pub open spec fn name_matches(term: Seq<char>, a: Asset) -> bool {
    crate::text::contains_seq(crate::text::lower_chars(a.name@), crate::text::lower_chars(term))
}

/// An asset matches a symbol search when its symbol holds the term,
/// compared without regard to ASCII case.
pub open spec fn symbol_matches(term: Seq<char>, a: Asset) -> bool {
    crate::text::contains_seq(crate::text::lower_chars(a.symbol@), crate::text::lower_chars(term))
}

/// An asset matches an owner listing when it is held by the owner and
/// its visibility flag agrees.
pub open spec fn owner_matches(owner: Seq<char>, listable: bool, a: Asset) -> bool {
    a.owner_fp@ == owner && a.listable == listable
}

/// The table rows a name search selects, in table order.
pub open spec fn name_like_rows(table: Seq<Asset>, term: Seq<char>) -> Seq<Asset> {
    table.filter(|a: Asset| name_matches(term, a))
}

/// The table rows a symbol search selects, in table order.
pub open spec fn symbol_like_rows(table: Seq<Asset>, term: Seq<char>) -> Seq<Asset> {
    table.filter(|a: Asset| symbol_matches(term, a))
}

/// The table rows an owner listing selects, in table order.
pub open spec fn owner_rows(table: Seq<Asset>, owner: Seq<char>, listable: bool) -> Seq<Asset> {
    table.filter(|a: Asset| owner_matches(owner, listable, a))
}

/// The rows whose name holds the term, in table order.
fn filter_by_name(store: &AssetStore, term: &str) -> (r: Vec<Asset>)
    ensures
        r@ == name_like_rows(store.assets@, term@),
{
    let n = store.assets.len();
    let mut out: Vec<Asset> = Vec::new();
    let mut i: usize = 0;
    proof {
        assert(name_like_rows(store.assets@.subrange(0, 0), term@) =~= Seq::<Asset>::empty()) by {
            reveal(Seq::filter);
        }
    }
    while i < n
        invariant
            i <= n,
            n == store.assets@.len(),
            out@ == name_like_rows(store.assets@.subrange(0, i as int), term@),
        decreases n - i,
    {
        let ghost prefix = store.assets@.subrange(0, i as int);
        let ghost next_prefix = store.assets@.subrange(0, i as int + 1);
        proof {
            assert(next_prefix.drop_last() =~= prefix);
            assert(next_prefix.last() == store.assets@[i as int]);
            reveal(Seq::filter);
        }
        if crate::text::contains_substr_ci(store.assets[i].name.as_str(), term) {
            out.push(copy_asset(&store.assets[i]));
        }
        i = i + 1;
    }
    proof {
        assert(store.assets@.subrange(0, n as int) =~= store.assets@);
    }
    out
}

/// The rows whose symbol holds the term, in table order.
fn filter_by_symbol(store: &AssetStore, term: &str) -> (r: Vec<Asset>)
    ensures
        r@ == symbol_like_rows(store.assets@, term@),
{
    let n = store.assets.len();
    let mut out: Vec<Asset> = Vec::new();
    let mut i: usize = 0;
    proof {
        assert(symbol_like_rows(store.assets@.subrange(0, 0), term@) =~= Seq::<Asset>::empty())
            by {
            reveal(Seq::filter);
        }
    }
    while i < n
        invariant
            i <= n,
            n == store.assets@.len(),
            out@ == symbol_like_rows(store.assets@.subrange(0, i as int), term@),
        decreases n - i,
    {
        let ghost prefix = store.assets@.subrange(0, i as int);
        let ghost next_prefix = store.assets@.subrange(0, i as int + 1);
        proof {
            assert(next_prefix.drop_last() =~= prefix);
            assert(next_prefix.last() == store.assets@[i as int]);
            reveal(Seq::filter);
        }
        if crate::text::contains_substr_ci(store.assets[i].symbol.as_str(), term) {
            out.push(copy_asset(&store.assets[i]));
        }
        i = i + 1;
    }
    proof {
        assert(store.assets@.subrange(0, n as int) =~= store.assets@);
    }
    out
}

/// The rows held by the owner with the given visibility, in table order.
fn filter_by_owner(store: &AssetStore, owner: &str, listable: bool) -> (r: Vec<Asset>)
    ensures
        r@ == owner_rows(store.assets@, owner@, listable),
{
    let n = store.assets.len();
    let mut out: Vec<Asset> = Vec::new();
    let mut i: usize = 0;
    proof {
        assert(owner_rows(store.assets@.subrange(0, 0), owner@, listable) =~= Seq::<
            Asset,
        >::empty()) by {
            reveal(Seq::filter);
        }
    }
    while i < n
        invariant
            i <= n,
            n == store.assets@.len(),
            out@ == owner_rows(store.assets@.subrange(0, i as int), owner@, listable),
        decreases n - i,
    {
        let ghost prefix = store.assets@.subrange(0, i as int);
        let ghost next_prefix = store.assets@.subrange(0, i as int + 1);
        proof {
            assert(next_prefix.drop_last() =~= prefix);
            assert(next_prefix.last() == store.assets@[i as int]);
            reveal(Seq::filter);
        }
        if crate::text::str_eq(store.assets[i].owner_fp.as_str(), owner) && store.assets[i].listable
            == listable {
            out.push(copy_asset(&store.assets[i]));
        }
        i = i + 1;
    }
    proof {
        assert(store.assets@.subrange(0, n as int) =~= store.assets@);
    }
    out
}

/// What every search result window guarantees: some sorted arrangement
/// `s` of exactly the selected rows, of which the page is the clamped
/// `offset..offset+limit` window.
pub open spec fn search_page_ok(
    rows: Seq<Asset>,
    field: SortField,
    order: OrderType,
    offset: int,
    limit: int,
    page: Seq<Asset>,
) -> bool {
    exists|s: Seq<Asset>|
        {
            &&& #[trigger] sorted_by_key(field, order, s)
            &&& s.to_multiset() == rows.to_multiset()
            &&& s.len() == rows.len()
            &&& page == s.subrange(
                if offset <= s.len() {
                    offset
                } else {
                    s.len() as int
                },
                if offset + limit <= s.len() {
                    offset + limit
                } else {
                    s.len() as int
                },
            )
        }
}

/// The assets whose name holds the search term (compared without regard
/// to ASCII case), sorted by name, as the window `offset..offset+limit`.
pub fn find_assets_name_like(
    name: &str,
    offset: i64,
    limit: usize,
    order_by: OrderType,
    store: &AssetStore,
) -> (r: Result<Vec<Asset>, DatabaseError>)
    ensures
        r is Err <==> offset < 0,
        r matches Err(e) ==> e is InvalidArgument,
        r matches Ok(page) ==> search_page_ok(
            name_like_rows(store.assets@, name@),
            SortField::Name,
            order_by,
            offset as int,
            limit as int,
            page@,
        ),
{
    if offset < 0 {
        return Err(
            DatabaseError::InvalidArgument(String::from_str("offset must not be negative")),
        );
    }
    let rows = filter_by_name(store, name);
    let sorted = sort_assets(rows, SortField::Name, order_by);
    let page = slice_page(&sorted, offset as u64, limit as u64);
    proof {
        assert(sorted_by_key(SortField::Name, order_by, sorted@));
    }
    Ok(page)
}

/// The assets whose symbol holds the search term (compared without
/// regard to ASCII case), sorted by symbol, as the window
/// `offset..offset+limit`.
pub fn find_assets_symbol_like(
    symbol: &str,
    limit: i16,
    offset: i64,
    order_by: OrderType,
    store: &AssetStore,
) -> (r: Result<Vec<Asset>, DatabaseError>)
    ensures
        r is Err <==> (offset < 0 || limit < 0),
        r matches Err(e) ==> e is InvalidArgument,
        r matches Ok(page) ==> search_page_ok(
            symbol_like_rows(store.assets@, symbol@),
            SortField::Symbol,
            order_by,
            offset as int,
            limit as int,
            page@,
        ),
{
    if offset < 0 || limit < 0 {
        return Err(
            DatabaseError::InvalidArgument(
                String::from_str("offset and limit must not be negative"),
            ),
        );
    }
    let rows = filter_by_symbol(store, symbol);
    let sorted = sort_assets(rows, SortField::Symbol, order_by);
    let page = slice_page(&sorted, offset as u64, limit as u64);
    proof {
        assert(sorted_by_key(SortField::Symbol, order_by, sorted@));
    }
    Ok(page)
}

/// The listable (or unlistable) assets held by an owner, sorted by
/// symbol, as the window `offset..offset+limit`.
pub fn find_assets_by_owner(
    owner_fp: &str,
    limit: i16,
    offset: i64,
    listable: bool,
    order_by: OrderType,
    store: &AssetStore,
) -> (r: Result<Vec<Asset>, DatabaseError>)
    ensures
        r is Err <==> (offset < 0 || limit < 0),
        r matches Err(e) ==> e is InvalidArgument,
        r matches Ok(page) ==> search_page_ok(
            owner_rows(store.assets@, owner_fp@, listable),
            SortField::Symbol,
            order_by,
            offset as int,
            limit as int,
            page@,
        ),
{
    if offset < 0 || limit < 0 {
        return Err(
            DatabaseError::InvalidArgument(
                String::from_str("offset and limit must not be negative"),
            ),
        );
    }
    let rows = filter_by_owner(store, owner_fp, listable);
    let sorted = sort_assets(rows, SortField::Symbol, order_by);
    let page = slice_page(&sorted, offset as u64, limit as u64);
    proof {
        assert(sorted_by_key(SortField::Symbol, order_by, sorted@));
    }
    Ok(page)
}

/// Escapes the SQL wildcard characters of a search term: `%` becomes
/// `\%` and `_` becomes `\_`, so a term is always matched literally.
pub open spec fn sanitize_spec(s: Seq<char>) -> Seq<char>
    decreases s.len(),
{
    if s.len() == 0 {
        Seq::empty()
    } else {
        sanitize_spec(s.drop_last()) + escape_char(s.last())
    }
}

/// The escaped form of one character.
pub open spec fn escape_char(c: char) -> Seq<char> {
    if c == '%' {
        seq!['\\', '%']
    } else if c == '_' {
        seq!['\\', '_']
    } else {
        seq![c]
    }
}

/// Escapes the SQL wildcards of a search term so it matches literally.
pub fn sanitize_search_term(search_term: &str) -> (r: String)
    ensures
        r@ == sanitize_spec(search_term@),
{
    let n = search_term.unicode_len();
    let mut out = String::new();
    let mut i: usize = 0;
    proof {
        assert(search_term@.subrange(0, 0) =~= Seq::<char>::empty());
    }
    while i < n
        invariant
            i <= n,
            n == search_term@.len(),
            out@ == sanitize_spec(search_term@.subrange(0, i as int)),
        decreases n - i,
    {
        let ghost prefix = search_term@.subrange(0, i as int);
        let ghost next_prefix = search_term@.subrange(0, i as int + 1);
        proof {
            assert(next_prefix.drop_last() =~= prefix);
            assert(next_prefix.last() == search_term@[i as int]);
        }
        let c = search_term.get_char(i);
        if c == '%' {
            out.append("\\%");
            proof {
                reveal_strlit("\\%");
                assert("\\%"@ =~= seq!['\\', '%']);
            }
        } else if c == '_' {
            out.append("\\_");
            proof {
                reveal_strlit("\\_");
                assert("\\_"@ =~= seq!['\\', '_']);
            }
        } else {
            let piece = search_term.substring_char(i, i + 1);
            out.append(piece);
            proof {
                assert(piece@ =~= seq![c]);
            }
        }
        proof {
            assert(out@ =~= sanitize_spec(next_prefix));
        }
        i = i + 1;
    }
    proof {
        assert(search_term@.subrange(0, n as int) =~= search_term@);
    }
    out
}

} // verus!
