//! Properties that relate the store's operations to one another.
use vstd::prelude::*;
use crate::export::{CellValue, HEADER_ROWS, blank_at, column_at, row_ok, sheet_ok, COLUMN_COUNT};
use crate::query::{
    InformationPageQueryOption, ListMode, Order, arranged, page, selected, selects, search_hit,
    term_of, valid_window,
};
use crate::record::{Information, is_unassigned, same_content, stamped};
use crate::store::{kept, listing, placed};
use crate::text::{contains_ci, fold_code, occurs_at};

verus! {

/// With no search term, the full listing selects every record.
proof fn lemma_selected_everything(s: Seq<Information>)
    ensures
        selected(s, ListMode::All, None) == s,
    decreases s.len(),
{
    if s.len() > 0 {
        lemma_selected_everything(s.drop_last());
        assert(s.drop_last().push(s.last()) == s);
    }
}

/// Every selected record is a record of `s` that the listing selects.
proof fn lemma_selected_members(s: Seq<Information>, mode: ListMode, term: Option<Seq<char>>)
    ensures
        forall|i: int| 0 <= i < selected(s, mode, term).len()
            ==> s.contains(#[trigger] selected(s, mode, term)[i]) && selects(selected(s, mode, term)[i], mode, term),
    decreases s.len(),
{
    if s.len() > 0 {
        let rest = s.drop_last();
        lemma_selected_members(rest, mode, term);
        let sel = selected(s, mode, term);
        assert forall|i: int| 0 <= i < sel.len() implies s.contains(#[trigger] sel[i]) && selects(sel[i], mode, term) by {
            if i < selected(rest, mode, term).len() {
                assert(sel[i] == selected(rest, mode, term)[i]);
                let j = choose|j: int| 0 <= j < rest.len() && rest[j] == sel[i];
                assert(s[j] == sel[i]);
            } else {
                assert(sel[i] == s.last());
                assert(s[s.len() - 1] == sel[i]);
            }
        }
    }
}

/// No two records of `s` share an id.
pub open spec fn distinct_ids(s: Seq<Information>) -> bool {
    forall|i: int, j: int| 0 <= i < s.len() && 0 <= j < s.len() && i != j ==> (#[trigger] s[i]).id != (#[trigger] s[j]).id
}

/// Selecting keeps ids distinct.
proof fn lemma_selected_distinct(s: Seq<Information>, mode: ListMode, term: Option<Seq<char>>)
    requires
        distinct_ids(s),
    ensures
        distinct_ids(selected(s, mode, term)),
    decreases s.len(),
{
    if s.len() > 0 {
        let rest = s.drop_last();
        assert forall|i: int, j: int| 0 <= i < rest.len() && 0 <= j < rest.len() && i != j
            implies (#[trigger] rest[i]).id != (#[trigger] rest[j]).id by {
            assert(rest[i] == s[i]);
            assert(rest[j] == s[j]);
        }
        lemma_selected_distinct(rest, mode, term);
        lemma_selected_members(rest, mode, term);
        let r = selected(rest, mode, term);
        if selects(s.last(), mode, term) {
            let sel = r.push(s.last());
            assert forall|i: int, j: int| 0 <= i < sel.len() && 0 <= j < sel.len() && i != j
                implies (#[trigger] sel[i]).id != (#[trigger] sel[j]).id by {
                if i < r.len() && j < r.len() {
                    assert(sel[i] == r[i]);
                    assert(sel[j] == r[j]);
                } else {
                    let k = if i < r.len() { i } else { j };
                    assert(sel[k] == r[k]);
                    assert(rest.contains(r[k]));
                    let m = choose|m: int| 0 <= m < rest.len() && rest[m] == r[k];
                    assert(s[m] == r[k]);
                    assert(s[s.len() - 1] == s.last());
                }
            }
        }
    }
}

/// Every record of `s` that the listing selects is among the selected ones.
proof fn lemma_selected_complete(s: Seq<Information>, mode: ListMode, term: Option<Seq<char>>)
    ensures
        forall|x: Information| s.contains(x) && selects(x, mode, term) ==> #[trigger] selected(s, mode, term).contains(x),
    decreases s.len(),
{
    if s.len() > 0 {
        let rest = s.drop_last();
        lemma_selected_complete(rest, mode, term);
        let r = selected(rest, mode, term);
        assert forall|x: Information| s.contains(x) && selects(x, mode, term) implies #[trigger] selected(s, mode, term).contains(x) by {
            let j = choose|j: int| 0 <= j < s.len() && s[j] == x;
            if j < s.len() - 1 {
                assert(rest[j] == x);
                assert(rest.contains(x));
                assert(r.contains(x));
                let k = choose|k: int| 0 <= k < r.len() && r[k] == x;
                if selects(s.last(), mode, term) {
                    assert(r.push(s.last())[k] == x);
                } else {
                    assert(selected(s, mode, term) == r);
                }
            } else {
                assert(r.push(s.last())[r.len() as int] == x);
            }
        }
    }
}

/// Where the record at `p` of an ascending sequence of `len` records stands
/// in the listing arranged in `order`.
pub open spec fn arranged_position(p: int, len: int, order: Order) -> int {
    match order {
        Order::Asc => p,
        Order::Desc => len - 1 - p,
    }
}

/// A record created into a store appears, unchanged but for its id and
/// creation time, in every page of the full listing (in either order) whose
/// window covers the place it was put at.
pub proof fn law_create_then_list(
    before: Seq<Information>,
    after: Seq<Information>,
    info: Information,
    id: i64,
    now: i64,
    p: int,
    opt: InformationPageQueryOption,
)
    requires
        placed(before, after, stamped(info, id, now), p),
        opt.search is None,
        valid_window(opt.offset, opt.limit),
        opt.offset <= arranged_position(p, after.len() as int, opt.order) < opt.offset + opt.limit,
    ensures
        ({
            let q = arranged_position(p, after.len() as int, opt.order) - opt.offset;
            let out = listing(after, ListMode::All, opt).0;
            &&& 0 <= q < out.len()
            &&& out[q] == stamped(info, id, now)
            &&& same_content(out[q], info)
            &&& out[q].id == id
            &&& out[q].created_at == Some(now)
            &&& out[q].updated_at is None
            &&& out[q].deleted_at is None
        }),
{
    lemma_selected_everything(after);
    assert(after[p] == stamped(info, id, now));
    let all = arranged(after, opt.order);
    let pos = arranged_position(p, after.len() as int, opt.order);
    assert(all[pos] == after[p]);
}

/// Adjacent windows join into the window that spans both.
pub proof fn lemma_adjacent_pages(s: Seq<Information>, offset: int, a: int, b: int)
    requires
        0 <= offset,
        0 <= a,
        0 <= b,
    ensures
        page(s, offset, a) + page(s, offset + a, b) == page(s, offset, a + b),
{
    let len = s.len() as int;
    let lo = if offset < len { offset } else { len };
    let mid = if offset + a < len { offset + a } else { len };
    let hi = if offset + a + b < len { offset + a + b } else { len };
    assert(s.subrange(lo, mid) + s.subrange(mid, hi) == s.subrange(lo, hi));
}

/// The first page of size `n` followed by the second page of size `n` is the
/// start of the ordered selection, without overlap and without gap; the
/// total reported beside each is the same.
pub proof fn law_pagination(
    s: Seq<Information>,
    mode: ListMode,
    search: Option<String>,
    order: Order,
    n: i64,
)
    requires
        n > 0,
    ensures
        ({
            let first = InformationPageQueryOption { offset: 0, limit: n, order: order, search: search };
            let second = InformationPageQueryOption { offset: n, limit: n, order: order, search: search };
            let all = arranged(selected(s, mode, term_of(search)), order);
            &&& listing(s, mode, first).0 + listing(s, mode, second).0
                == all.subrange(0, if 2 * n < all.len() { 2 * n } else { all.len() as int })
            &&& listing(s, mode, first).1 == listing(s, mode, second).1
            &&& distinct_ids(s) ==> forall|i: int, j: int|
                0 <= i < listing(s, mode, first).0.len() && 0 <= j < listing(s, mode, second).0.len()
                ==> (#[trigger] listing(s, mode, first).0[i]).id != (#[trigger] listing(s, mode, second).0[j]).id
        }),
{
    let t = term_of(search);
    let sel = selected(s, mode, t);
    let all = arranged(sel, order);
    lemma_adjacent_pages(all, 0, n as int, n as int);
    let first = InformationPageQueryOption { offset: 0, limit: n, order: order, search: search };
    let second = InformationPageQueryOption { offset: n, limit: n, order: order, search: search };
    if distinct_ids(s) {
        lemma_selected_distinct(s, mode, t);
        let f = listing(s, mode, first).0;
        let g = listing(s, mode, second).0;
        let len = all.len() as int;
        let mid = if n < len { n as int } else { len };
        let hi = if 2 * n < len { 2 * n } else { len };
        assert(f == all.subrange(0, mid));
        assert(g == all.subrange(mid, hi));
        assert forall|i: int, j: int| 0 <= i < f.len() && 0 <= j < g.len() implies (#[trigger] f[i]).id != (#[trigger] g[j]).id by {
            assert(f[i] == all[i]);
            assert(g[j] == all[mid + j]);
            match order {
                Order::Asc => {},
                Order::Desc => {
                    assert(all[i] == sel[sel.len() - 1 - i]);
                    assert(all[mid + j] == sel[sel.len() - 1 - (mid + j)]);
                },
            }
        }
    }
}

/// The listing of unassigned records holds only records that neither phase
/// has been assigned.
pub proof fn law_unassigned_only(s: Seq<Information>, opt: InformationPageQueryOption)
    requires
        valid_window(opt.offset, opt.limit),
    ensures
        forall|i: int| 0 <= i < listing(s, ListMode::Unassigned, opt).0.len()
            ==> is_unassigned(#[trigger] listing(s, ListMode::Unassigned, opt).0[i]),
{
    let t = term_of(opt.search);
    let sel = selected(s, ListMode::Unassigned, t);
    lemma_selected_members(s, ListMode::Unassigned, t);
    let all = arranged(sel, opt.order);
    let out = listing(s, ListMode::Unassigned, opt).0;
    let lo = if opt.offset < all.len() { opt.offset as int } else { all.len() as int };
    let hi = if opt.offset + opt.limit < all.len() { opt.offset + opt.limit } else { all.len() as int };
    assert(out == page(all, opt.offset as int, opt.limit as int));
    assert(out == all.subrange(lo, hi));
    assert(all.len() == sel.len());
    assert forall|i: int| 0 <= i < out.len() implies is_unassigned(#[trigger] out[i]) by {
        assert(out[i] == all[lo + i]);
        match opt.order {
            Order::Asc => {
                assert(all[lo + i] == sel[lo + i]);
                assert(selects(sel[lo + i], ListMode::Unassigned, t));
            },
            Order::Desc => {
                assert(all[lo + i] == sel[sel.len() - 1 - (lo + i)]);
                assert(selects(sel[sel.len() - 1 - (lo + i)], ListMode::Unassigned, t));
            },
        }
    }
}

/// Terms that differ only in ASCII case occur in the same places.
proof fn lemma_contains_same_fold(hay: Seq<char>, t1: Seq<char>, t2: Seq<char>)
    requires
        t1.len() == t2.len(),
        forall|j: int| 0 <= j < t1.len() ==> fold_code(#[trigger] t1[j]) == fold_code(t2[j]),
    ensures
        contains_ci(hay, t1) == contains_ci(hay, t2),
{
    assert forall|i: int| occurs_at(hay, t1, i) <==> occurs_at(hay, t2, i) by {
        if occurs_at(hay, t1, i) {
            assert forall|j: int| 0 <= j < t2.len() implies fold_code(#[trigger] hay[i + j]) == fold_code(t2[j]) by {
                assert(fold_code(hay[i + j]) == fold_code(t1[j]));
            }
        }
        if occurs_at(hay, t2, i) {
            assert forall|j: int| 0 <= j < t1.len() implies fold_code(#[trigger] hay[i + j]) == fold_code(t1[j]) by {
                assert(fold_code(hay[i + j]) == fold_code(t2[j]));
            }
        }
    }
}

/// Search ignores ASCII case: two terms that differ only in case select the
/// same records, and a record whose plaintiff holds the term in any case is
/// selected by the full listing (and by the unassigned listing, where it is
/// unassigned).
pub proof fn law_search_ignores_case(r: Information, mode: ListMode, t1: Seq<char>, t2: Seq<char>)
    requires
        t1.len() == t2.len(),
        forall|j: int| 0 <= j < t1.len() ==> fold_code(#[trigger] t1[j]) == fold_code(t2[j]),
    ensures
        selects(r, mode, Some(t1)) == selects(r, mode, Some(t2)),
        contains_ci(r.plaintiff@, t1) ==> selects(r, ListMode::All, Some(t1)),
        contains_ci(r.plaintiff@, t1) && is_unassigned(r) ==> selects(r, ListMode::Unassigned, Some(t1)),
{
    lemma_contains_same_fold(r.acceptance_no@, t1, t2);
    lemma_contains_same_fold(r.plaintiff@, t1, t2);
    lemma_contains_same_fold(r.defendant@, t1, t2);
    match r.inv_investigator {
        Some(v) => lemma_contains_same_fold(v@, t1, t2),
        None => {},
    }
    match r.pro_procurator {
        Some(v) => lemma_contains_same_fold(v@, t1, t2),
        None => {},
    }
    match r.inv_designation_no {
        Some(v) => lemma_contains_same_fold(v@, t1, t2),
        None => {},
    }
    match r.pro_designation_no {
        Some(v) => lemma_contains_same_fold(v@, t1, t2),
        None => {},
    }
    assert(search_hit(r, mode, t1) == search_hit(r, mode, t2));
}

/// Deleting by an id set keeps exactly the records whose id is not in it.
pub proof fn law_delete_removes_exactly(s: Seq<Information>, ids: Seq<i64>)
    ensures
        forall|x: Information| #[trigger] kept(s, ids).contains(x) <==> (s.contains(x) && !ids.contains(x.id)),
    decreases s.len(),
{
    if s.len() > 0 {
        let rest = s.drop_last();
        let last = s.last();
        let k = kept(rest, ids);
        law_delete_removes_exactly(rest, ids);
        assert(s == rest.push(last));
        assert forall|x: Information| #[trigger] kept(s, ids).contains(x) <==> (s.contains(x) && !ids.contains(x.id)) by {
            assert(k.contains(x) <==> (rest.contains(x) && !ids.contains(x.id)));
            assert(s.contains(x) <==> (rest.contains(x) || x == last)) by {
                if s.contains(x) {
                    let j = choose|j: int| 0 <= j < s.len() && s[j] == x;
                    if j < s.len() - 1 {
                        assert(rest[j] == x);
                    }
                }
                if rest.contains(x) {
                    let j = choose|j: int| 0 <= j < rest.len() && rest[j] == x;
                    assert(s[j] == x);
                }
                if x == last {
                    assert(s[s.len() - 1] == x);
                }
            }
            if !ids.contains(last.id) {
                assert(kept(s, ids) == k.push(last));
                assert(k.push(last).contains(x) <==> (k.contains(x) || x == last)) by {
                    if k.push(last).contains(x) {
                        let j = choose|j: int| 0 <= j < k.len() + 1 && k.push(last)[j] == x;
                        if j < k.len() {
                            assert(k[j] == x);
                        }
                    }
                    if k.contains(x) {
                        let j = choose|j: int| 0 <= j < k.len() && k[j] == x;
                        assert(k.push(last)[j] == x);
                    }
                    if x == last {
                        assert(k.push(last)[k.len() as int] == x);
                    }
                }
            } else {
                assert(kept(s, ids) == k);
            }
        }
    }
}

/// A search whose window covers every record lists exactly the records of
/// the store that the term selects (in either order), and reports a total
/// exactly when at least one is selected.
pub proof fn law_search_listing(s: Seq<Information>, mode: ListMode, opt: InformationPageQueryOption)
    requires
        opt.search is Some,
        opt.offset == 0,
        opt.limit >= s.len(),
    ensures
        forall|x: Information| #[trigger] listing(s, mode, opt).0.contains(x)
            <==> (s.contains(x) && selects(x, mode, term_of(opt.search))),
        (exists|x: Information| s.contains(x) && selects(x, mode, term_of(opt.search)))
            <==> (listing(s, mode, opt).1 is Some && listing(s, mode, opt).1.unwrap() >= 1),
{
    let t = term_of(opt.search);
    let sel = selected(s, mode, t);
    lemma_selected_members(s, mode, t);
    lemma_selected_complete(s, mode, t);
    crate::store::lemma_selected_len(s, mode, t);
    let all = arranged(sel, opt.order);
    let out = listing(s, mode, opt).0;
    assert(all.len() == sel.len());
    assert(out == all.subrange(0, all.len() as int));
    assert(out == all);
    assert forall|x: Information| #[trigger] out.contains(x) <==> sel.contains(x) by {
        if out.contains(x) {
            let i = choose|i: int| 0 <= i < out.len() && out[i] == x;
            match opt.order {
                Order::Asc => { assert(sel[i] == x); },
                Order::Desc => { assert(sel[sel.len() - 1 - i] == x); },
            }
        }
        if sel.contains(x) {
            let i = choose|i: int| 0 <= i < sel.len() && sel[i] == x;
            match opt.order {
                Order::Asc => { assert(out[i] == x); },
                Order::Desc => { assert(out[sel.len() - 1 - i] == x); },
            }
        }
    }
    assert forall|x: Information| sel.contains(x) <==> (s.contains(x) && selects(x, mode, t)) by {
        if sel.contains(x) {
            let i = choose|i: int| 0 <= i < sel.len() && sel[i] == x;
            assert(s.contains(sel[i]) && selects(sel[i], mode, t));
        }
    }
    if exists|x: Information| s.contains(x) && selects(x, mode, t) {
        let x = choose|x: Information| s.contains(x) && selects(x, mode, t);
        assert(sel.contains(x));
    }
    if sel.len() > 0 {
        assert(sel.contains(sel[0]));
    }
}

/// An unassigned record whose plaintiff holds the search term, in any ASCII
/// case, lies in the unassigned listing of every window that covers the
/// store, and the total reported is at least one.
pub proof fn law_unassigned_search_finds(s: Seq<Information>, r: Information, opt: InformationPageQueryOption)
    requires
        s.contains(r),
        is_unassigned(r),
        opt.search is Some,
        contains_ci(r.plaintiff@, opt.search.unwrap()@),
        opt.offset == 0,
        opt.limit >= s.len(),
    ensures
        listing(s, ListMode::Unassigned, opt).0.contains(r),
        listing(s, ListMode::Unassigned, opt).1 is Some,
        listing(s, ListMode::Unassigned, opt).1.unwrap() >= 1,
{
    let t = opt.search.unwrap()@;
    law_search_ignores_case(r, ListMode::Unassigned, t, t);
    assert(term_of(opt.search) == Some(t));
    law_search_listing(s, ListMode::Unassigned, opt);
    assert(s.contains(r) && selects(r, ListMode::Unassigned, term_of(opt.search)));
}

/// Deleting the same ids a second time changes nothing.
pub proof fn law_delete_twice(s: Seq<Information>, ids: Seq<i64>)
    ensures
        kept(kept(s, ids), ids) == kept(s, ids),
    decreases s.len(),
{
    if s.len() > 0 {
        law_delete_twice(s.drop_last(), ids);
        let k = kept(s.drop_last(), ids);
        if !ids.contains(s.last().id) {
            let kk = k.push(s.last());
            assert(kk.drop_last() == k);
            assert(kk.last() == s.last());
        }
    }
}

/// An export of `N` records spans `N` rows below its three header rows, and
/// a cell is blank exactly where the record's optional timestamp for that
/// column is absent.
pub proof fn law_export_layout(sheet: crate::export::Sheet, records: Seq<Information>)
    requires
        sheet_ok(sheet, records),
    ensures
        HEADER_ROWS + sheet.rows@.len() == records.len() + 3,
        forall|i: int, k: int| 0 <= i < records.len() && 0 <= k < COLUMN_COUNT
            ==> ((#[trigger] sheet.rows@[i]@[k] is Blank) <==> blank_at(records[i], #[trigger] column_at(k))),
{
    assert forall|i: int, k: int| 0 <= i < records.len() && 0 <= k < COLUMN_COUNT
        implies ((#[trigger] sheet.rows@[i]@[k] is Blank) <==> blank_at(records[i], #[trigger] column_at(k))) by {
        assert(row_ok(sheet.rows@[i]@, records[i], i));
        let v: CellValue = sheet.rows@[i]@[k];
        assert(crate::export::cell_ok(v, records[i], i, column_at(k)));
    }
}

} // verus!
