//! The record store: the table of case records, kept in ascending order of
//! creation time, with its create / update / delete / list operations.
use vstd::prelude::*;
use crate::error::InformationError;
use crate::export::{Sheet, any_record_fails, render_sheet, sheet_ok};
use crate::query::{
    InformationPageQueryOption, ListMode, Order, arranged, page, prepare_term, selected,
    selects_record, term_of, valid_window,
};
use crate::record::{Information, created_key, revised, stamped};

verus! {

/// `s` is ordered by creation time, ascending.
pub open spec fn ascending(s: Seq<Information>) -> bool {
    forall|i: int, j: int| 0 <= i < j < s.len() ==> created_key(s[i]) <= created_key(s[j])
}

/// `s` is a consistent table whose ids are all below `next`: ordered by
/// creation time, every record stamped with a creation time, ids positive and
/// distinct, acceptance numbers distinct.
pub open spec fn table_ok(s: Seq<Information>, next: int) -> bool {
    &&& ascending(s)
    &&& forall|i: int| 0 <= i < s.len() ==> (#[trigger] s[i]).created_at is Some
    &&& forall|i: int| 0 <= i < s.len() ==> 0 < (#[trigger] s[i]).id < next
    &&& forall|i: int, j: int| 0 <= i < s.len() && 0 <= j < s.len() && i != j
        ==> (#[trigger] s[i]).id != (#[trigger] s[j]).id
    &&& forall|i: int, j: int| 0 <= i < s.len() && 0 <= j < s.len() && i != j
        ==> (#[trigger] s[i]).acceptance_no@ != (#[trigger] s[j]).acceptance_no@
    &&& s.len() < next <= i64::MAX
}

/// Some record of `s` has acceptance number `no`.
pub open spec fn has_acceptance_no(s: Seq<Information>, no: Seq<char>) -> bool {
    exists|i: int| 0 <= i < s.len() && (#[trigger] s[i]).acceptance_no@ == no
}

/// Some record of `s` has id `id`.
pub open spec fn has_id(s: Seq<Information>, id: i64) -> bool {
    exists|i: int| 0 <= i < s.len() && (#[trigger] s[i]).id == id
}

/// A record of `s` other than the one with id `id` has acceptance number `no`.
pub open spec fn taken_by_other(s: Seq<Information>, id: i64, no: Seq<char>) -> bool {
    exists|i: int| 0 <= i < s.len() && (#[trigger] s[i]).id != id && s[i].acceptance_no@ == no
}

/// `after` is `before` with `x` inserted at `p`, the place that keeps the
/// order by creation time: behind every record created no later than `x`,
/// ahead of every record created after it.
pub open spec fn placed(before: Seq<Information>, after: Seq<Information>, x: Information, p: int) -> bool {
    &&& 0 <= p <= before.len()
    &&& after == before.insert(p, x)
    &&& forall|i: int| 0 <= i < p ==> created_key(#[trigger] before[i]) <= created_key(x)
    &&& forall|i: int| p <= i < before.len() ==> created_key(#[trigger] before[i]) > created_key(x)
}

/// The records of `s` whose id is not in `ids`, in the order of `s`.
pub open spec fn kept(s: Seq<Information>, ids: Seq<i64>) -> Seq<Information>
    decreases s.len(),
{
    if s.len() == 0 {
        Seq::empty()
    } else {
        let rest = kept(s.drop_last(), ids);
        if ids.contains(s.last().id) {
            rest
        } else {
            rest.push(s.last())
        }
    }
}

/// The number of selected records, as reported beside a page: absent when
/// nothing is selected.
pub open spec fn total_of(n: nat) -> Option<i64> {
    if n == 0 {
        None
    } else {
        Some(n as i64)
    }
}

/// What a listing of `s` in `mode` returns for `opt`: the requested window of
/// the selected records, arranged in the requested direction, and their
/// number.
pub open spec fn listing(s: Seq<Information>, mode: ListMode, opt: InformationPageQueryOption) -> (
    Seq<Information>,
    Option<i64>,
) {
    let chosen = selected(s, mode, term_of(opt.search));
    (page(arranged(chosen, opt.order), opt.offset as int, opt.limit as int), total_of(chosen.len()))
}

/// Selecting never yields more records than there are.
pub proof fn lemma_selected_len(s: Seq<Information>, mode: ListMode, term: Option<Seq<char>>)
    ensures
        selected(s, mode, term).len() <= s.len(),
    decreases s.len(),
{
    if s.len() > 0 {
        lemma_selected_len(s.drop_last(), mode, term);
    }
}

/// `r` was accepted within `range` (both ends included); every record is
/// within an absent range.
pub open spec fn accepted_within(r: Information, range: Option<(i64, i64)>) -> bool {
    match range {
        Some((from, to)) => from <= r.accepted_at <= to,
        None => true,
    }
}

/// The records of `s` accepted within `range`, in the order of `s`.
pub open spec fn export_set(s: Seq<Information>, range: Option<(i64, i64)>) -> Seq<Information>
    decreases s.len(),
{
    if s.len() == 0 {
        Seq::empty()
    } else {
        let rest = export_set(s.drop_last(), range);
        if accepted_within(s.last(), range) {
            rest.push(s.last())
        } else {
            rest
        }
    }
}

/// The table of case records.
pub struct InformationStore {
    records: Vec<Information>,
    next_id: i64,
}

impl View for InformationStore {
    type V = Seq<Information>;

    closed spec fn view(&self) -> Seq<Information> {
        self.records@
    }
}

fn creation_time(r: &Information) -> (t: i64)
    ensures
        t == created_key(*r),
{
    match r.created_at {
        Some(t) => t,
        None => 0,
    }
}

impl InformationStore {
    /// The id that the next created record receives.
    pub closed spec fn next_id_spec(&self) -> int {
        self.next_id as int
    }

    /// The store is consistent.
    pub open spec fn wf(&self) -> bool {
        table_ok(self@, self.next_id_spec())
    }

    /// An empty store.
    pub fn new() -> (r: InformationStore)
        ensures
            r.wf(),
            r@ == Seq::<Information>::empty(),
            r.next_id_spec() == 1,
    {
        InformationStore { records: Vec::new(), next_id: 1 }
    }

    /// The number of records.
    pub fn len(&self) -> (n: usize)
        ensures
            n == self@.len(),
    {
        self.records.len()
    }

    /// The records, in ascending order of creation time.
    pub fn records(&self) -> (r: &Vec<Information>)
        ensures
            r@ == self@,
    {
        &self.records
    }

    /// Whether some record has acceptance number `no`.
    fn acceptance_no_in_use(&self, no: &String) -> (b: bool)
        ensures
            b == has_acceptance_no(self@, no@),
    {
        let mut i: usize = 0;
        while i < self.records.len()
            invariant
                i <= self.records.len(),
                forall|k: int| 0 <= k < i ==> (#[trigger] self.records@[k]).acceptance_no@ != no@,
            decreases self.records.len() - i,
        {
            if self.records[i].acceptance_no == *no {
                return true;
            }
            i = i + 1;
        }
        false
    }

    /// The place where a record created at `now` goes.
    fn place_for(&self, now: i64) -> (p: usize)
        requires
            self.wf(),
        ensures
            p <= self@.len(),
            forall|i: int| 0 <= i < p ==> created_key(#[trigger] self@[i]) <= now,
            forall|i: int| p <= i < self@.len() ==> created_key(#[trigger] self@[i]) > now,
    {
        let mut p: usize = 0;
        while p < self.records.len() && creation_time(&self.records[p]) <= now
            invariant
                p <= self.records.len(),
                forall|i: int| 0 <= i < p ==> created_key(#[trigger] self.records@[i]) <= now,
            decreases self.records.len() - p,
        {
            p = p + 1;
        }
        proof {
            if p < self.records.len() {
                assert forall|i: int| p <= i < self@.len() implies created_key(#[trigger] self@[i]) > now by {
                    assert(created_key(self@[p as int]) <= created_key(self@[i]));
                }
            }
        }
        p
    }

    /// Records `info` as a new case, created at `now`, and returns the id it
    /// received. The caller's id and bookkeeping timestamps are ignored.
    pub fn create_information(&mut self, info: Information, now: i64) -> (r: Result<i64, InformationError>)
        requires
            old(self).wf(),
        ensures
            final(self).wf(),
            has_acceptance_no(old(self)@, info.acceptance_no@) ==> r == Err::<i64, InformationError>(InformationError::Conflict),
            !has_acceptance_no(old(self)@, info.acceptance_no@) && old(self).next_id_spec() == i64::MAX
                ==> r == Err::<i64, InformationError>(InformationError::Storage),
            !has_acceptance_no(old(self)@, info.acceptance_no@) && old(self).next_id_spec() < i64::MAX
                ==> r == Ok::<i64, InformationError>(old(self).next_id_spec() as i64),
            r is Err ==> final(self)@ == old(self)@ && final(self).next_id_spec() == old(self).next_id_spec(),
            r is Ok ==> final(self).next_id_spec() == old(self).next_id_spec() + 1
                && exists|p: int| placed(old(self)@, final(self)@, stamped(info, r->Ok_0, now), p),
    {
        if self.acceptance_no_in_use(&info.acceptance_no) {
            return Err(InformationError::Conflict);
        }
        if self.next_id == i64::MAX {
            return Err(InformationError::Storage);
        }
        let id = self.next_id;
        let p = self.place_for(now);
        let rec = Information { id: id, created_at: Some(now), updated_at: None, deleted_at: None, ..info };
        let ghost before = self@;
        self.records.insert(p, rec);
        self.next_id = id + 1;
        proof {
            let after = self@;
            assert(after == before.insert(p as int, rec));
            assert(placed(before, after, rec, p as int));
            assert forall|i: int, j: int| 0 <= i < j < after.len() implies created_key(after[i]) <= created_key(after[j]) by {
                if j < p {
                } else if j == p {
                } else if i < p {
                    assert(after[j] == before[j - 1]);
                } else if i == p {
                    assert(after[j] == before[j - 1]);
                } else {
                    assert(after[i] == before[i - 1]);
                    assert(after[j] == before[j - 1]);
                }
            }
            assert forall|i: int, j: int| 0 <= i < after.len() && 0 <= j < after.len() && i != j
                implies (#[trigger] after[i]).id != (#[trigger] after[j]).id
                    && after[i].acceptance_no@ != after[j].acceptance_no@ by {
                let bi = if i < p { i } else { i - 1 };
                let bj = if j < p { j } else { j - 1 };
                if i != p as int {
                    assert(after[i] == before[bi]);
                }
                if j != p as int {
                    assert(after[j] == before[bj]);
                }
            }
            assert forall|i: int| 0 <= i < after.len() implies (#[trigger] after[i]).created_at is Some
                && 0 < after[i].id < self.next_id by {
                if i < p {
                } else if i > p {
                    assert(after[i] == before[i - 1]);
                }
            }
        }
        Ok(id)
    }

    /// The position of the record with id `id`, if any.
    fn position_of(&self, id: i64) -> (r: Option<usize>)
        requires
            self.wf(),
        ensures
            match r {
                Some(k) => k < self@.len() && self@[k as int].id == id,
                None => !has_id(self@, id),
            },
    {
        let mut i: usize = 0;
        while i < self.records.len()
            invariant
                i <= self.records.len(),
                forall|k: int| 0 <= k < i ==> (#[trigger] self.records@[k]).id != id,
            decreases self.records.len() - i,
        {
            if self.records[i].id == id {
                return Some(i);
            }
            i = i + 1;
        }
        None
    }

    /// Whether a record other than the one with id `id` has acceptance
    /// number `no`.
    fn acceptance_no_taken(&self, id: i64, no: &String) -> (b: bool)
        ensures
            b == taken_by_other(self@, id, no@),
    {
        let mut i: usize = 0;
        while i < self.records.len()
            invariant
                i <= self.records.len(),
                forall|k: int| 0 <= k < i ==> !((#[trigger] self.records@[k]).id != id
                    && self.records@[k].acceptance_no@ == no@),
            decreases self.records.len() - i,
        {
            if self.records[i].id != id && self.records[i].acceptance_no == *no {
                return true;
            }
            i = i + 1;
        }
        false
    }

    /// Overwrites every caller-supplied field of the record with id
    /// `info.id` and stamps it as updated at `now`.
    pub fn update_information(&mut self, info: Information, now: i64) -> (r: Result<(), InformationError>)
        requires
            old(self).wf(),
        ensures
            final(self).wf(),
            final(self).next_id_spec() == old(self).next_id_spec(),
            !has_id(old(self)@, info.id) ==> r == Err::<(), InformationError>(InformationError::NotFound),
            has_id(old(self)@, info.id) && taken_by_other(old(self)@, info.id, info.acceptance_no@)
                ==> r == Err::<(), InformationError>(InformationError::Conflict),
            has_id(old(self)@, info.id) && !taken_by_other(old(self)@, info.id, info.acceptance_no@)
                ==> r is Ok,
            r is Err ==> final(self)@ == old(self)@,
            r is Ok ==> forall|k: int| 0 <= k < old(self)@.len() && (#[trigger] old(self)@[k]).id == info.id
                ==> final(self)@ == old(self)@.update(k, revised(old(self)@[k], info, now)),
    {
        let k = match self.position_of(info.id) {
            Some(k) => k,
            None => {
                return Err(InformationError::NotFound);
            },
        };
        if self.acceptance_no_taken(info.id, &info.acceptance_no) {
            return Err(InformationError::Conflict);
        }
        let ghost before = self@;
        let current_created = self.records[k].created_at;
        let current_deleted = self.records[k].deleted_at;
        let rec = Information {
            id: info.id,
            created_at: current_created,
            deleted_at: current_deleted,
            updated_at: Some(now),
            ..info
        };
        self.records.set(k, rec);
        proof {
            let after = self@;
            assert(after == before.update(k as int, revised(before[k as int], info, now)));
            assert forall|i: int, j: int| 0 <= i < after.len() && 0 <= j < after.len() && i != j
                implies (#[trigger] after[i]).id != (#[trigger] after[j]).id
                    && after[i].acceptance_no@ != after[j].acceptance_no@ by {
                if i == k {
                    assert(!(before[j].id != info.id && before[j].acceptance_no@ == info.acceptance_no@));
                } else if j == k {
                    assert(!(before[i].id != info.id && before[i].acceptance_no@ == info.acceptance_no@));
                }
            }
            assert forall|q: int| 0 <= q < before.len() && (#[trigger] before[q]).id == info.id
                implies q == k by {}
            assert forall|i: int, j: int| 0 <= i < j < after.len() implies created_key(after[i]) <= created_key(after[j]) by {
                assert(created_key(before[i]) <= created_key(before[j]));
            }
        }
        Ok(())
    }

    /// Removes every record whose id is in `ids`. An empty `ids` is refused
    /// rather than taken to mean every record.
    pub fn delete_information(&mut self, ids: &Vec<i64>) -> (r: Result<(), InformationError>)
        requires
            old(self).wf(),
        ensures
            final(self).wf(),
            final(self).next_id_spec() == old(self).next_id_spec(),
            ids@.len() == 0 <==> r == Err::<(), InformationError>(InformationError::Validation),
            ids@.len() > 0 <==> r is Ok,
            r is Err ==> final(self)@ == old(self)@,
            r is Ok ==> final(self)@ == kept(old(self)@, ids@),
    {
        if ids.len() == 0 {
            return Err(InformationError::Validation);
        }
        let ghost before = self@;
        let mut remaining: Vec<Information> = Vec::new();
        let mut i: usize = 0;
        while i < self.records.len()
            invariant
                self@ == before,
                table_ok(before, self.next_id_spec()),
                i <= before.len(),
                remaining@ == kept(before.subrange(0, i as int), ids@),
                forall|a: int| 0 <= a < remaining@.len()
                    ==> exists|b: int| 0 <= b < i && #[trigger] remaining@[a] == before[b],
                table_ok(remaining@, self.next_id_spec()),
                remaining@.len() > 0 ==> forall|b: int| i <= b < before.len()
                    ==> created_key(remaining@.last()) <= created_key(#[trigger] before[b]),
                remaining@.len() <= i,
            decreases before.len() - i,
        {
            let r = &self.records[i];
            let mut hit = false;
            let mut j: usize = 0;
            while j < ids.len()
                invariant
                    j <= ids.len(),
                    hit == exists|q: int| 0 <= q < j && ids@[q] == r.id,
                decreases ids.len() - j,
            {
                if ids[j] == r.id {
                    hit = true;
                }
                j = j + 1;
            }
            proof {
                let pre = before.subrange(0, i as int + 1);
                assert(pre.drop_last() == before.subrange(0, i as int));
                assert(pre.last() == before[i as int]);
                assert(hit == ids@.contains(r.id));
            }
            if !hit {
                let ghost old_rem = remaining@;
                remaining.push(r.duplicate());
                proof {
                    let rem = remaining@;
                    assert forall|a: int| 0 <= a < rem.len()
                        implies exists|b: int| 0 <= b < i + 1 && #[trigger] rem[a] == before[b] by {
                        if a < old_rem.len() {
                            assert(rem[a] == old_rem[a]);
                        } else {
                            assert(rem[a] == before[i as int]);
                        }
                    }
                    assert forall|a: int, c: int| 0 <= a < rem.len() && 0 <= c < rem.len() && a != c
                        implies (#[trigger] rem[a]).id != (#[trigger] rem[c]).id
                            && rem[a].acceptance_no@ != rem[c].acceptance_no@ by {
                        if a == old_rem.len() && c < old_rem.len() {
                            assert(rem[c] == old_rem[c]);
                            let b = choose|b: int| 0 <= b < i && #[trigger] old_rem[c] == before[b];
                            assert(before[b] == rem[c]);
                        } else if c == old_rem.len() && a < old_rem.len() {
                            assert(rem[a] == old_rem[a]);
                            let b = choose|b: int| 0 <= b < i && #[trigger] old_rem[a] == before[b];
                            assert(before[b] == rem[a]);
                        } else {
                            assert(rem[a] == old_rem[a]);
                            assert(rem[c] == old_rem[c]);
                        }
                    }
                    assert forall|a: int, c: int| 0 <= a < c < rem.len()
                        implies created_key(rem[a]) <= created_key(rem[c]) by {
                        if c == old_rem.len() {
                            assert(created_key(old_rem.last()) <= created_key(before[i as int]));
                            assert(created_key(old_rem[a]) <= created_key(old_rem.last()));
                        }
                    }
                    assert forall|a: int| 0 <= a < rem.len() implies (#[trigger] rem[a]).created_at is Some
                        && 0 < rem[a].id < self.next_id_spec() by {
                        if a < old_rem.len() {
                            assert(rem[a] == old_rem[a]);
                        }
                    }
                    assert forall|b: int| i + 1 <= b < before.len()
                        implies created_key(rem.last()) <= created_key(#[trigger] before[b]) by {
                        assert(created_key(before[i as int]) <= created_key(before[b]));
                    }
                }
            } else {
                proof {
                    if remaining@.len() > 0 {
                        assert forall|b: int| i + 1 <= b < before.len()
                            implies created_key(remaining@.last()) <= created_key(#[trigger] before[b]) by {
                            assert(created_key(remaining@.last()) <= created_key(before[i as int]));
                        }
                    }
                }
            }
            i = i + 1;
        }
        proof {
            assert(before.subrange(0, before.len() as int) == before);
        }
        self.records = remaining;
        Ok(())
    }

    /// Builds a store from rows read back from storage, in ascending order
    /// of creation time. Rows that do not form a consistent table (an
    /// unordered sequence, a missing creation time, a non-positive or
    /// repeated id, a repeated acceptance number) are refused.
    pub fn from_rows(rows: Vec<Information>) -> (r: Result<InformationStore, InformationError>)
        ensures
            r is Ok <==> table_ok(rows@, i64::MAX as int),
            r is Err ==> r == Err::<InformationStore, InformationError>(InformationError::Integrity),
            r matches Ok(s) ==> s.wf() && s@ == rows@,
    {
        let n = rows.len();
        if n as u64 >= i64::MAX as u64 {
            return Err(InformationError::Integrity);
        }
        let mut max_id: i64 = 0;
        let mut i: usize = 0;
        while i < n
            invariant
                n == rows@.len(),
                n < i64::MAX,
                i <= n,
                0 <= max_id < i64::MAX,
                forall|a: int| 0 <= a < i ==> (#[trigger] rows@[a]).id <= max_id,
                table_ok(rows@.subrange(0, i as int), i64::MAX as int),
            decreases n - i,
        {
            let r = &rows[i];
            let ghost pre = rows@.subrange(0, i as int);
            let ghost next = rows@.subrange(0, i as int + 1);
            if r.created_at.is_none() || r.id <= 0 || r.id == i64::MAX {
                proof {
                    assert(next[i as int] == rows@[i as int]);
                }
                return Err(InformationError::Integrity);
            }
            if i > 0 && creation_time(&rows[i - 1]) > creation_time(r) {
                proof {
                    assert(next[i - 1] == rows@[i - 1]);
                    assert(next[i as int] == rows@[i as int]);
                }
                return Err(InformationError::Integrity);
            }
            let mut j: usize = 0;
            while j < i
                invariant
                    i < n,
                    n == rows@.len(),
                    next == rows@.subrange(0, i as int + 1),
                    *r == rows@[i as int],
                    j <= i,
                    forall|b: int| 0 <= b < j ==> (#[trigger] rows@[b]).id != rows@[i as int].id
                        && rows@[b].acceptance_no@ != rows@[i as int].acceptance_no@,
                decreases i - j,
            {
                if rows[j].id == r.id || rows[j].acceptance_no == r.acceptance_no {
                    proof {
                        assert(next[j as int] == rows@[j as int]);
                        assert(next[i as int] == rows@[i as int]);
                    }
                    return Err(InformationError::Integrity);
                }
                j = j + 1;
            }
            if r.id > max_id {
                max_id = r.id;
            }
            proof {
                assert forall|a: int| 0 <= a < next.len() implies #[trigger] next[a] == rows@[a] by {}
                assert forall|a: int, c: int| 0 <= a < c < next.len()
                    implies created_key(next[a]) <= created_key(next[c]) by {
                    if c == i {
                        if a < i - 1 {
                            assert(created_key(pre[a]) <= created_key(pre[i - 1]));
                        }
                    } else {
                        assert(created_key(pre[a]) <= created_key(pre[c]));
                    }
                }
                assert forall|a: int, c: int| 0 <= a < next.len() && 0 <= c < next.len() && a != c
                    implies (#[trigger] next[a]).id != (#[trigger] next[c]).id
                        && next[a].acceptance_no@ != next[c].acceptance_no@ by {
                    if a < i && c < i {
                        assert(pre[a] == next[a]);
                        assert(pre[c] == next[c]);
                    }
                }
            }
            i = i + 1;
        }
        proof {
            assert(rows@.subrange(0, n as int) == rows@);
        }
        let next_id = if max_id > n as i64 { max_id + 1 } else { n as i64 + 1 };
        Ok(InformationStore { records: rows, next_id: next_id })
    }

    /// One page of the listing `mode`, and the number of records that the
    /// listing selects regardless of the window.
    pub fn list(&self, mode: ListMode, opt: &InformationPageQueryOption) -> (r: Result<
        (Vec<Information>, Option<i64>),
        InformationError,
    >)
        requires
            self.wf(),
        ensures
            !valid_window(opt.offset, opt.limit) ==> r == Err::<(Vec<Information>, Option<i64>), InformationError>(
                InformationError::Validation,
            ),
            valid_window(opt.offset, opt.limit) ==> r is Ok && (r->Ok_0.0@, r->Ok_0.1) == listing(self@, mode, *opt),
    {
        if opt.offset < 0 || opt.limit <= 0 {
            return Err(InformationError::Validation);
        }
        let term = prepare_term(&opt.search);
        let ghost t = term_of(opt.search);
        let mut chosen: Vec<Information> = Vec::new();
        let mut i: usize = 0;
        while i < self.records.len()
            invariant
                i <= self@.len(),
                t == match term { Some(v) => Some(v@), None => None::<Seq<char>> },
                chosen@ == selected(self@.subrange(0, i as int), mode, t),
            decreases self@.len() - i,
        {
            proof {
                let pre = self@.subrange(0, i as int + 1);
                assert(pre.drop_last() == self@.subrange(0, i as int));
                assert(pre.last() == self@[i as int]);
            }
            if selects_record(&self.records[i], mode, &term) {
                chosen.push(self.records[i].duplicate());
            }
            i = i + 1;
        }
        proof {
            assert(self@.subrange(0, self@.len() as int) == self@);
            lemma_selected_len(self@, mode, t);
        }
        let n = chosen.len();
        let ghost ordered = arranged(chosen@, opt.order);
        let lo: usize = if (opt.offset as u64) < (n as u64) { opt.offset as usize } else { n };
        let hi: usize = if (opt.limit as u64) < ((n - lo) as u64) { lo + opt.limit as usize } else { n };
        let mut out: Vec<Information> = Vec::new();
        let mut k: usize = lo;
        while k < hi
            invariant
                lo <= k <= hi <= n,
                n == chosen@.len(),
                ordered.len() == n,
                ordered == arranged(chosen@, opt.order),
                out@ == ordered.subrange(lo as int, k as int),
            decreases hi - k,
        {
            let item = match opt.order {
                Order::Asc => chosen[k].duplicate(),
                Order::Desc => chosen[n - 1 - k].duplicate(),
            };
            proof {
                assert(item == ordered[k as int]);
            }
            out.push(item);
            proof {
                assert(out@ == ordered.subrange(lo as int, k as int + 1));
            }
            k = k + 1;
        }
        let total = if n == 0 { None } else { Some(n as i64) };
        Ok((out, total))
    }

    /// A page of every record, optionally filtered by a search term.
    pub fn get_information_list(&self, opt: &InformationPageQueryOption) -> (r: Result<
        (Vec<Information>, Option<i64>),
        InformationError,
    >)
        requires
            self.wf(),
        ensures
            !valid_window(opt.offset, opt.limit) ==> r == Err::<(Vec<Information>, Option<i64>), InformationError>(
                InformationError::Validation,
            ),
            valid_window(opt.offset, opt.limit) ==> r is Ok && (r->Ok_0.0@, r->Ok_0.1) == listing(self@, ListMode::All, *opt),
    {
        self.list(ListMode::All, opt)
    }

    /// A page of the records that neither phase has been assigned yet,
    /// optionally filtered by a search term.
    pub fn get_new_information_list(&self, opt: &InformationPageQueryOption) -> (r: Result<
        (Vec<Information>, Option<i64>),
        InformationError,
    >)
        requires
            self.wf(),
        ensures
            !valid_window(opt.offset, opt.limit) ==> r == Err::<(Vec<Information>, Option<i64>), InformationError>(
                InformationError::Validation,
            ),
            valid_window(opt.offset, opt.limit) ==> r is Ok && (r->Ok_0.0@, r->Ok_0.1) == listing(self@, ListMode::Unassigned, *opt),
    {
        self.list(ListMode::Unassigned, opt)
    }

    /// Every record accepted within `range` (or every record, where `range`
    /// is absent), in ascending order of creation time.
    pub fn export_records(&self, range: Option<(i64, i64)>) -> (r: Vec<Information>)
        ensures
            r@ == export_set(self@, range),
    {
        let mut out: Vec<Information> = Vec::new();
        let mut i: usize = 0;
        while i < self.records.len()
            invariant
                i <= self@.len(),
                out@ == export_set(self@.subrange(0, i as int), range),
            decreases self@.len() - i,
        {
            proof {
                let pre = self@.subrange(0, i as int + 1);
                assert(pre.drop_last() == self@.subrange(0, i as int));
                assert(pre.last() == self@[i as int]);
            }
            let r = &self.records[i];
            let within = match range {
                Some((from, to)) => from <= r.accepted_at && r.accepted_at <= to,
                None => true,
            };
            if within {
                out.push(r.duplicate());
            }
            i = i + 1;
        }
        proof {
            assert(self@.subrange(0, self@.len() as int) == self@);
        }
        out
    }

    /// The export of every record accepted within `range` (or of every
    /// record), in ascending order of creation time. Fails with `Integrity`
    /// where one of them holds a timestamp that has no representable date.
    pub fn export_excel(&self, range: Option<(i64, i64)>) -> (r: Result<Sheet, InformationError>)
        ensures
            r is Err <==> any_record_fails(export_set(self@, range)),
            r is Err ==> r == Err::<Sheet, InformationError>(InformationError::Integrity),
            r matches Ok(sheet) ==> sheet_ok(sheet, export_set(self@, range)),
    {
        let records = self.export_records(range);
        render_sheet(&records)
    }
}

} // verus!
