//! Which records a listing selects, in which order, and which page of them it
//! returns.
use vstd::prelude::*;
use crate::record::{Information, is_unassigned};
use crate::text::{contains_ci, chars_of, text_contains};

verus! {

/// Direction of the listing by creation time.
#[derive(Clone, Copy, Debug, PartialEq, Eq, Structural)]
pub enum Order {
    Asc,
    Desc,
}

/// The keyword of a direction.
pub open spec fn order_keyword(o: Order) -> &'static str {
    match o {
        Order::Asc => "ASC",
        Order::Desc => "DESC",
    }
}

impl Order {
    /// The keyword of this direction.
    pub fn as_str(&self) -> (r: &'static str)
        ensures
            r == order_keyword(*self),
    {
        match self {
            Order::Asc => "ASC",
            Order::Desc => "DESC",
        }
    }
}

/// The two listings: every record, or only those not yet assigned.
#[derive(Clone, Copy, Debug, PartialEq, Eq, Structural)]
pub enum ListMode {
    All,
    Unassigned,
}

/// A request for one page of a listing.
#[derive(Clone, Debug)]
pub struct InformationPageQueryOption {
    /// Number of selected records to skip; at least zero.
    pub offset: i64,
    /// Page size; greater than zero.
    pub limit: i64,
    pub order: Order,
    /// Free-text term; absent or empty means no text filter.
    pub search: Option<String>,
}

impl Default for InformationPageQueryOption {
    fn default() -> (r: Self)
        ensures
            r.offset == 0,
            r.limit == 10,
            r.order == Order::Desc,
            r.search is None,
    {
        InformationPageQueryOption { offset: 0, limit: 10, order: Order::Desc, search: None }
    }
}

/// `field` is present and holds `term`, ignoring case.
pub open spec fn field_hit(field: Option<String>, term: Seq<char>) -> bool {
    match field {
        Some(s) => contains_ci(s@, term),
        None => false,
    }
}

/// `r` holds `term` in one of the searched fields of `mode`. Both modes
/// search the acceptance number and the parties; the full listing also
/// searches the assignees and the designation numbers.
pub open spec fn search_hit(r: Information, mode: ListMode, term: Seq<char>) -> bool {
    ||| contains_ci(r.acceptance_no@, term)
    ||| contains_ci(r.plaintiff@, term)
    ||| contains_ci(r.defendant@, term)
    ||| (mode == ListMode::All && (field_hit(r.inv_investigator, term)
        || field_hit(r.pro_procurator, term) || field_hit(r.inv_designation_no, term)
        || field_hit(r.pro_designation_no, term)))
}

/// The search term of a request, as characters.
pub open spec fn term_of(search: Option<String>) -> Option<Seq<char>> {
    match search {
        Some(s) => Some(s@),
        None => None,
    }
}

/// Whether listing `mode` with search `term` selects `r`.
pub open spec fn selects(r: Information, mode: ListMode, term: Option<Seq<char>>) -> bool {
    &&& (mode == ListMode::Unassigned ==> is_unassigned(r))
    &&& match term {
        Some(t) => search_hit(r, mode, t),
        None => true,
    }
}

/// The records of `s` that the listing selects, in the order of `s`.
pub open spec fn selected(s: Seq<Information>, mode: ListMode, term: Option<Seq<char>>) -> Seq<Information>
    decreases s.len(),
{
    if s.len() == 0 {
        Seq::empty()
    } else {
        let rest = selected(s.drop_last(), mode, term);
        if selects(s.last(), mode, term) {
            rest.push(s.last())
        } else {
            rest
        }
    }
}

/// `s` in the requested direction (`s` itself is ascending).
pub open spec fn arranged(s: Seq<Information>, order: Order) -> Seq<Information> {
    match order {
        Order::Asc => s,
        Order::Desc => s.reverse(),
    }
}

/// The window of `s` that starts at `offset` and holds at most `limit` items.
pub open spec fn page(s: Seq<Information>, offset: int, limit: int) -> Seq<Information> {
    let lo = if offset < s.len() { offset } else { s.len() as int };
    let hi = if offset + limit < s.len() { offset + limit } else { s.len() as int };
    s.subrange(lo, hi)
}

/// A page request is well-formed.
pub open spec fn valid_window(offset: i64, limit: i64) -> bool {
    offset >= 0 && limit > 0
}

fn optional_field_hit(field: &Option<String>, term: &Vec<char>) -> (r: bool)
    ensures
        r == field_hit(*field, term@),
{
    match field {
        Some(s) => text_contains(s, term),
        None => false,
    }
}

/// Whether `r` holds `term` in one of the fields that `mode` searches.
pub fn search_hits(r: &Information, mode: ListMode, term: &Vec<char>) -> (b: bool)
    ensures
        b == search_hit(*r, mode, term@),
{
    if text_contains(&r.acceptance_no, term) || text_contains(&r.plaintiff, term)
        || text_contains(&r.defendant, term) {
        return true;
    }
    match mode {
        ListMode::All => optional_field_hit(&r.inv_investigator, term)
            || optional_field_hit(&r.pro_procurator, term)
            || optional_field_hit(&r.inv_designation_no, term)
            || optional_field_hit(&r.pro_designation_no, term),
        ListMode::Unassigned => false,
    }
}

/// The search term of a request as characters, ready for matching.
pub fn prepare_term(search: &Option<String>) -> (r: Option<Vec<char>>)
    ensures
        match r {
            Some(v) => term_of(*search) == Some(v@),
            None => term_of(*search) is None,
        },
{
    match search {
        Some(s) => Some(chars_of(s.as_str())),
        None => None,
    }
}

/// Whether listing `mode` with the prepared `term` selects `r`.
pub fn selects_record(r: &Information, mode: ListMode, term: &Option<Vec<char>>) -> (b: bool)
    ensures
        b == selects(*r, mode, match term { Some(v) => Some(v@), None => None }),
{
    if mode == ListMode::Unassigned && !r.is_unassigned() {
        return false;
    }
    match term {
        Some(t) => search_hits(r, mode, t),
        None => true,
    }
}

} // verus!
