//! The pagination service: slices an ordered collection of games into
//! fixed-size pages with navigation metadata.

use vstd::prelude::*;

use crate::model::{lemma_views_push, views_of, Game, PaginatedResponse, PaginatedResponseMeta};

verus! {

/// Number of records per page.
pub const PAGE_LIMIT: usize = 10;

/// Slices `games` into its `page`-th page of [`PAGE_LIMIT`] records.
///
/// `start = page * PAGE_LIMIT`; a page whose start lies at or past the end
/// of the collection does not exist and yields `None` (the "page out of
/// range" signal — not an error value). The data is the slice
/// `[start, start + PAGE_LIMIT)` clamped to the collection end; `next` is
/// set when records follow the slice, and `prev` only when `page > 1` (so
/// page 1 reports no predecessor even though page 0 exists — a quirk of
/// the design, preserved here).
pub fn paginate(games: &Vec<Game>, page: usize) -> (r: Option<PaginatedResponse<Game>>)
    ensures
        r is Some <==> (page as int) * (PAGE_LIMIT as int) < games@.len(),
        r matches Option::Some(p) ==> ({
            let start = (page as int) * (PAGE_LIMIT as int);
            let end = if start + PAGE_LIMIT <= games@.len() {
                start + PAGE_LIMIT
            } else {
                games@.len() as int
            };
            &&& views_of(p.data@) == views_of(games@).subrange(start, end)
            &&& p.meta.total == games@.len()
            &&& p.meta.page == page
            &&& p.meta.limit == PAGE_LIMIT
            &&& p.meta.prev == (if page > 1 {
                Option::Some((page - 1) as usize)
            } else {
                Option::None::<usize>
            })
            &&& p.meta.next == (if start + PAGE_LIMIT < games@.len() {
                Option::Some((page + 1) as usize)
            } else {
                Option::None::<usize>
            })
        }),
{
    let total = games.len();
    let start = match page.checked_mul(PAGE_LIMIT) {
        Option::Some(s) => s,
        Option::None => {
            return Option::None;
        },
    };
    if start >= total {
        return Option::None;
    }
    let more_than_page = total - start > PAGE_LIMIT;
    let end = if more_than_page {
        start + PAGE_LIMIT
    } else {
        total
    };
    proof {
        assert((page as int) + 1 <= usize::MAX as int) by (nonlinear_arith)
            requires
                (page as int) * (PAGE_LIMIT as int) <= usize::MAX as int,
                PAGE_LIMIT == 10,
                0 <= page as int,
        ;
    }
    let meta = PaginatedResponseMeta {
        prev: if page > 1 {
            Option::Some(page - 1)
        } else {
            Option::None
        },
        next: if more_than_page {
            Option::Some(page + 1)
        } else {
            Option::None
        },
        total,
        page,
        limit: PAGE_LIMIT,
    };
    let mut data: Vec<Game> = Vec::new();
    let mut i: usize = start;
    while i < end
        invariant
            start <= i <= end <= games@.len(),
            views_of(data@) == views_of(games@).subrange(start as int, i as int),
        decreases end - i,
    {
        let g = games[i].clone();
        proof {
            lemma_views_push(data@, g);
            assert(views_of(games@)[i as int] == games@[i as int]@);
            assert(views_of(games@).subrange(start as int, i + 1 as int) =~= views_of(
                games@,
            ).subrange(start as int, i as int).push(views_of(games@)[i as int]));
        }
        data.push(g);
        i = i + 1;
    }
    Option::Some(PaginatedResponse { data, meta })
}

} // verus!
