use vstd::prelude::*;

use crate::error::{ExError, Field};
use crate::gallery::{first_match, BasicGalleryInfo};

verus! {

/// One row of the search-result table: the matches of its title and of its link.
#[derive(Clone, Debug)]
pub struct SearchRow {
    pub titles: Vec<String>,
    pub urls: Vec<String>,
}

/// The error a result row gives, if it lacks its title or its link.
pub open spec fn row_error(r: SearchRow) -> Option<ExError> {
    if r.titles@.len() == 0 {
        Some(ExError::Extraction(Field::ResultTitle))
    } else if r.urls@.len() == 0 {
        Some(ExError::Extraction(Field::ResultUrl))
    } else {
        None
    }
}

/// The error of the first faulty row, if any.
pub open spec fn rows_error(rows: Seq<SearchRow>) -> Option<ExError>
    decreases rows.len(),
{
    if rows.len() == 0 {
        None
    } else if row_error(rows[0]) is Some {
        row_error(rows[0])
    } else {
        rows_error(rows.drop_first())
    }
}

/// The error that stops a result page from being read: no rows at all, or a faulty row.
pub open spec fn results_error(rows: Seq<SearchRow>) -> Option<ExError> {
    if rows.len() == 0 {
        Some(ExError::Extraction(Field::ResultRows))
    } else {
        rows_error(rows)
    }
}

/// The records of every page that was read, in page order; failed pages add none.
pub open spec fn ok_concat(pages: Seq<Result<Vec<BasicGalleryInfo>, ExError>>) -> Seq<
    BasicGalleryInfo,
>
    decreases pages.len(),
{
    if pages.len() == 0 {
        Seq::empty()
    } else {
        let head = match pages[0] {
            Ok(v) => v@,
            Err(_) => Seq::empty(),
        };
        head + ok_concat(pages.drop_first())
    }
}

/// The galleries of one search-result page, one per row and in row order, each
/// with its first title and link and with `limit` set; all or nothing.
pub fn search_page_results(rows: &Vec<SearchRow>) -> (r: Result<Vec<BasicGalleryInfo>, ExError>)
    ensures
        results_error(rows@) is Some <==> r is Err,
        r is Err ==> r == Err::<Vec<BasicGalleryInfo>, ExError>(results_error(rows@)->0),
        r is Ok ==> r->Ok_0@.len() == rows@.len() && forall|i: int|
            0 <= i < rows@.len() ==> {
                &&& (#[trigger] r->Ok_0@[i]).title == rows@[i].titles@[0]
                &&& r->Ok_0@[i].url == rows@[i].urls@[0]
                &&& r->Ok_0@[i].limit
            },
{
    if rows.len() == 0 {
        return Err(ExError::Extraction(Field::ResultRows));
    }
    let mut out: Vec<BasicGalleryInfo> = Vec::new();
    let mut i: usize = 0;
    assert(rows@.subrange(0, rows@.len() as int) =~= rows@);
    while i < rows.len()
        invariant
            i <= rows@.len(),
            out@.len() == i,
            rows_error(rows@) == rows_error(rows@.subrange(i as int, rows@.len() as int)),
            forall|k: int|
                0 <= k < i ==> {
                    &&& (#[trigger] out@[k]).title == rows@[k].titles@[0]
                    &&& out@[k].url == rows@[k].urls@[0]
                    &&& out@[k].limit
                    &&& row_error(rows@[k]) is None
                },
        decreases rows@.len() - i,
    {
        let ghost rest = rows@.subrange(i as int, rows@.len() as int);
        assert(rest[0] == rows@[i as int]);
        assert(rest.drop_first() =~= rows@.subrange(i + 1, rows@.len() as int));
        let title = match first_match(&rows[i].titles, Field::ResultTitle) {
            Ok(t) => t,
            Err(e) => {
                return Err(e);
            },
        };
        let url = match first_match(&rows[i].urls, Field::ResultUrl) {
            Ok(u) => u,
            Err(e) => {
                return Err(e);
            },
        };
        out.push(BasicGalleryInfo { title, url, limit: true });
        i += 1;
    }
    assert(rows@.subrange(i as int, rows@.len() as int).len() == 0);
    Ok(out)
}

/// Joins the galleries of several search pages, in page order, passing over the
/// pages that failed.
pub fn merge_search_pages(pages: Vec<Result<Vec<BasicGalleryInfo>, ExError>>) -> (r: Vec<
    BasicGalleryInfo,
>)
    ensures
        r@ == ok_concat(pages@),
{
    let ghost all = pages@;
    let mut rest = pages;
    let mut out: Vec<BasicGalleryInfo> = Vec::new();
    while rest.len() > 0
        invariant
            out@ + ok_concat(rest@) == ok_concat(all),
        decreases rest@.len(),
    {
        let ghost before = rest@;
        let page = rest.remove(0);
        assert(rest@ =~= before.drop_first());
        match page {
            Ok(v) => {
                let mut v = v;
                let ghost got = v@;
                out.append(&mut v);
                assert(out@ + ok_concat(rest@) =~= (out@.subrange(0, out@.len() - got.len())
                    + got) + ok_concat(rest@));
            },
            Err(_) => {
                assert(ok_concat(before) =~= ok_concat(rest@));
            },
        }
    }
    assert(out@ + ok_concat(rest@) =~= out@);
    out
}

/// A gallery named by a direct link: its page's first title, the link, and `limit` set.
pub fn gallery_from_page(url: String, titles: &Vec<String>) -> (r: Result<BasicGalleryInfo, ExError>)
    ensures
        titles@.len() == 0 ==> r == Err::<BasicGalleryInfo, ExError>(
            ExError::Extraction(Field::Title),
        ),
        titles@.len() > 0 ==> r == Ok::<BasicGalleryInfo, ExError>(
            BasicGalleryInfo { title: titles@[0], url, limit: true },
        ),
{
    let title = match first_match(titles, Field::Title) {
        Ok(t) => t,
        Err(e) => {
            return Err(e);
        },
    };
    Ok(BasicGalleryInfo { title, url, limit: true })
}

} // verus!
