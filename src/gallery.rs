use vstd::prelude::*;

use crate::error::{ExError, Field};
use crate::text::{nth_piece, split_piece, trim_char, trim_matches_char};

verus! {

/// A gallery as a search row or a direct link names it.
#[derive(Clone, Debug, PartialEq, Eq)]
pub struct BasicGalleryInfo {
    pub title: String,
    pub url: String,
    /// Whether the number of images handed on is capped.
    pub limit: bool,
}

/// A gallery with its metadata and every image-page link, in document order.
#[derive(Clone, Debug)]
pub struct FullGalleryInfo {
    pub title: String,
    pub title_jp: Option<String>,
    pub url: String,
    pub parent: Option<String>,
    pub rating: String,
    pub fav_cnt: String,
    pub tags: Vec<(String, Vec<String>)>,
    pub img_pages: Vec<String>,
    pub limit: bool,
}

/// One row of a gallery's tag table: the matches of its name cell and of its tag links.
#[derive(Clone, Debug)]
pub struct TagRow {
    pub names: Vec<String>,
    pub values: Vec<String>,
}

/// What one listing page of a gallery offers: image-page links and next-page links.
#[derive(Clone, Debug)]
pub struct ListingPage {
    pub image_links: Vec<String>,
    pub next_links: Vec<String>,
}

/// The matches of each query on a gallery's first page, in document order.
#[derive(Clone, Debug)]
pub struct GalleryPage {
    pub titles: Vec<String>,
    pub titles_jp: Vec<String>,
    pub parents: Vec<String>,
    pub tag_rows: Vec<TagRow>,
    pub rating_labels: Vec<String>,
    pub fav_counts: Vec<String>,
    pub listing: ListingPage,
}

/// The first element of `s`, if any.
pub open spec fn first_of(s: Seq<String>) -> Option<String> {
    if s.len() > 0 {
        Some(s[0])
    } else {
        None
    }
}

/// The error a tag row gives, if it lacks a cell.
pub open spec fn tag_row_error(r: TagRow) -> Option<ExError> {
    if r.names@.len() == 0 {
        Some(ExError::Extraction(Field::TagName))
    } else if r.values@.len() == 0 {
        Some(ExError::Extraction(Field::TagValues))
    } else {
        None
    }
}

/// The error of the first faulty row of `rows`, if any.
pub open spec fn tag_rows_error(rows: Seq<TagRow>) -> Option<ExError>
    decreases rows.len(),
{
    if rows.len() == 0 {
        None
    } else if tag_row_error(rows[0]) is Some {
        tag_row_error(rows[0])
    } else {
        tag_rows_error(rows.drop_first())
    }
}

/// The rating: the second space-separated piece of the rating label.
pub open spec fn rating_of(p: GalleryPage) -> Option<Seq<char>> {
    if p.rating_labels@.len() == 0 {
        None
    } else {
        split_piece(p.rating_labels@[0]@, ' ', 1)
    }
}

/// The error that stops a gallery's first page from being read, if any,
/// taken in the order title, tags, rating, favourite count, image links.
pub open spec fn page_error(p: GalleryPage) -> Option<ExError> {
    if p.titles@.len() == 0 {
        Some(ExError::Extraction(Field::Title))
    } else if tag_rows_error(p.tag_rows@) is Some {
        tag_rows_error(p.tag_rows@)
    } else if rating_of(p) is None {
        Some(ExError::Extraction(Field::Rating))
    } else if p.fav_counts@.len() == 0 {
        Some(ExError::Extraction(Field::FavCount))
    } else if p.listing.image_links@.len() == 0 {
        Some(ExError::Extraction(Field::ImagePages))
    } else {
        None
    }
}

/// The image-page links of each fetched page, joined in fetch order.
pub open spec fn concat_pages(pages: Seq<Seq<String>>) -> Seq<String>
    decreases pages.len(),
{
    if pages.len() == 0 {
        Seq::empty()
    } else {
        concat_pages(pages.drop_last()) + pages.last()
    }
}

/// The total number of links over all pages.
pub open spec fn total_links(pages: Seq<Seq<String>>) -> nat
    decreases pages.len(),
{
    if pages.len() == 0 {
        0
    } else {
        total_links(pages.drop_last()) + pages.last().len()
    }
}

/// Where the links of page `p` start in the joined list.
pub open spec fn page_offset(pages: Seq<Seq<String>>, p: int) -> nat {
    total_links(pages.take(p))
}

/// The image pages that the upload pipeline works on.
pub open spec fn effective_pages(pages: Seq<String>, limit: bool, max_img_cnt: nat) -> Seq<String> {
    if !limit || pages.len() <= max_img_cnt {
        pages
    } else {
        pages.take(max_img_cnt as int)
    }
}

/// Paginated links keep their count and their order: the joined list has as many
/// links as all pages together, and link `j` of page `p` stands at the page's
/// offset plus `j`.
pub proof fn lemma_pagination_concat(pages: Seq<Seq<String>>)
    ensures
        concat_pages(pages).len() == total_links(pages),
        forall|p: int|
            0 <= p < pages.len() ==> page_offset(pages, p) + (#[trigger] pages[p]).len()
                <= concat_pages(pages).len(),
        forall|p: int, j: int|
            0 <= p < pages.len() && 0 <= j < pages[p].len() ==> concat_pages(pages)[page_offset(
                pages,
                p,
            ) + j] == #[trigger] pages[p][j],
{
    lemma_concat_len(pages);
    assert forall|p: int| 0 <= p < pages.len() implies page_offset(pages, p) + (
    #[trigger] pages[p]).len() <= concat_pages(pages).len() by {
        lemma_offset_bound(pages, p);
    }
    assert forall|p: int, j: int| 0 <= p < pages.len() && 0 <= j < pages[p].len() implies concat_pages(
        pages,
    )[page_offset(pages, p) + j] == #[trigger] pages[p][j] by {
        lemma_concat_index(pages, p, j);
    }
}

proof fn lemma_concat_len(pages: Seq<Seq<String>>)
    ensures
        concat_pages(pages).len() == total_links(pages),
    decreases pages.len(),
{
    if pages.len() > 0 {
        lemma_concat_len(pages.drop_last());
    }
}

proof fn lemma_concat_index(pages: Seq<Seq<String>>, p: int, j: int)
    requires
        0 <= p < pages.len(),
        0 <= j < pages[p].len(),
    ensures
        page_offset(pages, p) + j < concat_pages(pages).len(),
        concat_pages(pages)[page_offset(pages, p) + j] == pages[p][j],
    decreases pages.len(),
{
    let init = pages.drop_last();
    let n = pages.len() - 1;
    lemma_concat_len(pages);
    lemma_concat_len(init);
    assert(pages.take(n) =~= init);
    if p < n {
        assert(pages.take(p) =~= init.take(p));
        assert(init[p] == pages[p]);
        lemma_concat_index(init, p, j);
    }
}

proof fn lemma_offset_bound(pages: Seq<Seq<String>>, p: int)
    requires
        0 <= p < pages.len(),
    ensures
        page_offset(pages, p) + pages[p].len() <= total_links(pages),
    decreases pages.len(),
{
    let n = pages.len() - 1;
    assert(pages.take(n) =~= pages.drop_last());
    if p < n {
        assert(pages.take(p) =~= pages.drop_last().take(p));
        lemma_offset_bound(pages.drop_last(), p);
    }
}

/// A copy of `v`, element for element.
fn copy_strings(v: &Vec<String>) -> (r: Vec<String>)
    ensures
        r@ == v@,
{
    let mut r: Vec<String> = Vec::new();
    let mut i: usize = 0;
    while i < v.len()
        invariant
            i <= v@.len(),
            r@ == v@.take(i as int),
        decreases v@.len() - i,
    {
        assert(v@.take(i + 1) =~= v@.take(i as int).push(v@[i as int]));
        r.push(v[i].clone());
        i += 1;
    }
    assert(v@.take(v@.len() as int) =~= v@);
    r
}

/// The first match of a query, or the extraction error for `field`.
pub fn first_match(v: &Vec<String>, field: Field) -> (r: Result<String, ExError>)
    ensures
        v@.len() > 0 ==> r == Ok::<String, ExError>(v@[0]),
        v@.len() == 0 ==> r == Err::<String, ExError>(ExError::Extraction(field)),
{
    if v.len() == 0 {
        Err(ExError::Extraction(field))
    } else {
        Ok(v[0].clone())
    }
}

/// The first element of `v`, if any.
fn first_opt(v: &Vec<String>) -> (r: Option<String>)
    ensures
        r == first_of(v@),
{
    if v.len() == 0 {
        None
    } else {
        Some(v[0].clone())
    }
}

/// One row of the tag table: its category name with the colons trimmed, and its tags.
pub fn parse_tag_row(row: &TagRow) -> (r: Result<(String, Vec<String>), ExError>)
    ensures
        tag_row_error(*row) is Some <==> r is Err,
        r is Err ==> r == Err::<(String, Vec<String>), ExError>(tag_row_error(*row)->0),
        r is Ok ==> (r->Ok_0).0@ == trim_char(row.names@[0]@, ':') && (r->Ok_0).1@ == row.values@,
{
    if row.names.len() == 0 {
        return Err(ExError::Extraction(Field::TagName));
    }
    if row.values.len() == 0 {
        return Err(ExError::Extraction(Field::TagValues));
    }
    let name = trim_matches_char(row.names[0].as_str(), ':');
    Ok((name, copy_strings(&row.values)))
}

/// The tag table, row by row; the first faulty row stops it.
pub fn parse_tags(rows: &Vec<TagRow>) -> (r: Result<Vec<(String, Vec<String>)>, ExError>)
    ensures
        tag_rows_error(rows@) is Some <==> r is Err,
        r is Err ==> r == Err::<Vec<(String, Vec<String>)>, ExError>(tag_rows_error(rows@)->0),
        r is Ok ==> r->Ok_0@.len() == rows@.len() && forall|i: int|
            0 <= i < rows@.len() ==> (#[trigger] r->Ok_0@[i]).0@ == trim_char(
                rows@[i].names@[0]@,
                ':',
            ) && r->Ok_0@[i].1@ == rows@[i].values@,
{
    let mut tags: Vec<(String, Vec<String>)> = Vec::new();
    let mut i: usize = 0;
    assert(rows@.subrange(0, rows@.len() as int) =~= rows@);
    while i < rows.len()
        invariant
            i <= rows@.len(),
            tags@.len() == i,
            tag_rows_error(rows@) == tag_rows_error(rows@.subrange(i as int, rows@.len() as int)),
            forall|k: int| 0 <= k < i ==> tag_row_error(#[trigger] rows@[k]) is None,
            forall|k: int|
                0 <= k < i ==> (#[trigger] tags@[k]).0@ == trim_char(rows@[k].names@[0]@, ':')
                    && tags@[k].1@ == rows@[k].values@,
        decreases rows@.len() - i,
    {
        let ghost rest = rows@.subrange(i as int, rows@.len() as int);
        assert(rest[0] == rows@[i as int]);
        assert(rest.drop_first() =~= rows@.subrange(i + 1, rows@.len() as int));
        match parse_tag_row(&rows[i]) {
            Ok(t) => {
                tags.push(t);
            },
            Err(e) => {
                return Err(e);
            },
        }
        i += 1;
    }
    assert(rows@.subrange(i as int, rows@.len() as int).len() == 0);
    Ok(tags)
}

/// The header of a full gallery record read from its first page, and the page's links.
pub open spec fn read_first_page(basic: BasicGalleryInfo, p: GalleryPage, info: FullGalleryInfo) -> bool {
    &&& info.title == p.titles@[0]
    &&& info.title_jp == first_of(p.titles_jp@)
    &&& info.url == basic.url
    &&& info.parent == first_of(p.parents@)
    &&& info.rating@ == rating_of(p)->0
    &&& info.fav_cnt@ == split_piece(p.fav_counts@[0]@, ' ', 0)->0
    &&& info.tags@.len() == p.tag_rows@.len()
    &&& forall|i: int|
        0 <= i < p.tag_rows@.len() ==> (#[trigger] info.tags@[i]).0@ == trim_char(
            p.tag_rows@[i].names@[0]@,
            ':',
        ) && info.tags@[i].1@ == p.tag_rows@[i].values@
    &&& info.img_pages@ == p.listing.image_links@
    &&& info.limit == basic.limit
}

/// A gallery being read page by page: the record so far, the next-page link, and
/// how many pages have been read out of the allowed bound.
pub struct GalleryCrawl {
    pub info: FullGalleryInfo,
    pub next: Option<String>,
    pub fetched: usize,
    pub max_pages: usize,
    /// The image-page links of each page read, in fetch order.
    pub pages: Ghost<Seq<Seq<String>>>,
}

impl GalleryCrawl {
    pub open spec fn well_formed(&self) -> bool {
        &&& self.info.img_pages@ == concat_pages(self.pages@)
        &&& self.fetched == self.pages@.len()
        &&& 1 <= self.fetched <= self.max_pages
    }

    /// What to fetch next: `Ok(None)` when the gallery has no further page,
    /// `PaginationOverflow` when it offers one past the page bound.
    pub fn next_page(&self) -> (r: Result<Option<String>, ExError>)
        ensures
            self.next is None ==> r == Ok::<Option<String>, ExError>(None),
            self.next is Some && self.fetched >= self.max_pages ==> r == Err::<
                Option<String>,
                ExError,
            >(ExError::PaginationOverflow),
            self.next is Some && self.fetched < self.max_pages ==> r == Ok::<
                Option<String>,
                ExError,
            >(self.next),
    {
        match &self.next {
            None => Ok(None),
            Some(url) => {
                if self.fetched >= self.max_pages {
                    Err(ExError::PaginationOverflow)
                } else {
                    Ok(Some(url.clone()))
                }
            },
        }
    }

    /// Takes in the page that `next_page` named: its links join the list, and its
    /// next-page link, if any, becomes the one to follow.
    pub fn add_page(&mut self, page: &ListingPage) -> (r: Result<(), ExError>)
        requires
            old(self).well_formed(),
            old(self).next is Some,
            old(self).fetched < old(self).max_pages,
        ensures
            page.image_links@.len() == 0 ==> r == Err::<(), ExError>(
                ExError::Extraction(Field::ImagePages),
            ),
            page.image_links@.len() == 0 ==> *final(self) == *old(self),
            page.image_links@.len() > 0 ==> {
                &&& r is Ok
                &&& final(self).well_formed()
                &&& final(self).pages@ == old(self).pages@.push(page.image_links@)
                &&& final(self).info.img_pages@ == old(self).info.img_pages@ + page.image_links@
                &&& final(self).next == first_of(page.next_links@)
                &&& final(self).fetched == old(self).fetched + 1
                &&& final(self).max_pages == old(self).max_pages
                &&& final(self).info.title == old(self).info.title
                &&& final(self).info.url == old(self).info.url
            },
    {
        if page.image_links.len() == 0 {
            return Err(ExError::Extraction(Field::ImagePages));
        }
        let ghost old_pages = self.pages@;
        let mut added = copy_strings(&page.image_links);
        self.info.img_pages.append(&mut added);
        self.pages = Ghost(old_pages.push(page.image_links@));
        assert(self.pages@.drop_last() =~= old_pages);
        self.next = first_opt(&page.next_links);
        self.fetched = self.fetched + 1;
        Ok(())
    }

    /// The finished record, once no next page is left.
    pub fn finish(self) -> (r: FullGalleryInfo)
        requires
            self.well_formed(),
            self.next is None,
        ensures
            r == self.info,
            r.img_pages@ == concat_pages(self.pages@),
    {
        self.info
    }
}

impl BasicGalleryInfo {
    /// Reads a gallery's first page into a crawl that follows its pagination,
    /// reading at most `max_pages` pages in all; with a bound of 0 not even the
    /// first page fits.
    pub fn into_full_info(self, page: &GalleryPage, max_pages: usize) -> (r: Result<
        GalleryCrawl,
        ExError,
    >)
        ensures
            max_pages == 0 ==> r == Err::<GalleryCrawl, ExError>(ExError::PaginationOverflow),
            max_pages > 0 ==> (page_error(*page) is Some <==> r is Err),
            max_pages > 0 && r is Err ==> r == Err::<GalleryCrawl, ExError>(page_error(*page)->0),
            r is Ok ==> {
                let c = r->Ok_0;
                &&& c.well_formed()
                &&& read_first_page(self, *page, c.info)
                &&& c.pages@ == seq![page.listing.image_links@]
                &&& c.next == first_of(page.listing.next_links@)
                &&& c.max_pages == max_pages
            },
    {
        if max_pages == 0 {
            return Err(ExError::PaginationOverflow);
        }
        let title = match first_match(&page.titles, Field::Title) {
            Ok(t) => t,
            Err(e) => {
                return Err(e);
            },
        };
        let title_jp = first_opt(&page.titles_jp);
        let parent = first_opt(&page.parents);
        let tags = match parse_tags(&page.tag_rows) {
            Ok(t) => t,
            Err(e) => {
                return Err(e);
            },
        };
        if page.rating_labels.len() == 0 {
            return Err(ExError::Extraction(Field::Rating));
        }
        let rating = match nth_piece(page.rating_labels[0].as_str(), ' ', 1) {
            Some(s) => s,
            None => {
                return Err(ExError::Extraction(Field::Rating));
            },
        };
        if page.fav_counts.len() == 0 {
            return Err(ExError::Extraction(Field::FavCount));
        }
        let fav_cnt = match nth_piece(page.fav_counts[0].as_str(), ' ', 0) {
            Some(s) => s,
            None => {
                return Err(ExError::Extraction(Field::FavCount));
            },
        };
        if page.listing.image_links.len() == 0 {
            return Err(ExError::Extraction(Field::ImagePages));
        }
        let img_pages = copy_strings(&page.listing.image_links);
        let ghost pages = seq![page.listing.image_links@];
        assert(pages.drop_last() =~= Seq::<Seq<String>>::empty());
        assert(concat_pages(Seq::<Seq<String>>::empty()) =~= Seq::<String>::empty());
        assert(concat_pages(pages) =~= page.listing.image_links@);
        let info = FullGalleryInfo {
            title,
            title_jp,
            url: self.url,
            parent,
            rating,
            fav_cnt,
            tags,
            img_pages,
            limit: self.limit,
        };
        Ok(
            GalleryCrawl {
                info,
                next: first_opt(&page.listing.next_links),
                fetched: 1,
                max_pages,
                pages: Ghost(pages),
            },
        )
    }
}

impl FullGalleryInfo {
    /// The image pages to process: all of them, or when `limit` is set the first
    /// `max_img_cnt`.
    pub fn get_image_lists(&self, max_img_cnt: usize) -> (r: Vec<String>)
        ensures
            r@ == effective_pages(self.img_pages@, self.limit, max_img_cnt as nat),
            r@.len() == if self.limit && self.img_pages@.len() > max_img_cnt {
                max_img_cnt as nat
            } else {
                self.img_pages@.len()
            },
    {
        let n = if self.limit && self.img_pages.len() > max_img_cnt {
            max_img_cnt
        } else {
            self.img_pages.len()
        };
        let mut r: Vec<String> = Vec::new();
        let mut i: usize = 0;
        while i < n
            invariant
                n <= self.img_pages@.len(),
                i <= n,
                r@ == self.img_pages@.take(i as int),
            decreases n - i,
        {
            assert(self.img_pages@.take(i + 1) =~= self.img_pages@.take(i as int).push(
                self.img_pages@[i as int],
            ));
            r.push(self.img_pages[i].clone());
            i += 1;
        }
        assert(self.img_pages@.take(self.img_pages@.len() as int) =~= self.img_pages@);
        r
    }

    /// The Japanese title where there is one, else the title.
    pub fn title(&self) -> (r: &str)
        ensures
            r@ == match self.title_jp {
                Some(t) => t@,
                None => self.title@,
            },
    {
        match &self.title_jp {
            Some(t) => t.as_str(),
            None => self.title.as_str(),
        }
    }
}

} // verus!
