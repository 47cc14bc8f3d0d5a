//! The selector configuration that the scraping engine reads the site's
//! pages with, built once and passed to every operation.
use vstd::prelude::*;

verus! {

/// Where the scraping engine finds each piece of data on the site's pages,
/// and how it splits the genre list.
pub struct Selectors {
    pub next_page: &'static str,
    pub manga_cell: &'static str,
    pub manga_cell_title: &'static str,
    pub manga_cell_url: &'static str,
    pub manga_cell_image: &'static str,
    pub manga_details_title: &'static str,
    pub manga_details_cover: &'static str,
    pub manga_details_author: &'static str,
    pub manga_details_description: &'static str,
    pub manga_details_tags: &'static str,
    pub manga_details_tags_splitter: &'static str,
    pub manga_details_status: &'static str,
    pub manga_details_chapters: &'static str,
    pub manga_viewer_page: &'static str,
    pub chapter_anchor_selector: &'static str,
    pub chapter_date_selector: &'static str,
}

impl Selectors {
    /// The selectors of the site's pages.
    pub fn new() -> (r: Selectors)
        ensures
            r.next_page@ == "li.active + li > a[title*=\"kết quả\"]"@,
            r.manga_cell@ == "div.items > div.row > div.item > figure.clearfix"@,
            r.manga_cell_title@ == "figcaption > h3 > a"@,
            r.manga_cell_url@ == "div.image > a"@,
            r.manga_cell_image@ == "div.image > a > img"@,
            r.manga_details_title@ == "h1.title-detail"@,
            r.manga_details_cover@ == "div.col-image > img"@,
            r.manga_details_author@ == "ul.list-info > li.author > p.col-xs-8"@,
            r.manga_details_description@ == "div.detail-content > p"@,
            r.manga_details_tags@ == "li.kind.row > p.col-xs-8"@,
            r.manga_details_tags_splitter@ == " - "@,
            r.manga_details_status@ == "li.status.row > p.col-xs-8"@,
            r.manga_details_chapters@ == "div.list-chapter > nav > ul > li"@,
            r.manga_viewer_page@ == "div.page-chapter > img"@,
            r.chapter_anchor_selector@ == "div.chapter > a"@,
            r.chapter_date_selector@ == "div.col-xs-4"@,
    {
        Selectors {
            next_page: "li.active + li > a[title*=\"kết quả\"]",
            manga_cell: "div.items > div.row > div.item > figure.clearfix",
            manga_cell_title: "figcaption > h3 > a",
            manga_cell_url: "div.image > a",
            manga_cell_image: "div.image > a > img",
            manga_details_title: "h1.title-detail",
            manga_details_cover: "div.col-image > img",
            manga_details_author: "ul.list-info > li.author > p.col-xs-8",
            manga_details_description: "div.detail-content > p",
            manga_details_tags: "li.kind.row > p.col-xs-8",
            manga_details_tags_splitter: " - ",
            manga_details_status: "li.status.row > p.col-xs-8",
            manga_details_chapters: "div.list-chapter > nav > ul > li",
            manga_viewer_page: "div.page-chapter > img",
            chapter_anchor_selector: "div.chapter > a",
            chapter_date_selector: "div.col-xs-4",
        }
    }

    /// The site's titles are taken as they are scraped.
    pub fn transform_title(&self, title: String) -> (r: String)
        ensures
            r@ == title@,
    {
        title
    }

    /// The site's author names are taken as they are scraped.
    pub fn transform_author(&self, author: String) -> (r: String)
        ensures
            r@ == author@,
    {
        author
    }

    /// The site's status texts are taken as they are scraped.
    pub fn transform_status(&self, status: String) -> (r: String)
        ensures
            r@ == status@,
    {
        status
    }
}

} // verus!
