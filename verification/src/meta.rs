//! Page metadata: the description, structured data, title and canonical URL
//! rendered into each page's head.

use vstd::prelude::*;
use vstd::string::StringExecFns;

use crate::json_ld::{
    url_of, AboutJsonLd, AllBooksJsonLd, BookJsonLd, BreadcrumbListJsonLd, JsonLd, Kind,
    ListItemJsonLd, ReferenceJsonLd,
};
use crate::link::{AllBooksLinks, BookLinks, VersesLinks};
use crate::models::{Book, Verse};
use crate::reference::{spec_format, Reference};

verus! {

/// How page titles are shaped.
pub const TITLE_PREFIX: &'static str = "The Holy Bible | ";

/// The title of a page.
pub open spec fn title_of(t: Seq<char>) -> Seq<char> {
    TITLE_PREFIX@ + t
}

/// Builds a page title.
pub fn site_title(t: &str) -> (r: String)
    ensures
        r@ == title_of(t@),
{
    let mut s = String::from_str(TITLE_PREFIX);
    s.append(t);
    s
}

/// Metadata of a page: description, structured data, title and URL.
#[derive(Debug)]
pub struct Meta {
    pub description: String,
    pub json_ld: Vec<JsonLd>,
    pub title: String,
    pub url: String,
}

impl Meta {
    /// Metadata of the about page.
    pub fn for_about() -> (r: Meta)
        ensures
            r.description@ == "About Bible.rs"@,
            r.json_ld@.len() == 1,
            r.json_ld@[0] matches JsonLd::About(a) && a.thing.kind == Kind::Website
                && a.thing.url@ == url_of("/about"@),
            r.title@ == title_of("About"@),
            r.url@ == url_of("/about"@),
    {
        Meta {
            description: String::from_str("About Bible.rs"),
            json_ld: vec![JsonLd::About(Box::new(AboutJsonLd::new()))],
            title: site_title("About"),
            url: crate::json_ld::site_url("/about"),
        }
    }

    /// Metadata of the all-books page.
    pub fn for_all_books(links: &AllBooksLinks) -> (r: Meta)
        ensures
            r.description@
                == "Browse and search the King James version of the Bible using a lightning-fast and slick interface."@,
            r.json_ld@.len() == 1,
            r.json_ld@[0] matches JsonLd::AllBooks(a) && a.has_part@.len()
                == links.books@.len() && a.thing.kind == Kind::BookSeries,
            r.title@ == title_of("King James Version"@),
            r.url@ == url_of(""@),
    {
        Meta {
            description: String::from_str(
                "Browse and search the King James version of the Bible using a lightning-fast and slick interface.",
            ),
            json_ld: vec![JsonLd::AllBooks(AllBooksJsonLd::new(links))],
            title: site_title("King James Version"),
            url: crate::json_ld::site_url(""),
        }
    }

    /// Metadata of a book page: the book description, plus a breadcrumb
    /// from the site root to the book.
    pub fn for_book(book: &Book, links: &BookLinks) -> (r: Meta)
        ensures
            r.description@ == "The book of "@ + book@.name,
            r.json_ld@.len() == 2,
            r.json_ld@[0] matches JsonLd::Book(b) && b.position == book.id && b.thing.name@
                == book@.name,
            r.json_ld@[1] matches JsonLd::BreadcrumbList(bc) && bc.item_list_element@.len() == 2
                && bc.item_list_element@[0].position == 1 && bc.item_list_element@[0].name@
                == links.books@.label && bc.item_list_element@[1].position == 2
                && bc.item_list_element@[1].name@ == links.current@.label,
            r.title@ == title_of(book@.name),
            r.url@ == url_of(links.current@.url),
    {
        let mut description = String::from_str("The book of ");
        description.append(book.name.as_str());
        Meta {
            description,
            json_ld: vec![
                JsonLd::Book(BookJsonLd::new(book, links)),
                JsonLd::BreadcrumbList(
                    BreadcrumbListJsonLd::new(
                        vec![
                            ListItemJsonLd::new(&links.books, 1),
                            ListItemJsonLd::new(&links.current, 2),
                        ],
                    ),
                ),
            ],
            title: site_title(book.name.as_str()),
            url: crate::json_ld::site_url(links.current.url.as_str()),
        }
    }

    /// Metadata of the error page.
    pub fn for_error() -> (r: Meta)
        ensures
            r.description@ == "Error page"@,
            r.json_ld@.len() == 0,
            r.title@ == title_of("Error"@),
            r.url@ == url_of(""@),
    {
        Meta {
            description: String::from_str("Error page"),
            json_ld: vec![],
            title: site_title("Error"),
            url: crate::json_ld::site_url(""),
        }
    }

    /// Metadata of a verses page: the first verse's text as the
    /// description — the rendered reference when nothing was found — plus a
    /// breadcrumb from the site root through the book to the selection.
    pub fn for_reference(reference: &Reference, verses: &Vec<Verse>, links: &VersesLinks) -> (r:
        Meta)
        requires
            reference@.wf(),
        ensures
            r.description@ == if verses@.len() == 0 {
                spec_format(reference@)
            } else {
                verses@[0]@.words + "..."@
            },
            r.json_ld@.len() == 2,
            r.json_ld@[0] matches JsonLd::Reference(rf) && rf.position == reference.chapter
                && rf.thing.name@ == spec_format(reference@),
            r.json_ld@[1] matches JsonLd::BreadcrumbList(bc) && bc.item_list_element@.len() == 3
                && bc.item_list_element@[0].position == 1 && bc.item_list_element@[1].position
                == 2 && bc.item_list_element@[2].position == 3 && bc.item_list_element@[2].name@
                == links.current@.label,
            r.title@ == title_of(spec_format(reference@)),
            r.url@ == url_of(links.current@.url),
    {
        let ref_string = reference.format();
        let description = match verses.len() {
            0 => ref_string.clone(),
            _ => {
                let mut d = verses[0].words.clone();
                d.append("...");
                d
            }
        };
        Meta {
            description,
            json_ld: vec![
                JsonLd::Reference(ReferenceJsonLd::new(reference, links)),
                JsonLd::BreadcrumbList(
                    BreadcrumbListJsonLd::new(
                        vec![
                            ListItemJsonLd::new(&links.books, 1),
                            ListItemJsonLd::new(&links.book, 2),
                            ListItemJsonLd::new(&links.current, 3),
                        ],
                    ),
                ),
            ],
            title: site_title(ref_string.as_str()),
            url: crate::json_ld::site_url(links.current.url.as_str()),
        }
    }

    /// Metadata of a search-results page.
    pub fn for_search(query: &str, url: &str) -> (r: Meta)
        ensures
            r.description@ == "Results for '"@ + query@ + seq!['\''],
            r.json_ld@.len() == 0,
            r.title@ == title_of("Results for '"@ + query@ + seq!['\'']),
            r.url@ == url_of(url@),
    {
        let mut results_string = String::from_str("Results for '");
        results_string.append(query);
        results_string.append("'");
        proof {
            reveal_strlit("'");
            assert(results_string@ =~= "Results for '"@ + query@ + seq!['\'']);
        }
        Meta {
            description: results_string.clone(),
            json_ld: vec![],
            title: site_title(results_string.as_str()),
            url: crate::json_ld::site_url(url),
        }
    }
}

} // verus!
