//! Structured-data descriptions of the site's pages: the building blocks
//! (things, persons, list items) and one description per page kind.  These
//! are pure value constructors; turning them into JSON text is left to the
//! caller.

use vstd::prelude::*;
use vstd::string::StringExecFns;

use crate::link::{AllBooksLinks, BookLinks, Link, VersesLinks, NAME};
use crate::models::Book;
use crate::reference::{spec_format, Reference};

verus! {

/// Schema context for every description.
pub const CONTEXT: &'static str = "https://schema.org";

/// First name of the site's creator.
pub const CREATOR_FIRST_NAME: &'static str = "Dustin";

/// Last name of the site's creator.
pub const CREATOR_LAST_NAME: &'static str = "Speckhals";

/// Homepage of the site's creator.
pub const CREATOR_URL: &'static str = "https://speckhals.com";

/// Language tag of the corpus.
pub const LANGUAGE: &'static str = "en-us";

/// Keywords describing the site.
pub const KEYWORDS: &'static str = "bible,kjv";

/// The translation served.
pub const VERSION: &'static str = "King James Version";

/// Base of every absolute URL on the site.
pub const SITE_URL: &'static str = "https://bible.rs";

/// An absolute URL on the site.
pub open spec fn url_of(path: Seq<char>) -> Seq<char> {
    SITE_URL@ + path
}

/// Builds an absolute URL on the site.
pub fn site_url(path: &str) -> (r: String)
    ensures
        r@ == url_of(path@),
{
    let mut s = String::from_str(SITE_URL);
    s.append(path);
    s
}

/// The kinds of schema entities used.
#[derive(Clone, Copy, Debug, PartialEq, Eq, Structural)]
pub enum Kind {
    BookSeries,
    Book,
    BreadcrumbList,
    Chapter,
    ListItem,
    Person,
    Thing,
    Website,
}

/// A generic schema thing: context, identifier, kind, name and URL.
#[derive(Debug)]
pub struct ThingJsonLd {
    pub context: String,
    pub id: String,
    pub kind: Kind,
    pub name: String,
    pub url: String,
}

impl Default for ThingJsonLd {
    /// The default thing: the site itself, under a placeholder name.
    fn default() -> (r: ThingJsonLd)
        ensures
            r.context@ == CONTEXT@,
            r.id@ == SITE_URL@,
            r.kind == Kind::Thing,
            r.name@ == "Default"@,
            r.url@ == SITE_URL@,
    {
        ThingJsonLd {
            context: String::from_str(CONTEXT),
            id: String::from_str(SITE_URL),
            kind: Kind::Thing,
            name: String::from_str("Default"),
            url: String::from_str(SITE_URL),
        }
    }
}

/// A reference to another entity by identifier.
#[derive(Debug)]
pub struct PartJsonLd {
    pub id: String,
}

/// A person: name parts plus the generic thing fields.
#[derive(Debug)]
pub struct PersonJsonLd {
    pub family_name: String,
    pub given_name: String,
    pub thing: ThingJsonLd,
}

/// An entry of a breadcrumb list.
#[derive(Debug)]
pub struct ListItemJsonLd {
    pub item: ThingJsonLd,
    pub kind: Kind,
    pub name: String,
    pub position: i32,
}

impl ListItemJsonLd {
    /// Builds a breadcrumb entry for a link: position 1 is the book series,
    /// 2 a book, 3 a chapter, and anything else a plain thing.
    pub fn new(link: &Link, position: i32) -> (r: ListItemJsonLd)
        ensures
            r.item.context@ == CONTEXT@,
            r.item.id@ == url_of(link@.url),
            r.item.kind == (if position == 1 {
                Kind::BookSeries
            } else if position == 2 {
                Kind::Book
            } else if position == 3 {
                Kind::Chapter
            } else {
                Kind::Thing
            }),
            r.item.name@ == link@.label,
            r.item.url@ == url_of(link@.url),
            r.kind == Kind::ListItem,
            r.name@ == link@.label,
            r.position == position,
    {
        let kind = if position == 1 {
            Kind::BookSeries
        } else if position == 2 {
            Kind::Book
        } else if position == 3 {
            Kind::Chapter
        } else {
            Kind::Thing
        };
        ListItemJsonLd {
            item: ThingJsonLd {
                context: String::from_str(CONTEXT),
                id: site_url(link.url.as_str()),
                kind,
                name: link.label.clone(),
                url: site_url(link.url.as_str()),
            },
            kind: Kind::ListItem,
            name: link.label.clone(),
            position,
        }
    }
}

/// A breadcrumb list.
#[derive(Debug)]
pub struct BreadcrumbListJsonLd {
    pub context: String,
    pub item_list_element: Vec<ListItemJsonLd>,
    pub kind: Kind,
}

impl BreadcrumbListJsonLd {
    /// Builds a breadcrumb list from its entries.
    pub fn new(list_items: Vec<ListItemJsonLd>) -> (r: BreadcrumbListJsonLd)
        ensures
            r.context@ == CONTEXT@,
            r.item_list_element == list_items,
            r.kind == Kind::BreadcrumbList,
    {
        BreadcrumbListJsonLd {
            context: String::from_str(CONTEXT),
            item_list_element: list_items,
            kind: Kind::BreadcrumbList,
        }
    }
}

/// The description of the about page.
#[derive(Debug)]
pub struct AboutJsonLd {
    pub creator: PersonJsonLd,
    pub keywords: String,
    pub thing: ThingJsonLd,
}

impl AboutJsonLd {
    /// Builds the about-page description: the site as a website, created by
    /// its author.
    pub fn new() -> (r: AboutJsonLd)
        ensures
            r.creator.family_name@ == CREATOR_LAST_NAME@,
            r.creator.given_name@ == CREATOR_FIRST_NAME@,
            r.creator.thing.id@ == CREATOR_URL@,
            r.creator.thing.kind == Kind::Person,
            r.creator.thing.name@ == CREATOR_FIRST_NAME@ + seq![' '] + CREATOR_LAST_NAME@,
            r.creator.thing.url@ == CREATOR_URL@,
            r.keywords@ == KEYWORDS@,
            r.thing.id@ == url_of("/about"@),
            r.thing.kind == Kind::Website,
            r.thing.name@ == NAME@,
            r.thing.url@ == url_of("/about"@),
    {
        let mut creator_name = String::from_str(CREATOR_FIRST_NAME);
        creator_name.append(" ");
        creator_name.append(CREATOR_LAST_NAME);
        proof {
            reveal_strlit(" ");
            assert(creator_name@ =~= CREATOR_FIRST_NAME@ + seq![' '] + CREATOR_LAST_NAME@);
        }
        let person_thing = ThingJsonLd {
            context: String::from_str(CONTEXT),
            id: String::from_str(CREATOR_URL),
            kind: Kind::Person,
            name: creator_name,
            url: String::from_str(CREATOR_URL),
        };
        let creator = PersonJsonLd {
            thing: person_thing,
            family_name: String::from_str(CREATOR_LAST_NAME),
            given_name: String::from_str(CREATOR_FIRST_NAME),
        };
        let thing = ThingJsonLd {
            context: String::from_str(CONTEXT),
            id: site_url("/about"),
            kind: Kind::Website,
            name: String::from_str(NAME),
            url: site_url("/about"),
        };
        AboutJsonLd { creator, keywords: String::from_str(KEYWORDS), thing }
    }
}

/// The description of the all-books page.
#[derive(Debug)]
pub struct AllBooksJsonLd {
    pub has_part: Vec<PartJsonLd>,
    pub in_language: String,
    pub thing: ThingJsonLd,
    pub version: String,
}

impl AllBooksJsonLd {
    /// Builds the all-books description: the series with one part per book.
    pub fn new(links: &AllBooksLinks) -> (r: AllBooksJsonLd)
        ensures
            r.has_part@.len() == links.books@.len(),
            forall|k: int|
                0 <= k < links.books@.len() ==> (#[trigger] r.has_part@[k]).id@ == url_of(
                    links.books@[k]@.url,
                ),
            r.in_language@ == LANGUAGE@,
            r.thing.id@ == SITE_URL@,
            r.thing.kind == Kind::BookSeries,
            r.thing.name@ == NAME@,
            r.thing.url@ == SITE_URL@,
            r.version@ == VERSION@,
    {
        let mut has_part: Vec<PartJsonLd> = Vec::new();
        let mut i: usize = 0;
        while i < links.books.len()
            invariant
                i <= links.books@.len(),
                has_part@.len() == i,
                forall|k: int|
                    0 <= k < i ==> (#[trigger] has_part@[k]).id@ == url_of(
                        links.books@[k]@.url,
                    ),
            decreases links.books@.len() - i,
        {
            has_part.push(PartJsonLd { id: site_url(links.books[i].url.as_str()) });
            i = i + 1;
        }
        let thing = ThingJsonLd {
            context: String::from_str(CONTEXT),
            id: String::from_str(SITE_URL),
            kind: Kind::BookSeries,
            name: String::from_str(NAME),
            url: String::from_str(SITE_URL),
        };
        AllBooksJsonLd {
            has_part,
            in_language: String::from_str(LANGUAGE),
            thing,
            version: String::from_str(VERSION),
        }
    }
}

/// The description of a book page.
#[derive(Debug)]
pub struct BookJsonLd {
    pub has_part: Vec<PartJsonLd>,
    pub in_language: String,
    pub is_part_of: PartJsonLd,
    pub position: i32,
    pub thing: ThingJsonLd,
}

impl BookJsonLd {
    /// Builds a book description: one part per chapter, within the series.
    pub fn new(book: &Book, links: &BookLinks) -> (r: BookJsonLd)
        ensures
            r.has_part@.len() == links.chapters@.len(),
            forall|k: int|
                0 <= k < links.chapters@.len() ==> (#[trigger] r.has_part@[k]).id@ == url_of(
                    links.chapters@[k]@,
                ),
            r.in_language@ == LANGUAGE@,
            r.is_part_of.id@ == url_of(links.books@.url),
            r.position == book.id,
            r.thing.id@ == url_of(links.current@.url),
            r.thing.kind == Kind::Book,
            r.thing.name@ == book@.name,
            r.thing.url@ == url_of(links.current@.url),
    {
        let mut has_part: Vec<PartJsonLd> = Vec::new();
        let mut i: usize = 0;
        while i < links.chapters.len()
            invariant
                i <= links.chapters@.len(),
                has_part@.len() == i,
                forall|k: int|
                    0 <= k < i ==> (#[trigger] has_part@[k]).id@ == url_of(
                        links.chapters@[k]@,
                    ),
            decreases links.chapters@.len() - i,
        {
            has_part.push(PartJsonLd { id: site_url(links.chapters[i].as_str()) });
            i = i + 1;
        }
        let is_part_of = PartJsonLd { id: site_url(links.books.url.as_str()) };
        let thing = ThingJsonLd {
            context: String::from_str(CONTEXT),
            id: site_url(links.current.url.as_str()),
            kind: Kind::Book,
            name: book.name.clone(),
            url: site_url(links.current.url.as_str()),
        };
        BookJsonLd {
            has_part,
            in_language: String::from_str(LANGUAGE),
            is_part_of,
            position: book.id,
            thing,
        }
    }
}

/// The description of a chapter page.
#[derive(Debug)]
pub struct ReferenceJsonLd {
    pub is_part_of: PartJsonLd,
    pub position: i32,
    pub thing: ThingJsonLd,
}

impl ReferenceJsonLd {
    /// Builds a chapter description: the rendered reference as its name,
    /// within its book.
    pub fn new(reference: &Reference, links: &VersesLinks) -> (r: ReferenceJsonLd)
        requires
            reference@.wf(),
        ensures
            r.is_part_of.id@ == url_of(links.book@.url),
            r.position == reference.chapter,
            r.thing.id@ == url_of(links.current@.url),
            r.thing.kind == Kind::Chapter,
            r.thing.name@ == spec_format(reference@),
            r.thing.url@ == url_of(links.current@.url),
    {
        let thing = ThingJsonLd {
            context: String::from_str(CONTEXT),
            id: site_url(links.current.url.as_str()),
            kind: Kind::Chapter,
            name: reference.format(),
            url: site_url(links.current.url.as_str()),
        };
        let is_part_of = PartJsonLd { id: site_url(links.book.url.as_str()) };
        ReferenceJsonLd { is_part_of, position: reference.chapter, thing }
    }
}

/// The structured-data payload of a page.
#[derive(Debug)]
pub enum JsonLd {
    BreadcrumbList(BreadcrumbListJsonLd),
    About(Box<AboutJsonLd>),
    AllBooks(AllBooksJsonLd),
    Book(BookJsonLd),
    Reference(ReferenceJsonLd),
}

} // verus!
