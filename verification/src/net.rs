//! The pages of the site, how a search or a list of filter selections picks
//! one of them, and the request that fetches it.

use vstd::prelude::*;
use vstd::string::StringExecFns;
use crate::decimal::{decimal, push_decimal};
use crate::filter::{
    is_last_for, last_value, lemma_category_id_is_no_tag_id, lemma_last_value, lemma_no_value,
    none_for, value_of, views, FilterValue, FilterValueView, Slot,
};
use crate::text::same_text;
use crate::uri::{encode_uri, encoded, is_safe, lemma_encoded_is_empty, lemma_encoded_is_safe};
use crate::{BASE_URL, USER_AGENT};

verus! {

/// A page of the site.
#[derive(Clone, Debug, PartialEq, Eq)]
pub enum Url {
    /// A page of the albums of one category, or of one tag. `tag` is
    /// percent-encoded; where it is not empty, it is the tag that counts.
    Filter { category: String, tag: String, page: i32 },
    /// A page of search results. `query` is percent-encoded.
    Search { query: String, page: i32 },
    /// The page of one manga.
    Manga { id: String },
    /// The gallery of one chapter.
    Chapter { id: String },
}

/// The mathematical value of a [`Url`].
pub enum UrlView {
    Filter { category: Seq<char>, tag: Seq<char>, page: int },
    Search { query: Seq<char>, page: int },
    Manga { id: Seq<char> },
    Chapter { id: Seq<char> },
}

impl View for Url {
    type V = UrlView;

    open spec fn view(&self) -> UrlView {
        match self {
            Url::Filter { category, tag, page } => UrlView::Filter {
                category: category@,
                tag: tag@,
                page: *page as int,
            },
            Url::Search { query, page } => UrlView::Search { query: query@, page: *page as int },
            Url::Manga { id } => UrlView::Manga { id: id@ },
            Url::Chapter { id } => UrlView::Chapter { id: id@ },
        }
    }
}

/// One header of a request.
#[derive(Clone, Debug, PartialEq, Eq)]
pub struct Header {
    pub name: String,
    pub value: String,
}

impl View for Header {
    type V = (Seq<char>, Seq<char>);

    open spec fn view(&self) -> (Seq<char>, Seq<char>) {
        (self.name@, self.value@)
    }
}

/// A `GET` request that is ready to be sent: the address to fetch, and the
/// headers to send with it.
#[derive(Clone, Debug, PartialEq, Eq)]
pub struct GetRequest {
    pub url: String,
    pub headers: Vec<Header>,
}

/// The mathematical value of a [`GetRequest`].
pub struct GetRequestView {
    pub url: Seq<char>,
    pub headers: Seq<(Seq<char>, Seq<char>)>,
}

impl View for GetRequest {
    type V = GetRequestView;

    open spec fn view(&self) -> GetRequestView {
        GetRequestView { url: self.url@, headers: self.headers@.map_values(|h: Header| h@) }
    }
}

/// The page that a search for `text` leads to.
pub open spec fn search_for(text: Seq<char>, page: int) -> UrlView {
    UrlView::Search { query: encoded(text), page }
}

/// The page that `query` and `filters` pick.
///
/// A query decides alone. Without one, the filters fill the search text, the
/// category and the tag. A search text that is not empty decides; else the
/// page is the one of the category and the tag, either of which may be empty.
pub open spec fn resolved(
    query: Option<Seq<char>>,
    page: int,
    filters: Seq<FilterValueView>,
) -> UrlView {
    match query {
        Some(text) => search_for(text, page),
        None => if last_value(filters, Slot::Text).len() > 0 {
            search_for(last_value(filters, Slot::Text), page)
        } else {
            UrlView::Filter {
                category: last_value(filters, Slot::Category),
                tag: encoded(last_value(filters, Slot::Tag)),
                page,
            }
        },
    }
}

/// The address of the page `url`.
pub open spec fn address(url: UrlView) -> Seq<char> {
    match url {
        UrlView::Search { query, page } => BASE_URL@ + "/search/index.php?q="@ + query
            + "&s=create_time_DESC&syn=yes&p="@ + decimal(page),
        UrlView::Filter { category, tag, page } => if tag.len() == 0 {
            BASE_URL@ + "/albums-index-page-"@ + decimal(page) + "-cate-"@ + category + ".html"@
        } else {
            BASE_URL@ + "/albums-index-page-"@ + decimal(page) + "-tag-"@ + tag + ".html"@
        },
        UrlView::Manga { id } => BASE_URL@ + "/photos-index-aid-"@ + id + ".html"@,
        UrlView::Chapter { id } => BASE_URL@ + "/photos-gallery-aid-"@ + id + ".html"@,
    }
}

/// The value of an optional text.
pub open spec fn text_of(query: Option<&str>) -> Option<Seq<char>> {
    match query {
        Some(text) => Some(text@),
        None => None,
    }
}

impl Url {
    /// The page that `query` and `filters` pick, at page number `page`.
    ///
    /// A query decides alone, whatever the filters are. Without a query, the
    /// last text filter decides, unless its text is empty. The query of a
    /// search and the tag of a page of albums come out percent-encoded: they
    /// hold no blank and no character that separates the parts of an address.
    pub fn from_query_or_filters(query: Option<&str>, page: i32, filters: &[FilterValue]) -> (url:
        Url)
        ensures
            url@ == resolved(text_of(query), page as int, views(filters@)),
            query matches Some(text) ==> url@ == search_for(text@, page as int),
            query is None ==> forall|last: int|
                #![trigger views(filters@)[last]]
                is_last_for(views(filters@), Slot::Text, last) && value_of(
                    views(filters@)[last],
                ).len() > 0 ==> url@ == search_for(value_of(views(filters@)[last]), page as int),
            url@ matches UrlView::Search { query, .. } ==> is_safe(query),
            url@ matches UrlView::Filter { tag, .. } ==> is_safe(tag),
    {
        if let Some(text) = query {
            proof {
                lemma_encoded_is_safe(text@);
            }
            return Url::Search { query: encode_uri(text), page };
        }
        let mut category = String::new();
        let mut tag = String::new();
        let mut search_query = String::new();

        let ghost all = views(filters@);
        let mut i: usize = 0;
        while i < filters.len()
            invariant
                i <= filters@.len(),
                all == views(filters@),
                category@ == last_value(all.take(i as int), Slot::Category),
                tag@ == encoded(last_value(all.take(i as int), Slot::Tag)),
                search_query@ == last_value(all.take(i as int), Slot::Text),
            decreases filters@.len() - i,
        {
            proof {
                let seen = all.take(i + 1);
                assert(seen.drop_last() =~= all.take(i as int));
                assert(seen.last() == filters@[i as int]@);
            }
            match &filters[i] {
                FilterValue::Text { id: _, value } => {
                    search_query = value.clone();
                },
                FilterValue::Select { id, value } => {
                    let id = id.as_str();
                    proof {
                        lemma_category_id_is_no_tag_id(id@);
                    }
                    if same_text(id, "doujinshi-category") || same_text(id, "tankoubon-category")
                        || same_text(id, "magazine-shortstory-category") || same_text(
                        id,
                        "korean-manga-category",
                    ) {
                        category = value.clone();
                    } else if same_text(id, "genre") {
                        tag = encode_uri(value.as_str());
                    }
                },
                FilterValue::Other => {},
            }
            i += 1;
        }
        proof {
            assert(all.take(i as int) =~= all);
            assert forall|last: int|
                is_last_for(all, Slot::Text, last) && value_of(all[last]).len()
                    > 0 implies resolved(None, page as int, all) == search_for(
                value_of(all[last]),
                page as int,
            ) by {
                lemma_last_text_filter_decides(page as int, all, last);
            }
            lemma_encoded_is_safe(last_value(all, Slot::Text));
            lemma_encoded_is_safe(last_value(all, Slot::Tag));
        }
        if !search_query.as_str().is_empty() {
            return Url::Search { query: encode_uri(search_query.as_str()), page };
        }
        Url::Filter { category, tag, page }
    }

    /// The page of the manga `id`.
    pub fn manga(id: String) -> (url: Url)
        ensures
            url@ == (UrlView::Manga { id: id@ }),
    {
        Url::Manga { id }
    }

    /// The gallery of the chapter `id`.
    pub fn chapter(id: String) -> (url: Url)
        ensures
            url@ == (UrlView::Chapter { id: id@ }),
    {
        Url::Chapter { id }
    }

    /// The request that fetches this page: a `GET` of its address, with the
    /// `User-Agent` header and no other.
    pub fn request(&self) -> (request: GetRequest)
        ensures
            request@.url == address(self@),
            request@.headers == seq![("User-Agent"@, USER_AGENT@)],
    {
        let mut headers: Vec<Header> = Vec::new();
        headers.push(
            Header { name: String::from_str("User-Agent"), value: String::from_str(USER_AGENT) },
        );
        GetRequest { url: self.to_string(), headers }
    }

    /// The address of this page.
    pub fn to_string(&self) -> (text: String)
        ensures
            text@ == address(self@),
    {
        let mut text = String::from_str(BASE_URL);
        match self {
            Url::Search { query, page } => {
                text.append("/search/index.php?q=");
                text.append(query.as_str());
                text.append("&s=create_time_DESC&syn=yes&p=");
                push_decimal(&mut text, *page);
            },
            Url::Filter { category, tag, page } => {
                text.append("/albums-index-page-");
                push_decimal(&mut text, *page);
                if tag.as_str().is_empty() {
                    text.append("-cate-");
                    text.append(category.as_str());
                } else {
                    text.append("-tag-");
                    text.append(tag.as_str());
                }
                text.append(".html");
            },
            Url::Manga { id } => {
                text.append("/photos-index-aid-");
                text.append(id.as_str());
                text.append(".html");
            },
            Url::Chapter { id } => {
                text.append("/photos-gallery-aid-");
                text.append(id.as_str());
                text.append(".html");
            },
        }
        text
    }
}

/// A query decides alone: whatever the filters are, the page is the search
/// for the percent-encoded query. In its address the encoded query stands
/// after `q=`, and it holds no blank, `&`, `#` or other character that
/// separates the parts of an address, so it stays in that place.
pub proof fn lemma_query_decides(query: Seq<char>, page: int, filters: Seq<FilterValueView>)
    ensures
        resolved(Some(query), page, filters) == (UrlView::Search { query: encoded(query), page }),
        address(resolved(Some(query), page, filters)) == BASE_URL@ + "/search/index.php?q="@
            + encoded(query) + "&s=create_time_DESC&syn=yes&p="@ + decimal(page),
        is_safe(encoded(query)),
{
    lemma_encoded_is_safe(query);
}

/// Without a query, the last text filter decides, whatever categories and
/// tags were picked, as long as its text is not empty: the page is the
/// search for its percent-encoded text.
pub proof fn lemma_last_text_filter_decides(page: int, filters: Seq<FilterValueView>, last: int)
    requires
        is_last_for(filters, Slot::Text, last),
        value_of(filters[last]).len() > 0,
    ensures
        resolved(None, page, filters) == (UrlView::Search {
            query: encoded(value_of(filters[last])),
            page,
        }),
{
    lemma_last_value(filters, Slot::Text, last);
}

/// Without a query, a text filter or a tag, the last category that was picked
/// decides: the page lists that category, and its address is the one of a
/// category.
pub proof fn lemma_category_decides(page: int, filters: Seq<FilterValueView>, last: int)
    requires
        is_last_for(filters, Slot::Category, last),
        none_for(filters, Slot::Tag),
        none_for(filters, Slot::Text),
    ensures
        resolved(None, page, filters) == (UrlView::Filter {
            category: value_of(filters[last]),
            tag: Seq::empty(),
            page,
        }),
        address(resolved(None, page, filters)) == BASE_URL@ + "/albums-index-page-"@ + decimal(
            page,
        ) + "-cate-"@ + value_of(filters[last]) + ".html"@,
{
    lemma_no_value(filters, Slot::Text);
    lemma_no_value(filters, Slot::Tag);
    lemma_last_value(filters, Slot::Category, last);
    lemma_encoded_is_empty(Seq::empty());
    assert(encoded(Seq::empty()) =~= Seq::empty());
}

/// Without a query or a text filter, a tag that was picked goes before any
/// category, as long as it is not empty: the page keeps the category, but its
/// address is the one of the percent-encoded tag, which holds no `/`, `?`,
/// `#` or blank, and the category is not in it.
pub proof fn lemma_tag_goes_before_category(
    page: int,
    filters: Seq<FilterValueView>,
    last: int,
)
    requires
        is_last_for(filters, Slot::Tag, last),
        none_for(filters, Slot::Text),
        value_of(filters[last]).len() > 0,
    ensures
        resolved(None, page, filters) == (UrlView::Filter {
            category: last_value(filters, Slot::Category),
            tag: encoded(value_of(filters[last])),
            page,
        }),
        address(resolved(None, page, filters)) == BASE_URL@ + "/albums-index-page-"@ + decimal(
            page,
        ) + "-tag-"@ + encoded(value_of(filters[last])) + ".html"@,
        is_safe(encoded(value_of(filters[last]))),
{
    lemma_no_value(filters, Slot::Text);
    lemma_last_value(filters, Slot::Tag, last);
    lemma_encoded_is_empty(value_of(filters[last]));
    lemma_encoded_is_safe(value_of(filters[last]));
}

/// With no query and no filter at all, the page lists the albums of every
/// category: category and tag are empty.
pub proof fn lemma_nothing_selected(page: int)
    ensures
        resolved(None, page, Seq::empty()) == (UrlView::Filter {
            category: Seq::empty(),
            tag: Seq::empty(),
            page,
        }),
        address(resolved(None, page, Seq::empty())) == BASE_URL@ + "/albums-index-page-"@
            + decimal(page) + "-cate-"@ + ".html"@,
{
    lemma_encoded_is_empty(Seq::empty());
    assert(encoded(Seq::empty()) =~= Seq::empty());
    let nothing = Seq::<char>::empty();
    assert(BASE_URL@ + "/albums-index-page-"@ + decimal(page) + "-cate-"@ + nothing + ".html"@
        =~= BASE_URL@ + "/albums-index-page-"@ + decimal(page) + "-cate-"@ + ".html"@);
}

} // verus!
