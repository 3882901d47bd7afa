//! The resolution pipeline's data and its merge step: the raw replies of
//! the three external services are combined into one `Paper`, with any
//! upstream failure collapsed to a single `ResolutionError`. The network
//! fetches themselves stay outside; this module builds the query URLs and
//! decides, from the fetched values alone, what the resolution yields.

use vstd::prelude::*;
use crate::date::{Timestamp, parse_timestamp, parses_as_timestamp, four_val, two_val};
use crate::text::is_digit;

verus! {

/// One paper author: a display name and, when the citation-graph source
/// supplied an author identifier, a profile link.
#[derive(Debug)]
pub struct Author {
    pub name: String,
    pub author_url: Option<String>,
}

/// A fully resolved paper. Constructed fresh for each resolution, never
/// partially filled: every field is meaningful whenever a `Paper` exists.
#[derive(Debug)]
pub struct Paper {
    pub title: String,
    pub published: Timestamp,
    pub summary: String,
    pub translated_summary: String,
    pub authors: Vec<Author>,
    pub semantic_scholar_url: String,
    pub connected_papers_url: String,
}

/// The single entry of the metadata source's feed, as plain text fields.
#[derive(Debug)]
pub struct ArxivEntry {
    pub title: String,
    pub summary: String,
    pub published: String,
}

/// One author as the citation-graph source reports it.
#[derive(Debug)]
pub struct CitationAuthor {
    pub name: String,
    pub author_id: Option<String>,
}

/// The citation-graph source's reply: its own node identifier and the
/// author list, in source order.
#[derive(Debug)]
pub struct CitationGraph {
    pub paper_id: String,
    pub authors: Vec<CitationAuthor>,
}

/// Why one resolution attempt failed; carries the upstream cause so the
/// caller can log it. The attempt yields no partial `Paper`.
#[derive(Debug)]
pub enum ResolutionError {
    MetadataFetch(String),
    CitationFetch(String),
    Translation(String),
    TimestampFormat(String),
}

impl ResolutionError {
    /// A short label plus the carried cause, for logging.
    pub fn describe(&self) -> (r: String)
        ensures
            match self {
                ResolutionError::MetadataFetch(m) => r@ == ("metadata fetch failed: ")@ + m@,
                ResolutionError::CitationFetch(m) => r@ == ("citation-graph fetch failed: ")@
                    + m@,
                ResolutionError::Translation(m) => r@ == ("translation failed: ")@ + m@,
                ResolutionError::TimestampFormat(m) => r@ == ("unparseable timestamp: ")@ + m@,
            },
    {
        match self {
            ResolutionError::MetadataFetch(m) => {
                let mut s = String::from_str("metadata fetch failed: ");
                s.append(m.as_str());
                s
            },
            ResolutionError::CitationFetch(m) => {
                let mut s = String::from_str("citation-graph fetch failed: ");
                s.append(m.as_str());
                s
            },
            ResolutionError::Translation(m) => {
                let mut s = String::from_str("translation failed: ");
                s.append(m.as_str());
                s
            },
            ResolutionError::TimestampFormat(m) => {
                let mut s = String::from_str("unparseable timestamp: ");
                s.append(m.as_str());
                s
            },
        }
    }
}

/// Characters an extracted identifier can hold: digits and the dot. All
/// of them are unreserved in URLs, so percent-encoding leaves them be.
pub open spec fn plain_identifier(s: Seq<char>) -> bool {
    forall|k: int| 0 <= k < s.len() ==> (is_digit(s[k]) || s[k] == '.')
}

/// True exactly when every character of the text is a digit or a dot.
pub fn is_plain_identifier(s: &str) -> (r: bool)
    ensures
        r == plain_identifier(s@),
{
    let n = s.unicode_len();
    let mut i: usize = 0;
    while i < n
        invariant
            n == s@.len(),
            0 <= i <= n,
            forall|k: int| 0 <= k < i ==> (is_digit(s@[k]) || s@[k] == '.'),
        decreases n - i,
    {
        let c = s.get_char(i);
        if !(c as u32 >= 48 && c as u32 <= 57 || c == '.') {
            return false;
        }
        i = i + 1;
    }
    true
}

/// The metadata source's query URL for an identifier.
pub fn arxiv_query_url(arxiv_id: &str) -> (r: String)
    ensures
        r@ == ("http://export.arxiv.org/api/query?id_list=")@ + arxiv_id@,
{
    let mut s = String::from_str("http://export.arxiv.org/api/query?id_list=");
    s.append(arxiv_id);
    s
}

/// The citation-graph source's query URL: the canonical abstract-page URL
/// for the identifier, percent-encoded, interpolated into the fixed
/// template. The fixed abstract-page prefix stands here already encoded;
/// the identifier itself is digits and a dot, all unreserved characters,
/// which the encoding keeps verbatim.
pub fn citation_graph_url(arxiv_id: &str) -> (r: String)
    requires
        plain_identifier(arxiv_id@),
    ensures
        r@ == ("https://api.semanticscholar.org/graph/v1/paper/url:https%3A%2F%2Farxiv.org%2Fabs%2F")@
            + arxiv_id@ + ("?fields=authors")@,
{
    let mut s = String::from_str(
        "https://api.semanticscholar.org/graph/v1/paper/url:https%3A%2F%2Farxiv.org%2Fabs%2F",
    );
    s.append(arxiv_id);
    s.append("?fields=authors");
    s
}

/// The resolved author for one citation-graph author record: the name is
/// kept, and the profile link exists exactly when the source supplied an
/// author identifier.
pub open spec fn author_resolved(ca: CitationAuthor, a: Author) -> bool {
    &&& a.name@ == ca.name@
    &&& match ca.author_id {
        Option::Some(id) => a.author_url is Some && a.author_url->0@ == (
        "https://www.semanticscholar.org/author/")@ + id@,
        Option::None => a.author_url is None,
    }
}

fn resolve_authors(list: &Vec<CitationAuthor>) -> (r: Vec<Author>)
    ensures
        r@.len() == list@.len(),
        forall|k: int| 0 <= k < list@.len() ==> author_resolved(list@[k], #[trigger] r@[k]),
{
    let mut out: Vec<Author> = Vec::new();
    let mut i: usize = 0;
    while i < list.len()
        invariant
            0 <= i <= list@.len(),
            out@.len() == i,
            forall|k: int| 0 <= k < i ==> author_resolved(list@[k], #[trigger] out@[k]),
        decreases list@.len() - i,
    {
        let ca = &list[i];
        let name = ca.name.clone();
        let author_url = match &ca.author_id {
            Option::Some(id) => {
                let mut u = String::from_str("https://www.semanticscholar.org/author/");
                u.append(id.as_str());
                Option::Some(u)
            },
            Option::None => Option::None,
        };
        out.push(Author { name, author_url });
        i = i + 1;
    }
    out
}

/// Merges the three upstream outcomes into one resolution result. The
/// caller performs the fetches and the translation; this step decides.
/// The first failure, in the order metadata (a fetch failure or a payload
/// whose title is empty), citation graph, translation, then timestamp
/// shape, collapses the whole resolution to that error; a `Paper` comes
/// back only when every part succeeded, and then each field is pinned to
/// its source — in particular its title is never empty.
pub fn get_paper_info(
    metadata: Result<ArxivEntry, String>,
    citation: Result<CitationGraph, String>,
    translated: Result<String, String>,
) -> (r: Result<Paper, ResolutionError>)
    ensures
        metadata is Err ==> r == Result::<Paper, ResolutionError>::Err(
            ResolutionError::MetadataFetch(metadata->Err_0),
        ),
        metadata is Ok && metadata->Ok_0.title@.len() == 0 ==> r is Err
            && r->Err_0 is MetadataFetch && r->Err_0->MetadataFetch_0@ == (
        "metadata entry has an empty title")@,
        metadata is Ok && metadata->Ok_0.title@.len() > 0 && citation is Err ==> r == Result::<
            Paper,
            ResolutionError,
        >::Err(ResolutionError::CitationFetch(citation->Err_0)),
        metadata is Ok && metadata->Ok_0.title@.len() > 0 && citation is Ok && translated is Err
            ==> r == Result::<Paper, ResolutionError>::Err(
            ResolutionError::Translation(translated->Err_0),
        ),
        metadata is Ok && metadata->Ok_0.title@.len() > 0 && citation is Ok && translated is Ok
            && !parses_as_timestamp(metadata->Ok_0.published@) ==> r == Result::<
            Paper,
            ResolutionError,
        >::Err(ResolutionError::TimestampFormat(metadata->Ok_0.published)),
        metadata is Ok && metadata->Ok_0.title@.len() > 0 && citation is Ok && translated is Ok
            && parses_as_timestamp(metadata->Ok_0.published@) ==> r is Ok && {
            let p = r->Ok_0;
            let e = metadata->Ok_0;
            let c = citation->Ok_0;
            &&& p.title == e.title
            &&& p.title@.len() > 0
            &&& p.summary == e.summary
            &&& p.translated_summary == translated->Ok_0
            &&& p.published.wf()
            &&& p.published.year == four_val(e.published@, 0)
            &&& p.published.month == two_val(e.published@, 5)
            &&& p.published.day == two_val(e.published@, 8)
            &&& p.published.hour == two_val(e.published@, 11)
            &&& p.published.minute == two_val(e.published@, 14)
            &&& p.published.second == two_val(e.published@, 17)
            &&& p.semantic_scholar_url@ == ("https://www.semanticscholar.org/paper/")@
                + c.paper_id@
            &&& p.connected_papers_url@ == ("https://www.connectedpapers.com/main/")@
                + c.paper_id@
            &&& p.authors@.len() == c.authors@.len()
            &&& forall|k: int|
                0 <= k < c.authors@.len() ==> author_resolved(
                    c.authors@[k],
                    #[trigger] p.authors@[k],
                )
        },
{
    let entry = match metadata {
        Result::Ok(e) => e,
        Result::Err(m) => {
            return Result::Err(ResolutionError::MetadataFetch(m));
        },
    };
    if entry.title.as_str().unicode_len() == 0 {
        return Result::Err(
            ResolutionError::MetadataFetch(String::from_str("metadata entry has an empty title")),
        );
    }
    let graph = match citation {
        Result::Ok(c) => c,
        Result::Err(m) => {
            return Result::Err(ResolutionError::CitationFetch(m));
        },
    };
    let translated_summary = match translated {
        Result::Ok(t) => t,
        Result::Err(m) => {
            return Result::Err(ResolutionError::Translation(m));
        },
    };
    let published = match parse_timestamp(entry.published.as_str()) {
        Option::Some(t) => t,
        Option::None => {
            return Result::Err(ResolutionError::TimestampFormat(entry.published));
        },
    };
    let mut semantic_scholar_url = String::from_str("https://www.semanticscholar.org/paper/");
    semantic_scholar_url.append(graph.paper_id.as_str());
    let mut connected_papers_url = String::from_str("https://www.connectedpapers.com/main/");
    connected_papers_url.append(graph.paper_id.as_str());
    let authors = resolve_authors(&graph.authors);
    Result::Ok(
        Paper {
            title: entry.title,
            published,
            summary: entry.summary,
            translated_summary,
            authors,
            semantic_scholar_url,
            connected_papers_url,
        },
    )
}

} // verus!
