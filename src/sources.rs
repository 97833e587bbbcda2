//! Collection: whether a source's archive must be downloaded, and where the
//! archive of a source without a stable link is found.
use crate::indexer::{join_path, path_under};
use crate::tpconfig::{kind_scraped, SourceConfig, SourceKind};
use vstd::prelude::*;

verus! {

/// Why a source's archive could not be had.
#[derive(Debug, Clone, Copy, PartialEq, Eq, Structural)]
pub enum CollectionError {
    /// The landing page links to no archive.
    NoArchiveLink,
    /// The archive link cannot be resolved against the page's address.
    BadLink,
    /// The source names no file to keep its archive in.
    NoArtifactPath,
    /// A download failed.
    Fetch,
    /// The archive could not be stored or removed.
    Storage,
}

/// What collecting a source does.
#[derive(Debug, Clone, Copy, PartialEq, Eq, Structural)]
pub enum CollectAction {
    /// Use the archive that is already kept; nothing is downloaded.
    Reuse,
    /// Download the archive, first removing the kept one if `delete_first`.
    /// With `scrape`, the source's address is a landing page whose first
    /// archive link is downloaded.
    Fetch { delete_first: bool, scrape: bool },
}

/// The action for a source of `kind` whose archive is kept (`exists`) or not.
pub open spec fn collect_action_spec(kind: SourceKind, exists: bool, force_download: bool) -> CollectAction {
    if exists && !force_download {
        CollectAction::Reuse
    } else {
        CollectAction::Fetch { delete_first: exists, scrape: kind_scraped(kind) }
    }
}

/// How many downloads an action makes.
pub open spec fn network_calls(a: CollectAction) -> nat {
    match a {
        CollectAction::Reuse => 0,
        CollectAction::Fetch { scrape, .. } => if scrape {
            2
        } else {
            1
        },
    }
}

/// Decides how a source's archive is had: a kept archive is reused unless a
/// download is forced, in which case it is removed and downloaded again; a
/// missing one is downloaded.
pub fn collect_action(kind: SourceKind, exists: bool, force_download: bool) -> (r: CollectAction)
    ensures
        r == collect_action_spec(kind, exists, force_download),
{
    if exists && !force_download {
        CollectAction::Reuse
    } else {
        CollectAction::Fetch { delete_first: exists, scrape: kind.is_scraped() }
    }
}

/// A forced download removes and fetches again a kept archive; without one a
/// kept archive is reused with no download.
pub proof fn lemma_forced_download_refetches(kind: SourceKind)
    ensures
        collect_action_spec(kind, true, true) matches CollectAction::Fetch { delete_first, .. }
            && delete_first,
        network_calls(collect_action_spec(kind, true, true)) >= 1,
        collect_action_spec(kind, true, false) == CollectAction::Reuse,
        network_calls(collect_action_spec(kind, true, false)) == 0,
{
}

/// The file a source's archive is kept in, under the storage folder.
pub fn artifact_path(storage_folder: &str, source: &SourceConfig) -> (r: Result<
    String,
    CollectionError,
>)
    ensures
        source.data_path is None ==> r == Err::<String, CollectionError>(
            CollectionError::NoArtifactPath,
        ),
        source.data_path matches Some(p) ==> r matches Ok(path) && path@ == join_path(
            storage_folder@,
            p@,
        ),
{
    match source.data_path {
        Some(p) => Ok(path_under(storage_folder, p)),
        None => Err(CollectionError::NoArtifactPath),
    }
}

/// The value of `attribute` on the first element, in document order, that
/// the CSS `selector` matches in the HTML `html`; `None` when the selector
/// does not parse, nothing matches, or the element lacks the attribute.
pub uninterp spec fn first_attr(html: Seq<char>, selector: Seq<char>, attribute: Seq<char>) -> Option<
    Seq<char>,
>;

/// `reference` resolved against the absolute URL `base`, as a browser
/// follows a link: a relative reference is joined to `base`, an absolute one
/// stands for itself; `None` when `base` is not a URL or the result is not one.
pub uninterp spec fn url_join(base: Seq<char>, reference: Seq<char>) -> Option<Seq<char>>;

/// Relies on scraper's `Selector::parse`, `Html::parse_document`,
/// `Html::select` and `Element::attr`: the attribute of the first match.
#[verifier::external_body]
fn first_selected_attr(html: &str, selector: &str, attribute: &str) -> (r: Option<String>)
    ensures
        r is Some <==> first_attr(html@, selector@, attribute@) is Some,
        r matches Some(v) ==> first_attr(html@, selector@, attribute@) == Some(v@),
{
    let selector = scraper::Selector::parse(selector).ok()?;
    let document = scraper::Html::parse_document(html);
    let first = document.select(&selector).next()?;
    first.value().attr(attribute).map(String::from)
}

/// Relies on `Url::parse` and `Url::join` (url, as reqwest re-exports it).
#[verifier::external_body]
fn join_url(base: &str, reference: &str) -> (r: Option<String>)
    ensures
        r is Some <==> url_join(base@, reference@) is Some,
        r matches Some(v) ==> url_join(base@, reference@) == Some(v@),
{
    let base = reqwest::Url::parse(base).ok()?;
    base.join(reference).ok().map(String::from)
}

/// The CSS selector of archive links: anchors whose `href` ends in `.zip`.
pub const ARCHIVE_LINK_SELECTOR: &'static str = "a[href$='.zip']";

/// The address of the archive that a found link leads to, resolved against
/// the page's address.
pub open spec fn resolve_spec(page_url: Seq<char>, link: Option<Seq<char>>) -> Result<
    Seq<char>,
    CollectionError,
> {
    match link {
        None => Err(CollectionError::NoArchiveLink),
        Some(link) => match url_join(page_url, link) {
            Some(u) => Ok(u),
            None => Err(CollectionError::BadLink),
        },
    }
}

/// The address of the archive a landing page links to.
pub open spec fn archive_link_spec(page_url: Seq<char>, html: Seq<char>) -> Result<
    Seq<char>,
    CollectionError,
> {
    resolve_spec(page_url, first_attr(html, ARCHIVE_LINK_SELECTOR@, "href"@))
}

/// The characters of an optional string.
pub open spec fn text_view(o: Option<String>) -> Option<Seq<char>> {
    match o {
        Some(s) => Some(s@),
        None => None,
    }
}

/// Resolves the archive link found on the landing page at `page_url`.
pub fn resolve_archive_link(page_url: &str, link: Option<String>) -> (r: Result<
    String,
    CollectionError,
>)
    ensures
        r matches Ok(u) ==> resolve_spec(page_url@, text_view(link)) == Ok::<
            Seq<char>,
            CollectionError,
        >(u@),
        r matches Err(e) ==> resolve_spec(page_url@, text_view(link)) == Err::<
            Seq<char>,
            CollectionError,
        >(e),
{
    let link = match link {
        Some(link) => link,
        None => return Err(CollectionError::NoArchiveLink),
    };
    match join_url(page_url, link.as_str()) {
        Some(u) => Ok(u),
        None => Err(CollectionError::BadLink),
    }
}

/// The address of the first archive that the landing page at `page_url`,
/// with the HTML `html`, links to, in document order; a relative link is
/// resolved against the page's address.
pub fn archive_link(page_url: &str, html: &str) -> (r: Result<String, CollectionError>)
    ensures
        r matches Ok(u) ==> archive_link_spec(page_url@, html@) == Ok::<
            Seq<char>,
            CollectionError,
        >(u@),
        r matches Err(e) ==> archive_link_spec(page_url@, html@) == Err::<
            Seq<char>,
            CollectionError,
        >(e),
{
    let found = first_selected_attr(html, ARCHIVE_LINK_SELECTOR, "href");
    proof {
        let f = first_attr(html@, ARCHIVE_LINK_SELECTOR@, "href"@);
        assert(text_view(found) == f);
    }
    resolve_archive_link(page_url, found)
}

} // verus!
