//! The dashboard's routes.
use vstd::prelude::*;
use crate::text::same_text;

verus! {

/// The pages the dashboard serves.
#[derive(Clone, Copy, Debug, PartialEq, Eq, Structural)]
pub enum DashboardPage {
    /// The HTML page, at "/" and "/index.html".
    Index,
    /// The status file, at "/status.json".
    Status,
    /// The work projects as a JSON list, at "/api/projects".
    Projects,
    /// Anything else: a 404.
    NotFound,
}

/// The page for a request's URL.
pub open spec fn page_of(url: Seq<char>) -> DashboardPage {
    if url == "/"@ || url == "/index.html"@ {
        DashboardPage::Index
    } else if url == "/status.json"@ {
        DashboardPage::Status
    } else if url == "/api/projects"@ {
        DashboardPage::Projects
    } else {
        DashboardPage::NotFound
    }
}

/// The page for a request's URL.
pub fn dashboard_page(url: &str) -> (r: DashboardPage)
    ensures
        r == page_of(url@),
{
    if same_text(url, "/") || same_text(url, "/index.html") {
        DashboardPage::Index
    } else if same_text(url, "/status.json") {
        DashboardPage::Status
    } else if same_text(url, "/api/projects") {
        DashboardPage::Projects
    } else {
        DashboardPage::NotFound
    }
}

} // verus!
