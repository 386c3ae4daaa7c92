//! The metadata block attached to every document: its title and the access
//! rules for viewing and editing it.

use vstd::prelude::*;

use crate::auth::{Access, AccessView};

verus! {

/// The structured header of a document.
#[derive(Debug, Clone)]
pub struct Metadata {
    /// The title of this article.
    pub title: String,
    /// Access to edit this article.
    pub edit_access: Access,
    /// Access to view this article.
    pub view_access: Access,
}

/// The mathematical shape of a [`Metadata`] value.
pub struct MetadataView {
    pub title: Seq<char>,
    pub edit_access: AccessView,
    pub view_access: AccessView,
}

impl View for Metadata {
    type V = MetadataView;

    open spec fn view(&self) -> MetadataView {
        MetadataView {
            title: self.title@,
            edit_access: self.edit_access@,
            view_access: self.view_access@,
        }
    }
}

impl Metadata {
    /// The header used when rendering a bad-request page.
    pub fn bad_request() -> (r: Metadata)
        ensures
            r@.title == "Bad request"@,
            r@.edit_access == AccessView::Authenticated,
            r@.view_access == AccessView::Anonymous,
    {
        Metadata {
            title: String::from_str("Bad request"),
            edit_access: Access::Authenticated,
            view_access: Access::Anonymous,
        }
    }

    /// The header used when rendering a missing-article page.
    pub fn not_found() -> (r: Metadata)
        ensures
            r@.title == "Article not found"@,
            r@.edit_access == AccessView::Authenticated,
            r@.view_access == AccessView::Anonymous,
    {
        Metadata {
            title: String::from_str("Article not found"),
            edit_access: Access::Authenticated,
            view_access: Access::Anonymous,
        }
    }

    /// The header used when rendering an internal-error page.
    pub fn internal_error() -> (r: Metadata)
        ensures
            r@.title == "An error occurred when opening this article."@,
            r@.edit_access == AccessView::Authenticated,
            r@.view_access == AccessView::Anonymous,
    {
        Metadata {
            title: String::from_str("An error occurred when opening this article."),
            edit_access: Access::Authenticated,
            view_access: Access::Anonymous,
        }
    }
}

impl Default for Metadata {
    fn default() -> (r: Metadata)
        ensures
            r@.title == Seq::<char>::empty(),
            r@.edit_access == AccessView::Authenticated,
            r@.view_access == AccessView::Anonymous,
    {
        Metadata {
            title: String::new(),
            edit_access: Access::Authenticated,
            view_access: Access::Anonymous,
        }
    }
}

} // verus!
