//! The rows and pages of a version listing.

use vstd::prelude::*;

verus! {

/// A [`VersionEntry`] as a mathematical value.
pub struct VersionEntryView {
    pub key: Seq<char>,
    pub version_id: Seq<char>,
    pub is_latest: bool,
    pub is_delete_marker: bool,
}

/// One row of a version listing.
#[derive(Debug, PartialEq, Eq)]
pub struct VersionEntry {
    /// The object's name.
    pub key: String,
    /// The opaque token of this version.
    pub version_id: String,
    /// Whether this version is the current one of `key`.
    pub is_latest: bool,
    /// Whether this version is a tombstone rather than content.
    pub is_delete_marker: bool,
}

impl View for VersionEntry {
    type V = VersionEntryView;

    open spec fn view(&self) -> VersionEntryView {
        VersionEntryView {
            key: self.key@,
            version_id: self.version_id@,
            is_latest: self.is_latest,
            is_delete_marker: self.is_delete_marker,
        }
    }
}

impl DeepView for VersionEntry {
    type V = VersionEntryView;

    open spec fn deep_view(&self) -> VersionEntryView {
        self@
    }
}

impl Clone for VersionEntry {
    fn clone(&self) -> (copy: Self)
        ensures
            copy == *self,
    {
        VersionEntry {
            key: self.key.clone(),
            version_id: self.version_id.clone(),
            is_latest: self.is_latest,
            is_delete_marker: self.is_delete_marker,
        }
    }
}

/// The text of an optional string, a missing one read as empty.
pub open spec fn text_or_empty(text: Option<String>) -> Seq<char> {
    match text {
        Some(t) => t@,
        None => Seq::empty(),
    }
}

/// Returns the string inside `text`, or an empty one where there is none.
pub fn string_or_empty(text: Option<String>) -> (s: String)
    ensures
        s@ == text_or_empty(text),
{
    match text {
        Some(t) => t,
        None => String::new(),
    }
}

impl VersionEntry {
    /// Builds a row from the fields as a store reports them, each of which may
    /// be missing. A missing key or version id is read as the empty string, and
    /// a row without the latest flag is not the latest.
    pub fn from_listing(
        key: Option<String>,
        version_id: Option<String>,
        is_latest: Option<bool>,
        is_delete_marker: bool,
    ) -> (entry: VersionEntry)
        ensures
            entry@ == (VersionEntryView {
                key: text_or_empty(key),
                version_id: text_or_empty(version_id),
                is_latest: is_latest == Some(true),
                is_delete_marker,
            }),
    {
        let latest = match is_latest {
            Some(flag) => flag,
            None => false,
        };
        VersionEntry {
            key: string_or_empty(key),
            version_id: string_or_empty(version_id),
            is_latest: latest,
            is_delete_marker,
        }
    }
}

/// A [`ListingPage`] as a mathematical value.
pub struct ListingPageView {
    pub entries: Seq<VersionEntryView>,
    pub is_truncated: bool,
    pub next_key_marker: Seq<char>,
}

impl ListingPageView {
    /// The cursor to resume the listing with: the page's marker where the page
    /// is truncated, nothing where it is the last one.
    pub open spec fn continuation(self) -> Option<Seq<char>> {
        if self.is_truncated {
            Some(self.next_key_marker)
        } else {
            None
        }
    }
}

/// One page of a version listing.
#[derive(Debug, PartialEq, Eq)]
pub struct ListingPage {
    /// The rows of the page, in the store's key order.
    pub entries: Vec<VersionEntry>,
    /// Whether more pages follow.
    pub is_truncated: bool,
    /// The cursor of the next page. It means something only on a truncated page.
    pub next_key_marker: String,
}

impl View for ListingPage {
    type V = ListingPageView;

    open spec fn view(&self) -> ListingPageView {
        ListingPageView {
            entries: self.entries.deep_view(),
            is_truncated: self.is_truncated,
            next_key_marker: self.next_key_marker@,
        }
    }
}

impl DeepView for ListingPage {
    type V = ListingPageView;

    open spec fn deep_view(&self) -> ListingPageView {
        self@
    }
}

impl ListingPage {
    /// Builds a page from what a store reports. A page without the truncation
    /// flag is the last one, and a missing marker is read as the empty string.
    pub fn from_listing(
        entries: Vec<VersionEntry>,
        is_truncated: Option<bool>,
        next_key_marker: Option<String>,
    ) -> (page: ListingPage)
        ensures
            page@ == (ListingPageView {
                entries: entries.deep_view(),
                is_truncated: is_truncated == Some(true),
                next_key_marker: text_or_empty(next_key_marker),
            }),
    {
        let truncated = match is_truncated {
            Some(flag) => flag,
            None => false,
        };
        ListingPage {
            entries,
            is_truncated: truncated,
            next_key_marker: string_or_empty(next_key_marker),
        }
    }

    /// The cursor to ask the next page with, or `None` on the last page.
    pub fn continuation(&self) -> (cursor: Option<String>)
        ensures
            cursor.deep_view() == self@.continuation(),
    {
        if self.is_truncated {
            Some(self.next_key_marker.clone())
        } else {
            None
        }
    }
}

} // verus!
