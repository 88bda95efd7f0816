//! The application shell: configuration, page routing values, and the
//! top-level state.  Loading and persisting the configuration, and the
//! rendering of pages, live outside the library.

use vstd::prelude::*;

verus! {

use crate::metadata::Metadata;
use crate::metadata::SpecMetadata;
use crate::metadata::empty_meta;
use crate::pages::following::FollowingPage;
use crate::pages::timeline::TimelinePage;
use crate::pages::view::ViewPage;
use crate::pages::view::spec_twturl;

/// Which page is shown.
#[derive(PartialEq, Eq, Structural, Clone, Copy, Debug)]
pub enum Page {
    Timeline,
    View,
    Following,
}

impl Default for Page {
    fn default() -> (r: Self)
        ensures
            r == Page::Timeline,
    {
        Page::Timeline
    }
}

/// A request to switch pages, carrying what the target page needs (for
/// the view page: the feed URL to show).
pub struct RedirectInfo {
    pub page: Page,
    pub content: String,
}

/// Paths the application works with: the local feed file.
pub struct AppFilePaths {
    pub twtxt: String,
}

/// The application configuration: the local feed's own metadata (whose
/// first URL is the canonical local feed URL and whose follows are the
/// fetch targets) and the file paths.
pub struct AppConfig {
    pub metadata: Metadata,
    pub paths: AppFilePaths,
}

/// Spec-level value of an [`AppConfig`].
#[verifier::ext_equal]
pub struct SpecAppConfig {
    pub metadata: SpecMetadata,
    pub twtxt: Seq<char>,
}

impl View for AppConfig {
    type V = SpecAppConfig;

    open spec fn view(&self) -> SpecAppConfig {
        SpecAppConfig { metadata: self.metadata@, twtxt: self.paths.twtxt@ }
    }
}

impl Default for AppConfig {
    /// Nothing declared, no feed file path.
    fn default() -> (r: Self)
        ensures
            r@.metadata == empty_meta(),
            r@.twtxt == Seq::<char>::empty(),
    {
        let r = AppConfig {
            metadata: Metadata::default(),
            paths: AppFilePaths { twtxt: String::new() },
        };
        r
    }
}

/// The whole application state.
pub struct TwtxtApp {
    pub page: Page,
    pub config: AppConfig,
    pub timeline: TimelinePage,
    pub view_page: ViewPage,
    pub following: FollowingPage,
}

impl TwtxtApp {
    /// A fresh application over a loaded configuration (reading the
    /// configuration from disk is the caller's task).
    pub fn new(config: AppConfig) -> (r: Self)
        ensures
            r.page == Page::Timeline,
            r.config == config,
            r.timeline.tweets@ == Seq::<crate::post::Tweet>::empty(),
            r.timeline.pending_downloads == 0,
            r.view_page.composer@ == spec_twturl(config@),
            r.view_page.tweets@ == Seq::<crate::post::Tweet>::empty(),
            r.following.editing is None,
    {
        let view_page = ViewPage::new(&config);
        TwtxtApp {
            page: Page::Timeline,
            config,
            timeline: TimelinePage::new(),
            view_page,
            following: FollowingPage::default(),
        }
    }

    /// Show another page.
    pub fn switch_to(&mut self, page: Page)
        ensures
            final(self).page == page,
            final(self).config == old(self).config,
            final(self).timeline == old(self).timeline,
            final(self).view_page == old(self).view_page,
            final(self).following == old(self).following,
    {
        self.page = page;
    }
}

} // verus!
