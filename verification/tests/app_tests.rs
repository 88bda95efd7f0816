use twtgui::app::AppConfig;
use twtgui::app::Page;
use twtgui::app::RedirectInfo;
use twtgui::app::TwtxtApp;
use twtgui::metadata::Link;
use twtgui::pages::following::FollowingPage;
use twtgui::pages::following::Message;
use twtgui::pages::timeline::TimelinePage;
use twtgui::pages::view::ViewPage;
use twtgui::post::parse_tweets;

#[test]
fn app_starts_on_timeline() {
    let app = TwtxtApp::new(AppConfig::default());
    assert!(matches!(app.page, Page::Timeline));
    assert!(app.timeline.tweets.is_empty());
    assert_eq!(app.view_page.composer, "");
}

#[test]
fn app_view_composer_prefilled_from_config() {
    let mut config = AppConfig::default();
    config.metadata.urls.push("https://me.example/twtxt.txt".to_string());
    let mut app = TwtxtApp::new(config);
    assert_eq!(app.view_page.composer, "https://me.example/twtxt.txt");
    app.switch_to(Page::Following);
    assert!(matches!(app.page, Page::Following));
}

#[test]
fn following_add_remove_edit_flow() {
    let mut page = FollowingPage::default();
    let mut config = AppConfig::default();

    // Adding with empty fields does nothing.
    assert!(!page.update(Message::AddPressed, &mut config));
    assert!(config.metadata.follows.is_empty());

    assert!(!page.update(Message::NameChanged("bob".to_string()), &mut config));
    assert!(!page.update(Message::UrlChanged("https://b.example".to_string()), &mut config));
    assert!(page.update(Message::AddPressed, &mut config));
    assert_eq!(config.metadata.follows.len(), 1);
    assert_eq!(config.metadata.follows[0].text, "bob");
    assert_eq!(config.metadata.follows[0].url, "https://b.example");
    assert_eq!(page.new_name, "");
    assert_eq!(page.new_url, "");

    // Adding under the same name replaces the entry.
    page.update(Message::NameChanged("bob".to_string()), &mut config);
    page.update(Message::UrlChanged("https://b2.example".to_string()), &mut config);
    assert!(page.update(Message::AddPressed, &mut config));
    assert_eq!(config.metadata.follows.len(), 1);
    assert_eq!(config.metadata.follows[0].url, "https://b2.example");

    // Edit: pick up the entry, change its URL, save.
    assert!(!page.update(Message::EditPressed("bob".to_string()), &mut config));
    assert_eq!(page.editing.as_deref(), Some("bob"));
    assert_eq!(page.edit_url, "https://b2.example");
    assert!(!page.update(Message::EditUrlChanged("https://b3.example".to_string()), &mut config));
    assert!(page.update(Message::SaveEdit, &mut config));
    assert!(page.editing.is_none());
    assert_eq!(config.metadata.follows.len(), 1);
    assert_eq!(config.metadata.follows[0].url, "https://b3.example");

    // Saving again with nothing being edited does nothing.
    assert!(!page.update(Message::SaveEdit, &mut config));

    // Remove drops the entry.
    assert!(page.update(Message::RemovePressed("bob".to_string()), &mut config));
    assert!(config.metadata.follows.is_empty());
}

#[test]
fn following_edit_renames_entry() {
    let mut page = FollowingPage::default();
    let mut config = AppConfig::default();
    config.metadata.follows.push(Link {
        text: "carl".to_string(),
        url: "https://c.example".to_string(),
    });
    page.update(Message::EditPressed("carl".to_string()), &mut config);
    page.update(Message::EditNameChanged("carol".to_string()), &mut config);
    assert!(page.update(Message::SaveEdit, &mut config));
    assert_eq!(config.metadata.follows.len(), 1);
    assert_eq!(config.metadata.follows[0].text, "carol");
    assert_eq!(config.metadata.follows[0].url, "https://c.example");
}

#[test]
fn following_cancel_edit() {
    let mut page = FollowingPage::default();
    let mut config = AppConfig::default();
    config.metadata.follows.push(Link {
        text: "dora".to_string(),
        url: "https://d.example".to_string(),
    });
    page.update(Message::EditPressed("dora".to_string()), &mut config);
    assert!(page.editing.is_some());
    assert!(!page.update(Message::CancelEdit, &mut config));
    assert!(page.editing.is_none());
    assert_eq!(config.metadata.follows.len(), 1);
}

#[test]
fn timeline_merges_and_sorts_when_last_download_lands() {
    let mut page = TimelinePage::new();
    page.note_spawned();
    page.note_spawned();
    let a = parse_tweets("a", "https://a.example", None, "2024-01-01T00:00:00Z\told\n");
    let b = parse_tweets("b", "https://b.example", None, "2024-06-01T00:00:00Z\tnew\n");
    page.merge_fetch(a);
    assert_eq!(page.pending_downloads, 1);
    page.merge_fetch(b);
    assert_eq!(page.pending_downloads, 0);
    assert_eq!(page.tweets.len(), 2);
    assert_eq!(page.tweets[0].content, "new");
    assert_eq!(page.tweets[1].content, "old");
    assert_eq!(page.feed.visible_count, 2);
}

#[test]
fn timeline_failed_download_contributes_nothing() {
    let mut page = TimelinePage::new();
    page.note_spawned();
    page.download_failed();
    assert_eq!(page.pending_downloads, 0);
    assert!(page.tweets.is_empty());
}

#[test]
fn timeline_refresh_clears_state() {
    let mut page = TimelinePage::new();
    page.note_spawned();
    let a = parse_tweets("a", "https://a.example", None, "2024-01-01T00:00:00Z\tx\n");
    page.merge_fetch(a);
    assert_eq!(page.tweets.len(), 1);
    page.begin_refresh();
    assert!(page.tweets.is_empty());
    assert_eq!(page.pending_downloads, 0);
    assert_eq!(page.feed.visible_count, 0);
}

#[test]
fn view_page_fetch_without_avatar_builds_posts() {
    let mut page = ViewPage::new(&AppConfig::default());
    page.composer = "https://example.com/twtxt.txt".to_string();
    let url = page.begin_view();
    assert_eq!(url, "https://example.com/twtxt.txt");
    let data = "2024-01-01T00:00:00Z\thello\n".to_string();
    let avatar_url = page.feed_downloaded(&url, data);
    assert!(avatar_url.is_none());
    assert_eq!(page.pending_downloads, 0);
    assert_eq!(page.tweets.len(), 1);
    // No nick declared: the author falls back to the URL's host.
    assert_eq!(page.tweets[0].author, "example.com");
    assert_eq!(page.feed.visible_count, 1);
}

#[test]
fn view_page_fetch_with_avatar_defers_posts() {
    let mut page = ViewPage::new(&AppConfig::default());
    page.composer = "https://example.com/twtxt.txt".to_string();
    let url = page.begin_view();
    let data = "# avatar = https://example.com/me.png\n2024-01-01T00:00:00Z\thello\n".to_string();
    let avatar_url = page.feed_downloaded(&url, data);
    assert_eq!(avatar_url.as_deref(), Some("https://example.com/me.png"));
    assert_eq!(page.pending_downloads, 1);
    assert!(page.tweets.is_empty());
    page.avatar_downloaded(&url, Some(7));
    assert_eq!(page.pending_downloads, 0);
    assert_eq!(page.tweets.len(), 1);
    assert_eq!(page.tweets[0].avatar, Some(7));
}

#[test]
fn view_page_failed_fetch_shows_message() {
    let mut page = ViewPage::new(&AppConfig::default());
    let _url = page.begin_view();
    page.feed_failed("Error: connection refused".to_string());
    assert_eq!(page.fetched, "Error: connection refused");
    assert_eq!(page.pending_downloads, 0);
    assert!(page.tweets.is_empty());
}

#[test]
fn view_page_redirect_takes_url() {
    let mut page = ViewPage::new(&AppConfig::default());
    let fetch = page.process_redirect_info(RedirectInfo {
        page: Page::View,
        content: "https://other.example/twtxt.txt".to_string(),
    });
    assert!(fetch);
    assert_eq!(page.composer, "https://other.example/twtxt.txt");
    let no_fetch = page.process_redirect_info(RedirectInfo {
        page: Page::Timeline,
        content: "x".to_string(),
    });
    assert!(!no_fetch);
}
