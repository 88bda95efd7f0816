//! The following page: edit the ordered follow list (display name and
//! feed URL per entry) kept in the configuration's metadata.
//!
//! Names behave as keys: adding under an existing name replaces that
//! entry, removing drops every entry under the name.  Saving the
//! configuration to disk is the caller's task; `update` reports when it
//! is due.

use vstd::prelude::*;

verus! {

use crate::app::AppConfig;
use crate::metadata::Link;
use crate::metadata::SpecLink;
use crate::metadata::links_view;
use crate::text::str_eq;
use crate::text::opt_string_view;

/// Following-page state: the add form, and the edit form when an entry
/// is being edited.
pub struct FollowingPage {
    pub new_name: String,
    pub new_url: String,
    pub editing: Option<String>,
    pub edit_name: String,
    pub edit_url: String,
}

/// Spec-level value of a [`FollowingPage`].
#[verifier::ext_equal]
pub struct SpecFollowingPage {
    pub new_name: Seq<char>,
    pub new_url: Seq<char>,
    pub editing: Option<Seq<char>>,
    pub edit_name: Seq<char>,
    pub edit_url: Seq<char>,
}

impl View for FollowingPage {
    type V = SpecFollowingPage;

    open spec fn view(&self) -> SpecFollowingPage {
        SpecFollowingPage {
            new_name: self.new_name@,
            new_url: self.new_url@,
            editing: opt_string_view(self.editing),
            edit_name: self.edit_name@,
            edit_url: self.edit_url@,
        }
    }
}

impl Default for FollowingPage {
    /// Empty forms, nothing being edited.
    fn default() -> (r: Self)
        ensures
            r@.new_name == Seq::<char>::empty(),
            r@.new_url == Seq::<char>::empty(),
            r@.editing is None,
            r@.edit_name == Seq::<char>::empty(),
            r@.edit_url == Seq::<char>::empty(),
    {
        FollowingPage {
            new_name: String::new(),
            new_url: String::new(),
            editing: None,
            edit_name: String::new(),
            edit_url: String::new(),
        }
    }
}

/// One message from the page's controls.
pub enum Message {
    NameChanged(String),
    UrlChanged(String),
    AddPressed,
    RemovePressed(String),
    EditPressed(String),
    EditNameChanged(String),
    EditUrlChanged(String),
    SaveEdit,
    CancelEdit,
}

/// The follow list with the first entry named `name` replaced by
/// `{name, url}`, or that entry appended when the name is new.
pub open spec fn spec_upsert_follow(links: Seq<SpecLink>, name: Seq<char>, url: Seq<char>) -> Seq<
    SpecLink,
>
    decreases links.len(),
{
    if links.len() == 0 {
        seq![SpecLink { text: name, url: url }]
    } else if links[0].text == name {
        seq![SpecLink { text: name, url: url }] + links.drop_first()
    } else {
        seq![links[0]] + spec_upsert_follow(links.drop_first(), name, url)
    }
}

/// The follow list without every entry named `name`.
pub open spec fn spec_remove_follow(links: Seq<SpecLink>, name: Seq<char>) -> Seq<SpecLink>
    decreases links.len(),
{
    if links.len() == 0 {
        seq![]
    } else if links[0].text == name {
        spec_remove_follow(links.drop_first(), name)
    } else {
        seq![links[0]] + spec_remove_follow(links.drop_first(), name)
    }
}

/// The URL of the first entry named `name`, if any.
pub open spec fn spec_find_follow(links: Seq<SpecLink>, name: Seq<char>) -> Option<Seq<char>>
    decreases links.len(),
{
    if links.len() == 0 {
        None
    } else if links[0].text == name {
        Some(links[0].url)
    } else {
        spec_find_follow(links.drop_first(), name)
    }
}

proof fn lemma_upsert_found(links: Seq<SpecLink>, name: Seq<char>, url: Seq<char>, i: int)
    requires
        0 <= i < links.len(),
        links[i].text == name,
        forall|k: int| 0 <= k < i ==> links[k].text != name,
    ensures
        spec_upsert_follow(links, name, url) =~= links.update(
            i,
            SpecLink { text: name, url: url },
        ),
    decreases i,
{
    if i == 0 {
        assert(spec_upsert_follow(links, name, url) =~= links.update(
            0,
            SpecLink { text: name, url: url },
        ));
    } else {
        assert(links[0].text != name);
        assert(forall|k: int|
            0 <= k < i - 1 ==> #[trigger] links.drop_first()[k] == links[k + 1]);
        lemma_upsert_found(links.drop_first(), name, url, i - 1);
        assert(spec_upsert_follow(links, name, url) =~= seq![links[0]] + links.drop_first().update(
            i - 1,
            SpecLink { text: name, url: url },
        ));
    }
}

proof fn lemma_upsert_not_found(links: Seq<SpecLink>, name: Seq<char>, url: Seq<char>)
    requires
        forall|k: int| 0 <= k < links.len() ==> links[k].text != name,
    ensures
        spec_upsert_follow(links, name, url) =~= links.push(SpecLink { text: name, url: url }),
    decreases links.len(),
{
    if links.len() > 0 {
        assert(forall|k: int|
            0 <= k < links.len() - 1 ==> #[trigger] links.drop_first()[k] == links[k + 1]);
        lemma_upsert_not_found(links.drop_first(), name, url);
    }
}

proof fn lemma_find_found(links: Seq<SpecLink>, name: Seq<char>, i: int)
    requires
        0 <= i < links.len(),
        links[i].text == name,
        forall|k: int| 0 <= k < i ==> links[k].text != name,
    ensures
        spec_find_follow(links, name) == Some(links[i].url),
    decreases i,
{
    if i > 0 {
        assert(forall|k: int|
            0 <= k < i - 1 ==> #[trigger] links.drop_first()[k] == links[k + 1]);
        lemma_find_found(links.drop_first(), name, i - 1);
    }
}

proof fn lemma_find_not_found(links: Seq<SpecLink>, name: Seq<char>)
    requires
        forall|k: int| 0 <= k < links.len() ==> links[k].text != name,
    ensures
        spec_find_follow(links, name) is None,
    decreases links.len(),
{
    if links.len() > 0 {
        assert(forall|k: int|
            0 <= k < links.len() - 1 ==> #[trigger] links.drop_first()[k] == links[k + 1]);
        lemma_find_not_found(links.drop_first(), name);
    }
}

/// Replace the first entry named `name`, or append one.
fn upsert_follow(links: &mut Vec<Link>, name: &str, url: &str)
    ensures
        links_view(final(links)@) == spec_upsert_follow(links_view(old(links)@), name@, url@),
{
    let ghost lv = links_view(links@);
    let n = links.len();
    let mut i: usize = 0;
    while i < n
        invariant
            0 <= i <= n,
            n == links@.len(),
            links@ == old(links)@,
            lv == links_view(links@),
            forall|k: int| 0 <= k < i ==> lv[k].text != name@,
        decreases n - i,
    {
        let same = str_eq(links[i].text.as_str(), name);
        if same {
            proof {
                assert(lv[i as int].text == name@);
                lemma_upsert_found(lv, name@, url@, i as int);
            }
            links[i] = Link { text: name.to_owned(), url: url.to_owned() };
            proof {
                assert(links_view(links@) =~= lv.update(
                    i as int,
                    SpecLink { text: name@, url: url@ },
                ));
            }
            return ;
        }
        proof {
            assert(lv[i as int].text != name@);
        }
        i = i + 1;
    }
    proof {
        lemma_upsert_not_found(lv, name@, url@);
    }
    links.push(Link { text: name.to_owned(), url: url.to_owned() });
    proof {
        assert(links_view(links@) =~= lv.push(SpecLink { text: name@, url: url@ }));
    }
}

/// Drop every entry named `name`.
fn remove_follow(links: &mut Vec<Link>, name: &str)
    ensures
        links_view(final(links)@) == spec_remove_follow(links_view(old(links)@), name@),
{
    let ghost lv = links_view(old(links)@);
    let mut kept: Vec<Link> = Vec::new();
    proof {
        assert(links_view(kept@) =~= Seq::<SpecLink>::empty());
    }
    while links.len() > 0
        invariant
            spec_remove_follow(lv, name@) =~= links_view(kept@) + spec_remove_follow(
                links_view(links@),
                name@,
            ),
        decreases links@.len(),
    {
        let ghost cur = links_view(links@);
        let l = links.remove(0);
        proof {
            assert(links_view(links@) =~= cur.drop_first());
            assert(l@ == cur[0]);
        }
        let same = str_eq(l.text.as_str(), name);
        if !same {
            proof {
                assert(links_view(kept@.push(l)) =~= links_view(kept@) + seq![l@]);
            }
            kept.push(l);
        }
    }
    proof {
        assert(links_view(links@) =~= Seq::<SpecLink>::empty());
        assert(spec_remove_follow(links_view(links@), name@) =~= Seq::<SpecLink>::empty());
    }
    *links = kept;
}

/// The URL of the first entry named `name`, if any.
fn find_follow(links: &Vec<Link>, name: &str) -> (r: Option<String>)
    ensures
        opt_string_view(r) == spec_find_follow(links_view(links@), name@),
{
    let ghost lv = links_view(links@);
    let n = links.len();
    let mut i: usize = 0;
    while i < n
        invariant
            0 <= i <= n,
            n == links@.len(),
            lv == links_view(links@),
            forall|k: int| 0 <= k < i ==> lv[k].text != name@,
        decreases n - i,
    {
        let same = str_eq(links[i].text.as_str(), name);
        if same {
            proof {
                assert(lv[i as int].text == name@);
                lemma_find_found(lv, name@, i as int);
            }
            return Some(links[i].url.clone());
        }
        proof {
            assert(lv[i as int].text != name@);
        }
        i = i + 1;
    }
    proof {
        lemma_find_not_found(lv, name@);
    }
    None
}

impl FollowingPage {
    /// Apply one control message to the page and the follow list; the
    /// result says whether the configuration must be saved.
    pub fn update(&mut self, message: Message, config: &mut AppConfig) -> (save: bool)
        ensures
            final(config).paths == old(config).paths,
            final(config).metadata.urls == old(config).metadata.urls,
            final(config).metadata.nick == old(config).metadata.nick,
            final(config).metadata.avatar == old(config).metadata.avatar,
            final(config).metadata.description == old(config).metadata.description,
            final(config).metadata.kind == old(config).metadata.kind,
            final(config).metadata.following == old(config).metadata.following,
            final(config).metadata.links == old(config).metadata.links,
            final(config).metadata.prev == old(config).metadata.prev,
            final(config).metadata.refresh == old(config).metadata.refresh,
            match message {
                Message::NameChanged(v) => !save && final(self)@ == (SpecFollowingPage {
                    new_name: v@,
                    ..old(self)@
                }) && *final(config) == *old(config),
                Message::UrlChanged(v) => !save && final(self)@ == (SpecFollowingPage {
                    new_url: v@,
                    ..old(self)@
                }) && *final(config) == *old(config),
                Message::AddPressed => if old(self)@.new_name.len() > 0 && old(
                    self,
                )@.new_url.len() > 0 {
                    &&& save
                    &&& links_view(final(config).metadata.follows@) == spec_upsert_follow(
                        links_view(old(config).metadata.follows@),
                        old(self)@.new_name,
                        old(self)@.new_url,
                    )
                    &&& final(self)@ == (SpecFollowingPage {
                        new_name: Seq::<char>::empty(),
                        new_url: Seq::<char>::empty(),
                        ..old(self)@
                    })
                } else {
                    !save && *final(self) == *old(self) && *final(config) == *old(config)
                },
                Message::RemovePressed(name) => {
                    &&& save
                    &&& links_view(final(config).metadata.follows@) == spec_remove_follow(
                        links_view(old(config).metadata.follows@),
                        name@,
                    )
                    &&& *final(self) == *old(self)
                },
                Message::EditPressed(name) => !save && *final(config) == *old(config) && (match
                    spec_find_follow(links_view(old(config).metadata.follows@), name@) {
                    Some(u) => final(self)@ == (SpecFollowingPage {
                        editing: Some(name@),
                        edit_name: name@,
                        edit_url: u,
                        ..old(self)@
                    }),
                    None => *final(self) == *old(self),
                }),
                Message::EditNameChanged(v) => !save && final(self)@ == (SpecFollowingPage {
                    edit_name: v@,
                    ..old(self)@
                }) && *final(config) == *old(config),
                Message::EditUrlChanged(v) => !save && final(self)@ == (SpecFollowingPage {
                    edit_url: v@,
                    ..old(self)@
                }) && *final(config) == *old(config),
                Message::SaveEdit => match old(self)@.editing {
                    Some(old_name) => {
                        &&& save
                        &&& links_view(final(config).metadata.follows@) == spec_upsert_follow(
                            spec_remove_follow(
                                links_view(old(config).metadata.follows@),
                                old_name,
                            ),
                            old(self)@.edit_name,
                            old(self)@.edit_url,
                        )
                        &&& final(self)@ == (SpecFollowingPage { editing: None, ..old(self)@ })
                    },
                    None => !save && *final(self) == *old(self) && *final(config) == *old(config),
                },
                Message::CancelEdit => !save && final(self)@ == (SpecFollowingPage {
                    editing: None,
                    ..old(self)@
                }) && *final(config) == *old(config),
            },
    {
        match message {
            Message::NameChanged(v) => {
                self.new_name = v;
                proof {
                    assert(final(self)@ =~= SpecFollowingPage {
                        new_name: self.new_name@,
                        ..old(self)@
                    });
                }
                false
            },
            Message::UrlChanged(v) => {
                self.new_url = v;
                proof {
                    assert(final(self)@ =~= SpecFollowingPage {
                        new_url: self.new_url@,
                        ..old(self)@
                    });
                }
                false
            },
            Message::AddPressed => {
                if self.new_name.as_str().is_empty() || self.new_url.as_str().is_empty() {
                    false
                } else {
                    upsert_follow(
                        &mut config.metadata.follows,
                        self.new_name.as_str(),
                        self.new_url.as_str(),
                    );
                    self.new_name = String::new();
                    self.new_url = String::new();
                    proof {
                        assert(final(self)@ =~= SpecFollowingPage {
                            new_name: Seq::<char>::empty(),
                            new_url: Seq::<char>::empty(),
                            ..old(self)@
                        });
                    }
                    true
                }
            },
            Message::RemovePressed(name) => {
                remove_follow(&mut config.metadata.follows, name.as_str());
                true
            },
            Message::EditPressed(name) => {
                match find_follow(&config.metadata.follows, name.as_str()) {
                    Some(u) => {
                        self.editing = Some(name.clone());
                        self.edit_name = name;
                        self.edit_url = u;
                        proof {
                            assert(final(self)@ =~= SpecFollowingPage {
                                editing: Some(self.edit_name@),
                                edit_name: self.edit_name@,
                                edit_url: self.edit_url@,
                                ..old(self)@
                            });
                        }
                    },
                    None => {},
                }
                false
            },
            Message::EditNameChanged(v) => {
                self.edit_name = v;
                proof {
                    assert(final(self)@ =~= SpecFollowingPage {
                        edit_name: self.edit_name@,
                        ..old(self)@
                    });
                }
                false
            },
            Message::EditUrlChanged(v) => {
                self.edit_url = v;
                proof {
                    assert(final(self)@ =~= SpecFollowingPage {
                        edit_url: self.edit_url@,
                        ..old(self)@
                    });
                }
                false
            },
            Message::SaveEdit => {
                let old_name: Option<String> = match &self.editing {
                    Some(s) => Some(s.clone()),
                    None => None,
                };
                match old_name {
                    Some(name) => {
                        self.editing = None;
                        remove_follow(&mut config.metadata.follows, name.as_str());
                        upsert_follow(
                            &mut config.metadata.follows,
                            self.edit_name.as_str(),
                            self.edit_url.as_str(),
                        );
                        proof {
                            assert(final(self)@ =~= SpecFollowingPage {
                                editing: None,
                                ..old(self)@
                            });
                        }
                        true
                    },
                    None => false,
                }
            },
            Message::CancelEdit => {
                self.editing = None;
                proof {
                    assert(final(self)@ =~= SpecFollowingPage { editing: None, ..old(self)@ });
                }
                false
            },
        }
    }
}

} // verus!
