//! Feed-level metadata parser.
//!
//! Every line prefixed with `#` is split once on `=`, both sides
//! trimmed; recognized keys update the metadata record, anything else is
//! ignored.  A document in which no recognized key produced an effect
//! yields no metadata at all — a distinct null state, not a record with
//! every field empty.

use vstd::prelude::*;

verus! {

use crate::text::spec_trim;
use crate::text::trim_chars;
use crate::text::chars_of;
use crate::text::string_from_chars;
use crate::text::copy_range;
use crate::text::spec_lines;
use crate::text::lines_of;
use crate::text::char_lines_view;
use crate::text::vec_char_eq;
use crate::text::spec_parse_u64;
use crate::text::parse_u64;
use crate::text::opt_string_view;

/// A named link: display text and URL.
#[derive(Debug)]
pub struct Link {
    pub text: String,
    pub url: String,
}

/// Spec-level value of a [`Link`].
#[verifier::ext_equal]
pub struct SpecLink {
    pub text: Seq<char>,
    pub url: Seq<char>,
}

impl View for Link {
    type V = SpecLink;

    open spec fn view(&self) -> SpecLink {
        SpecLink { text: self.text@, url: self.url@ }
    }
}

pub open spec fn links_view(v: Seq<Link>) -> Seq<SpecLink> {
    v.map_values(|l: Link| l@)
}

pub proof fn lemma_links_view_push(v: Seq<Link>, l: Link)
    ensures
        links_view(v.push(l)) =~= links_view(v) + seq![l@],
{
}

pub open spec fn strings_view(v: Seq<String>) -> Seq<Seq<char>> {
    v.map_values(|s: String| s@)
}

pub proof fn lemma_strings_view_push(v: Seq<String>, s: String)
    ensures
        strings_view(v.push(s)) =~= strings_view(v) + seq![s@],
{
}

/// Feed metadata: any subset of the recognized keys may be present.
#[derive(Debug)]
pub struct Metadata {
    pub urls: Vec<String>,
    pub nick: Option<String>,
    pub avatar: Option<String>,
    pub description: Option<String>,
    pub kind: Option<String>,
    pub follows: Vec<Link>,
    pub following: Option<u64>,
    pub links: Vec<Link>,
    pub prev: Vec<String>,
    pub refresh: Option<u64>,
}

/// Spec-level value of a [`Metadata`].
#[verifier::ext_equal]
pub struct SpecMetadata {
    pub urls: Seq<Seq<char>>,
    pub nick: Option<Seq<char>>,
    pub avatar: Option<Seq<char>>,
    pub description: Option<Seq<char>>,
    pub kind: Option<Seq<char>>,
    pub follows: Seq<SpecLink>,
    pub following: Option<u64>,
    pub links: Seq<SpecLink>,
    pub prev: Seq<Seq<char>>,
    pub refresh: Option<u64>,
}

impl View for Metadata {
    type V = SpecMetadata;

    open spec fn view(&self) -> SpecMetadata {
        SpecMetadata {
            urls: strings_view(self.urls@),
            nick: opt_string_view(self.nick),
            avatar: opt_string_view(self.avatar),
            description: opt_string_view(self.description),
            kind: opt_string_view(self.kind),
            follows: links_view(self.follows@),
            following: self.following,
            links: links_view(self.links@),
            prev: strings_view(self.prev@),
            refresh: self.refresh,
        }
    }
}

/// The record with nothing declared.
pub open spec fn empty_meta() -> SpecMetadata {
    SpecMetadata {
        urls: seq![],
        nick: None,
        avatar: None,
        description: None,
        kind: None,
        follows: seq![],
        following: None,
        links: seq![],
        prev: seq![],
        refresh: None,
    }
}

impl Default for Metadata {
    /// The record with nothing declared.
    fn default() -> (r: Self)
        ensures
            r@ == empty_meta(),
    {
        let r = Metadata {
            urls: Vec::new(),
            nick: None,
            avatar: None,
            description: None,
            kind: None,
            follows: Vec::new(),
            following: None,
            links: Vec::new(),
            prev: Vec::new(),
            refresh: None,
        };
        proof {
            assert(r@ =~= empty_meta());
        }
        r
    }
}

/// First index at or after `i` holding `'='`; `s.len()` if none.
pub open spec fn scan_eq_sign(s: Seq<char>, i: int) -> int
    decreases s.len() - i,
{
    if i < 0 {
        0
    } else if i >= s.len() {
        s.len() as int
    } else if s[i] == '=' {
        i
    } else {
        scan_eq_sign(s, i + 1)
    }
}

pub proof fn lemma_scan_eq_sign_eq(s: Seq<char>, i: int, j: int)
    requires
        0 <= i <= j <= s.len(),
        forall|k: int| i <= k < j ==> s[k] != '=',
        j < s.len() ==> s[j] == '=',
    ensures
        scan_eq_sign(s, i) == j,
    decreases j - i,
{
    if i < j {
        lemma_scan_eq_sign_eq(s, i + 1, j);
    }
}

/// Index of the last `' '` in `s`, or -1 if there is none (what
/// `str::rsplit_once(' ')` splits at).
pub open spec fn last_space(s: Seq<char>) -> int
    decreases s.len(),
{
    if s.len() == 0 {
        -1
    } else if s.last() == ' ' {
        s.len() - 1
    } else {
        last_space(s.drop_last())
    }
}

pub proof fn lemma_last_space_at(s: Seq<char>, j: int)
    requires
        0 <= j < s.len(),
        s[j] == ' ',
        forall|k: int| j < k < s.len() ==> s[k] != ' ',
    ensures
        last_space(s) == j,
    decreases s.len(),
{
    if j < s.len() - 1 {
        assert(s.drop_last()[j] == s[j]);
        lemma_last_space_at(s.drop_last(), j);
    }
}

pub proof fn lemma_last_space_none(s: Seq<char>)
    requires
        forall|k: int| 0 <= k < s.len() ==> s[k] != ' ',
    ensures
        last_space(s) == -1,
    decreases s.len(),
{
    if s.len() > 0 {
        lemma_last_space_none(s.drop_last());
    }
}

/// The key and value of a metadata line: the line must begin with `#`
/// and contain `=`; the parts around the first `=` (after the `#`) are
/// trimmed.
pub open spec fn spec_split_kv(line: Seq<char>) -> Option<(Seq<char>, Seq<char>)> {
    if line.len() == 0 || line[0] != '#' {
        None
    } else {
        let rest = line.skip(1);
        let e = scan_eq_sign(rest, 0);
        if e >= rest.len() {
            None
        } else {
            Some((spec_trim(rest.subrange(0, e)), spec_trim(rest.skip(e + 1))))
        }
    }
}

/// The effect of one line on the metadata record, and whether it had
/// one.  A failed number parse or a `follow`/`link` value without a
/// space has no effect.
pub open spec fn meta_line_effect(m: SpecMetadata, line: Seq<char>) -> (SpecMetadata, bool) {
    match spec_split_kv(line) {
        None => (m, false),
        Some(kv) => {
            let key = kv.0;
            let value = kv.1;
            if key == "url"@ {
                (SpecMetadata { urls: m.urls.push(value), ..m }, true)
            } else if key == "nick"@ {
                (SpecMetadata { nick: Some(value), ..m }, true)
            } else if key == "avatar"@ {
                (SpecMetadata { avatar: Some(value), ..m }, true)
            } else if key == "description"@ {
                (SpecMetadata { description: Some(value), ..m }, true)
            } else if key == "type"@ {
                (SpecMetadata { kind: Some(value), ..m }, true)
            } else if key == "follow"@ {
                let ls = last_space(value);
                if ls < 0 {
                    (m, false)
                } else {
                    (
                        SpecMetadata {
                            follows: m.follows.push(
                                SpecLink {
                                    text: spec_trim(value.subrange(0, ls)),
                                    url: spec_trim(value.skip(ls + 1)),
                                },
                            ),
                            ..m
                        },
                        true,
                    )
                }
            } else if key == "following"@ {
                match spec_parse_u64(value) {
                    Some(nv) => (SpecMetadata { following: Some(nv), ..m }, true),
                    None => (m, false),
                }
            } else if key == "link"@ {
                let ls = last_space(value);
                if ls < 0 {
                    (m, false)
                } else {
                    (
                        SpecMetadata {
                            links: m.links.push(
                                SpecLink {
                                    text: spec_trim(value.subrange(0, ls)),
                                    url: spec_trim(value.skip(ls + 1)),
                                },
                            ),
                            ..m
                        },
                        true,
                    )
                }
            } else if key == "prev"@ {
                (SpecMetadata { prev: m.prev.push(value), ..m }, true)
            } else if key == "refresh"@ {
                match spec_parse_u64(value) {
                    Some(nv) => (SpecMetadata { refresh: Some(nv), ..m }, true),
                    None => (m, false),
                }
            } else {
                (m, false)
            }
        },
    }
}

/// The metadata record after the first `i` lines, and whether any line
/// had an effect.
pub open spec fn meta_after(lines: Seq<Seq<char>>, i: int) -> (SpecMetadata, bool)
    decreases i,
{
    if i <= 0 {
        (empty_meta(), false)
    } else {
        let p = meta_after(lines, i - 1);
        let e = meta_line_effect(p.0, lines[i - 1]);
        (e.0, p.1 || e.1)
    }
}

/// The whole document's metadata: the fold of every line, or nothing
/// when no line had an effect.
pub open spec fn spec_parse_metadata(s: Seq<char>) -> Option<SpecMetadata> {
    let lines = spec_lines(s);
    let r = meta_after(lines, lines.len() as int);
    if r.1 {
        Some(r.0)
    } else {
        None
    }
}

/// Apply one metadata line to the record; returns whether it had an
/// effect.
fn apply_meta_line(m: &mut Metadata, line: &Vec<char>) -> (eff: bool)
    ensures
        final(m)@ == meta_line_effect(old(m)@, line@).0,
        eff == meta_line_effect(old(m)@, line@).1,
{
    let n = line.len();
    if n == 0 || line[0] != '#' {
        return false;
    }
    let ghost rest = line@.skip(1);
    let mut e: usize = 1;
    while e < n && line[e] != '='
        invariant
            1 <= e <= n,
            n == line@.len(),
            forall|k: int| 1 <= k < e ==> line@[k] != '=',
        decreases n - e,
    {
        e = e + 1;
    }
    proof {
        assert(forall|k: int| 0 <= k < rest.len() ==> rest[k] == line@[k + 1]);
        lemma_scan_eq_sign_eq(rest, 0, e - 1 as int);
    }
    if e == n {
        return false;
    }
    let key_raw = copy_range(line, 1, e);
    let key = trim_chars(&key_raw);
    let value_raw = copy_range(line, e + 1, n);
    let value = trim_chars(&value_raw);
    let ghost kv = spec_split_kv(line@);
    proof {
        assert(rest.subrange(0, e - 1 as int) =~= line@.subrange(1, e as int));
        assert(rest.skip(e as int) =~= line@.subrange(e + 1 as int, n as int));
        assert(kv == Some((key@, value@)));
    }
    if vec_char_eq(&key, &chars_of("url")) {
        let ghost before = m@;
        m.urls.push(string_from_chars(&value));
        proof {
            lemma_strings_view_push(old(m).urls@, m.urls@.last());
            assert(m@ =~= SpecMetadata { urls: before.urls.push(value@), ..before });
        }
        return true;
    }
    if vec_char_eq(&key, &chars_of("nick")) {
        m.nick = Some(string_from_chars(&value));
        proof {
            assert(m@ =~= SpecMetadata { nick: Some(value@), ..old(m)@ });
        }
        return true;
    }
    if vec_char_eq(&key, &chars_of("avatar")) {
        m.avatar = Some(string_from_chars(&value));
        proof {
            assert(m@ =~= SpecMetadata { avatar: Some(value@), ..old(m)@ });
        }
        return true;
    }
    if vec_char_eq(&key, &chars_of("description")) {
        m.description = Some(string_from_chars(&value));
        proof {
            assert(m@ =~= SpecMetadata { description: Some(value@), ..old(m)@ });
        }
        return true;
    }
    if vec_char_eq(&key, &chars_of("type")) {
        m.kind = Some(string_from_chars(&value));
        proof {
            assert(m@ =~= SpecMetadata { kind: Some(value@), ..old(m)@ });
        }
        return true;
    }
    if vec_char_eq(&key, &chars_of("follow")) {
        match split_last_space(&value) {
            Some(parts) => {
                let (text, url) = parts;
                let ghost before = m@;
                m.follows.push(Link { text, url });
                proof {
                    lemma_links_view_push(old(m).follows@, m.follows@.last());
                    let ls = last_space(value@);
                    assert(m@ =~= SpecMetadata {
                        follows: before.follows.push(
                            SpecLink {
                                text: spec_trim(value@.subrange(0, ls)),
                                url: spec_trim(value@.skip(ls + 1)),
                            },
                        ),
                        ..before
                    });
                }
                return true;
            },
            None => {
                return false;
            },
        }
    }
    if vec_char_eq(&key, &chars_of("following")) {
        match parse_u64(&value) {
            Some(nv) => {
                m.following = Some(nv);
                proof {
                    assert(m@ =~= SpecMetadata { following: Some(nv), ..old(m)@ });
                }
                return true;
            },
            None => {
                return false;
            },
        }
    }
    if vec_char_eq(&key, &chars_of("link")) {
        match split_last_space(&value) {
            Some(parts) => {
                let (text, url) = parts;
                let ghost before = m@;
                m.links.push(Link { text, url });
                proof {
                    lemma_links_view_push(old(m).links@, m.links@.last());
                    let ls = last_space(value@);
                    assert(m@ =~= SpecMetadata {
                        links: before.links.push(
                            SpecLink {
                                text: spec_trim(value@.subrange(0, ls)),
                                url: spec_trim(value@.skip(ls + 1)),
                            },
                        ),
                        ..before
                    });
                }
                return true;
            },
            None => {
                return false;
            },
        }
    }
    if vec_char_eq(&key, &chars_of("prev")) {
        let ghost before = m@;
        m.prev.push(string_from_chars(&value));
        proof {
            lemma_strings_view_push(old(m).prev@, m.prev@.last());
            assert(m@ =~= SpecMetadata { prev: before.prev.push(value@), ..before });
        }
        return true;
    }
    if vec_char_eq(&key, &chars_of("refresh")) {
        match parse_u64(&value) {
            Some(nv) => {
                m.refresh = Some(nv);
                proof {
                    assert(m@ =~= SpecMetadata { refresh: Some(nv), ..old(m)@ });
                }
                return true;
            },
            None => {
                return false;
            },
        }
    }
    false
}

/// Split a value at its last space, both sides trimmed, as the `follow`
/// and `link` keys require; `None` when the value holds no space.
fn split_last_space(value: &Vec<char>) -> (r: Option<(String, String)>)
    ensures
        match r {
            Some(p) => {
                &&& last_space(value@) >= 0
                &&& p.0@ == spec_trim(value@.subrange(0, last_space(value@)))
                &&& p.1@ == spec_trim(value@.skip(last_space(value@) + 1))
            },
            None => last_space(value@) < 0,
        },
{
    let n = value.len();
    let mut j: usize = n;
    while j > 0 && value[j - 1] != ' '
        invariant
            0 <= j <= n,
            n == value@.len(),
            forall|k: int| j <= k < n ==> value@[k] != ' ',
        decreases j,
    {
        j = j - 1;
    }
    if j == 0 {
        proof {
            lemma_last_space_none(value@);
        }
        return None;
    }
    let ls = j - 1;
    proof {
        lemma_last_space_at(value@, ls as int);
    }
    let text_raw = copy_range(value, 0, ls);
    let text = trim_chars(&text_raw);
    let url_raw = copy_range(value, ls + 1, n);
    let url = trim_chars(&url_raw);
    proof {
        assert(value@.subrange(ls + 1 as int, n as int) =~= value@.skip(ls + 1 as int));
    }
    Some((string_from_chars(&text), string_from_chars(&url)))
}

/// Parse a document's metadata lines.  Returns `None` exactly when no
/// recognized key produced an effect anywhere in the document.
pub fn parse_metadata(input: &str) -> (r: Option<Metadata>)
    ensures
        match r {
            Some(m) => spec_parse_metadata(input@) == Some(m@),
            None => spec_parse_metadata(input@) is None,
        },
{
    let cs = chars_of(input);
    let lines = lines_of(&cs);
    let ghost lv = char_lines_view(lines@);
    let mut m = Metadata::default();
    let mut matched = false;
    let mut i: usize = 0;
    while i < lines.len()
        invariant
            0 <= i <= lines@.len(),
            lv == char_lines_view(lines@),
            lv == spec_lines(cs@),
            cs@ == input@,
            m@ == meta_after(lv, i as int).0,
            matched == meta_after(lv, i as int).1,
        decreases lines@.len() - i,
    {
        let line = &lines[i];
        proof {
            assert(lv[i as int] == lines@[i as int]@);
        }
        let eff = apply_meta_line(&mut m, line);
        matched = matched || eff;
        i = i + 1;
    }
    if matched {
        Some(m)
    } else {
        None
    }
}

} // verus!
