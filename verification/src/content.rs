//! Post content tokenizer: reply marker and mention extraction.
//!
//! One forward scan over the characters classifies each token as a reply
//! marker, a mention, or plain text.  The grammar:
//!
//! - A mention is `@<URL>` (bare) or `@<TEXT WS URL>`: after `@<` comes a
//!   nonempty run of characters that are neither whitespace nor `>`; a
//!   following `>` closes a bare mention, while a nonempty whitespace run
//!   followed by a nonempty, non-whitespace-initial run up to `>` closes
//!   a mention with display text.
//! - A reply marker is `(#HASH)` with a nonempty hash of non-`)`
//!   characters, recognized among the leading tokens only, at most once.
//! - The leading tokens (mentions and one reply marker, separated by
//!   whitespace) are recognized only at the very start of the content;
//!   the first character that starts no token begins the body, in which
//!   mentions are recognized anywhere but reply markers are plain text.
//!
//! Display content replaces each mention with `@TEXT` (or the bare URL),
//! drops the reply marker, and is trimmed at both ends.

use vstd::prelude::*;

verus! {

use crate::text::is_ws;
use crate::text::is_ws_char;
use crate::text::spec_trim;
use crate::text::trim_chars;
use crate::text::chars_of;
use crate::text::string_from_chars;
use crate::text::copy_range;
use crate::text::skip_while_ws;
use crate::text::lemma_skip_while_ws_bounds;
use crate::text::lemma_skip_ws_eq;
use crate::text::opt_string_view;

/// A mention target: explicit display text with a URL, or a bare
/// reference whose URL doubles as the display text.
#[derive(Debug)]
pub struct OptLink {
    pub text: Option<String>,
    pub url: String,
}

/// Spec-level value of an [`OptLink`].
#[verifier::ext_equal]
pub struct SpecMention {
    pub text: Option<Seq<char>>,
    pub url: Seq<char>,
}

impl View for OptLink {
    type V = SpecMention;

    open spec fn view(&self) -> SpecMention {
        SpecMention {
            text: match self.text {
                Some(t) => Some(t@),
                None => None,
            },
            url: self.url@,
        }
    }
}

/// The mentions of a vector, as spec values.
pub open spec fn mentions_view(v: Seq<OptLink>) -> Seq<SpecMention> {
    v.map_values(|o: OptLink| o@)
}

pub proof fn lemma_mentions_view_push(v: Seq<OptLink>, o: OptLink)
    ensures
        mentions_view(v.push(o)) =~= mentions_view(v) + seq![o@],
{
}

/// First index at or after `i` holding whitespace or `>` (ends the first
/// token of a mention); `s.len()` if none.
pub open spec fn scan_first(s: Seq<char>, i: int) -> int
    decreases s.len() - i,
{
    if i < 0 {
        0
    } else if i >= s.len() {
        s.len() as int
    } else if is_ws(s[i]) || s[i] == '>' {
        i
    } else {
        scan_first(s, i + 1)
    }
}

pub proof fn lemma_scan_first_eq(s: Seq<char>, i: int, j: int)
    requires
        0 <= i <= j <= s.len(),
        forall|k: int| i <= k < j ==> !(is_ws(s[k]) || s[k] == '>'),
        j < s.len() ==> is_ws(s[j]) || s[j] == '>',
    ensures
        scan_first(s, i) == j,
    decreases j - i,
{
    if i < j {
        lemma_scan_first_eq(s, i + 1, j);
    }
}

/// First index at or after `i` holding `>`; `s.len()` if none.
pub open spec fn scan_gt(s: Seq<char>, i: int) -> int
    decreases s.len() - i,
{
    if i < 0 {
        0
    } else if i >= s.len() {
        s.len() as int
    } else if s[i] == '>' {
        i
    } else {
        scan_gt(s, i + 1)
    }
}

pub proof fn lemma_scan_gt_eq(s: Seq<char>, i: int, j: int)
    requires
        0 <= i <= j <= s.len(),
        forall|k: int| i <= k < j ==> s[k] != '>',
        j < s.len() ==> s[j] == '>',
    ensures
        scan_gt(s, i) == j,
    decreases j - i,
{
    if i < j {
        lemma_scan_gt_eq(s, i + 1, j);
    }
}

/// First index at or after `i` holding `)`; `s.len()` if none.
pub open spec fn scan_rparen(s: Seq<char>, i: int) -> int
    decreases s.len() - i,
{
    if i < 0 {
        0
    } else if i >= s.len() {
        s.len() as int
    } else if s[i] == ')' {
        i
    } else {
        scan_rparen(s, i + 1)
    }
}

pub proof fn lemma_scan_rparen_eq(s: Seq<char>, i: int, j: int)
    requires
        0 <= i <= j <= s.len(),
        forall|k: int| i <= k < j ==> s[k] != ')',
        j < s.len() ==> s[j] == ')',
    ensures
        scan_rparen(s, i) == j,
    decreases j - i,
{
    if i < j {
        lemma_scan_rparen_eq(s, i + 1, j);
    }
}

/// The mention starting exactly at `i`, if any: the spec value and the
/// index one past its closing `>`.
pub open spec fn mention_at(s: Seq<char>, i: int) -> Option<(SpecMention, int)> {
    if !(0 <= i && i + 1 < s.len() && s[i] == '@' && s[i + 1] == '<') {
        None
    } else {
        let fs = i + 2;
        let fe = scan_first(s, fs);
        if fe == fs || fe >= s.len() {
            None
        } else if s[fe] == '>' {
            Some((SpecMention { text: None, url: s.subrange(fs, fe) }, fe + 1))
        } else {
            let ss = skip_while_ws(s, fe, true);
            if ss >= s.len() || s[ss] == '>' {
                None
            } else {
                let se = scan_gt(s, ss);
                if se >= s.len() {
                    None
                } else {
                    Some(
                        (
                            SpecMention {
                                text: Some(s.subrange(fs, fe)),
                                url: spec_trim(s.subrange(ss, se)),
                            },
                            se + 1,
                        ),
                    )
                }
            }
        }
    }
}

/// The reply marker starting exactly at `i`, if any: the hash and the
/// index one past its closing `)`.
pub open spec fn reply_at(s: Seq<char>, i: int) -> Option<(Seq<char>, int)> {
    if !(0 <= i && i + 1 < s.len() && s[i] == '(' && s[i + 1] == '#') {
        None
    } else {
        let hs = i + 2;
        let he = scan_rparen(s, hs);
        if he == hs || he >= s.len() {
            None
        } else {
            Some((s.subrange(hs, he), he + 1))
        }
    }
}

pub proof fn lemma_scan_first_bounds(s: Seq<char>, i: int)
    requires
        0 <= i <= s.len(),
    ensures
        i <= scan_first(s, i) <= s.len(),
    decreases s.len() - i,
{
    if i < s.len() && !(is_ws(s[i]) || s[i] == '>') {
        lemma_scan_first_bounds(s, i + 1);
    }
}

pub proof fn lemma_scan_gt_bounds(s: Seq<char>, i: int)
    requires
        0 <= i <= s.len(),
    ensures
        i <= scan_gt(s, i) <= s.len(),
    decreases s.len() - i,
{
    if i < s.len() && s[i] != '>' {
        lemma_scan_gt_bounds(s, i + 1);
    }
}

pub proof fn lemma_scan_rparen_bounds(s: Seq<char>, i: int)
    requires
        0 <= i <= s.len(),
    ensures
        i <= scan_rparen(s, i) <= s.len(),
    decreases s.len() - i,
{
    if i < s.len() && s[i] != ')' {
        lemma_scan_rparen_bounds(s, i + 1);
    }
}

/// A recognized mention ends after its `@<` and before the end of the
/// text.
pub proof fn lemma_mention_at_bounds(s: Seq<char>, i: int)
    ensures
        mention_at(s, i) matches Some(me) ==> i + 3 <= me.1 <= s.len(),
{
    if mention_at(s, i) is Some {
        lemma_scan_first_bounds(s, i + 2);
        let fe = scan_first(s, i + 2);
        if !(fe == i + 2 || fe >= s.len()) && s[fe] != '>' {
            lemma_skip_while_ws_bounds(s, fe, true);
            let ss = skip_while_ws(s, fe, true);
            if !(ss >= s.len() || s[ss] == '>') {
                lemma_scan_gt_bounds(s, ss);
            }
        }
    }
}

/// A recognized reply marker ends after its `(#` and before the end of
/// the text.
pub proof fn lemma_reply_at_bounds(s: Seq<char>, i: int)
    ensures
        reply_at(s, i) matches Some(he) ==> i + 3 <= he.1 <= s.len(),
{
    if reply_at(s, i) is Some {
        lemma_scan_rparen_bounds(s, i + 2);
    }
}

/// Display replacement for one mention: `@TEXT`, or the bare URL.
pub open spec fn mention_display(m: SpecMention) -> Seq<char> {
    match m.text {
        Some(t) => seq!['@'] + t,
        None => m.url,
    }
}

/// The leading-token phase: starting at `i`, skip whitespace, then
/// recognize a mention, or (if none was seen yet) a reply marker, and
/// continue; the first character starting neither ends the phase.
/// Returns the reply hash, the mentions, the display text of the phase
/// (each mention replacement followed by one space), and the index where
/// the body begins.
pub open spec fn prefix_phase(s: Seq<char>, i: int, found: bool) -> (
    Option<Seq<char>>,
    Seq<SpecMention>,
    Seq<char>,
    int,
)
    decreases s.len() - i,
    via prefix_phase_dec
{
    if i < 0 {
        (None, seq![], seq![], 0)
    } else {
        let j = skip_while_ws(s, i, true);
        if j >= s.len() {
            (None, seq![], seq![], s.len() as int)
        } else {
            match mention_at(s, j) {
                Some(me) => {
                    let r = prefix_phase(s, me.1, found);
                    (r.0, seq![me.0] + r.1, mention_display(me.0) + seq![' '] + r.2, r.3)
                },
                None => {
                    if !found {
                        match reply_at(s, j) {
                            Some(he) => {
                                let r = prefix_phase(s, he.1, true);
                                (Some(he.0), r.1, r.2, r.3)
                            },
                            None => (None, seq![], seq![], j),
                        }
                    } else {
                        (None, seq![], seq![], j)
                    }
                },
            }
        }
    }
}

#[via_fn]
proof fn prefix_phase_dec(s: Seq<char>, i: int, found: bool) {
    if 0 <= i <= s.len() {
        lemma_skip_while_ws_bounds(s, i, true);
        let j = skip_while_ws(s, i, true);
        if 0 <= j < s.len() {
            lemma_mention_at_bounds(s, j);
            lemma_reply_at_bounds(s, j);
        }
    }
}

/// The body phase: from `i` to the end, mentions are recognized anywhere
/// and replaced in the display text; every other character is kept.
pub open spec fn body_phase(s: Seq<char>, i: int) -> (Seq<SpecMention>, Seq<char>)
    decreases s.len() - i,
    via body_phase_dec
{
    if i < 0 || i >= s.len() {
        (seq![], seq![])
    } else {
        match mention_at(s, i) {
            Some(me) => {
                let r = body_phase(s, me.1);
                (seq![me.0] + r.0, mention_display(me.0) + r.1)
            },
            None => {
                let r = body_phase(s, i + 1);
                (r.0, seq![s[i]] + r.1)
            },
        }
    }
}

#[via_fn]
proof fn body_phase_dec(s: Seq<char>, i: int) {
    if 0 <= i < s.len() {
        lemma_mention_at_bounds(s, i);
    }
}

/// The whole tokenizer: reply hash, mentions in order of appearance, and
/// the trimmed display text.
pub open spec fn spec_parse_contents(s: Seq<char>) -> (
    Option<Seq<char>>,
    Seq<SpecMention>,
    Seq<char>,
) {
    let p = prefix_phase(s, 0, false);
    let b = body_phase(s, p.3);
    (p.0, p.1 + b.0, spec_trim(p.2 + b.1))
}

/// Try to read a mention starting exactly at `i`; on success, the link,
/// its display replacement, and the index one past the closing `>`.
fn try_mention(cs: &Vec<char>, i: usize) -> (r: Option<(OptLink, Vec<char>, usize)>)
    requires
        i < cs@.len(),
    ensures
        match r {
            Some(t) => {
                &&& mention_at(cs@, i as int) == Some((t.0@, t.2 as int))
                &&& t.1@ == mention_display(t.0@)
                &&& i < t.2 <= cs@.len()
            },
            None => mention_at(cs@, i as int) is None,
        },
{
    let n = cs.len();
    if !(i + 1 < n && cs[i] == '@' && cs[i + 1] == '<') {
        return None;
    }
    let fs = i + 2;
    let mut fe = fs;
    while fe < n && !is_ws_char(cs[fe]) && cs[fe] != '>'
        invariant
            fs <= fe <= n,
            n == cs@.len(),
            forall|k: int| fs <= k < fe ==> !(is_ws(cs@[k]) || cs@[k] == '>'),
        decreases n - fe,
    {
        fe = fe + 1;
    }
    proof {
        lemma_scan_first_eq(cs@, fs as int, fe as int);
    }
    if fe == fs || fe == n {
        return None;
    }
    if cs[fe] == '>' {
        let url_chars = copy_range(cs, fs, fe);
        let url = string_from_chars(&url_chars);
        let m = OptLink { text: None, url };
        proof {
            assert(m@ =~= SpecMention { text: None, url: cs@.subrange(fs as int, fe as int) });
        }
        return Some((m, url_chars, fe + 1));
    }
    let mut ss = fe;
    while ss < n && is_ws_char(cs[ss])
        invariant
            fe <= ss <= n,
            n == cs@.len(),
            forall|k: int| fe <= k < ss ==> is_ws(cs@[k]),
        decreases n - ss,
    {
        ss = ss + 1;
    }
    proof {
        lemma_skip_ws_eq(cs@, fe as int, ss as int);
    }
    if ss == n || cs[ss] == '>' {
        return None;
    }
    let mut se = ss;
    while se < n && cs[se] != '>'
        invariant
            ss <= se <= n,
            n == cs@.len(),
            forall|k: int| ss <= k < se ==> cs@[k] != '>',
        decreases n - se,
    {
        se = se + 1;
    }
    proof {
        lemma_scan_gt_eq(cs@, ss as int, se as int);
    }
    if se == n {
        return None;
    }
    let mut first = copy_range(cs, fs, fe);
    let second = copy_range(cs, ss, se);
    let url_trimmed = trim_chars(&second);
    let text_s = string_from_chars(&first);
    let url_s = string_from_chars(&url_trimmed);
    let mut disp: Vec<char> = Vec::new();
    disp.push('@');
    disp.append(&mut first);
    let m = OptLink { text: Some(text_s), url: url_s };
    proof {
        assert(m@ =~= SpecMention {
            text: Some(cs@.subrange(fs as int, fe as int)),
            url: spec_trim(cs@.subrange(ss as int, se as int)),
        });
        assert(disp@ =~= mention_display(m@));
    }
    Some((m, disp, se + 1))
}

/// Try to read a reply marker starting exactly at `i`; on success, the
/// hash and the index one past the closing `)`.
fn try_reply(cs: &Vec<char>, i: usize) -> (r: Option<(String, usize)>)
    requires
        i < cs@.len(),
    ensures
        match r {
            Some(t) => {
                &&& reply_at(cs@, i as int) == Some((t.0@, t.1 as int))
                &&& i < t.1 <= cs@.len()
            },
            None => reply_at(cs@, i as int) is None,
        },
{
    let n = cs.len();
    if !(i + 1 < n && cs[i] == '(' && cs[i + 1] == '#') {
        return None;
    }
    let hs = i + 2;
    let mut he = hs;
    while he < n && cs[he] != ')'
        invariant
            hs <= he <= n,
            n == cs@.len(),
            forall|k: int| hs <= k < he ==> cs@[k] != ')',
        decreases n - he,
    {
        he = he + 1;
    }
    proof {
        lemma_scan_rparen_eq(cs@, hs as int, he as int);
    }
    if he == hs || he == n {
        return None;
    }
    let hash_chars = copy_range(cs, hs, he);
    let hash = string_from_chars(&hash_chars);
    Some((hash, he + 1))
}

/// Skipping one whitespace character does not change the leading-token
/// phase.
proof fn lemma_prefix_skip_ws(s: Seq<char>, i: int, found: bool)
    requires
        0 <= i < s.len(),
        is_ws(s[i]),
    ensures
        prefix_phase(s, i, found) == prefix_phase(s, i + 1, found),
{
    assert(skip_while_ws(s, i, true) == skip_while_ws(s, i + 1, true));
}

/// Extract the reply hash, the mentions, and the display content from
/// one post's raw content, in one forward scan.
pub fn parse_twt_contents(raw_content: &str) -> (r: (Option<String>, Vec<OptLink>, String))
    ensures
        opt_string_view(r.0) == spec_parse_contents(raw_content@).0,
        mentions_view(r.1@) == spec_parse_contents(raw_content@).1,
        r.2@ == spec_parse_contents(raw_content@).2,
{
    let cs = chars_of(raw_content);
    let n = cs.len();
    let ghost s = cs@;
    let mut mentions: Vec<OptLink> = Vec::new();
    let mut display: Vec<char> = Vec::new();
    let mut reply: Option<String> = None;
    let mut found: bool = false;
    let mut pos: usize = 0;
    loop
        invariant
            0 <= pos <= n,
            n == s.len(),
            cs@ == s,
            found <==> reply is Some,
            prefix_phase(s, 0, false).0 == (if found {
                opt_string_view(reply)
            } else {
                prefix_phase(s, pos as int, found).0
            }),
            prefix_phase(s, 0, false).1 =~= mentions_view(mentions@) + prefix_phase(
                s,
                pos as int,
                found,
            ).1,
            prefix_phase(s, 0, false).2 =~= display@ + prefix_phase(s, pos as int, found).2,
            prefix_phase(s, 0, false).3 == prefix_phase(s, pos as int, found).3,
        ensures
            0 <= pos <= n,
            found <==> reply is Some,
            prefix_phase(s, 0, false).0 == opt_string_view(reply),
            prefix_phase(s, 0, false).1 =~= mentions_view(mentions@),
            prefix_phase(s, 0, false).2 =~= display@,
            prefix_phase(s, 0, false).3 == pos as int,
        decreases n - pos + (if found {
            0int
        } else {
            1int
        }),
    {
        if pos == n {
            proof {
                let r = prefix_phase(s, pos as int, found);
                assert(r.0 is None);
                assert(r.1 =~= Seq::<SpecMention>::empty());
                assert(r.2 =~= Seq::<char>::empty());
                assert(r.3 == pos as int);
            }
            break;
        }
        if is_ws_char(cs[pos]) {
            proof {
                lemma_prefix_skip_ws(s, pos as int, found);
            }
            pos = pos + 1;
            continue ;
        }
        proof {
            lemma_skip_ws_eq(s, pos as int, pos as int);
        }
        let ghost cur = prefix_phase(s, pos as int, found);
        if cs[pos] == '@' {
            match try_mention(&cs, pos) {
                Some(t) => {
                    let (m, mut d, e) = t;
                    proof {
                        let r = prefix_phase(s, e as int, found);
                        assert(cur.0 == r.0);
                        assert(cur.1 == seq![m@] + r.1);
                        assert(cur.2 == mention_display(m@) + seq![' '] + r.2);
                        assert(cur.3 == r.3);
                        lemma_mentions_view_push(mentions@, m);
                    }
                    mentions.push(m);
                    display.append(&mut d);
                    display.push(' ');
                    pos = e;
                    continue ;
                },
                None => {},
            }
        }
        if !found && cs[pos] == '(' {
            match try_reply(&cs, pos) {
                Some(t) => {
                    let (h, e) = t;
                    proof {
                        let r = prefix_phase(s, e as int, true);
                        assert(mention_at(s, pos as int) is None);
                        assert(cur.0 == Some(h@));
                        assert(cur.1 == r.1);
                        assert(cur.2 == r.2);
                        assert(cur.3 == r.3);
                    }
                    reply = Some(h);
                    found = true;
                    pos = e;
                    continue ;
                },
                None => {},
            }
        }
        proof {
            assert(mention_at(s, pos as int) is None);
            assert(found || reply_at(s, pos as int) is None);
            assert(cur.0 is None);
            assert(cur.1 =~= Seq::<SpecMention>::empty());
            assert(cur.2 =~= Seq::<char>::empty());
            assert(cur.3 == pos as int);
        }
        break ;
    }
    let ghost p = prefix_phase(s, 0, false);
    let ghost bstart = pos as int;
    let ghost b = body_phase(s, bstart);
    while pos < n
        invariant
            bstart <= pos <= n,
            n == s.len(),
            cs@ == s,
            p == prefix_phase(s, 0, false),
            b == body_phase(s, bstart),
            p.0 == opt_string_view(reply),
            p.1 + b.0 =~= mentions_view(mentions@) + body_phase(s, pos as int).0,
            p.2 + b.1 =~= display@ + body_phase(s, pos as int).1,
        decreases n - pos,
    {
        let ghost cur = body_phase(s, pos as int);
        if cs[pos] == '@' {
            match try_mention(&cs, pos) {
                Some(t) => {
                    let (m, mut d, e) = t;
                    proof {
                        let r = body_phase(s, e as int);
                        assert(cur.0 == seq![m@] + r.0);
                        assert(cur.1 == mention_display(m@) + r.1);
                        lemma_mentions_view_push(mentions@, m);
                    }
                    mentions.push(m);
                    display.append(&mut d);
                    pos = e;
                    continue ;
                },
                None => {},
            }
        }
        proof {
            assert(mention_at(s, pos as int) is None);
            let r = body_phase(s, pos + 1 as int);
            assert(cur.0 == r.0);
            assert(cur.1 == seq![s[pos as int]] + r.1);
        }
        display.push(cs[pos]);
        pos = pos + 1;
    }
    proof {
        assert(body_phase(s, n as int).0 =~= Seq::<SpecMention>::empty());
        assert(body_phase(s, n as int).1 =~= Seq::<char>::empty());
        assert(p.1 + b.0 =~= mentions_view(mentions@));
        assert(p.2 + b.1 =~= display@);
    }
    let trimmed = trim_chars(&display);
    let out = string_from_chars(&trimmed);
    (reply, mentions, out)
}

} // verus!
