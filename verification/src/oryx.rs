//! Oryx (ZSA's online configurator): parsing layout URLs and keyboard serials,
//! and the URLs of the Oryx firmware service.

use vstd::prelude::*;
use vstd::string::{StrSliceExecFns, StringExecFns};

use crate::error::ZappError;
use crate::text::{str_eq, str_starts_with};

verus! {

#[verifier::external_type_specification]
#[verifier::external_body]
pub struct ExNetworkError(reqwest::Error);

/// Errors of the Oryx client.
#[derive(Debug)]
pub enum OryxError {
    /// The text is not a URL of an Oryx layout.
    InvalidUrl,
    /// The Oryx service could not be reached or answered with an error.
    Network(reqwest::Error),
    /// The downloaded firmware could not be used.
    Firmware(ZappError),
}

/// The text every Oryx layout URL starts with.
pub open spec fn oryx_url_prefix() -> Seq<char> {
    "https://configure.zsa.io/"@
}

/// `s` with every trailing `/` removed.
pub open spec fn trim_trailing_slashes(s: Seq<char>) -> Seq<char>
    decreases s.len(),
{
    if s.len() > 0 && s.last() == '/' {
        trim_trailing_slashes(s.drop_last())
    } else {
        s
    }
}

/// The pieces of `s` between its `/` characters, in order; an empty text is
/// one empty piece, and two adjacent slashes enclose an empty piece. Defined
/// character by character: a `/` opens a new piece, any other character
/// extends the last one.
pub open spec fn split_slash(s: Seq<char>) -> Seq<Seq<char>>
    decreases s.len(),
{
    if s.len() == 0 {
        seq![Seq::<char>::empty()]
    } else {
        let prev = split_slash(s.drop_last());
        if s.last() == '/' {
            prev.push(Seq::<char>::empty())
        } else {
            prev.update(prev.len() - 1, prev.last().push(s.last()))
        }
    }
}

/// The path segments of an Oryx URL: what follows the prefix, without
/// trailing slashes, split at `/`.
pub open spec fn url_segments(url: Seq<char>) -> Seq<Seq<char>> {
    split_slash(trim_trailing_slashes(url.skip(oryx_url_prefix().len() as int)))
}

/// What an Oryx URL names: its layout id and, where the URL names one, a
/// revision id. `None` where the text is not an Oryx layout URL.
///
/// Accepted forms, after the prefix and a keyboard segment:
/// `layouts/:layoutId`, `layouts/:layoutId/latest[/..]`,
/// `layouts/:layoutId/:revisionId[/..]`.
pub open spec fn spec_parse_url(url: Seq<char>) -> Option<(Seq<char>, Option<Seq<char>>)> {
    if !oryx_url_prefix().is_prefix_of(url) {
        None
    } else {
        let segs = url_segments(url);
        if segs.len() < 3 || segs[1] != "layouts"@ {
            None
        } else if segs.len() == 3 || segs[3] == "latest"@ {
            Some((segs[2], None))
        } else {
            Some((segs[2], Some(segs[3])))
        }
    }
}

/// The view of an optional string slice.
pub open spec fn opt_str_view(o: Option<&str>) -> Option<Seq<char>> {
    match o {
        Some(s) => Some(s@),
        None => None,
    }
}

/// Splitting always yields at least one segment.
pub proof fn lemma_split_slash_nonempty(s: Seq<char>)
    ensures
        split_slash(s).len() >= 1,
    decreases s.len(),
{
    if s.len() > 0 {
        lemma_split_slash_nonempty(s.drop_last());
    }
}

/// Whether `s` holds no `/`.
pub open spec fn slash_free(s: Seq<char>) -> bool {
    !s.contains('/')
}

/// A text without slashes is a single segment.
pub proof fn lemma_split_slash_free(s: Seq<char>)
    requires
        slash_free(s),
    ensures
        split_slash(s) == seq![s],
    decreases s.len(),
{
    if s.len() > 0 {
        let t = s.drop_last();
        assert(slash_free(t)) by {
            if t.contains('/') {
                let k = choose|k: int| 0 <= k < t.len() && t[k] == '/';
                assert(s[k] == '/');
            }
        }
        lemma_split_slash_free(t);
        assert(s.last() != '/') by {
            assert(s[s.len() - 1] == s.last());
        }
        assert(t.push(s.last()) =~= s);
        assert(split_slash(s) =~= seq![s]);
    } else {
        assert(s =~= Seq::<char>::empty());
    }
}

/// Splitting at a slash splits the two sides independently.
pub proof fn lemma_split_slash_join(a: Seq<char>, b: Seq<char>)
    ensures
        split_slash(a + seq!['/'] + b) == split_slash(a) + split_slash(b),
    decreases b.len(),
{
    let ab = a + seq!['/'] + b;
    if b.len() == 0 {
        assert(ab.drop_last() =~= a);
        assert(b =~= Seq::<char>::empty());
        assert(split_slash(ab) =~= split_slash(a) + split_slash(b));
    } else {
        let b0 = b.drop_last();
        lemma_split_slash_join(a, b0);
        lemma_split_slash_nonempty(a);
        lemma_split_slash_nonempty(b0);
        assert(ab.drop_last() =~= a + seq!['/'] + b0);
        assert(ab.last() == b.last());
        assert(split_slash(ab) =~= split_slash(a) + split_slash(b));
    }
}

/// A text that does not end in a slash is left as it is by trimming.
pub proof fn lemma_trim_no_trailing_slash(s: Seq<char>)
    requires
        s.len() == 0 || s.last() != '/',
    ensures
        trim_trailing_slashes(s) == s,
{
}

/// One more trailing slash changes nothing once trimmed.
pub proof fn lemma_trim_push_slash(s: Seq<char>)
    ensures
        trim_trailing_slashes(s.push('/')) == trim_trailing_slashes(s),
{
    assert(s.push('/').drop_last() =~= s);
}

/// A trailing slash does not change what an Oryx URL names.
pub proof fn law_parse_url_trailing_slash(url: Seq<char>)
    requires
        oryx_url_prefix().is_prefix_of(url),
    ensures
        spec_parse_url(url.push('/')) == spec_parse_url(url),
{
    let n = oryx_url_prefix().len() as int;
    assert(url.push('/').skip(n) =~= url.skip(n).push('/'));
    lemma_trim_push_slash(url.skip(n));
    assert(oryx_url_prefix().is_prefix_of(url.push('/'))) by {
        assert(url.push('/').subrange(0, n) =~= url.subrange(0, n));
    }
}

/// The fixed path words of Oryx URLs hold no slash.
pub proof fn lemma_keywords_slash_free()
    ensures
        slash_free("layouts"@),
        slash_free("latest"@),
        "latest"@.len() > 0 && "latest"@.last() == 't',
{
    reveal_strlit("layouts");
    reveal_strlit("latest");
    assert(!"layouts"@.contains('/'));
    assert(!"latest"@.contains('/'));
}

/// The URL of an Oryx layout, with an optional trailing part after the layout id.
pub open spec fn layout_url(keyboard: Seq<char>, layout: Seq<char>, rest: Seq<char>) -> Seq<char> {
    oryx_url_prefix() + keyboard + seq!['/'] + "layouts"@ + seq!['/'] + layout + rest
}

/// An Oryx layout URL starts with the prefix, and its segments are those of what follows it.
proof fn lemma_layout_url_segments(keyboard: Seq<char>, layout: Seq<char>, rest: Seq<char>)
    requires
        slash_free(keyboard),
    ensures
        oryx_url_prefix().is_prefix_of(layout_url(keyboard, layout, rest)),
        url_segments(layout_url(keyboard, layout, rest))
            == split_slash(trim_trailing_slashes(keyboard + seq!['/'] + "layouts"@ + seq!['/'] + layout + rest)),
{
    let u = layout_url(keyboard, layout, rest);
    let tail = keyboard + seq!['/'] + "layouts"@ + seq!['/'] + layout + rest;
    let n = oryx_url_prefix().len() as int;
    assert(u =~= oryx_url_prefix() + tail);
    assert(u.subrange(0, n) =~= oryx_url_prefix());
    assert(u.skip(n) =~= tail);
}

/// A URL that names a layout and a revision gives both back.
pub proof fn law_parse_url_names_revision(keyboard: Seq<char>, layout: Seq<char>, revision: Seq<char>)
    requires
        slash_free(keyboard),
        slash_free(layout),
        slash_free(revision),
        revision.len() > 0,
        revision != "latest"@,
    ensures
        spec_parse_url(layout_url(keyboard, layout, seq!['/'] + revision)) == Some((layout, Some(revision))),
{
    lemma_keywords_slash_free();
    let lay = "layouts"@;
    lemma_layout_url_segments(keyboard, layout, seq!['/'] + revision);
    let tail = keyboard + seq!['/'] + lay + seq!['/'] + layout + (seq!['/'] + revision);
    assert(tail.last() == revision.last());
    assert(revision.last() != '/') by {
        assert(revision[revision.len() - 1] == revision.last());
    }
    lemma_trim_no_trailing_slash(tail);
    lemma_split_slash_free(keyboard);
    lemma_split_slash_free(lay);
    lemma_split_slash_free(layout);
    lemma_split_slash_free(revision);
    assert(tail =~= ((keyboard + seq!['/'] + lay) + seq!['/'] + layout) + seq!['/'] + revision);
    lemma_split_slash_join(keyboard, lay);
    lemma_split_slash_join(keyboard + seq!['/'] + lay, layout);
    lemma_split_slash_join((keyboard + seq!['/'] + lay) + seq!['/'] + layout, revision);
    let segs = split_slash(tail);
    assert(segs =~= seq![keyboard, lay, layout, revision]);
}

/// A URL that names only a layout gives the layout back and no revision.
pub proof fn law_parse_url_names_layout(keyboard: Seq<char>, layout: Seq<char>)
    requires
        slash_free(keyboard),
        slash_free(layout),
        layout.len() > 0,
    ensures
        spec_parse_url(layout_url(keyboard, layout, Seq::empty())) == Some((layout, None::<Seq<char>>)),
{
    lemma_keywords_slash_free();
    let lay = "layouts"@;
    lemma_layout_url_segments(keyboard, layout, Seq::empty());
    let tail = keyboard + seq!['/'] + lay + seq!['/'] + layout + Seq::<char>::empty();
    assert(tail =~= (keyboard + seq!['/'] + lay) + seq!['/'] + layout);
    assert(tail.last() == layout.last());
    assert(layout.last() != '/') by {
        assert(layout[layout.len() - 1] == layout.last());
    }
    lemma_trim_no_trailing_slash(tail);
    lemma_split_slash_free(keyboard);
    lemma_split_slash_free(lay);
    lemma_split_slash_free(layout);
    lemma_split_slash_join(keyboard, lay);
    lemma_split_slash_join(keyboard + seq!['/'] + lay, layout);
    assert(split_slash(tail) =~= seq![keyboard, lay, layout]);
}

/// Trimming never cuts into a text that ends in something other than a slash:
/// what remains is that text followed by a prefix of what came after it.
pub proof fn lemma_trim_keeps_prefix(a: Seq<char>, rest: Seq<char>)
    requires
        a.len() > 0,
        a.last() != '/',
    ensures
        a.len() <= trim_trailing_slashes(a + rest).len() <= a.len() + rest.len(),
        trim_trailing_slashes(a + rest) == (a + rest).take(trim_trailing_slashes(a + rest).len() as int),
    decreases rest.len(),
{
    let s = a + rest;
    if rest.len() == 0 {
        assert(s =~= a);
        assert(s.take(s.len() as int) =~= s);
    } else if s.last() == '/' {
        let r0 = rest.drop_last();
        assert(s.drop_last() =~= a + r0);
        lemma_trim_keeps_prefix(a, r0);
        let t = trim_trailing_slashes(a + r0);
        assert((a + r0).take(t.len() as int) =~= s.take(t.len() as int));
    } else {
        assert(s.take(s.len() as int) =~= s);
    }
}

/// In a layout URL whose layout id is followed by `/`, a non-empty word
/// without slashes, and a rest that starts a new segment (or nothing), that
/// word is the fourth path segment.
proof fn lemma_fourth_segment(keyboard: Seq<char>, layout: Seq<char>, word: Seq<char>, more: Seq<char>)
    requires
        slash_free(keyboard),
        slash_free(layout),
        slash_free(word),
        word.len() > 0,
        more.len() == 0 || more[0] == '/',
    ensures
        oryx_url_prefix().is_prefix_of(layout_url(keyboard, layout, seq!['/'] + word + more)),
        url_segments(layout_url(keyboard, layout, seq!['/'] + word + more)).len() >= 4,
        url_segments(layout_url(keyboard, layout, seq!['/'] + word + more))[1] == "layouts"@,
        url_segments(layout_url(keyboard, layout, seq!['/'] + word + more))[2] == layout,
        url_segments(layout_url(keyboard, layout, seq!['/'] + word + more))[3] == word,
{
    lemma_keywords_slash_free();
    let lay = "layouts"@;
    lemma_layout_url_segments(keyboard, layout, seq!['/'] + word + more);
    let head = (keyboard + seq!['/'] + lay) + seq!['/'] + layout;
    let a = head + seq!['/'] + word;
    let tail = keyboard + seq!['/'] + lay + seq!['/'] + layout + (seq!['/'] + word + more);
    assert(tail =~= a + more);
    assert(a.last() == word.last());
    assert(word.last() != '/') by {
        assert(word[word.len() - 1] == word.last());
    }
    lemma_trim_keeps_prefix(a, more);
    let t = trim_trailing_slashes(tail);
    let r = more.take(t.len() - a.len());
    assert(t =~= a + r);
    lemma_split_slash_free(keyboard);
    lemma_split_slash_free(lay);
    lemma_split_slash_free(layout);
    lemma_split_slash_free(word);
    lemma_split_slash_join(keyboard, lay);
    lemma_split_slash_join(keyboard + seq!['/'] + lay, layout);
    lemma_split_slash_join(head, word);
    if r.len() > 0 {
        assert(r[0] == '/');
        let r1 = r.skip(1);
        assert(t =~= a + seq!['/'] + r1);
        lemma_split_slash_join(a, r1);
        lemma_split_slash_nonempty(r1);
    } else {
        assert(t =~= a);
    }
    let segs = split_slash(t);
    assert(segs.len() >= 4);
    assert(segs[1] == lay);
    assert(segs[2] == layout);
    assert(segs[3] == word);
}

/// A URL that asks for the latest revision of a layout gives the layout back
/// and no revision, whatever path follows `latest`.
pub proof fn law_parse_url_latest(keyboard: Seq<char>, layout: Seq<char>, rest: Seq<char>)
    requires
        slash_free(keyboard),
        slash_free(layout),
        rest.len() == 0 || rest[0] == '/',
    ensures
        spec_parse_url(layout_url(keyboard, layout, seq!['/'] + "latest"@ + rest)) == Some((layout, None::<Seq<char>>)),
{
    lemma_keywords_slash_free();
    lemma_fourth_segment(keyboard, layout, "latest"@, rest);
}

/// A revision stays named whatever path follows it: in a URL that names a
/// layout and a revision (non-empty, without slashes, not `latest`), followed
/// by nothing or by further segments (such as the layer index Oryx shows),
/// the parse gives back exactly that layout and that revision.
pub proof fn law_parse_url_revision_with_more(keyboard: Seq<char>, layout: Seq<char>, revision: Seq<char>, more: Seq<char>)
    requires
        slash_free(keyboard),
        slash_free(layout),
        slash_free(revision),
        revision.len() > 0,
        revision != "latest"@,
        more.len() == 0 || more[0] == '/',
    ensures
        spec_parse_url(layout_url(keyboard, layout, seq!['/'] + revision + more)) == Some((layout, Some(revision))),
{
    lemma_fourth_segment(keyboard, layout, revision, more);
}

/// The segments joined back together, with a `/` between neighbours.
pub open spec fn join_slash(segs: Seq<Seq<char>>) -> Seq<char>
    decreases segs.len(),
{
    if segs.len() == 0 {
        Seq::empty()
    } else if segs.len() == 1 {
        segs[0]
    } else {
        segs[0] + seq!['/'] + join_slash(segs.drop_first())
    }
}

/// Joining one more segment appends a slash and that segment.
pub proof fn lemma_join_push(segs: Seq<Seq<char>>, x: Seq<char>)
    requires
        segs.len() >= 1,
    ensures
        join_slash(segs.push(x)) == join_slash(segs) + seq!['/'] + x,
    decreases segs.len(),
{
    if segs.len() == 1 {
        assert(segs.push(x).drop_first() =~= seq![x]);
        assert(join_slash(seq![x]) == x);
        assert(segs.push(x)[0] == segs[0]);
    } else {
        assert(segs.push(x).drop_first() =~= segs.drop_first().push(x));
        lemma_join_push(segs.drop_first(), x);
        assert(join_slash(segs.push(x)) =~= join_slash(segs) + seq!['/'] + x);
    }
}

/// Extending the last segment by a character extends the joined text by it.
pub proof fn lemma_join_extend_last(segs: Seq<Seq<char>>, c: char)
    requires
        segs.len() >= 1,
    ensures
        join_slash(segs.update(segs.len() - 1, segs.last().push(c))) == join_slash(segs).push(c),
    decreases segs.len(),
{
    let u = segs.update(segs.len() - 1, segs.last().push(c));
    if segs.len() == 1 {
    } else {
        let d = segs.drop_first();
        assert(u.drop_first() =~= d.update(d.len() - 1, d.last().push(c)));
        lemma_join_extend_last(d, c);
        assert(join_slash(u) =~= join_slash(segs).push(c));
    }
}

/// Joining the segments of a text gives the text back.
pub proof fn lemma_split_join(s: Seq<char>)
    ensures
        join_slash(split_slash(s)) == s,
    decreases s.len(),
{
    if s.len() == 0 {
        assert(s =~= Seq::<char>::empty());
    } else {
        let p = s.drop_last();
        lemma_split_join(p);
        lemma_split_slash_nonempty(p);
        if s.last() == '/' {
            lemma_join_push(split_slash(p), Seq::<char>::empty());
            assert(p + seq!['/'] + Seq::<char>::empty() =~= s);
        } else {
            lemma_join_extend_last(split_slash(p), s.last());
            assert(p.push(s.last()) =~= s);
        }
    }
}

/// No segment holds a slash.
pub proof fn lemma_split_segments_slash_free(s: Seq<char>)
    ensures
        forall|k: int| 0 <= k < split_slash(s).len() ==> slash_free(#[trigger] split_slash(s)[k]),
    decreases s.len(),
{
    if s.len() > 0 {
        let p = s.drop_last();
        lemma_split_segments_slash_free(p);
        lemma_split_slash_nonempty(p);
        let prev = split_slash(p);
        if s.last() != '/' {
            assert forall|k: int| 0 <= k < split_slash(s).len() implies slash_free(#[trigger] split_slash(s)[k]) by {
                if k == prev.len() - 1 {
                    let seg = prev.last().push(s.last());
                    assert(slash_free(prev[k]));
                    if seg.contains('/') {
                        let j = choose|j: int| 0 <= j < seg.len() && seg[j] == '/';
                        if j < prev.last().len() {
                            assert(prev.last()[j] == '/');
                            assert(prev.last().contains('/'));
                        }
                    }
                }
            }
        } else {
            assert forall|k: int| 0 <= k < split_slash(s).len() implies slash_free(#[trigger] split_slash(s)[k]) by {
                if k == prev.len() {
                    assert(split_slash(s)[k] =~= Seq::<char>::empty());
                }
            }
        }
    }
}

/// Trimming keeps a prefix of the text and cuts off only slashes.
pub proof fn lemma_trim_cuts_slashes(s: Seq<char>)
    ensures
        trim_trailing_slashes(s).len() <= s.len(),
        trim_trailing_slashes(s) == s.take(trim_trailing_slashes(s).len() as int),
        forall|i: int| trim_trailing_slashes(s).len() <= i < s.len() ==> s[i] == '/',
    decreases s.len(),
{
    if s.len() > 0 && s.last() == '/' {
        let p = s.drop_last();
        lemma_trim_cuts_slashes(p);
        let t = trim_trailing_slashes(p);
        assert(p.take(t.len() as int) =~= s.take(t.len() as int));
        assert forall|i: int| t.len() <= i < s.len() implies s[i] == '/' by {
            if i < p.len() {
                assert(s[i] == p[i]);
            }
        }
    } else {
        assert(s.take(s.len() as int) =~= s);
    }
}

/// What follows a path segment: nothing, or a slash and more.
pub open spec fn ends_segment(rest: Seq<char>) -> bool {
    rest.len() == 0 || rest[0] == '/'
}

/// The part of a layout URL after the layout id that names a revision.
pub open spec fn revision_tail(revision: Seq<char>, more: Seq<char>) -> Seq<char> {
    seq!['/'] + revision + more
}

/// What an Oryx URL names stands in it: the URL is the prefix, a keyboard
/// segment, `/layouts/`, the layout id and a rest that starts a new segment;
/// the layout id holds no slash; and a revision id, where there is one, holds
/// no slash, is not `latest`, and is the next segment of that rest.
#[verifier::spinoff_prover]
#[verifier::rlimit(40)]
pub proof fn law_parse_url_result_shape(url: Seq<char>, layout: Seq<char>, revision: Option<Seq<char>>)
    requires
        spec_parse_url(url) == Some((layout, revision)),
    ensures
        slash_free(layout),
        revision matches Some(x) ==> slash_free(x) && x != "latest"@,
        exists|keyboard: Seq<char>, rest: Seq<char>|
            #![trigger layout_url(keyboard, layout, rest)]
            slash_free(keyboard) && url == layout_url(keyboard, layout, rest) && ends_segment(rest)
            && (revision matches Some(x) ==> exists|more: Seq<char>|
                rest == #[trigger] revision_tail(x, more) && ends_segment(more)),
{
    let n = oryx_url_prefix().len() as int;
    let path = url.skip(n);
    let t = trim_trailing_slashes(path);
    let segs = split_slash(t);
    lemma_split_join(t);
    lemma_split_segments_slash_free(t);
    lemma_trim_cuts_slashes(path);
    let slashes = path.skip(t.len() as int);
    assert(path =~= t + slashes);
    assert(url =~= oryx_url_prefix() + path) by {
        assert(url.subrange(0, n) =~= oryx_url_prefix());
    }
    assert(ends_segment(slashes)) by {
        if slashes.len() > 0 {
            assert(slashes[0] == path[t.len() as int]);
        }
    }
    assert(slash_free(segs[0]) && slash_free(segs[2]));
    let d1 = segs.drop_first();
    let d2 = d1.drop_first();
    let d3 = d2.drop_first();
    assert(d1[0] == segs[1] && d2[0] == segs[2]);
    // The joined text after the layout id.
    let r = if segs.len() == 3 {
        Seq::<char>::empty()
    } else {
        seq!['/'] + join_slash(d3)
    };
    assert(join_slash(d2) == segs[2] + r) by {
        if segs.len() == 3 {
            assert(d2.len() == 1);
            assert(segs[2] + r =~= segs[2]);
        }
    }
    assert(segs.len() >= 3);
    assert(join_slash(segs) == segs[0] + seq!['/'] + join_slash(d1));
    assert(join_slash(d1) == d1[0] + seq!['/'] + join_slash(d2));
    assert(t =~= segs[0] + seq!['/'] + segs[1] + seq!['/'] + segs[2] + r);
    let rest = r + slashes;
    assert(url =~= layout_url(segs[0], layout, rest));
    assert(ends_segment(rest)) by {
        if r.len() == 0 {
            assert(rest =~= slashes);
        } else {
            assert(rest[0] == r[0]);
        }
    }
    if let Some(x) = revision {
        assert(x == segs[3] && x == d3[0]);
        assert(slash_free(segs[3]));
        let r2 = if d3.len() == 1 {
            Seq::<char>::empty()
        } else {
            seq!['/'] + join_slash(d3.drop_first())
        };
        assert(join_slash(d3) == x + r2) by {
            if d3.len() == 1 {
                assert(x + r2 =~= x);
            }
        }
        let more = r2 + slashes;
        assert(rest =~= revision_tail(x, more));
        assert(ends_segment(more)) by {
            if r2.len() == 0 {
                assert(more =~= slashes);
            } else {
                assert(more[0] == r2[0]);
            }
        }
    }
}

/// Parse an Oryx URL into its layout id and, where the URL names a specific
/// revision, that revision id. Both are slices of `url`.
pub fn parse_url<'a>(url: &'a str) -> (res: Result<(&'a str, Option<&'a str>), OryxError>)
    ensures
        match res {
            Ok((layout, revision)) => spec_parse_url(url@) == Some((layout@, opt_str_view(revision))),
            Err(e) => spec_parse_url(url@) is None && e is InvalidUrl,
        },
{
    let prefix = "https://configure.zsa.io/";
    if !str_starts_with(url, prefix) {
        return Err(OryxError::InvalidUrl);
    }
    let n = url.unicode_len();
    let p = prefix.unicode_len();
    let ghost path = url@.skip(p as int);

    // Drop trailing slashes.
    let mut end: usize = n;
    while end > p && url.get_char(end - 1) == '/'
        invariant
            n == url@.len(),
            p <= end <= n,
            path == url@.subrange(p as int, n as int),
            trim_trailing_slashes(path) == trim_trailing_slashes(url@.subrange(p as int, end as int)),
        decreases end,
    {
        assert(url@.subrange(p as int, end as int).drop_last() =~= url@.subrange(p as int, end - 1));
        end = end - 1;
    }
    let ghost trimmed = url@.subrange(p as int, end as int);
    assert(trim_trailing_slashes(trimmed) == trimmed);

    // Split at every slash.
    let mut segs: Vec<&'a str> = Vec::new();
    let mut start: usize = p;
    let mut i: usize = p;
    assert(url@.subrange(p as int, p as int) =~= Seq::<char>::empty());
    assert(segs@.map_values(|x: &str| x@) + seq![url@.subrange(p as int, p as int)]
        =~= split_slash(url@.subrange(p as int, p as int)));
    while i < end
        invariant
            n == url@.len(),
            p <= start <= i <= end <= n,
            segs@.map_values(|x: &str| x@) + seq![url@.subrange(start as int, i as int)]
                == split_slash(url@.subrange(p as int, i as int)),
        decreases end - i,
    {
        let ghost before = url@.subrange(p as int, i as int);
        let ghost after = url@.subrange(p as int, i + 1);
        let ghost old_views = segs@.map_values(|x: &str| x@);
        assert(after.drop_last() =~= before);
        assert(after.last() == url@[i as int]);
        proof {
            lemma_split_slash_nonempty(before);
        }
        if url.get_char(i) == '/' {
            let seg = url.substring_char(start, i);
            segs.push(seg);
            assert(segs@.map_values(|x: &str| x@) =~= old_views.push(seg@));
            assert(split_slash(after) == split_slash(before).push(Seq::<char>::empty()));
            assert(url@.subrange(i + 1, i + 1) =~= Seq::<char>::empty());
            assert(segs@.map_values(|x: &str| x@) + seq![url@.subrange(i + 1, i + 1)]
                =~= split_slash(url@.subrange(p as int, i + 1)));
            start = i + 1;
        } else {
            assert(url@.subrange(start as int, i + 1) =~= url@.subrange(start as int, i as int).push(url@[i as int]));
            assert(segs@.map_values(|x: &str| x@) + seq![url@.subrange(start as int, i + 1)]
                =~= split_slash(url@.subrange(p as int, i + 1)));
        }
        i = i + 1;
    }
    let last = url.substring_char(start, end);
    segs.push(last);
    assert(segs@.map_values(|x: &str| x@) =~= split_slash(trimmed));
    assert(url_segments(url@) == split_slash(trimmed));
    assert(segs@.len() == segs@.map_values(|x: &str| x@).len());

    if segs.len() < 3 || !str_eq(segs[1], "layouts") {
        proof {
            if segs@.len() >= 3 {
                assert(segs@.map_values(|x: &str| x@)[1] == segs@[1]@);
            }
        }
        return Err(OryxError::InvalidUrl);
    }
    let layout_id = segs[2];
    let revision_id = if segs.len() == 3 {
        None
    } else if str_eq(segs[3], "latest") {
        None
    } else {
        Some(segs[3])
    };
    proof {
        assert(segs@.map_values(|x: &str| x@)[1] == segs@[1]@);
        assert(segs@.map_values(|x: &str| x@)[2] == segs@[2]@);
        if segs@.len() > 3 {
            assert(segs@.map_values(|x: &str| x@)[3] == segs@[3]@);
        }
    }
    Ok((layout_id, revision_id))
}


/// Where the first `/` of `s` stands; `s.len()` where there is none.
pub open spec fn first_slash(s: Seq<char>) -> int
    decreases s.len(),
{
    if s.len() == 0 {
        0
    } else if s[0] == '/' {
        0
    } else {
        1 + first_slash(s.drop_first())
    }
}

/// `first_slash` is the position of the first `/`, or the length where there is none.
pub proof fn lemma_first_slash(s: Seq<char>)
    ensures
        0 <= first_slash(s) <= s.len(),
        forall|j: int| 0 <= j < first_slash(s) ==> s[j] != '/',
        first_slash(s) < s.len() ==> s[first_slash(s)] == '/',
    decreases s.len(),
{
    if s.len() > 0 && s[0] != '/' {
        lemma_first_slash(s.drop_first());
        assert forall|j: int| 0 <= j < first_slash(s) implies s[j] != '/' by {
            if j > 0 {
                assert(s[j] == s.drop_first()[j - 1]);
            }
        }
        if first_slash(s) < s.len() {
            assert(s[first_slash(s)] == s.drop_first()[first_slash(s) - 1]);
        }
    }
}

/// The layout and revision ids that an Oryx-built firmware reports as its USB
/// serial number, `layoutId/revisionId`: split at the first `/`, both parts
/// non-empty. `None` for firmware that was not built by Oryx.
pub open spec fn spec_parse_serial(serial: Seq<char>) -> Option<(Seq<char>, Seq<char>)> {
    let i = first_slash(serial);
    if i < serial.len() && 0 < i && i + 1 < serial.len() {
        Some((serial.take(i), serial.skip(i + 1)))
    } else {
        None
    }
}

/// Read the layout and revision ids out of a keyboard's USB serial number.
pub fn parse_serial<'a>(serial: &'a str) -> (r: Option<(&'a str, &'a str)>)
    ensures
        match r {
            Some((layout, revision)) => spec_parse_serial(serial@) == Some((layout@, revision@)),
            None => spec_parse_serial(serial@) is None,
        },
{
    let n = serial.unicode_len();
    let mut i: usize = 0;
    proof {
        lemma_first_slash(serial@);
    }
    while i < n && serial.get_char(i) != '/'
        invariant
            n == serial@.len(),
            i <= n,
            i <= first_slash(serial@),
            0 <= first_slash(serial@) <= serial@.len(),
            forall|j: int| 0 <= j < first_slash(serial@) ==> serial@[j] != '/',
            first_slash(serial@) < serial@.len() ==> serial@[first_slash(serial@)] == '/',
        decreases n - i,
    {
        i = i + 1;
    }
    assert(i == first_slash(serial@));
    if i < n && 0 < i && i + 1 < n {
        let layout = serial.substring_char(0, i);
        let revision = serial.substring_char(i + 1, n);
        assert(layout@ =~= serial@.take(i as int));
        assert(revision@ =~= serial@.skip(i + 1));
        Some((layout, revision))
    } else {
        None
    }
}

/// A serial made of a non-empty layout id without slashes, a slash and a
/// non-empty revision id gives both ids back.
pub proof fn law_parse_serial_round_trip(layout: Seq<char>, revision: Seq<char>)
    requires
        layout.len() > 0,
        slash_free(layout),
        revision.len() > 0,
    ensures
        spec_parse_serial(layout + seq!['/'] + revision) == Some((layout, revision)),
{
    let s = layout + seq!['/'] + revision;
    lemma_first_slash(s);
    let i = first_slash(s);
    if i < layout.len() {
        assert(s[i] == layout[i]);
        assert(layout.contains('/'));
    }
    if i > layout.len() {
        assert(s[layout.len() as int] == '/');
    }
    assert(i == layout.len());
    assert(s.take(i) =~= layout);
    assert(s.skip(i + 1) =~= revision);
}

/// The address of the Oryx service that answers with the latest revision of a layout.
pub open spec fn spec_latest_revision_url(layout_id: Seq<char>) -> Seq<char> {
    "https://oryx.zsa.io/firmware/latest/"@ + layout_id
}

/// The address of the Oryx service that answers with the latest revision of a layout.
pub fn latest_revision_url(layout_id: &str) -> (r: String)
    ensures
        r@ == spec_latest_revision_url(layout_id@),
{
    let mut url = String::from_str("https://oryx.zsa.io/firmware/latest/");
    url.append(layout_id);
    url
}

/// The download address of the firmware of a revision; `alt` asks for the
/// build for the alternate board revision.
pub open spec fn spec_firmware_url(revision_id: Seq<char>, alt: bool) -> Seq<char> {
    "https://oryx.zsa.io/firmware/"@ + revision_id + if alt {
        "?alt=true"@
    } else {
        Seq::<char>::empty()
    }
}

/// The download address of the firmware of a revision.
pub fn firmware_url(revision_id: &str, alt: bool) -> (r: String)
    ensures
        r@ == spec_firmware_url(revision_id@, alt),
{
    let mut url = String::from_str("https://oryx.zsa.io/firmware/");
    url.append(revision_id);
    if alt {
        url.append("?alt=true");
    }
    proof {
        if !alt {
            assert(url@ =~= spec_firmware_url(revision_id@, alt));
        }
    }
    url
}

/// The lookup address carries the layout id verbatim: it is the fixed
/// service address followed by exactly the characters of the id, so two
/// different ids never share a lookup address.
pub proof fn law_latest_revision_url_carries_id(layout_id: Seq<char>, other_id: Seq<char>)
    ensures
        spec_latest_revision_url(layout_id).len() == "https://oryx.zsa.io/firmware/latest/"@.len() + layout_id.len(),
        spec_latest_revision_url(layout_id).take("https://oryx.zsa.io/firmware/latest/"@.len() as int)
            == "https://oryx.zsa.io/firmware/latest/"@,
        spec_latest_revision_url(layout_id).skip("https://oryx.zsa.io/firmware/latest/"@.len() as int) == layout_id,
        spec_latest_revision_url(layout_id) == spec_latest_revision_url(other_id) ==> layout_id == other_id,
{
    let p = "https://oryx.zsa.io/firmware/latest/"@;
    assert((p + layout_id).take(p.len() as int) =~= p);
    assert((p + layout_id).skip(p.len() as int) =~= layout_id);
    assert((p + other_id).skip(p.len() as int) =~= other_id);
}

/// The download address holds the whole revision id: the fixed service
/// address, then exactly the characters of the revision, then `?alt=true`
/// for the alternate board or nothing; so different revisions never share a
/// download address.
pub proof fn law_firmware_url_carries_revision(revision_id: Seq<char>, other_id: Seq<char>, alt: bool)
    ensures
        ({
            let p = "https://oryx.zsa.io/firmware/"@;
            let q = if alt { "?alt=true"@ } else { Seq::<char>::empty() };
            let u = spec_firmware_url(revision_id, alt);
            &&& u.len() == p.len() + revision_id.len() + q.len()
            &&& u.take(p.len() as int) == p
            &&& u.subrange(p.len() as int, (p.len() + revision_id.len()) as int) == revision_id
            &&& u.skip((p.len() + revision_id.len()) as int) == q
        }),
        spec_firmware_url(revision_id, alt) == spec_firmware_url(other_id, alt) ==> revision_id == other_id,
{
    let p = "https://oryx.zsa.io/firmware/"@;
    let q = if alt { "?alt=true"@ } else { Seq::<char>::empty() };
    let u = p + revision_id + q;
    assert(spec_firmware_url(revision_id, alt) == u);
    assert(u.take(p.len() as int) =~= p);
    assert(u.subrange(p.len() as int, (p.len() + revision_id.len()) as int) =~= revision_id);
    assert(u.skip((p.len() + revision_id.len()) as int) =~= q);
    let v = p + other_id + q;
    assert(spec_firmware_url(other_id, alt) == v);
    if u == v {
        assert(u.len() == v.len());
        assert(revision_id =~= u.subrange(p.len() as int, (p.len() + revision_id.len()) as int));
        assert(other_id =~= v.subrange(p.len() as int, (p.len() + other_id.len()) as int));
    }
}

/// What a check for a newer layout revision found.
pub enum UpdateCheck {
    /// The keyboard runs the latest revision.
    UpToDate,
    /// A newer revision exists; its firmware is downloaded from `download_url`.
    Available { download_url: String },
}

/// Compare the revision a keyboard runs with the latest one; where they
/// differ, name the download of the latest firmware, for the Moonlander rev B
/// board where the keyboard is one.
pub fn check_update(current_revision: &str, latest_revision: &str, keyboard_pid: u16) -> (r: UpdateCheck)
    ensures
        match r {
            UpdateCheck::UpToDate => current_revision@ == latest_revision@,
            UpdateCheck::Available { download_url } => {
                &&& current_revision@ != latest_revision@
                &&& download_url@ == spec_firmware_url(latest_revision@, keyboard_pid == crate::ids::MOONLANDER_REVB_PID)
            },
        },
{
    if str_eq(current_revision, latest_revision) {
        UpdateCheck::UpToDate
    } else {
        let alt = crate::ids::is_moonlander_revb(keyboard_pid);
        UpdateCheck::Available { download_url: firmware_url(latest_revision, alt) }
    }
}

/// How the revision of a layout is found.
pub enum RevisionLookup {
    /// The revision is already known.
    Known(String),
    /// The latest revision is asked of the Oryx service at `url`.
    FetchLatest { url: String },
}

/// Decide how to find the revision of a layout: a revision that is already
/// given is used as it is; otherwise the latest one is asked of Oryx.
pub fn revision_lookup(layout_id: &str, revision_id: Option<&str>) -> (r: RevisionLookup)
    ensures
        match revision_id {
            Some(rev) => r matches RevisionLookup::Known(s) && s@ == rev@,
            None => r matches RevisionLookup::FetchLatest { url } && url@ == spec_latest_revision_url(layout_id@),
        },
{
    match revision_id {
        Some(rev) => RevisionLookup::Known(String::from_str(rev)),
        None => RevisionLookup::FetchLatest { url: latest_revision_url(layout_id) },
    }
}

} // verus!
