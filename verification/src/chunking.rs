//! Parsing a segmentation response into chunks.
//!
//! The remote model is asked to separate logical sections of a markdown
//! document with a literal `---` line. This module turns the free-text
//! response content into an ordered chunk list: split on `---`, trim each
//! piece, drop the pieces that are empty after trimming, and — when nothing
//! survives — fall back to a single chunk holding the entire un-split
//! response content.

use vstd::prelude::*;
use vstd::string::*;

verus! {

/// A character removed by trimming: the whitespace characters recognised by
/// `str::trim`.
pub open spec fn is_ws(c: char) -> bool {
    c == ' ' || c == '\t' || c == '\n' || c == '\u{000B}' || c == '\u{000C}' || c == '\r'
        || c == '\u{0085}' || c == '\u{00A0}' || c == '\u{1680}' || c == '\u{2000}'
        || c == '\u{2001}' || c == '\u{2002}' || c == '\u{2003}' || c == '\u{2004}'
        || c == '\u{2005}' || c == '\u{2006}' || c == '\u{2007}' || c == '\u{2008}'
        || c == '\u{2009}' || c == '\u{200A}' || c == '\u{2028}' || c == '\u{2029}'
        || c == '\u{202F}' || c == '\u{205F}' || c == '\u{3000}'
}

fn is_ws_char(c: char) -> (r: bool)
    ensures
        r == is_ws(c),
{
    c == ' ' || c == '\t' || c == '\n' || c == '\u{000B}' || c == '\u{000C}' || c == '\r'
        || c == '\u{0085}' || c == '\u{00A0}' || c == '\u{1680}' || c == '\u{2000}'
        || c == '\u{2001}' || c == '\u{2002}' || c == '\u{2003}' || c == '\u{2004}'
        || c == '\u{2005}' || c == '\u{2006}' || c == '\u{2007}' || c == '\u{2008}'
        || c == '\u{2009}' || c == '\u{200A}' || c == '\u{2028}' || c == '\u{2029}'
        || c == '\u{202F}' || c == '\u{205F}' || c == '\u{3000}'
}

/// `s` without its leading whitespace.
pub open spec fn trim_start(s: Seq<char>) -> Seq<char>
    decreases s.len(),
{
    if s.len() > 0 && is_ws(s[0]) {
        trim_start(s.skip(1))
    } else {
        s
    }
}

/// `s` without its trailing whitespace.
pub open spec fn trim_end(s: Seq<char>) -> Seq<char>
    decreases s.len(),
{
    if s.len() > 0 && is_ws(s[s.len() - 1]) {
        trim_end(s.take(s.len() - 1))
    } else {
        s
    }
}

/// `s` without leading and trailing whitespace.
pub open spec fn trimmed(s: Seq<char>) -> Seq<char> {
    trim_end(trim_start(s))
}

/// The characters of `s` as a vector, in order.
fn chars_vec(s: &str) -> (r: Vec<char>)
    ensures
        r@ == s@,
{
    let n: usize = s.unicode_len();
    let mut r: Vec<char> = Vec::new();
    let mut i: usize = 0;
    while i < n
        invariant
            n == s@.len(),
            i <= n,
            r@ == s@.take(i as int),
        decreases n - i,
    {
        let c: char = s.get_char(i);
        r.push(c);
        proof {
            assert(s@.take(i as int).push(s@[i as int]) =~= s@.take(i as int + 1));
        }
        i = i + 1;
    }
    proof {
        assert(s@.take(n as int) =~= s@);
    }
    r
}

/// Remove leading and trailing whitespace from `s`.
pub fn trim_str(s: &str) -> (r: String)
    ensures
        r@ == trimmed(s@),
{
    let cs: Vec<char> = chars_vec(s);
    let n: usize = cs.len();
    proof {
        assert(s@.skip(0) =~= s@);
    }
    let mut ts: usize = 0;
    while ts < n && is_ws_char(cs[ts])
        invariant
            cs@ == s@,
            n == s@.len(),
            ts <= n,
            trim_start(s@) == trim_start(s@.skip(ts as int)),
        decreases n - ts,
    {
        proof {
            assert(s@.skip(ts as int)[0] == s@[ts as int]);
            assert(s@.skip(ts as int).skip(1) =~= s@.skip(ts as int + 1));
        }
        ts = ts + 1;
    }
    proof {
        if ts < n {
            assert(s@.skip(ts as int)[0] == s@[ts as int]);
        }
        assert(trim_start(s@) == s@.skip(ts as int));
    }
    proof {
        assert(s@.subrange(ts as int, n as int) =~= s@.skip(ts as int));
    }
    let mut te: usize = n;
    while te > ts && is_ws_char(cs[te - 1])
        invariant
            cs@ == s@,
            n == s@.len(),
            ts <= te <= n,
            trim_start(s@) == s@.skip(ts as int),
            trim_end(s@.skip(ts as int)) == trim_end(s@.subrange(ts as int, te as int)),
        decreases te,
    {
        proof {
            let sub = s@.subrange(ts as int, te as int);
            assert(sub[sub.len() - 1] == s@[te as int - 1]);
            assert(sub.take(sub.len() - 1) =~= s@.subrange(ts as int, te as int - 1));
        }
        te = te - 1;
    }
    proof {
        assert(s@.subrange(ts as int, n as int) =~= s@.skip(ts as int));
        let sub = s@.subrange(ts as int, te as int);
        if te > ts {
            assert(sub[sub.len() - 1] == s@[te as int - 1]);
        }
        assert(trim_end(sub) == sub);
    }
    let piece: &str = s.substring_char(ts, te);
    piece.to_owned()
}

/// An occurrence of the `---` section delimiter starts at position 0 of `s`.
pub open spec fn delim_at_front(s: Seq<char>) -> bool {
    s.len() >= 3 && s[0] == '-' && s[1] == '-' && s[2] == '-'
}

/// The pieces of `s` between non-overlapping occurrences of `---`, scanned
/// left to right and taking the earliest occurrence first. There is always at
/// least one piece; a delimiter at either end contributes an empty piece.
pub open spec fn split_sections(s: Seq<char>) -> Seq<Seq<char>>
    decreases s.len(),
{
    if delim_at_front(s) {
        seq![Seq::<char>::empty()] + split_sections(s.skip(3))
    } else if s.len() == 0 {
        seq![Seq::<char>::empty()]
    } else {
        let rest = split_sections(s.skip(1));
        seq![seq![s[0]] + rest[0]] + rest.skip(1)
    }
}

pub proof fn lemma_split_sections_nonempty(s: Seq<char>)
    ensures
        split_sections(s).len() >= 1,
    decreases s.len(),
{
    if delim_at_front(s) {
        lemma_split_sections_nonempty(s.skip(3));
    } else if s.len() == 0 {
    } else {
        lemma_split_sections_nonempty(s.skip(1));
    }
}

/// The views of a vector of strings, in order.
pub open spec fn views_of(v: Seq<String>) -> Seq<Seq<char>> {
    v.map_values(|s: String| s@)
}

/// `ps` with `prefix` prepended to its first element; used to describe a
/// partially scanned piece during splitting.
spec fn graft(prefix: Seq<char>, ps: Seq<Seq<char>>) -> Seq<Seq<char>>
    recommends
        ps.len() >= 1,
{
    seq![prefix + ps[0]] + ps.skip(1)
}

/// Split `s` on every occurrence of `---`.
fn split_pieces(s: &str) -> (pieces: Vec<String>)
    ensures
        views_of(pieces@) == split_sections(s@),
{
    let cs: Vec<char> = chars_vec(s);
    let n: usize = cs.len();
    let mut pieces: Vec<String> = Vec::new();
    proof {
        lemma_split_sections_nonempty(s@);
        assert(s@.skip(0) =~= s@);
        assert(s@.subrange(0, 0) + split_sections(s@)[0] =~= split_sections(s@)[0]);
        assert(split_sections(s@) =~= seq![split_sections(s@)[0]] + split_sections(s@).skip(1));
        assert(views_of(pieces@) + graft(s@.subrange(0, 0), split_sections(s@)) =~= split_sections(
            s@,
        ));
    }
    let mut start: usize = 0;
    let mut i: usize = 0;
    while i < n
        invariant
            cs@ == s@,
            n == s@.len(),
            start <= i <= n,
            split_sections(s@) == views_of(pieces@) + graft(
                s@.subrange(start as int, i as int),
                split_sections(s@.skip(i as int)),
            ),
        decreases n - i,
    {
        let ghost pre = s@.subrange(start as int, i as int);
        let ghost tail = s@.skip(i as int);
        proof {
            lemma_split_sections_nonempty(tail);
            assert(forall|k: int| 0 <= k < tail.len() ==> tail[k] == s@[i as int + k]);
        }
        if n - i >= 3 && cs[i] == '-' && cs[i + 1] == '-' && cs[i + 2] == '-' {
            let piece: &str = s.substring_char(start, i);
            let ghost old_pieces = pieces@;
            pieces.push(piece.to_owned());
            proof {
                assert(delim_at_front(tail));
                let after = s@.skip(i as int + 3);
                assert(tail.skip(3) =~= after);
                lemma_split_sections_nonempty(after);
                // one unfolding of the definition at `tail`
                assert(split_sections(tail) == seq![Seq::<char>::empty()] + split_sections(after));
                assert(split_sections(tail)[0] =~= Seq::<char>::empty());
                assert(pre + split_sections(tail)[0] =~= pre);
                assert(split_sections(tail).skip(1) =~= split_sections(after));
                assert(views_of(pieces@) =~= views_of(old_pieces).push(pre));
                assert(s@.subrange(i as int + 3, i as int + 3) + split_sections(after)[0] =~= split_sections(after)[0]);
                assert(graft(s@.subrange(i as int + 3, i as int + 3), split_sections(after))
                    =~= seq![split_sections(after)[0]] + split_sections(after).skip(1));
                assert(seq![split_sections(after)[0]] + split_sections(after).skip(1) =~= split_sections(after));
                assert(views_of(old_pieces) + graft(pre, split_sections(tail)) =~= views_of(
                    pieces@,
                ) + graft(s@.subrange(i as int + 3, i as int + 3), split_sections(after)));
            }
            start = i + 3;
            i = i + 3;
        } else {
            proof {
                assert(!delim_at_front(tail));
                assert(tail.len() > 0);
                let after = s@.skip(i as int + 1);
                assert(tail.skip(1) =~= after);
                lemma_split_sections_nonempty(after);
                let rest = split_sections(after);
                assert(split_sections(tail) == seq![seq![tail[0]] + rest[0]] + rest.skip(1));
                assert(tail[0] == s@[i as int]);
                assert(pre + (seq![s@[i as int]] + rest[0]) =~= s@.subrange(
                    start as int,
                    i as int + 1,
                ) + rest[0]);
                assert(graft(pre, split_sections(tail)) =~= graft(
                    s@.subrange(start as int, i as int + 1),
                    rest,
                ));
            }
            i = i + 1;
        }
    }
    let piece: &str = s.substring_char(start, n);
    let ghost old_pieces = pieces@;
    pieces.push(piece.to_owned());
    proof {
        let ghost tail = s@.skip(n as int);
        assert(tail =~= Seq::<char>::empty());
        assert(split_sections(tail) == seq![Seq::<char>::empty()]);
        let ghost pre = s@.subrange(start as int, n as int);
        assert(pre + split_sections(tail)[0] =~= pre);
        assert(split_sections(tail).skip(1) =~= Seq::<Seq<char>>::empty());
        assert(graft(pre, split_sections(tail)) =~= seq![pre]);
        assert(views_of(pieces@) =~= views_of(old_pieces).push(pre));
        assert(views_of(old_pieces) + graft(pre, split_sections(tail)) =~= views_of(pieces@));
    }
    pieces
}

/// The pieces that are non-empty, in order.
pub open spec fn keep_nonempty(ps: Seq<Seq<char>>) -> Seq<Seq<char>> {
    ps.filter(|p: Seq<char>| p.len() > 0)
}

/// The trimmed `---`-delimited sections of a segmentation response that are
/// non-empty after trimming, in response order.
pub open spec fn sections_of(content: Seq<char>) -> Seq<Seq<char>> {
    keep_nonempty(split_sections(content).map_values(|p: Seq<char>| trimmed(p)))
}

/// The chunk list produced from a segmentation response: its non-empty
/// trimmed sections or, when there are none, the entire un-split response
/// content as a single degenerate chunk.
pub open spec fn chunks_of(content: Seq<char>) -> Seq<Seq<char>> {
    if sections_of(content).len() > 0 {
        sections_of(content)
    } else {
        seq![content]
    }
}

/// Split the response content on `---`, trim every piece, keep the non-empty
/// pieces, and fall back to the whole content when none is left.
pub fn parse_chunks(content: &str) -> (chunks: Vec<String>)
    ensures
        views_of(chunks@) == chunks_of(content@),
        chunks@.len() >= 1,
{
    let pieces: Vec<String> = split_pieces(content);
    let ghost mapped = split_sections(content@).map_values(|p: Seq<char>| trimmed(p));
    let mut kept: Vec<String> = Vec::new();
    proof {
        assert(mapped.take(0) =~= Seq::<Seq<char>>::empty());
        assert(keep_nonempty(mapped.take(0)) =~= Seq::<Seq<char>>::empty());
        assert(views_of(kept@) =~= Seq::<Seq<char>>::empty());
    }
    let mut k: usize = 0;
    while k < pieces.len()
        invariant
            views_of(pieces@) == split_sections(content@),
            mapped == split_sections(content@).map_values(|p: Seq<char>| trimmed(p)),
            k <= pieces@.len(),
            views_of(kept@) == keep_nonempty(mapped.take(k as int)),
        decreases pieces@.len() - k,
    {
        let t: String = trim_str(pieces[k].as_str());
        proof {
            assert(views_of(pieces@)[k as int] == pieces@[k as int]@);
            assert(mapped[k as int] == trimmed(split_sections(content@)[k as int]));
            assert(t@ == mapped[k as int]);
            assert(mapped.take(k as int + 1).drop_last() =~= mapped.take(k as int));
            assert(mapped.take(k as int + 1).last() == mapped[k as int]);
        }
        let ghost old_kept = kept@;
        if !t.as_str().is_empty() {
            kept.push(t);
            proof {
                reveal(Seq::filter);
                assert(views_of(kept@) =~= views_of(old_kept).push(mapped[k as int]));
                assert(keep_nonempty(mapped.take(k as int + 1)) == keep_nonempty(
                    mapped.take(k as int),
                ).push(mapped[k as int]));
            }
        } else {
            proof {
                reveal(Seq::filter);
                assert(keep_nonempty(mapped.take(k as int + 1)) == keep_nonempty(
                    mapped.take(k as int),
                ));
            }
        }
        k = k + 1;
    }
    proof {
        assert(mapped.take(pieces@.len() as int) =~= mapped);
        assert(views_of(kept@) == sections_of(content@));
    }
    if kept.len() == 0 {
        let mut fallback: Vec<String> = Vec::new();
        fallback.push(content.to_owned());
        proof {
            assert(sections_of(content@).len() == 0);
            assert(views_of(fallback@) =~= seq![content@]);
        }
        fallback
    } else {
        kept
    }
}

/// When the response has at least one section that is non-empty after
/// trimming, the chunk list is exactly those sections: as many chunks as
/// such sections, each non-empty, in response order.
pub proof fn lemma_chunks_are_nonempty_sections(content: Seq<char>)
    ensures
        sections_of(content).len() >= 1 ==> chunks_of(content) == sections_of(content),
        chunks_of(content).len() >= 1,
        forall|i: int|
            0 <= i < sections_of(content).len() ==> #[trigger] sections_of(content)[i].len() > 0,
{
    broadcast use vstd::seq_lib::group_filter_ensures;

    let m = split_sections(content).map_values(|p: Seq<char>| trimmed(p));
    assert forall|i: int| 0 <= i < sections_of(content).len() implies #[trigger] sections_of(
        content,
    )[i].len() > 0 by {
        m.lemma_filter_pred(|p: Seq<char>| p.len() > 0, i);
    }
}

/// When no section of the response is non-empty after trimming, the chunk
/// list is a single chunk holding the entire un-split response content.
pub proof fn lemma_degenerate_fallback(content: Seq<char>)
    ensures
        sections_of(content).len() == 0 ==> chunks_of(content) == seq![content] && chunks_of(
            content,
        ).len() == 1,
{
}

/// For content that carries no surrounding whitespace, the degenerate chunk
/// equals the full trimmed response content. (With surrounding whitespace
/// the degenerate chunk keeps it, since the content is wrapped un-split.)
pub proof fn lemma_degenerate_chunk_is_trimmed_content(content: Seq<char>)
    requires
        trimmed(content) == content,
    ensures
        sections_of(content).len() == 0 ==> chunks_of(content) == seq![trimmed(content)]
            && chunks_of(content).len() == 1,
{
}

} // verus!
