//! Fixed-width text layout: pads or truncates text to an exact
//! terminal-column width, aware of display widths, word boundaries
//! and grapheme clusters.

use vstd::prelude::*;

use unicode_segmentation::UnicodeSegmentation;
use unicode_width::UnicodeWidthStr;

verus! {

use crate::strutil::{str_views, str_to_owned, push_char};

/// What `unicode_width::UnicodeWidthStr::width` answers: the number
/// of terminal columns a string occupies, a function of its
/// characters alone.
pub uninterp spec fn str_display_width(s: Seq<char>) -> nat;

/// The words `unicode_segmentation::UnicodeSegmentation::unicode_words`
/// finds in a string: a function of its characters alone.
pub uninterp spec fn words_of(s: Seq<char>) -> Seq<Seq<char>>;

/// The extended grapheme clusters of a string, in order: a function
/// of its characters alone.
pub uninterp spec fn graphemes_of(s: Seq<char>) -> Seq<Seq<char>>;

/// Relies on `unicode_width::UnicodeWidthStr::width`: the display
/// width of `s`; an empty string occupies no columns.
#[verifier::external_body]
pub fn display_width(s: &str) -> (r: usize)
    ensures
        r == str_display_width(s@),
        s@.len() == 0 ==> r == 0,
{
    UnicodeWidthStr::width(s)
}

/// Relies on `String::push` and the width rules of `unicode_width`:
/// an ASCII space occupies one column and joins no wider sequence, so
/// appending one adds exactly one column.
#[verifier::external_body]
pub fn push_space(s: &mut String)
    ensures
        final(s)@ == old(s)@ + seq![' '],
        str_display_width(final(s)@) == str_display_width(old(s)@) + 1,
{
    s.push(' ');
}

/// Relies on `String::push` and the width rules of `unicode_width`:
/// the horizontal ellipsis is East Asian Ambiguous and counts one
/// column, and joins no wider sequence, so appending one adds exactly
/// one column.
#[verifier::external_body]
pub fn push_ellipsis(s: &mut String)
    ensures
        final(s)@ == old(s)@ + seq!['\u{2026}'],
        str_display_width(final(s)@) == str_display_width(old(s)@) + 1,
{
    s.push('\u{2026}');
}

/// Relies on `unicode_segmentation`'s `unicode_words`: the words of
/// `s`, in order.
#[verifier::external_body]
pub fn unicode_words(s: &str) -> (r: Vec<String>)
    ensures
        str_views(r@) == words_of(s@),
{
    s.unicode_words().map(|w| w.to_string()).collect()
}

/// Relies on `unicode_segmentation`'s `graphemes`: the extended
/// grapheme clusters of `s`, in order; their concatenation is `s`
/// itself.
#[verifier::external_body]
pub fn graphemes(s: &str) -> (r: Vec<String>)
    ensures
        str_views(r@) == graphemes_of(s@),
        str_views(r@).flatten() == s@,
{
    s.graphemes(true).map(|g| g.to_string()).collect()
}

/// `n` spaces.
pub open spec fn spaces(n: int) -> Seq<char> {
    Seq::new(n as nat, |i: int| ' ')
}

/// Greedy word accumulation: keep appending the next word and one
/// space while the text together with that word still fits the
/// target width.
pub open spec fn greedy_words(words: Seq<Seq<char>>, acc: Seq<char>, w: int) -> Seq<char>
    decreases words.len(),
{
    if words.len() == 0 {
        acc
    } else if str_display_width(acc + words[0]) > w {
        acc
    } else {
        greedy_words(words.skip(1), acc + words[0] + seq![' '], w)
    }
}

/// The greedily accumulated words of `s`, or the first word in full
/// where not even one word fits.
pub open spec fn greedy_result(s: Seq<char>, w: int) -> Seq<char> {
    let g = greedy_words(words_of(s), Seq::empty(), w);
    if g.len() == 0 && words_of(s).len() > 0 {
        words_of(s)[0]
    } else {
        g
    }
}

/// Greedy cluster accumulation: keep appending the next grapheme
/// cluster while the text stays within the limit.
pub open spec fn grapheme_prefix(gs: Seq<Seq<char>>, acc: Seq<char>, limit: int) -> Seq<char>
    decreases gs.len(),
{
    if gs.len() == 0 {
        acc
    } else if str_display_width(acc + gs[0]) > limit {
        acc
    } else {
        grapheme_prefix(gs.skip(1), acc + gs[0], limit)
    }
}

/// The text `adjust_string` returns for `s` and target width `w`:
/// unchanged where it already fits exactly; padded with spaces where
/// it is narrower; else words are accumulated greedily, and what
/// still overflows is cut at cluster boundaries to leave room for an
/// ellipsis, then padded to the exact width.
pub open spec fn spec_adjust(s: Seq<char>, w: int) -> Seq<char> {
    let actual = str_display_width(s);
    if actual == w {
        s
    } else if actual < w {
        s + spaces(w - actual)
    } else {
        let g = greedy_result(s, w);
        let gw = str_display_width(g);
        if gw > w {
            let t = grapheme_prefix(graphemes_of(g), Seq::empty(), w - 1) + seq!['\u{2026}'];
            t + spaces(w - str_display_width(t))
        } else {
            g + spaces(w - gw)
        }
    }
}

/// Pads `s` with spaces up to the target width; `cur` is `s`'s width.
fn pad_to(s: &mut String, cur: usize, len: usize) -> (r: usize)
    requires
        cur == str_display_width(old(s)@),
        cur <= len,
    ensures
        final(s)@ == old(s)@ + spaces(len - cur),
        str_display_width(final(s)@) == len,
        r == len,
{
    let ghost s0 = s@;
    let mut width: usize = cur;
    proof {
        assert(s@ =~= s0 + spaces(0));
    }
    while width < len
        invariant
            cur <= width <= len,
            width == str_display_width(s@),
            s@ == s0 + spaces(width - cur),
        decreases len - width,
    {
        push_space(s);
        width += 1;
        proof {
            assert(s0 + spaces(width - 1 - cur) + seq![' '] =~= s0 + spaces(width - cur));
        }
    }
    width
}

/// Lays `text` out in exactly `len` terminal columns: returned
/// unchanged where it already fits exactly, padded with spaces where
/// it is narrower, else cut down word- and cluster-aware with a
/// trailing ellipsis. The result always occupies exactly `len`
/// columns.
pub fn adjust_string(text: &str, len: usize) -> (r: String)
    requires
        1 <= len,
    ensures
        r@ == spec_adjust(text@, len as int),
        str_display_width(r@) == len,
{
    let actual = display_width(text);
    if actual == len {
        return str_to_owned(text);
    }
    if actual < len {
        let mut result = str_to_owned(text);
        pad_to(&mut result, actual, len);
        return result;
    }
    // the text overflows: accumulate whole words greedily
    let words = unicode_words(text);
    let ghost wv = str_views(words@);
    let mut result = String::new();
    let ghost target = greedy_words(wv, Seq::empty(), len as int);
    let mut i: usize = 0;
    proof {
        assert(wv.skip(0) =~= wv);
    }
    loop
        invariant
            i <= words@.len(),
            wv == str_views(words@),
            greedy_words(wv.skip(i as int), result@, len as int) == target,
        ensures
            result@ == target,
        decreases words@.len() - i,
    {
        if i >= words.len() {
            proof {
                assert(wv.skip(i as int).len() == 0);
            }
            break ;
        }
        let ghost suffix = wv.skip(i as int);
        proof {
            assert(suffix[0] == wv[i as int]);
            assert(suffix.skip(1) =~= wv.skip(i + 1));
        }
        let candidate = result.clone().concat(words[i].as_str());
        let cw = display_width(candidate.as_str());
        if cw > len {
            break ;
        }
        let ghost acc0 = result@;
        result = candidate;
        push_space(&mut result);
        proof {
            assert(result@ =~= acc0 + wv[i as int] + seq![' ']);
        }
        i += 1;
    }
    // where not even one word fit, fall back to the first word whole
    if result.as_str().unicode_len() == 0 && words.len() > 0 {
        result = str_to_owned(words[0].as_str());
        proof {
            assert(str_views(words@)[0] == words@[0]@);
        }
    }
    let ghost g = greedy_result(text@, len as int);
    proof {
        assert(result@ == g);
    }
    let gw = display_width(result.as_str());
    if gw > len {
        // cut at cluster boundaries, leaving one column for the ellipsis
        let gs = graphemes(result.as_str());
        let ghost gv = str_views(gs@);
        let mut t = String::new();
        let empty_probe = String::new();
        let zero = display_width(empty_probe.as_str());
        let mut tw: usize = zero;
        let ghost tt = grapheme_prefix(gv, Seq::empty(), len as int - 1);
        let mut k: usize = 0;
        proof {
            assert(gv.skip(0) =~= gv);
        }
        loop
            invariant
                k <= gs@.len(),
                gv == str_views(gs@),
                1 <= len,
                tw == str_display_width(t@),
                tw <= len - 1,
                grapheme_prefix(gv.skip(k as int), t@, len as int - 1) == tt,
            ensures
                t@ == tt,
                tw == str_display_width(t@),
                tw <= len - 1,
            decreases gs@.len() - k,
        {
            if k >= gs.len() {
                proof {
                    assert(gv.skip(k as int).len() == 0);
                }
                break ;
            }
            let ghost suffix = gv.skip(k as int);
            proof {
                assert(suffix[0] == gv[k as int]);
                assert(suffix.skip(1) =~= gv.skip(k + 1));
            }
            let candidate = t.clone().concat(gs[k].as_str());
            let cw = display_width(candidate.as_str());
            if cw > len - 1 {
                break ;
            }
            t = candidate;
            tw = cw;
            k += 1;
        }
        push_ellipsis(&mut t);
        let tw2 = tw + 1;
        pad_to(&mut t, tw2, len);
        proof {
            assert(t@ == (tt + seq!['\u{2026}']) + spaces(
                len as int - str_display_width(tt + seq!['\u{2026}']),
            ));
        }
        t
    } else {
        pad_to(&mut result, gw, len);
        result
    }
}

/// A text that already occupies the target width comes back
/// unchanged, so laying it out twice is the same as laying it out
/// once.
pub proof fn lemma_adjust_identity(s: Seq<char>, w: int)
    requires
        1 <= w,
        str_display_width(s) == w,
    ensures
        spec_adjust(s, w) == s,
        spec_adjust(spec_adjust(s, w), w) == spec_adjust(s, w),
{
}


/// Greedy cluster accumulation keeps clusters whole: what it returns
/// is the starting text followed by some number of the leading
/// clusters, each complete.
pub proof fn lemma_grapheme_prefix_whole(gs: Seq<Seq<char>>, acc: Seq<char>, limit: int)
    ensures
        exists|k: int|
            0 <= k <= gs.len() && grapheme_prefix(gs, acc, limit) == acc + #[trigger] gs.take(
                k,
            ).flatten(),
    decreases gs.len(),
{
    if gs.len() == 0 || str_display_width(acc + gs[0]) > limit {
        let k: int = 0;
        assert(gs.take(0).flatten() =~= Seq::<char>::empty());
        assert(acc + gs.take(0).flatten() =~= acc);
        assert(grapheme_prefix(gs, acc, limit) == acc + gs.take(k).flatten());
    } else {
        lemma_grapheme_prefix_whole(gs.skip(1), acc + gs[0], limit);
        let k2 = choose|k2: int|
            0 <= k2 <= gs.skip(1).len() && grapheme_prefix(gs.skip(1), acc + gs[0], limit) == (acc
                + gs[0]) + #[trigger] gs.skip(1).take(k2).flatten();
        let k = k2 + 1;
        assert(gs.take(k).drop_first() =~= gs.skip(1).take(k2));
        assert(gs.take(k).first() == gs[0]);
        assert(gs.take(k).flatten() == gs[0] + gs.skip(1).take(k2).flatten());
        assert((acc + gs[0]) + gs.skip(1).take(k2).flatten() =~= acc + (gs[0] + gs.skip(1).take(
            k2,
        ).flatten()));
        assert(grapheme_prefix(gs, acc, limit) == acc + gs.take(k).flatten());
    }
}

/// Where the text overflows and even the greedily kept words still
/// overflow, the layout cuts at cluster boundaries only: the result
/// is some number of the leading clusters of the kept text, whole,
/// the ellipsis right after them, and spaces up to the exact width.
pub proof fn lemma_adjust_truncation_shape(s: Seq<char>, w: int)
    requires
        1 <= w,
        str_display_width(s) > w,
        str_display_width(greedy_result(s, w)) > w,
    ensures
        exists|k: int|
            {
                let kept = #[trigger] graphemes_of(greedy_result(s, w)).take(k).flatten();
                &&& 0 <= k <= graphemes_of(greedy_result(s, w)).len()
                &&& spec_adjust(s, w) == kept + seq!['\u{2026}'] + spaces(
                    w - str_display_width(kept + seq!['\u{2026}']),
                )
            },
{
    let gs = graphemes_of(greedy_result(s, w));
    lemma_grapheme_prefix_whole(gs, Seq::empty(), w - 1);
    let k = choose|k: int|
        0 <= k <= gs.len() && grapheme_prefix(gs, Seq::empty(), w - 1) == Seq::empty()
            + #[trigger] gs.take(k).flatten();
    assert(Seq::<char>::empty() + gs.take(k).flatten() =~= gs.take(k).flatten());
    let kept = gs.take(k).flatten();
    assert(spec_adjust(s, w) == kept + seq!['\u{2026}'] + spaces(
        w - str_display_width(kept + seq!['\u{2026}']),
    ));
}

} // verus!
