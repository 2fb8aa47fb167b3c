//! Pattern matching over text: the regular-expression engine's matches,
//! byte-range pieces of a text, and the rebuilding of a text with its
//! matches replaced; literal replacement and line splitting.

use vstd::prelude::*;
use vstd::utf8::*;
use crate::text::{byte_len, chars_of, is_boundary, occurs_at, push_char, push_chars, starts_with};

verus! {

/// The byte spans of the capture groups of one match (group 0 is the whole
/// match; a group that did not take part is `None`).
pub type GroupSpans = Vec<Option<(usize, usize)>>;

/// What the `regex` crate reports for `pattern` on `text`: for each
/// successive non-overlapping match, the byte spans of its groups; `None`
/// when `pattern` is not a valid regular expression.
pub uninterp spec fn regex_matches(pattern: Seq<char>, text: Seq<char>) -> Option<Seq<Seq<Option<(usize, usize)>>>>;

/// The view of the matches returned by [`match_spans`].
pub open spec fn spans_view(v: Vec<GroupSpans>) -> Seq<Seq<Option<(usize, usize)>>> {
    v@.map_values(|m: GroupSpans| m@)
}

/// A span of `text` with ends on character boundaries.
pub open spec fn span_ok(text: Seq<char>, s: (usize, usize)) -> bool {
    let (a, b) = s;
    &&& a <= b <= byte_len(text)
    &&& is_boundary(text, a as int)
    &&& is_boundary(text, b as int)
}

/// Start of a span.
pub open spec fn lo(s: (usize, usize)) -> int {
    let (a, _b) = s;
    a as int
}

/// End of a span.
pub open spec fn hi(s: (usize, usize)) -> int {
    let (_a, b) = s;
    b as int
}

/// Start of the whole match `k`.
pub open spec fn match_start(ms: Seq<Seq<Option<(usize, usize)>>>, k: int) -> int {
    lo(ms[k][0]->0)
}

/// End of the whole match `k`.
pub open spec fn match_end(ms: Seq<Seq<Option<(usize, usize)>>>, k: int) -> int {
    hi(ms[k][0]->0)
}

/// The shape that the `regex` documentation promises of the matches: each
/// has a whole-match group; offsets fall on character boundaries; every
/// group lies inside its match; matches come in order without overlapping.
pub open spec fn matches_well_formed(text: Seq<char>, ms: Seq<Seq<Option<(usize, usize)>>>) -> bool {
    &&& forall|k: int| 0 <= k < ms.len() ==> #[trigger] ms[k].len() > 0 && ms[k][0] is Some
    &&& forall|k: int, g: int|
        0 <= k < ms.len() && 0 <= g < ms[k].len() && #[trigger] ms[k][g] is Some ==> span_ok(
            text,
            ms[k][g]->0,
        ) && match_start(ms, k) <= lo(ms[k][g]->0) && hi(ms[k][g]->0) <= match_end(ms, k)
    &&& forall|k: int| 0 <= k < ms.len() - 1 ==> match_end(ms, k) <= #[trigger] match_start(ms, k + 1)
}

/// Runs `regex::Regex::new(pattern)` and, when the pattern compiles,
/// `captures_iter(text)`, reporting each match's group spans.  Claimed: the
/// result is [`regex_matches`] of the two arguments, and it has the shape
/// the crate documents (offsets on boundaries with start not after end,
/// groups inside their match, successive non-overlapping matches).
#[verifier::external_body]
pub(crate) fn match_spans(pattern: &str, text: &str) -> (r: Option<Vec<GroupSpans>>)
    ensures
        match r {
            Some(v) => regex_matches(pattern@, text@) == Some(spans_view(v)) && matches_well_formed(
                text@,
                spans_view(v),
            ),
            None => regex_matches(pattern@, text@) is None,
        },
{
    let re = regex::Regex::new(pattern).ok()?;
    Some(
        re.captures_iter(text).map(|c| c.iter().map(|m| m.map(|m| (m.start(), m.end()))).collect()).collect(),
    )
}

/// The characters of `text` whose encoding is bytes `a..b`.
pub open spec fn piece(text: Seq<char>, a: int, b: int) -> Seq<char> {
    decode_utf8(encode_utf8(text).subrange(a, b))
}

proof fn lemma_prefix_boundary(bytes: Seq<u8>, a: int, b: int)
    requires
        valid_utf8(bytes),
        is_char_boundary(bytes, a),
        is_char_boundary(bytes, b),
        0 <= a <= b <= bytes.len(),
    ensures
        valid_utf8(bytes.subrange(0, b)),
        is_char_boundary(bytes.subrange(0, b), a),
{
    broadcast use valid_utf8_split, is_char_boundary_start_end_of_seq;

    let pre = bytes.subrange(0, b);
    assert(valid_utf8(pre));
    if a == b {
        assert(pre.len() == b);
    } else if a > 0 {
        is_char_boundary_iff_not_is_continuation_byte(bytes, a);
        is_char_boundary_iff_not_is_continuation_byte(pre, a);
        assert(pre[a] == bytes[a]);
    }
}

/// Bytes `a..b` of `text` as a new string.
pub fn byte_piece(text: &str, a: usize, b: usize) -> (r: String)
    requires
        a <= b <= byte_len(text@),
        is_boundary(text@, a as int),
        is_boundary(text@, b as int),
    ensures
        r@ == piece(text@, a as int, b as int),
{
    proof {
        broadcast use encode_utf8_valid_utf8;

        lemma_prefix_boundary(encode_utf8(text@), a as int, b as int);
    }
    let (head, _rest) = text.split_at(b);
    let (_skip, mid) = head.split_at(a);
    proof {
        broadcast use encode_utf8_decode_utf8;

        assert(encode_utf8(mid@) =~= encode_utf8(text@).subrange(a as int, b as int));
        assert(mid@ == decode_utf8(encode_utf8(mid@)));
    }
    mid.to_owned()
}

/// The text of group `g` of match `k`, if it took part.
pub open spec fn group_text(text: Seq<char>, ms: Seq<Seq<Option<(usize, usize)>>>, k: int, g: int) -> Option<Seq<char>> {
    if g < ms[k].len() && ms[k][g] is Some {
        Some(piece(text, lo(ms[k][g]->0), hi(ms[k][g]->0)))
    } else {
        None
    }
}

/// The text of group `g` of match `k`, if it took part.
pub fn group_of(text: &str, ms: &Vec<GroupSpans>, k: usize, g: usize) -> (r: Option<String>)
    requires
        matches_well_formed(text@, spans_view(*ms)),
        k < ms.len(),
    ensures
        match r {
            Some(t) => group_text(text@, spans_view(*ms), k as int, g as int) == Some(t@),
            None => group_text(text@, spans_view(*ms), k as int, g as int) is None,
        },
{
    let ghost sv = spans_view(*ms);
    assert(sv[k as int] == ms@[k as int]@);
    if g < ms[k].len() {
        match ms[k][g] {
            Some((a, b)) => {
                assert(sv[k as int][g as int] is Some);
                Some(byte_piece(text, a, b))
            },
            None => None,
        }
    } else {
        None
    }
}

/// Where the text after match `k - 1` starts (0 before the first match).
pub open spec fn resume_at(ms: Seq<Seq<Option<(usize, usize)>>>, k: int) -> int {
    if k <= 0 {
        0
    } else {
        match_end(ms, k - 1)
    }
}

/// The text up to the end of match `k - 1`, with each of the first `k`
/// matches replaced by the corresponding replacement.
pub open spec fn rebuilt_upto(
    text: Seq<char>,
    ms: Seq<Seq<Option<(usize, usize)>>>,
    reps: Seq<Seq<char>>,
    k: int,
) -> Seq<char>
    decreases k,
{
    if k <= 0 {
        seq![]
    } else {
        rebuilt_upto(text, ms, reps, k - 1) + piece(text, resume_at(ms, k - 1), match_start(ms, k - 1))
            + reps[k - 1]
    }
}

/// `text` with match `k` replaced by `reps[k]` for every `k`.
pub open spec fn rebuilt(text: Seq<char>, ms: Seq<Seq<Option<(usize, usize)>>>, reps: Seq<Seq<char>>) -> Seq<char> {
    rebuilt_upto(text, ms, reps, ms.len() as int) + piece(
        text,
        resume_at(ms, ms.len() as int),
        byte_len(text) as int,
    )
}

/// The views of a list of strings.
pub open spec fn texts(v: Seq<String>) -> Seq<Seq<char>> {
    v.map_values(|s: String| s@)
}

/// Rebuilds `text` with each match replaced by its replacement.
pub fn rebuild(text: &str, ms: &Vec<GroupSpans>, reps: &Vec<String>) -> (r: String)
    requires
        matches_well_formed(text@, spans_view(*ms)),
        reps.len() == ms.len(),
    ensures
        r@ == rebuilt(text@, spans_view(*ms), texts(reps@)),
{
    let ghost sv = spans_view(*ms);
    let mut out = String::new();
    let mut pos: usize = 0;
    let mut k: usize = 0;
    let total = text.as_bytes().len();
    proof {
        broadcast use encode_utf8_valid_utf8, is_char_boundary_start_end_of_seq;

    }
    while k < ms.len()
        invariant
            k <= ms.len(),
            sv == spans_view(*ms),
            matches_well_formed(text@, sv),
            reps.len() == ms.len(),
            total == byte_len(text@),
            pos == resume_at(sv, k as int),
            pos <= total,
            is_boundary(text@, pos as int),
            k < ms.len() ==> pos <= match_start(sv, k as int),
            out@ == rebuilt_upto(text@, sv, texts(reps@), k as int),
        decreases ms.len() - k,
    {
        assert(sv[k as int] == ms@[k as int]@);
        assert(sv[k as int].len() > 0 && sv[k as int][0] is Some);
        let whole = ms[k][0];
        let (start, end) = match whole {
            Some(span) => span,
            None => (0, 0),
        };
        assert(span_ok(text@, sv[k as int][0]->0));
        let gap = byte_piece(text, pos, start);
        out.append(gap.as_str());
        out.append(reps[k].as_str());
        assert(texts(reps@)[k as int] == reps@[k as int]@);
        k = k + 1;
        pos = end;
        if k < ms.len() {
            assert(match_end(sv, k - 1) <= match_start(sv, k as int));
        }
    }
    proof {
        broadcast use encode_utf8_valid_utf8, is_char_boundary_start_end_of_seq;

    }
    let tail = byte_piece(text, pos, total);
    out.append(tail.as_str());
    out
}

/// `s` with every occurrence of `from` replaced by `to`, scanning from the
/// left without overlaps: `str::replace` for a non-empty `from`.  An empty
/// `from` leaves `s` as it is (where `str::replace` would insert `to`
/// around every character); every caller passes a non-empty literal.
pub open spec fn replace_lit(s: Seq<char>, from: Seq<char>, to: Seq<char>) -> Seq<char>
    decreases s.len(),
{
    if s.len() == 0 || from.len() == 0 {
        s
    } else if starts_with(s, from) {
        to + replace_lit(s.subrange(from.len() as int, s.len() as int), from, to)
    } else {
        seq![s[0]] + replace_lit(s.drop_first(), from, to)
    }
}

/// Replaces every occurrence of `from` in `s` by `to`; an empty `from`
/// changes nothing.
pub fn replace_literal(s: &str, from: &str, to: &str) -> (r: String)
    ensures
        r@ == replace_lit(s@, from@, to@),
{
    let cs = chars_of(s);
    let pat = chars_of(from);
    let mut out = String::new();
    if pat.len() == 0 {
        push_chars(&mut out, &cs, 0, cs.len());
        assert(cs@.subrange(0, cs.len() as int) =~= s@);
        return out;
    }
    let mut i: usize = 0;
    assert(cs@.subrange(0, cs.len() as int) =~= cs@);
    while i < cs.len()
        invariant
            i <= cs.len(),
            pat.len() > 0,
            cs@ == s@,
            pat@ == from@,
            out@ + replace_lit(cs@.subrange(i as int, cs.len() as int), from@, to@) == replace_lit(
                s@,
                from@,
                to@,
            ),
        decreases cs.len() - i,
    {
        let ghost rest = cs@.subrange(i as int, cs.len() as int);
        let ghost before = out@;
        if crate::text::matches_at(&cs, &pat, i) {
            assert(rest.subrange(0, pat@.len() as int) =~= cs@.subrange(i as int, i + pat@.len()));
            assert(starts_with(rest, from@));
            assert(rest.subrange(from@.len() as int, rest.len() as int) =~= cs@.subrange(
                i + pat@.len(),
                cs.len() as int,
            ));
            out.append(to);
            i = i + pat.len();
            assert(out@ + replace_lit(cs@.subrange(i as int, cs.len() as int), from@, to@) =~= before
                + replace_lit(rest, from@, to@));
        } else {
            proof {
                if starts_with(rest, from@) {
                    assert(rest.subrange(0, pat@.len() as int) =~= cs@.subrange(i as int, i + pat@.len()));
                    assert(occurs_at(cs@, pat@, i as int));
                }
            }
            push_char(&mut out, cs[i]);
            assert(rest.drop_first() =~= cs@.subrange(i + 1, cs.len() as int));
            i = i + 1;
            assert(out@ + replace_lit(cs@.subrange(i as int, cs.len() as int), from@, to@) =~= before
                + replace_lit(rest, from@, to@));
        }
    }
    assert(cs@.subrange(i as int, cs.len() as int) =~= seq![]);
    assert(out@ + seq![] =~= out@);
    out
}

/// The pieces of `s` between newlines (one more than there are newlines).
pub open spec fn split_newlines(s: Seq<char>) -> Seq<Seq<char>>
    decreases s.len(),
{
    if s.len() == 0 {
        seq![seq![]]
    } else {
        let r = split_newlines(s.drop_last());
        if s.last() == '\n' {
            r.push(seq![])
        } else {
            r.update(r.len() - 1, r.last().push(s.last()))
        }
    }
}

/// The lines of `s` as `str::lines` yields them before a trailing `\r` is
/// dropped: a final empty piece after the last newline is not a line.
pub open spec fn raw_lines(s: Seq<char>) -> Seq<Seq<char>> {
    let p = split_newlines(s);
    if p.last().len() == 0 {
        p.drop_last()
    } else {
        p
    }
}

proof fn lemma_split_nonempty(s: Seq<char>)
    ensures
        split_newlines(s).len() > 0,
    decreases s.len(),
{
    if s.len() > 0 {
        lemma_split_nonempty(s.drop_last());
    }
}

/// Splits `s` at its newlines into the lines of [`raw_lines`].
pub fn lines_of(s: &str) -> (r: Vec<String>)
    ensures
        texts(r@) == raw_lines(s@),
{
    let cs = chars_of(s);
    let mut done: Vec<String> = Vec::new();
    let mut current = String::new();
    let mut i: usize = 0;
    assert(cs@.take(0) =~= seq![]);
    while i < cs.len()
        invariant
            i <= cs.len(),
            cs@ == s@,
            texts(done@).push(current@) == split_newlines(cs@.take(i as int)),
        decreases cs.len() - i,
    {
        proof {
            lemma_split_nonempty(cs@.take(i as int));
        }
        assert(cs@.take(i + 1).drop_last() =~= cs@.take(i as int));
        assert(cs@.take(i + 1).last() == cs@[i as int]);
        let ghost prev = split_newlines(cs@.take(i as int));
        if cs[i] == '\n' {
            let finished = current;
            let ghost d0 = done@;
            done.push(finished);
            current = String::new();
            assert(texts(done@) =~= texts(d0).push(finished@));
            assert(texts(done@).push(current@) =~= prev.push(seq![]));
        } else {
            let ghost c0 = current@;
            push_char(&mut current, cs[i]);
            assert(texts(done@).push(current@) =~= prev.update(prev.len() - 1, prev.last().push(cs@[i as int])));
        }
        i = i + 1;
    }
    assert(cs@.take(cs.len() as int) =~= cs@);
    if current.as_str().is_empty() {
        assert(texts(done@) =~= texts(done@).push(current@).drop_last());
    } else {
        let ghost d0 = done@;
        done.push(current);
        assert(texts(done@) =~= texts(d0).push(texts(done@).last()));
    }
    done
}


/// `text` with every match of `pattern` replaced by `rep`
/// (`Regex::replace_all` with a replacement without `$`); unchanged if the
/// pattern were not valid.
pub open spec fn regex_replaced(text: Seq<char>, pattern: Seq<char>, rep: Seq<char>) -> Seq<char> {
    match regex_matches(pattern, text) {
        Some(ms) => rebuilt(text, ms, Seq::new(ms.len(), |k: int| rep)),
        None => text,
    }
}

/// Replaces every match of `pattern` in `text` by `rep`.
pub fn replace_matches(text: &str, pattern: &str, rep: &str) -> (r: String)
    ensures
        r@ == regex_replaced(text@, pattern@, rep@),
{
    let ms = match match_spans(pattern, text) {
        Some(ms) => ms,
        None => {
            return text.to_owned();
        },
    };
    let mut reps: Vec<String> = Vec::new();
    let mut k: usize = 0;
    while k < ms.len()
        invariant
            k <= ms.len(),
            texts(reps@) == Seq::new(ms.len() as nat, |j: int| rep@).take(k as int),
        decreases ms.len() - k,
    {
        let ghost before = reps@;
        let r = rep.to_owned();
        reps.push(r);
        assert(texts(reps@) =~= texts(before).push(r@));
        k = k + 1;
        assert(texts(reps@) =~= Seq::new(ms.len() as nat, |j: int| rep@).take(k as int));
    }
    assert(Seq::new(ms.len() as nat, |j: int| rep@).take(ms.len() as int) =~= Seq::new(
        ms.len() as nat,
        |j: int| rep@,
    ));
    assert(spans_view(ms).len() == ms.len());
    rebuild(text, &ms, &reps)
}

/// Group `g` of the first match of `pattern` in `text` (`Regex::captures`).
pub open spec fn first_capture(text: Seq<char>, pattern: Seq<char>, g: int) -> Option<Seq<char>> {
    match regex_matches(pattern, text) {
        Some(ms) => if ms.len() > 0 {
            group_text(text, ms, 0, g)
        } else {
            None
        },
        None => None,
    }
}

/// Group `g` of the first match of `pattern` in `text`.
pub fn first_group(text: &str, pattern: &str, g: usize) -> (r: Option<String>)
    ensures
        match r {
            Some(t) => first_capture(text@, pattern@, g as int) == Some(t@),
            None => first_capture(text@, pattern@, g as int) is None,
        },
{
    let ms = match match_spans(pattern, text) {
        Some(ms) => ms,
        None => {
            return None;
        },
    };
    if ms.len() == 0 {
        return None;
    }
    group_of(text, &ms, 0, g)
}

} // verus!
