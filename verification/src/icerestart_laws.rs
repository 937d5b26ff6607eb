//! What holds of fragments and folded answers as a whole.
use vstd::prelude::*;

use crate::icerestart;
use crate::icerestart::IceDetailsView;
use crate::text;
use crate::text_laws;

verus! {

/// Whether `line` can stand in a body as it is: not empty, on one line, and
/// without a carriage return at its end.
pub open spec fn is_line(line: Seq<char>) -> bool {
    &&& line.len() > 0
    &&& !line.contains('\n')
    &&& line.last() != '\r'
}

/// Whether all of `lines` can stand in a body.
pub open spec fn are_lines(lines: Seq<Seq<char>>) -> bool {
    forall|i: int| 0 <= i < lines.len() ==> is_line(#[trigger] lines[i])
}

/// `sdp` with a carriage return before every line feed.
pub open spec fn with_carriage_returns(sdp: Seq<char>) -> Seq<char>
    decreases sdp.len(),
{
    if sdp.len() == 0 {
        Seq::empty()
    } else if sdp.last() == '\n' {
        with_carriage_returns(sdp.drop_last()).push('\r').push('\n')
    } else {
        with_carriage_returns(sdp.drop_last()).push(sdp.last())
    }
}

proof fn lemma_trim(line: Seq<char>)
    ensures
        icerestart::trim_end_cr(line).is_prefix_of(line),
        icerestart::trim_end_cr(line).len() > 0 ==> icerestart::trim_end_cr(line).last() != '\r',
    decreases line.len(),
{
    if line.len() > 0 && line.last() == '\r' {
        lemma_trim(line.drop_last());
    }
}

/// Every line of a body can stand in a body as it is.
pub proof fn law_lines_are_lines(sdp: Seq<char>)
    ensures
        are_lines(icerestart::sdp_lines(sdp)),
{
    let sep = |c: char| c == '\n';
    let trim = |l: Seq<char>| icerestart::trim_end_cr(l);
    let raw = text::pieces(sdp, sep);
    let cut = raw.map_values(trim);
    text_laws::lemma_pieces_free(sdp, sep);
    text_laws::lemma_nonempty_members(cut);
    let lines = icerestart::sdp_lines(sdp);
    assert forall|i: int| 0 <= i < lines.len() implies is_line(#[trigger] lines[i]) by {
        assert(cut.contains(lines[i]));
        let j = choose|j: int| 0 <= j < cut.len() && cut[j] == lines[i];
        assert(text_laws::free_of(raw[j], sep));
        lemma_trim(raw[j]);
        assert forall|k: int| 0 <= k < lines[i].len() implies lines[i][k] != '\n' by {
            assert(lines[i][k] == raw[j][k]);
            assert(!sep(raw[j][k]));
        }
    }
}

proof fn lemma_pieces_of_body(lines: Seq<Seq<char>>)
    requires
        lines.len() > 0,
        are_lines(lines),
    ensures
        text::pieces(icerestart::sdp_text(lines), |c: char| c == '\n') == lines.map_values(
            |l: Seq<char>| l.push('\r'),
        ).push(Seq::empty()),
    decreases lines.len(),
{
    let sep = |c: char| c == '\n';
    let ended = |l: Seq<char>| l.push('\r');
    let crlf = "\r\n"@;
    reveal_strlit("\r\n");
    assert(crlf =~= seq!['\r', '\n']);
    let last = lines.last();
    assert(is_line(lines[lines.len() - 1]));
    let front = lines.drop_last();
    let start = if lines.len() == 1 {
        Seq::empty()
    } else {
        icerestart::sdp_text(front)
    };
    let body = icerestart::sdp_text(lines);
    let tail = last.push('\r');
    if lines.len() == 1 {
        assert(body =~= (start + tail).push('\n'));
        assert(text::pieces(start, sep) =~= front.map_values(ended).push(Seq::empty()));
    } else {
        assert forall|i: int| 0 <= i < front.len() implies is_line(#[trigger] front[i]) by {
            assert(front[i] == lines[i]);
        }
        lemma_pieces_of_body(front);
        assert(body =~= (start + tail).push('\n'));
    }
    assert forall|k: int| 0 <= k < tail.len() implies !sep(#[trigger] tail[k]) by {
        if k < last.len() {
            assert(last.contains(last[k]));
        }
    }
    text_laws::lemma_pieces_extend(start, tail, sep);
    text_laws::lemma_pieces_push_separator(start + tail, '\n', sep);
    assert(Seq::<char>::empty() + tail =~= tail);
    let p = front.map_values(ended).push(Seq::empty());
    assert(p.drop_last() =~= front.map_values(ended));
    assert(front.map_values(ended).push(tail) =~= lines.map_values(ended));
}

/// A body that was rendered from lines has exactly these lines.
pub proof fn law_rendered_lines(lines: Seq<Seq<char>>)
    requires
        are_lines(lines),
    ensures
        icerestart::sdp_lines(icerestart::sdp_text(lines)) == lines,
{
    let sep = |c: char| c == '\n';
    let trim = |l: Seq<char>| icerestart::trim_end_cr(l);
    let ended = |l: Seq<char>| l.push('\r');
    let raw = text::pieces(icerestart::sdp_text(lines), sep);
    let cut = raw.map_values(trim);
    if lines.len() == 0 {
        reveal_strlit("\r\n");
        let body = icerestart::sdp_text(lines);
        let cr = seq!['\r'];
        assert(body =~= cr.push('\n'));
        text_laws::lemma_pieces_extend(Seq::empty(), cr, sep);
        text_laws::lemma_pieces_push_separator(cr, '\n', sep);
        assert(Seq::<char>::empty() + cr =~= cr);
        assert(raw =~= seq![cr, Seq::empty()]);
        assert(cr.drop_last() =~= Seq::empty());
        assert(icerestart::trim_end_cr(cr) == icerestart::trim_end_cr(cr.drop_last()));
        assert(cut[0].len() == 0 && cut[1].len() == 0);
        let c1 = cut.drop_last();
        assert(c1.last() == cut[0]);
        assert(text::nonempty(c1.drop_last()) =~= Seq::empty());
        assert(text::nonempty(c1) =~= Seq::empty());
        assert(text::nonempty(cut) =~= lines);
    } else {
        lemma_pieces_of_body(lines);
        assert forall|i: int| 0 <= i < lines.len() implies cut[i] == lines[i] by {
            assert(is_line(lines[i]));
            let l = lines[i].push('\r');
            assert(raw[i] == l);
            assert(l.drop_last() =~= lines[i]);
            assert(icerestart::trim_end_cr(l) == icerestart::trim_end_cr(lines[i]));
        }
        assert(cut.drop_last() =~= lines);
        assert(cut.last().len() == 0);
        assert forall|i: int| 0 <= i < lines.len() implies (#[trigger] lines[i]).len() > 0 by {
            assert(is_line(lines[i]));
        }
        text_laws::lemma_nonempty_all(lines);
    }
}

proof fn lemma_carriage_returns(sdp: Seq<char>)
    ensures
        ({
            let sep = |c: char| c == '\n';
            let trim = |l: Seq<char>| icerestart::trim_end_cr(l);
            let p = text::pieces(sdp, sep);
            let q = text::pieces(with_carriage_returns(sdp), sep);
            &&& p.last() == q.last()
            &&& p.drop_last().map_values(trim) == q.drop_last().map_values(trim)
        }),
    decreases sdp.len(),
{
    let sep = |c: char| c == '\n';
    let trim = |l: Seq<char>| icerestart::trim_end_cr(l);
    if sdp.len() > 0 {
        let s = sdp.drop_last();
        let w = with_carriage_returns(s);
        lemma_carriage_returns(s);
        text_laws::lemma_pieces_len(s, sep);
        text_laws::lemma_pieces_len(w, sep);
        let p = text::pieces(s, sep);
        let q = text::pieces(w, sep);
        if sdp.last() == '\n' {
            text_laws::lemma_pieces_push_separator(w.push('\r'), '\n', sep);
            assert(w.push('\r').drop_last() =~= w);
            let ended = q.last().push('\r');
            assert(ended.drop_last() =~= q.last());
            assert(trim(ended) == trim(q.last()));
            let p2 = p.push(Seq::empty());
            let q2 = q.drop_last().push(ended).push(Seq::empty());
            assert(p2.drop_last() =~= p);
            assert(q2.drop_last() =~= q.drop_last().push(ended));
            assert(p.map_values(trim) =~= p.drop_last().map_values(trim).push(trim(p.last())));
            assert(q.drop_last().push(ended).map_values(trim) =~= q.drop_last().map_values(
                trim,
            ).push(trim(ended)));
        } else {
            let c = sdp.last();
            assert(w.push(c).drop_last() =~= w);
            let p2 = p.drop_last().push(p.last().push(c));
            let q2 = q.drop_last().push(q.last().push(c));
            assert(p2.drop_last() =~= p.drop_last());
            assert(q2.drop_last() =~= q.drop_last());
        }
    }
}

/// Line endings make no difference: a body with bare line feeds has the same
/// lines as the one with a carriage return before each.
pub proof fn law_line_endings(sdp: Seq<char>)
    ensures
        icerestart::sdp_lines(with_carriage_returns(sdp)) == icerestart::sdp_lines(sdp),
{
    let sep = |c: char| c == '\n';
    let trim = |l: Seq<char>| icerestart::trim_end_cr(l);
    lemma_carriage_returns(sdp);
    let p = text::pieces(sdp, sep);
    let q = text::pieces(with_carriage_returns(sdp), sep);
    text_laws::lemma_pieces_len(sdp, sep);
    text_laws::lemma_pieces_len(with_carriage_returns(sdp), sep);
    assert(p.map_values(trim) =~= p.drop_last().map_values(trim).push(trim(p.last())));
    assert(q.map_values(trim) =~= q.drop_last().map_values(trim).push(trim(q.last())));
}

/// The prefixes that the kinds of lines begin with exclude each other.
pub proof fn lemma_kinds_exclude(l: Seq<char>)
    ensures
        "m="@.is_prefix_of(l) ==> !"o="@.is_prefix_of(l) && !"a=ice-ufrag:"@.is_prefix_of(l)
            && !"a=ice-pwd:"@.is_prefix_of(l) && !"a=mid:"@.is_prefix_of(l)
            && !"a=candidate:"@.is_prefix_of(l) && l != "a=end-of-candidates"@,
        "o="@.is_prefix_of(l) ==> !"a=ice-ufrag:"@.is_prefix_of(l) && !"a=ice-pwd:"@.is_prefix_of(l)
            && !"a=mid:"@.is_prefix_of(l) && !"a=candidate:"@.is_prefix_of(l) && l
            != "a=end-of-candidates"@,
        "a=ice-ufrag:"@.is_prefix_of(l) ==> !"a=ice-pwd:"@.is_prefix_of(l) && !"a=mid:"@.is_prefix_of(
            l,
        ) && !"a=candidate:"@.is_prefix_of(l) && l != "a=end-of-candidates"@,
        "a=ice-pwd:"@.is_prefix_of(l) ==> !"a=mid:"@.is_prefix_of(l) && !"a=candidate:"@.is_prefix_of(
            l,
        ) && l != "a=end-of-candidates"@,
        "a=mid:"@.is_prefix_of(l) ==> !"a=candidate:"@.is_prefix_of(l) && l
            != "a=end-of-candidates"@,
        "a=candidate:"@.is_prefix_of(l) ==> l != "a=end-of-candidates"@,
{
    reveal_strlit("m=");
    reveal_strlit("o=");
    reveal_strlit("a=ice-ufrag:");
    reveal_strlit("a=ice-pwd:");
    reveal_strlit("a=mid:");
    reveal_strlit("a=candidate:");
    reveal_strlit("a=end-of-candidates");
    lemma_prefix_char("m="@, l, 0);
    lemma_prefix_char("o="@, l, 0);
    lemma_prefix_char("a=ice-ufrag:"@, l, 0);
    lemma_prefix_char("a=ice-ufrag:"@, l, 2);
    lemma_prefix_char("a=ice-ufrag:"@, l, 6);
    lemma_prefix_char("a=ice-pwd:"@, l, 0);
    lemma_prefix_char("a=ice-pwd:"@, l, 2);
    lemma_prefix_char("a=ice-pwd:"@, l, 6);
    lemma_prefix_char("a=mid:"@, l, 0);
    lemma_prefix_char("a=mid:"@, l, 2);
    lemma_prefix_char("a=candidate:"@, l, 0);
    lemma_prefix_char("a=candidate:"@, l, 2);
    assert("a=end-of-candidates"@[0] == 'a' && "a=end-of-candidates"@[2] == 'e');
}

proof fn lemma_prefix_char(p: Seq<char>, l: Seq<char>, k: int)
    requires
        0 <= k < p.len(),
    ensures
        p.is_prefix_of(l) ==> p.len() <= l.len() && l[k] == p[k],
{
    if p.is_prefix_of(l) {
        assert(p[k] == l.subrange(0, p.len() as int)[k]);
    }
}

proof fn lemma_prefix_of_sum(p: Seq<char>, v: Seq<char>)
    ensures
        p.is_prefix_of(p + v),
        text::after(p + v, p.len() as int) == v,
{
    assert((p + v).subrange(0, p.len() as int) =~= p);
    assert(text::after(p + v, p.len() as int) =~= v);
}

/// Lines with a prefix in two runs of lines are those of each run.
pub proof fn lemma_lines_with_add(a: Seq<Seq<char>>, b: Seq<Seq<char>>, p: Seq<char>)
    ensures
        icerestart::lines_with(a + b, p) == icerestart::lines_with(a, p) + icerestart::lines_with(
            b,
            p,
        ),
    decreases b.len(),
{
    if b.len() == 0 {
        assert(a + b =~= a);
        assert(icerestart::lines_with(a, p) + icerestart::lines_with(b, p)
            =~= icerestart::lines_with(a, p));
    } else {
        lemma_lines_with_add(a, b.drop_last(), p);
        assert((a + b).drop_last() =~= a + b.drop_last());
        assert(icerestart::lines_with(a + b, p) =~= icerestart::lines_with(a, p)
            + icerestart::lines_with(b, p));
    }
}

proof fn lemma_lines_with_members(lines: Seq<Seq<char>>, p: Seq<char>)
    ensures
        forall|k: int|
            0 <= k < icerestart::lines_with(lines, p).len() ==> p.is_prefix_of(
                #[trigger] icerestart::lines_with(lines, p)[k],
            ) && lines.contains(icerestart::lines_with(lines, p)[k]),
    decreases lines.len(),
{
    if lines.len() > 0 {
        let front = lines.drop_last();
        lemma_lines_with_members(front, p);
        let found = icerestart::lines_with(lines, p);
        assert forall|k: int| 0 <= k < found.len() implies p.is_prefix_of(#[trigger] found[k])
            && lines.contains(found[k]) by {
            if k < icerestart::lines_with(front, p).len() {
                assert(found[k] == icerestart::lines_with(front, p)[k]);
                let j = choose|j: int| 0 <= j < front.len() && front[j] == found[k];
                assert(lines[j] == found[k]);
            } else {
                assert(lines[lines.len() - 1] == found[k]);
            }
        }
    }
}

proof fn lemma_lines_with_none(lines: Seq<Seq<char>>, p: Seq<char>)
    requires
        forall|i: int| 0 <= i < lines.len() ==> !p.is_prefix_of(#[trigger] lines[i]),
    ensures
        icerestart::lines_with(lines, p) == Seq::<Seq<char>>::empty(),
    decreases lines.len(),
{
    if lines.len() > 0 {
        let front = lines.drop_last();
        assert forall|i: int| 0 <= i < front.len() implies !p.is_prefix_of(#[trigger] front[i]) by {
            assert(front[i] == lines[i]);
        }
        lemma_lines_with_none(front, p);
        assert(!p.is_prefix_of(lines[lines.len() - 1]));
    }
}

proof fn lemma_lines_with_all(lines: Seq<Seq<char>>, p: Seq<char>)
    requires
        forall|i: int| 0 <= i < lines.len() ==> p.is_prefix_of(#[trigger] lines[i]),
    ensures
        icerestart::lines_with(lines, p) == lines,
    decreases lines.len(),
{
    if lines.len() > 0 {
        let front = lines.drop_last();
        assert forall|i: int| 0 <= i < front.len() implies p.is_prefix_of(#[trigger] front[i]) by {
            assert(front[i] == lines[i]);
        }
        lemma_lines_with_all(front, p);
        assert(p.is_prefix_of(lines[lines.len() - 1]));
        assert(front.push(lines.last()) =~= lines);
    } else {
        assert(icerestart::lines_with(lines, p) =~= lines);
    }
}

/// The candidates on candidate lines are the candidates.
proof fn lemma_candidate_values(c: Seq<Seq<char>>)
    ensures
        icerestart::values(icerestart::candidate_lines(c), "a=candidate:"@) == c,
{
    let p = "a=candidate:"@;
    let lines = icerestart::candidate_lines(c);
    assert forall|i: int| 0 <= i < lines.len() implies p.is_prefix_of(#[trigger] lines[i]) by {
        lemma_prefix_of_sum(p, c[i]);
    }
    lemma_lines_with_all(lines, p);
    assert forall|i: int| 0 <= i < c.len() implies icerestart::values(lines, p)[i] == c[i] by {
        lemma_prefix_of_sum(p, c[i]);
    }
    assert(icerestart::values(lines, p) =~= c);
}

/// A value with its prefix is the line it was read from.
proof fn lemma_value_line(lines: Seq<Seq<char>>, p: Seq<char>, k: int)
    requires
        0 <= k < icerestart::values(lines, p).len(),
    ensures
        lines.contains(p + icerestart::values(lines, p)[k]),
{
    lemma_lines_with_members(lines, p);
    let l = icerestart::lines_with(lines, p)[k];
    assert(p + text::after(l, p.len() as int) =~= l) by {
        assert(p.is_prefix_of(l));
        assert forall|i: int| 0 <= i < p.len() implies p[i] == l[i] by {
            lemma_prefix_char(p, l, i);
        }
    }
}

/// A first value that is not empty stands on some line.
proof fn lemma_first_value_line(lines: Seq<Seq<char>>, p: Seq<char>)
    ensures
        icerestart::first_value(lines, p).len() > 0 ==> lines.contains(
            p + icerestart::first_value(lines, p),
        ),
{
    let vals = icerestart::values(lines, p);
    text_laws::lemma_nonempty_members(vals);
    let found = text::nonempty(vals);
    if found.len() > 0 {
        assert(vals.contains(found[0]));
        let k = choose|k: int| 0 <= k < vals.len() && vals[k] == found[0];
        lemma_value_line(lines, p, k);
    }
}

/// The first value on a single line is its value.
proof fn lemma_first_value_single(p: Seq<char>, v: Seq<char>)
    requires
        v.len() > 0,
    ensures
        icerestart::first_value(seq![p + v], p) == v,
{
    let lines = seq![p + v];
    lemma_prefix_of_sum(p, v);
    lemma_lines_with_all(lines, p);
    let vals = icerestart::values(lines, p);
    assert(vals =~= seq![v]);
    text_laws::lemma_nonempty_all(vals);
}

/// Every line of `lines` begins with `p`.
spec fn all_with(lines: Seq<Seq<char>>, p: Seq<char>) -> bool {
    forall|i: int| 0 <= i < lines.len() ==> p.is_prefix_of(#[trigger] lines[i])
}

/// The kinds of lines that a fragment holds, by number.
spec fn kind(k: int) -> Seq<char> {
    if k == 0 {
        "a=ice-ufrag:"@
    } else if k == 1 {
        "a=ice-pwd:"@
    } else if k == 2 {
        "m="@
    } else if k == 3 {
        "a=mid:"@
    } else {
        "a=candidate:"@
    }
}

/// Lines of one kind hold no line of another kind.
proof fn lemma_other_kind(lines: Seq<Seq<char>>, j: int, k: int)
    requires
        0 <= j < 5,
        0 <= k < 5,
        j != k,
        all_with(lines, kind(j)),
    ensures
        icerestart::lines_with(lines, kind(k)) == Seq::<Seq<char>>::empty(),
{
    assert forall|i: int| 0 <= i < lines.len() implies !kind(k).is_prefix_of(
        #[trigger] lines[i],
    ) by {
        assert(kind(j).is_prefix_of(lines[i]));
        lemma_kinds_exclude(lines[i]);
    }
    lemma_lines_with_none(lines, kind(k));
}

proof fn lemma_six_parts(
    a: Seq<Seq<char>>,
    b: Seq<Seq<char>>,
    c: Seq<Seq<char>>,
    d: Seq<Seq<char>>,
    e: Seq<Seq<char>>,
    f: Seq<Seq<char>>,
    p: Seq<char>,
)
    ensures
        icerestart::lines_with(a + b + c + d + e + f, p) == icerestart::lines_with(a, p)
            + icerestart::lines_with(b, p) + icerestart::lines_with(c, p) + icerestart::lines_with(
            d,
            p,
        ) + icerestart::lines_with(e, p) + icerestart::lines_with(f, p),
{
    lemma_lines_with_add(a, b, p);
    lemma_lines_with_add(a + b, c, p);
    lemma_lines_with_add(a + b + c, d, p);
    lemma_lines_with_add(a + b + c + d, e, p);
    lemma_lines_with_add(a + b + c + d + e, f, p);
}

proof fn lemma_line_unless_empty(p: Seq<char>, v: Seq<char>)
    ensures
        all_with(icerestart::line_unless_empty(p, v), p),
        icerestart::first_value(icerestart::line_unless_empty(p, v), p) == v,
{
    lemma_prefix_of_sum(p, v);
    if v.len() > 0 {
        lemma_first_value_single(p, v);
    } else {
        assert(v =~= Seq::empty());
        assert(icerestart::values(Seq::empty(), p) =~= Seq::empty());
        assert(text::nonempty(Seq::empty()) =~= Seq::empty());
    }
}

/// There is at most one m-line before the end of the bundle master.
proof fn lemma_one_media_line(lines: Seq<Seq<char>>)
    ensures
        0 <= icerestart::bundle_end(lines) <= lines.len(),
        icerestart::lines_with(lines.take(icerestart::bundle_end(lines)), "m="@).len() <= 1,
    decreases lines.len(),
{
    if lines.len() > 0 {
        let front = lines.drop_last();
        lemma_one_media_line(front);
        let end = icerestart::bundle_end(lines);
        if end == lines.len() {
            assert(lines.take(end) =~= lines);
            assert(front.take(front.len() as int) =~= front);
        } else {
            assert(lines.take(end) =~= front.take(end));
        }
    }
}

/// Of parts that are of one kind each, only the part of a kind has lines of it.
proof fn lemma_lines_of_kind(
    a: Seq<Seq<char>>,
    b: Seq<Seq<char>>,
    c: Seq<Seq<char>>,
    d: Seq<Seq<char>>,
    e: Seq<Seq<char>>,
    k: int,
)
    requires
        0 <= k < 5,
        all_with(a, kind(0)),
        all_with(b, kind(1)),
        all_with(c, kind(2)),
        all_with(d, kind(3)),
        all_with(e, kind(4)),
    ensures
        icerestart::lines_with(a + b + c + d + e + seq!["a=end-of-candidates"@], kind(k)) == (
        if k == 0 {
            a
        } else if k == 1 {
            b
        } else if k == 2 {
            c
        } else if k == 3 {
            d
        } else {
            e
        }),
{
    let g = seq!["a=end-of-candidates"@];
    let p = kind(k);
    lemma_six_parts(a, b, c, d, e, g, p);
    if k == 0 {
        lemma_lines_with_all(a, p);
    } else {
        lemma_other_kind(a, 0, k);
    }
    if k == 1 {
        lemma_lines_with_all(b, p);
    } else {
        lemma_other_kind(b, 1, k);
    }
    if k == 2 {
        lemma_lines_with_all(c, p);
    } else {
        lemma_other_kind(c, 2, k);
    }
    if k == 3 {
        lemma_lines_with_all(d, p);
    } else {
        lemma_other_kind(d, 3, k);
    }
    if k == 4 {
        lemma_lines_with_all(e, p);
    } else {
        lemma_other_kind(e, 4, k);
    }
    assert forall|i: int| 0 <= i < g.len() implies !p.is_prefix_of(#[trigger] g[i]) by {
        lemma_kinds_exclude(g[i]);
    }
    lemma_lines_with_none(g, p);
    let empty = Seq::<Seq<char>>::empty();
    if k == 0 {
        assert(a + empty + empty + empty + empty + empty =~= a);
    } else if k == 1 {
        assert(empty + b + empty + empty + empty + empty =~= b);
    } else if k == 2 {
        assert(empty + empty + c + empty + empty + empty =~= c);
    } else if k == 3 {
        assert(empty + empty + empty + d + empty + empty =~= d);
    } else {
        assert(empty + empty + empty + empty + e + empty =~= e);
    }
}

/// The fragment for a local offer tells the bundle master's ICE details, its
/// m-line and its mid, and nothing of the sections bundled onto it.
pub proof fn law_fragment_tells_bundle_master(local: Seq<Seq<char>>)
    ensures
        ({
            let master = local.take(icerestart::bundle_end(local));
            let fragment = icerestart::fragment_lines(local);
            &&& icerestart::ice_details(fragment) == icerestart::ice_details(master)
            &&& icerestart::first_value(fragment, "a=mid:"@) == icerestart::first_value(
                master,
                "a=mid:"@,
            )
            &&& icerestart::lines_with(fragment, "m="@) == icerestart::lines_with(master, "m="@)
            &&& icerestart::lines_with(fragment, "m="@).len() <= 1
        }),
{
    let master = local.take(icerestart::bundle_end(local));
    let details = icerestart::ice_details(master);
    let mid = icerestart::first_value(master, kind(3));
    let a = icerestart::line_unless_empty(kind(0), details.ufrag);
    let b = icerestart::line_unless_empty(kind(1), details.pwd);
    let c = icerestart::lines_with(master, kind(2));
    let d = icerestart::line_unless_empty(kind(3), mid);
    let e = icerestart::candidate_lines(details.candidates);
    lemma_one_media_line(local);
    lemma_line_unless_empty(kind(0), details.ufrag);
    lemma_line_unless_empty(kind(1), details.pwd);
    lemma_line_unless_empty(kind(3), mid);
    lemma_lines_with_members(master, kind(2));
    assert forall|i: int| 0 <= i < e.len() implies kind(4).is_prefix_of(#[trigger] e[i]) by {
        lemma_prefix_of_sum(kind(4), details.candidates[i]);
    }
    lemma_lines_of_kind(a, b, c, d, e, 0);
    lemma_lines_of_kind(a, b, c, d, e, 1);
    lemma_lines_of_kind(a, b, c, d, e, 2);
    lemma_lines_of_kind(a, b, c, d, e, 3);
    lemma_lines_of_kind(a, b, c, d, e, 4);
    lemma_lines_with_all(a, kind(0));
    lemma_lines_with_all(b, kind(1));
    lemma_lines_with_all(d, kind(3));
    lemma_lines_with_all(e, kind(4));
    lemma_candidate_values(details.candidates);
}

/// The lines of a rendered fragment are those that were meant: reading the
/// fragment back gives the bundle master's ICE details.
pub proof fn law_fragment_round_trip(local_sdp: Seq<char>)
    ensures
        ({
            let local = icerestart::sdp_lines(local_sdp);
            let body = icerestart::sdp_text(icerestart::fragment_lines(local));
            &&& icerestart::sdp_lines(body) == icerestart::fragment_lines(local)
            &&& icerestart::ice_details(icerestart::sdp_lines(body)) == icerestart::ice_details(
                local.take(icerestart::bundle_end(local)),
            )
        }),
{
    let local = icerestart::sdp_lines(local_sdp);
    let master = local.take(icerestart::bundle_end(local));
    let fragment = icerestart::fragment_lines(local);
    law_lines_are_lines(local_sdp);
    lemma_one_media_line(local);
    assert forall|i: int| 0 <= i < master.len() implies is_line(#[trigger] master[i]) by {
        assert(master[i] == local[i]);
    }
    lemma_first_value_line(master, kind(0));
    lemma_first_value_line(master, kind(1));
    lemma_first_value_line(master, kind(3));
    lemma_lines_with_members(master, kind(2));
    reveal_strlit("a=end-of-candidates");
    assert forall|i: int| 0 <= i < fragment.len() implies is_line(#[trigger] fragment[i]) by {
        let details = icerestart::ice_details(master);
        let mid = icerestart::first_value(master, kind(3));
        let a = icerestart::line_unless_empty(kind(0), details.ufrag);
        let b = icerestart::line_unless_empty(kind(1), details.pwd);
        let c = icerestart::lines_with(master, kind(2));
        let d = icerestart::line_unless_empty(kind(3), mid);
        let e = icerestart::candidate_lines(details.candidates);
        let head = a.len() + b.len() + c.len() + d.len();
        if i < head + e.len() {
            if i >= head {
                assert(fragment[i] == e[i - head]);
                lemma_value_line(master, kind(4), i - head);
            } else if a.len() + b.len() <= i < a.len() + b.len() + c.len() {
                assert(fragment[i] == c[i - a.len() - b.len()]);
            }
            assert(master.contains(fragment[i]));
        } else {
            assert(fragment[i] == "a=end-of-candidates"@);
        }
    }
    law_rendered_lines(fragment);
    law_fragment_tells_bundle_master(local);
}

/// Whether a restart may not touch `line`: it is neither the origin nor part of
/// an ICE generation.
pub open spec fn is_carried(line: Seq<char>) -> bool {
    &&& !"o="@.is_prefix_of(line)
    &&& !"a=ice-ufrag:"@.is_prefix_of(line)
    &&& !"a=ice-pwd:"@.is_prefix_of(line)
    &&& !icerestart::is_stale(line)
}

/// The lines that a restart may not touch.
pub open spec fn carried(lines: Seq<Seq<char>>) -> Seq<Seq<char>> {
    lines.filter(|l: Seq<char>| is_carried(l))
}

/// The lines but for the origin.
pub open spec fn without_origin(lines: Seq<Seq<char>>) -> Seq<Seq<char>> {
    lines.filter(|l: Seq<char>| !"o="@.is_prefix_of(l))
}

/// The origin lines of the next revision.
pub open spec fn next_origins(lines: Seq<Seq<char>>) -> Seq<Seq<char>> {
    icerestart::lines_with(lines, "o="@).map_values(|l: Seq<char>| icerestart::next_origin(l))
}

/// The next revision's origin has the session version one higher and every
/// other field as it was; a malformed one does not change.
pub proof fn law_origin_rises(line: Seq<char>)
    requires
        icerestart::origin_can_rise(line),
    ensures
        match icerestart::origin_version(line) {
            Some(v) => {
                &&& icerestart::origin_version(icerestart::next_origin(line)) == Some((v + 1) as u64)
                &&& icerestart::origin_fields(icerestart::next_origin(line))
                    == icerestart::origin_fields(line).update(2, text::decimal((v + 1) as nat))
                &&& "o="@.is_prefix_of(icerestart::next_origin(line))
                &&& is_line(icerestart::next_origin(line))
            },
            None => icerestart::next_origin(line) == line,
        },
{
    if let Some(v) = icerestart::origin_version(line) {
        let n = (v + 1) as nat;
        let fields = icerestart::origin_fields(line);
        let next = fields.update(2, text::decimal(n));
        let rest = text::joined(next, " "@);
        let out = icerestart::next_origin(line);
        reveal_strlit("o=");
        lemma_prefix_of_sum("o="@, rest);
        if "o="@.is_prefix_of(line) {
            text_laws::lemma_words_are_words(text::after(line, 2));
        } else {
            text_laws::lemma_words_are_words(line);
        }
        text::lemma_decimal(n);
        text::law_decimal_round_trip((v + 1) as u64);
        assert forall|i: int| 0 <= i < next.len() implies text_laws::is_word(#[trigger] next[i]) by {
            if i == 2 {
                let ws = |c: char| text::white_space(c);
                assert forall|k: int| 0 <= k < next[i].len() implies !ws(#[trigger] next[i][k]) by {
                    assert('0' <= text::decimal(n)[k] <= '9');
                }
            } else {
                assert(next[i] == fields[i]);
            }
        }
        text_laws::law_words_of_joined(next);
        text_laws::lemma_joined_words(next);
        assert(out.last() == rest.last());
        assert(!out.contains('\n')) by {
            assert forall|k: int| 0 <= k < out.len() implies out[k] != '\n' by {
                if k >= 2 {
                    assert(out[k] == rest[k - 2]);
                }
            }
        }
    }
}

/// A revised line is of the same kind as the line.
proof fn lemma_revised_line_kind(l: Seq<char>, d: IceDetailsView)
    requires
        !icerestart::is_stale(l),
        "o="@.is_prefix_of(l) ==> icerestart::origin_can_rise(l),
    ensures
        "m="@.is_prefix_of(icerestart::revised_line(l, d)) == "m="@.is_prefix_of(l),
        "o="@.is_prefix_of(icerestart::revised_line(l, d)) == "o="@.is_prefix_of(l),
        "a=ice-ufrag:"@.is_prefix_of(icerestart::revised_line(l, d))
            == "a=ice-ufrag:"@.is_prefix_of(l),
        "a=ice-pwd:"@.is_prefix_of(icerestart::revised_line(l, d)) == "a=ice-pwd:"@.is_prefix_of(l),
        !icerestart::is_stale(icerestart::revised_line(l, d)),
        is_carried(l) ==> icerestart::revised_line(l, d) == l,
        is_carried(icerestart::revised_line(l, d)) == is_carried(l),
{
    let r = icerestart::revised_line(l, d);
    lemma_kinds_exclude(l);
    lemma_kinds_exclude(r);
    lemma_prefix_of_sum("a=ice-ufrag:"@, d.ufrag);
    lemma_prefix_of_sum("a=ice-pwd:"@, d.pwd);
    if "o="@.is_prefix_of(l) {
        law_origin_rises(l);
    }
}

proof fn lemma_can_revise_part(lines: Seq<Seq<char>>, from: int, to: int)
    requires
        0 <= from <= to <= lines.len(),
        icerestart::can_revise(lines),
    ensures
        icerestart::can_revise(lines.subrange(from, to)),
{
    let part = lines.subrange(from, to);
    assert forall|i: int|
        0 <= i < part.len() && "o="@.is_prefix_of(
            #[trigger] part[i],
        ) implies icerestart::origin_can_rise(part[i]) by {
        assert(part[i] == lines[from + i]);
    }
}

/// What [`icerestart::revised`] does to each kind of line.
proof fn lemma_revised(lines: Seq<Seq<char>>, d: IceDetailsView)
    requires
        icerestart::can_revise(lines),
    ensures
        ({
            let r = icerestart::revised(lines, d);
            let pu = "a=ice-ufrag:"@;
            let pp = "a=ice-pwd:"@;
            &&& icerestart::lines_with(r, "m="@) == icerestart::lines_with(lines, "m="@)
            &&& icerestart::lines_with(r, "o="@) == next_origins(lines)
            &&& icerestart::lines_with(r, "a=candidate:"@) == Seq::<Seq<char>>::empty()
            &&& icerestart::lines_with(r, pu) == Seq::new(
                icerestart::lines_with(lines, pu).len(),
                |i: int| pu + d.ufrag,
            )
            &&& icerestart::lines_with(r, pp) == Seq::new(
                icerestart::lines_with(lines, pp).len(),
                |i: int| pp + d.pwd,
            )
            &&& carried(r) == carried(lines)
        }),
    decreases lines.len(),
{
    let pu = "a=ice-ufrag:"@;
    let pp = "a=ice-pwd:"@;
    let r = icerestart::revised(lines, d);
    reveal(Seq::filter);
    if lines.len() > 0 {
        let front = lines.drop_last();
        let last = lines.last();
        assert(last == lines[lines.len() - 1]);
        assert(front =~= lines.subrange(0, lines.len() - 1));
        lemma_can_revise_part(lines, 0, lines.len() - 1);
        lemma_revised(front, d);
        lemma_kinds_exclude(last);
        if !icerestart::is_stale(last) {
            lemma_revised_line_kind(last, d);
            let line = icerestart::revised_line(last, d);
            lemma_kinds_exclude(line);
            assert(r.drop_last() =~= icerestart::revised(front, d));
            assert(r.last() == line);
        }
        assert(icerestart::lines_with(r, "o="@) =~= next_origins(lines));
        assert(icerestart::lines_with(r, pu) =~= Seq::new(
            icerestart::lines_with(lines, pu).len(),
            |i: int| pu + d.ufrag,
        ));
        assert(icerestart::lines_with(r, pp) =~= Seq::new(
            icerestart::lines_with(lines, pp).len(),
            |i: int| pp + d.pwd,
        ));
    } else {
        assert(icerestart::lines_with(r, "o="@) =~= next_origins(lines));
        assert(icerestart::lines_with(r, pu) =~= Seq::new(0, |i: int| pu + d.ufrag));
        assert(icerestart::lines_with(r, pp) =~= Seq::new(0, |i: int| pp + d.pwd));
        assert(carried(r) =~= carried(lines));
    }
}

/// What the block of new candidates holds.
proof fn lemma_candidate_block(d: IceDetailsView)
    ensures
        ({
            let b = icerestart::candidate_block(d);
            &&& icerestart::lines_with(b, "m="@) == Seq::<Seq<char>>::empty()
            &&& icerestart::lines_with(b, "o="@) == Seq::<Seq<char>>::empty()
            &&& icerestart::lines_with(b, "a=ice-ufrag:"@) == Seq::<Seq<char>>::empty()
            &&& icerestart::lines_with(b, "a=ice-pwd:"@) == Seq::<Seq<char>>::empty()
            &&& icerestart::values(b, "a=candidate:"@) == d.candidates
            &&& forall|i: int| 0 <= i < b.len() ==> icerestart::is_stale(#[trigger] b[i])
            &&& carried(b) == Seq::<Seq<char>>::empty()
        }),
{
    let b = icerestart::candidate_block(d);
    let pc = "a=candidate:"@;
    let lines = icerestart::candidate_lines(d.candidates);
    let end = "a=end-of-candidates"@;
    lemma_candidate_values(d.candidates);
    assert forall|i: int| 0 <= i < b.len() implies icerestart::is_stale(#[trigger] b[i]) by {
        if i < lines.len() {
            lemma_prefix_of_sum(pc, d.candidates[i]);
        }
    }
    assert forall|i: int| 0 <= i < b.len() implies !"m="@.is_prefix_of(#[trigger] b[i])
        && !"a=ice-ufrag:"@.is_prefix_of(b[i]) && !"a=ice-pwd:"@.is_prefix_of(b[i])
        && !"o="@.is_prefix_of(b[i]) by {
        lemma_kinds_exclude(b[i]);
    }
    lemma_lines_with_none(b, "m="@);
    lemma_lines_with_none(b, "o="@);
    lemma_lines_with_none(b, "a=ice-ufrag:"@);
    lemma_lines_with_none(b, "a=ice-pwd:"@);
    lemma_kinds_exclude(end);
    if d.candidates.len() > 0 {
        assert(b.drop_last() =~= lines);
        assert(icerestart::lines_with(b, pc) == icerestart::lines_with(lines, pc));
    } else {
        assert(icerestart::values(b, pc) =~= d.candidates);
    }
    lemma_filter_none(b, |l: Seq<char>| is_carried(l));
}

proof fn lemma_filter_none(lines: Seq<Seq<char>>, keep: spec_fn(Seq<char>) -> bool)
    requires
        forall|i: int| 0 <= i < lines.len() ==> !keep(#[trigger] lines[i]),
    ensures
        lines.filter(keep) == Seq::<Seq<char>>::empty(),
    decreases lines.len(),
{
    reveal(Seq::filter);
    if lines.len() > 0 {
        let front = lines.drop_last();
        assert forall|i: int| 0 <= i < front.len() implies !keep(#[trigger] front[i]) by {
            assert(front[i] == lines[i]);
        }
        lemma_filter_none(front, keep);
        assert(!keep(lines[lines.len() - 1]));
    }
}

/// The two runs of lines around the end of the bundle master.
proof fn lemma_split_at_bundle_end(lines: Seq<Seq<char>>)
    ensures
        ({
            let end = icerestart::bundle_end(lines);
            &&& 0 <= end <= lines.len()
            &&& lines.take(end) + lines.skip(end) == lines
            &&& end < lines.len() ==> "m="@.is_prefix_of(lines[end]) && icerestart::lines_with(
                lines.take(end),
                "m="@,
            ).len() == 1
        }),
    decreases lines.len(),
{
    let end = icerestart::bundle_end(lines);
    lemma_one_media_line(lines);
    if lines.len() > 0 {
        let front = lines.drop_last();
        lemma_split_at_bundle_end(front);
        if end < lines.len() - 1 {
            assert(lines.take(end) =~= front.take(end));
            assert(lines[end] == front[end]);
        } else if end == lines.len() - 1 {
            assert(lines.take(end) =~= front);
            assert(front.take(front.len() as int) =~= front);
            lemma_one_media_line(front);
        }
    }
    assert(lines.take(end) + lines.skip(end) =~= lines);
}

/// Where the bundle master ends follows from the m-lines around.
proof fn lemma_bundle_end_at(lines: Seq<Seq<char>>, end: int)
    requires
        0 <= end <= lines.len(),
        icerestart::lines_with(lines.take(end), "m="@).len() <= 1,
        end < lines.len() ==> "m="@.is_prefix_of(lines[end]) && icerestart::lines_with(
            lines.take(end),
            "m="@,
        ).len() == 1,
    ensures
        icerestart::bundle_end(lines) == end,
    decreases lines.len(),
{
    if lines.len() > 0 {
        let front = lines.drop_last();
        if end == lines.len() {
            assert(lines.take(end) =~= lines);
            assert(front.take(front.len() as int) =~= front);
            lemma_bundle_end_at(front, front.len() as int);
        } else if end == lines.len() - 1 {
            assert(lines.take(end) =~= front);
            assert(front.take(front.len() as int) =~= front);
            lemma_bundle_end_at(front, front.len() as int);
        } else {
            assert(lines.take(end) =~= front.take(end));
            assert(lines[end] == front[end]);
            lemma_bundle_end_at(front, end);
        }
    }
}

/// The lines before and after the end of the bundle master in a folded answer:
/// the new candidates stand at the end of the first media section.
pub proof fn law_fold_candidates_in_first_section(remote: Seq<Seq<char>>, d: IceDetailsView)
    requires
        icerestart::can_revise(remote),
    ensures
        ({
            let answer = icerestart::folded(remote, d);
            let end = icerestart::bundle_end(remote);
            let split = icerestart::bundle_end(answer);
            &&& answer.take(split) == icerestart::revised(remote.take(end), d)
                + icerestart::candidate_block(d)
            &&& answer.skip(split) == icerestart::revised(remote.skip(end), d)
            &&& icerestart::lines_with(icerestart::revised(remote.take(end), d), "m="@)
                == icerestart::lines_with(remote.take(end), "m="@)
            &&& icerestart::values(answer.take(split), "a=candidate:"@) == d.candidates
            &&& icerestart::values(answer.skip(split), "a=candidate:"@).len() == 0
        }),
{
    let end = icerestart::bundle_end(remote);
    let answer = icerestart::folded(remote, d);
    let first = icerestart::revised(remote.take(end), d) + icerestart::candidate_block(d);
    let second = icerestart::revised(remote.skip(end), d);
    lemma_split_at_bundle_end(remote);
    lemma_one_media_line(remote);
    lemma_can_revise_part(remote, 0, end);
    lemma_can_revise_part(remote, end, remote.len() as int);
    assert(remote.subrange(0, end) =~= remote.take(end));
    assert(remote.subrange(end, remote.len() as int) =~= remote.skip(end));
    lemma_revised(remote.take(end), d);
    lemma_revised(remote.skip(end), d);
    lemma_candidate_block(d);
    lemma_lines_with_add(
        icerestart::revised(remote.take(end), d),
        icerestart::candidate_block(d),
        "m="@,
    );
    lemma_lines_with_add(
        icerestart::revised(remote.take(end), d),
        icerestart::candidate_block(d),
        "a=candidate:"@,
    );
    let empty = Seq::<Seq<char>>::empty();
    let media = icerestart::lines_with(remote.take(end), "m="@);
    assert(media + empty =~= media);
    let found = icerestart::lines_with(icerestart::candidate_block(d), "a=candidate:"@);
    assert(empty + found =~= found);
    assert(answer.take(first.len() as int) =~= first);
    assert(answer.skip(first.len() as int) =~= second);
    if end < remote.len() {
        lemma_first_line_kept(remote.skip(end), d);
        assert(answer[first.len() as int] == second[0]);
    } else {
        assert(remote.skip(end) =~= empty);
        assert(second =~= empty);
    }
    lemma_bundle_end_at(answer, first.len() as int);
}

/// An m-line at the start stays at the start.
proof fn lemma_first_line_kept(lines: Seq<Seq<char>>, d: IceDetailsView)
    requires
        lines.len() > 0,
        "m="@.is_prefix_of(lines[0]),
    ensures
        icerestart::revised(lines, d).len() > 0,
        icerestart::revised(lines, d)[0] == lines[0],
    decreases lines.len(),
{
    lemma_kinds_exclude(lines[0]);
    if lines.len() > 1 {
        lemma_first_line_kept(lines.drop_last(), d);
    } else {
        assert(icerestart::revised(lines.drop_last(), d) =~= Seq::empty());
    }
}

/// What a folded answer holds of the old answer and of the fragment.
///
/// Every credential line carries the new credentials, and there are as many as
/// before; the candidates are the fragment's and no others; the origin is that
/// of the next revision; m-lines and all other lines that a restart may not
/// touch stand there verbatim, in order.
pub proof fn law_fold_changes_ice_generation_only(remote: Seq<Seq<char>>, d: IceDetailsView)
    requires
        icerestart::can_revise(remote),
    ensures
        ({
            let answer = icerestart::folded(remote, d);
            let pu = "a=ice-ufrag:"@;
            let pp = "a=ice-pwd:"@;
            &&& icerestart::lines_with(answer, pu) == Seq::new(
                icerestart::lines_with(remote, pu).len(),
                |i: int| pu + d.ufrag,
            )
            &&& icerestart::lines_with(answer, pp) == Seq::new(
                icerestart::lines_with(remote, pp).len(),
                |i: int| pp + d.pwd,
            )
            &&& icerestart::values(answer, "a=candidate:"@) == d.candidates
            &&& icerestart::lines_with(answer, "o="@) == next_origins(remote)
            &&& icerestart::lines_with(answer, "m="@) == icerestart::lines_with(remote, "m="@)
            &&& carried(answer) == carried(remote)
        }),
{
    let end = icerestart::bundle_end(remote);
    let a = remote.take(end);
    let c = remote.skip(end);
    let ra = icerestart::revised(a, d);
    let b = icerestart::candidate_block(d);
    let rc = icerestart::revised(c, d);
    let answer = icerestart::folded(remote, d);
    let empty = Seq::<Seq<char>>::empty();
    lemma_split_at_bundle_end(remote);
    lemma_can_revise_part(remote, 0, end);
    lemma_can_revise_part(remote, end, remote.len() as int);
    assert(remote.subrange(0, end) =~= a);
    assert(remote.subrange(end, remote.len() as int) =~= c);
    lemma_revised(a, d);
    lemma_revised(c, d);
    lemma_candidate_block(d);
    let pu = "a=ice-ufrag:"@;
    let pp = "a=ice-pwd:"@;
    let pm = "m="@;
    let pc = "a=candidate:"@;
    lemma_three_parts(ra, b, rc, pu);
    lemma_three_parts(ra, b, rc, pp);
    lemma_three_parts(ra, b, rc, pm);
    lemma_three_parts(ra, b, rc, pc);
    lemma_three_parts(ra, b, rc, "o="@);
    lemma_lines_with_add(a, c, "o="@);
    assert(icerestart::lines_with(answer, "o="@) =~= next_origins(remote));
    lemma_lines_with_add(a, c, pu);
    lemma_lines_with_add(a, c, pp);
    lemma_lines_with_add(a, c, pm);
    assert(icerestart::lines_with(answer, pu) =~= Seq::new(
        icerestart::lines_with(remote, pu).len(),
        |i: int| pu + d.ufrag,
    ));
    assert(icerestart::lines_with(answer, pp) =~= Seq::new(
        icerestart::lines_with(remote, pp).len(),
        |i: int| pp + d.pwd,
    ));
    assert(icerestart::lines_with(answer, pm) =~= icerestart::lines_with(remote, pm));
    let found = icerestart::lines_with(b, pc);
    assert(empty + found + empty =~= found);
    let keep = |l: Seq<char>| is_carried(l);
    Seq::filter_distributes_over_add(ra, b, keep);
    Seq::filter_distributes_over_add(ra + b, rc, keep);
    Seq::filter_distributes_over_add(a, c, keep);
    assert(carried(answer) =~= carried(remote));
}

proof fn lemma_three_parts(
    a: Seq<Seq<char>>,
    b: Seq<Seq<char>>,
    c: Seq<Seq<char>>,
    p: Seq<char>,
)
    ensures
        icerestart::lines_with(a + b + c, p) == icerestart::lines_with(a, p)
            + icerestart::lines_with(b, p) + icerestart::lines_with(c, p),
{
    lemma_lines_with_add(a, b, p);
    lemma_lines_with_add(a + b, c, p);
}

/// Where the old answer had credentials, a folded answer tells the fragment's
/// credentials, and it always tells the fragment's candidates.
pub proof fn law_fold_tells_new_details(remote: Seq<Seq<char>>, d: IceDetailsView)
    requires
        icerestart::can_revise(remote),
        d.has_credentials(),
    ensures
        ({
            let told = icerestart::ice_details(icerestart::folded(remote, d));
            &&& icerestart::lines_with(remote, "a=ice-ufrag:"@).len() > 0 ==> told.ufrag == d.ufrag
            &&& icerestart::lines_with(remote, "a=ice-pwd:"@).len() > 0 ==> told.pwd == d.pwd
            &&& told.candidates == d.candidates
        }),
{
    law_fold_changes_ice_generation_only(remote, d);
    let answer = icerestart::folded(remote, d);
    lemma_first_value_repeated(answer, "a=ice-ufrag:"@, d.ufrag);
    lemma_first_value_repeated(answer, "a=ice-pwd:"@, d.pwd);
}

proof fn lemma_first_value_repeated(lines: Seq<Seq<char>>, p: Seq<char>, v: Seq<char>)
    requires
        v.len() > 0,
        forall|i: int|
            0 <= i < icerestart::lines_with(lines, p).len() ==> #[trigger] icerestart::lines_with(
                lines,
                p,
            )[i] == p + v,
    ensures
        icerestart::lines_with(lines, p).len() > 0 ==> icerestart::first_value(lines, p) == v,
{
    let vals = icerestart::values(lines, p);
    lemma_prefix_of_sum(p, v);
    assert forall|i: int| 0 <= i < vals.len() implies #[trigger] vals[i] == v by {
        assert(icerestart::lines_with(lines, p)[i] == p + v);
    }
    text_laws::lemma_nonempty_all(vals);
}

/// Details that were read off lines: each credential and candidate can be put
/// on a line again.
proof fn lemma_details_fit_lines(fragment: Seq<Seq<char>>)
    requires
        are_lines(fragment),
    ensures
        ({
            let d = icerestart::ice_details(fragment);
            &&& d.ufrag.len() > 0 ==> is_line("a=ice-ufrag:"@ + d.ufrag)
            &&& d.pwd.len() > 0 ==> is_line("a=ice-pwd:"@ + d.pwd)
            &&& are_lines(icerestart::candidate_lines(d.candidates))
        }),
{
    let d = icerestart::ice_details(fragment);
    lemma_first_value_line(fragment, "a=ice-ufrag:"@);
    lemma_first_value_line(fragment, "a=ice-pwd:"@);
    let lines = icerestart::candidate_lines(d.candidates);
    assert forall|i: int| 0 <= i < lines.len() implies is_line(#[trigger] lines[i]) by {
        lemma_value_line(fragment, "a=candidate:"@, i);
    }
}

proof fn lemma_revised_are_lines(lines: Seq<Seq<char>>, d: IceDetailsView)
    requires
        are_lines(lines),
        icerestart::can_revise(lines),
        is_line("a=ice-ufrag:"@ + d.ufrag),
        is_line("a=ice-pwd:"@ + d.pwd),
    ensures
        are_lines(icerestart::revised(lines, d)),
    decreases lines.len(),
{
    if lines.len() > 0 {
        let front = lines.drop_last();
        assert(front =~= lines.subrange(0, lines.len() - 1));
        lemma_can_revise_part(lines, 0, lines.len() - 1);
        assert forall|i: int| 0 <= i < front.len() implies is_line(#[trigger] front[i]) by {
            assert(front[i] == lines[i]);
        }
        lemma_revised_are_lines(front, d);
        assert(is_line(lines[lines.len() - 1]));
        if "o="@.is_prefix_of(lines[lines.len() - 1]) {
            law_origin_rises(lines.last());
        }
    }
}

/// The answer that folding gives, read back, has exactly the folded lines.
pub proof fn law_answer_lines(remote_sdp: Seq<char>, fragment: Seq<char>)
    requires
        icerestart::can_fold(remote_sdp, fragment),
    ensures
        icerestart::folded_answer(remote_sdp, fragment) matches Some(answer)
            ==> icerestart::sdp_lines(answer) == icerestart::folded(
            icerestart::sdp_lines(remote_sdp),
            icerestart::ice_details(icerestart::sdp_lines(fragment)),
        ),
{
    let remote = icerestart::sdp_lines(remote_sdp);
    let d = icerestart::ice_details(icerestart::sdp_lines(fragment));
    if d.has_credentials() {
        let end = icerestart::bundle_end(remote);
        law_lines_are_lines(remote_sdp);
        law_lines_are_lines(fragment);
        lemma_details_fit_lines(icerestart::sdp_lines(fragment));
        lemma_split_at_bundle_end(remote);
        lemma_can_revise_part(remote, 0, end);
        lemma_can_revise_part(remote, end, remote.len() as int);
        let a = remote.take(end);
        let c = remote.skip(end);
        assert(remote.subrange(0, end) =~= a);
        assert(remote.subrange(end, remote.len() as int) =~= c);
        assert forall|i: int| 0 <= i < a.len() implies is_line(#[trigger] a[i]) by {
            assert(a[i] == remote[i]);
        }
        assert forall|i: int| 0 <= i < c.len() implies is_line(#[trigger] c[i]) by {
            assert(c[i] == remote[end + i]);
        }
        lemma_revised_are_lines(a, d);
        lemma_revised_are_lines(c, d);
        reveal_strlit("a=end-of-candidates");
        let answer = icerestart::folded(remote, d);
        let ra = icerestart::revised(a, d);
        let b = icerestart::candidate_block(d);
        let rc = icerestart::revised(c, d);
        let cands = icerestart::candidate_lines(d.candidates);
        assert(is_line("a=end-of-candidates"@));
        assert forall|i: int| 0 <= i < answer.len() implies is_line(#[trigger] answer[i]) by {
            if i < ra.len() {
                assert(answer[i] == ra[i]);
            } else if i < ra.len() + b.len() {
                assert(answer[i] == b[i - ra.len()]);
                if i - ra.len() < cands.len() {
                    assert(b[i - ra.len()] == cands[i - ra.len()]);
                }
            } else {
                assert(answer[i] == rc[i - ra.len() - b.len()]);
            }
        }
        law_rendered_lines(answer);
    }
}

proof fn lemma_revised_add(a: Seq<Seq<char>>, b: Seq<Seq<char>>, d: IceDetailsView)
    ensures
        icerestart::revised(a + b, d) == icerestart::revised(a, d) + icerestart::revised(b, d),
    decreases b.len(),
{
    if b.len() == 0 {
        assert(a + b =~= a);
        assert(icerestart::revised(a, d) + icerestart::revised(b, d) =~= icerestart::revised(a, d));
    } else {
        lemma_revised_add(a, b.drop_last(), d);
        assert((a + b).drop_last() =~= a + b.drop_last());
        assert(icerestart::revised(a + b, d) =~= icerestart::revised(a, d) + icerestart::revised(
            b,
            d,
        ));
    }
}

proof fn lemma_revised_stale(lines: Seq<Seq<char>>, d: IceDetailsView)
    requires
        forall|i: int| 0 <= i < lines.len() ==> icerestart::is_stale(#[trigger] lines[i]),
    ensures
        icerestart::revised(lines, d) == Seq::<Seq<char>>::empty(),
    decreases lines.len(),
{
    if lines.len() > 0 {
        let front = lines.drop_last();
        assert forall|i: int| 0 <= i < front.len() implies icerestart::is_stale(
            #[trigger] front[i],
        ) by {
            assert(front[i] == lines[i]);
        }
        lemma_revised_stale(front, d);
        assert(icerestart::is_stale(lines[lines.len() - 1]));
    }
}

/// But for the origin, revising twice is revising once with the later details.
proof fn lemma_revised_twice(lines: Seq<Seq<char>>, d1: IceDetailsView, d2: IceDetailsView)
    requires
        icerestart::can_revise(lines),
        icerestart::can_revise(icerestart::revised(lines, d1)),
    ensures
        without_origin(icerestart::revised(icerestart::revised(lines, d1), d2)) == without_origin(
            icerestart::revised(lines, d2),
        ),
    decreases lines.len(),
{
    reveal(Seq::filter);
    if lines.len() > 0 {
        let front = lines.drop_last();
        let last = lines.last();
        assert(front =~= lines.subrange(0, lines.len() - 1));
        lemma_can_revise_part(lines, 0, lines.len() - 1);
        let r = icerestart::revised(lines, d1);
        if icerestart::is_stale(last) {
            lemma_revised_twice(front, d1, d2);
        } else {
            let line = icerestart::revised_line(last, d1);
            assert(lines[lines.len() - 1] == last);
            assert(r.drop_last() =~= icerestart::revised(front, d1));
            assert(r.drop_last() =~= r.subrange(0, r.len() - 1));
            assert(r[r.len() - 1] == line);
            lemma_can_revise_part(r, 0, r.len() - 1);
            lemma_revised_twice(front, d1, d2);
            lemma_revised_line_kind(last, d1);
            lemma_revised_line_kind(line, d2);
            lemma_revised_line_kind(last, d2);
            let once = icerestart::revised(lines, d2);
            let twice = icerestart::revised(r, d2);
            assert(once.drop_last() =~= icerestart::revised(front, d2));
            assert(twice.drop_last() =~= icerestart::revised(r.drop_last(), d2));
            lemma_kinds_exclude(last);
            lemma_kinds_exclude(line);
        }
    }
}

/// A later restart supersedes an earlier one: but for the origin, folding one
/// fragment's details and then another's is folding the other's alone.
pub proof fn law_later_fold_supersedes(
    remote: Seq<Seq<char>>,
    d1: IceDetailsView,
    d2: IceDetailsView,
)
    requires
        icerestart::can_revise(remote),
        icerestart::can_revise(icerestart::folded(remote, d1)),
    ensures
        without_origin(icerestart::folded(icerestart::folded(remote, d1), d2)) == without_origin(
            icerestart::folded(remote, d2),
        ),
{
    let keep = |l: Seq<char>| !"o="@.is_prefix_of(l);
    let end = icerestart::bundle_end(remote);
    let a = remote.take(end);
    let c = remote.skip(end);
    let mid = icerestart::folded(remote, d1);
    let split = icerestart::bundle_end(mid);
    let ra = icerestart::revised(a, d1);
    let rc = icerestart::revised(c, d1);
    let b1 = icerestart::candidate_block(d1);
    let b2 = icerestart::candidate_block(d2);
    law_fold_candidates_in_first_section(remote, d1);
    lemma_split_at_bundle_end(remote);
    lemma_split_at_bundle_end(mid);
    lemma_can_revise_part(remote, 0, end);
    lemma_can_revise_part(remote, end, remote.len() as int);
    assert(remote.subrange(0, end) =~= a);
    assert(remote.subrange(end, remote.len() as int) =~= c);
    lemma_can_revise_part(mid, 0, ra.len() as int);
    lemma_can_revise_part(mid, split, mid.len() as int);
    assert(mid.subrange(0, ra.len() as int) =~= ra);
    assert(mid.subrange(split, mid.len() as int) =~= mid.skip(split));
    lemma_candidate_block(d1);
    lemma_revised_add(ra, b1, d2);
    lemma_revised_stale(b1, d2);
    let twice_a = icerestart::revised(ra, d2);
    let twice_c = icerestart::revised(rc, d2);
    assert(twice_a + Seq::<Seq<char>>::empty() =~= twice_a);
    lemma_revised_twice(a, d1, d2);
    lemma_revised_twice(c, d1, d2);
    Seq::filter_distributes_over_add(twice_a, b2, keep);
    Seq::filter_distributes_over_add(twice_a + b2, twice_c, keep);
    Seq::filter_distributes_over_add(icerestart::revised(a, d2), b2, keep);
    Seq::filter_distributes_over_add(
        icerestart::revised(a, d2) + b2,
        icerestart::revised(c, d2),
        keep,
    );
}

} // verus!
