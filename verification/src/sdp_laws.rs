//! What becomes of each line of a description: how it is read, told in a fragment
//! and folded into an answer.
use vstd::prelude::*;

use crate::icerestart;
use crate::icerestart::IceDetailsView;
use crate::icerestart_laws;
use crate::text;
use crate::text_laws;

verus! {

/// A line feed parts lines: the lines are those before it and then those after.
pub proof fn law_feed_parts_lines(a: Seq<char>, b: Seq<char>)
    ensures
        icerestart::sdp_lines(a.push('\n') + b) == icerestart::sdp_lines(a)
            + icerestart::sdp_lines(b),
{
    let sep = |c: char| c == '\n';
    let trim = |l: Seq<char>| icerestart::trim_end_cr(l);
    text_laws::law_separator_parts(a, '\n', b, sep);
    let p = text::pieces(a, sep);
    let q = text::pieces(b, sep);
    assert((p + q).map_values(trim) =~= p.map_values(trim) + q.map_values(trim));
    text_laws::law_nonempty_in_parts(p.map_values(trim), q.map_values(trim), a);
}

proof fn lemma_trim_all(line: Seq<char>, crs: Seq<char>)
    requires
        line.len() > 0 ==> line.last() != '\r',
        forall|i: int| 0 <= i < crs.len() ==> #[trigger] crs[i] == '\r',
    ensures
        icerestart::trim_end_cr(line + crs) == line,
    decreases crs.len(),
{
    if crs.len() == 0 {
        assert(line + crs =~= line);
    } else {
        let front = crs.drop_last();
        assert forall|i: int| 0 <= i < front.len() implies #[trigger] front[i] == '\r' by {
            assert(front[i] == crs[i]);
        }
        assert(crs[crs.len() - 1] == '\r');
        assert((line + crs).drop_last() =~= line + front);
        lemma_trim_all(line, front);
    }
}

/// What stands between line feeds is a line without the carriage returns at its
/// end, and no line at all if nothing else is there.
pub proof fn law_one_line(line: Seq<char>, crs: Seq<char>)
    requires
        forall|i: int| 0 <= i < line.len() ==> #[trigger] line[i] != '\n',
        line.len() > 0 ==> line.last() != '\r',
        forall|i: int| 0 <= i < crs.len() ==> #[trigger] crs[i] == '\r',
    ensures
        icerestart::sdp_lines(line + crs) == (if line.len() > 0 {
            seq![line]
        } else {
            Seq::empty()
        }),
{
    let sep = |c: char| c == '\n';
    let trim = |l: Seq<char>| icerestart::trim_end_cr(l);
    let s = line + crs;
    text_laws::law_one_piece(s, sep);
    lemma_trim_all(line, crs);
    assert(seq![s].map_values(trim) =~= seq![line]);
    text_laws::law_nonempty_in_parts(Seq::empty(), Seq::empty(), line);
}

/// A body ends each of its lines with a carriage return and a line feed, and
/// without lines it is one line end.
pub proof fn law_body_grows(lines: Seq<Seq<char>>, line: Seq<char>)
    ensures
        icerestart::sdp_text(Seq::empty()) == seq!['\r', '\n'],
        icerestart::sdp_text(seq![line]) == line + seq!['\r', '\n'],
        lines.len() > 0 ==> icerestart::sdp_text(lines.push(line)) == icerestart::sdp_text(lines)
            + line + seq!['\r', '\n'],
{
    reveal_strlit("\r\n");
    let crlf = "\r\n"@;
    assert(crlf =~= seq!['\r', '\n']);
    text_laws::law_joined_grows(lines, line, crlf);
    assert(Seq::<char>::empty() + crlf =~= crlf);
}

/// The values after a prefix come in the order of their lines; the first that is
/// not empty counts.
pub proof fn law_values_in_order(lines: Seq<Seq<char>>, line: Seq<char>, prefix: Seq<char>)
    ensures
        icerestart::values(Seq::empty(), prefix) == Seq::<Seq<char>>::empty(),
        icerestart::values(lines.push(line), prefix) == (if prefix.is_prefix_of(line) {
            icerestart::values(lines, prefix).push(line.skip(prefix.len() as int))
        } else {
            icerestart::values(lines, prefix)
        }),
        icerestart::lines_with(Seq::empty(), prefix) == Seq::<Seq<char>>::empty(),
        icerestart::lines_with(lines.push(line), prefix) == (if prefix.is_prefix_of(line) {
            icerestart::lines_with(lines, prefix).push(line)
        } else {
            icerestart::lines_with(lines, prefix)
        }),
        icerestart::first_value(Seq::empty(), prefix) == Seq::<char>::empty(),
        icerestart::first_value(lines.push(line), prefix) == (if icerestart::first_value(
            lines,
            prefix,
        ).len() == 0 && prefix.is_prefix_of(line) {
            line.skip(prefix.len() as int)
        } else {
            icerestart::first_value(lines, prefix)
        }),
{
    let cut = |l: Seq<char>| text::after(l, prefix.len() as int);
    assert(lines.push(line).drop_last() =~= lines);
    let with = icerestart::lines_with(lines, prefix);
    let vals = icerestart::values(lines, prefix);
    let none = Seq::<Seq<char>>::empty();
    assert(icerestart::values(none, prefix) =~= none);
    text_laws::law_nonempty_in_parts(none, none, line);
    text_laws::lemma_nonempty_members(vals);
    if prefix.is_prefix_of(line) {
        let v = line.skip(prefix.len() as int);
        assert(text::after(line, prefix.len() as int) =~= v);
        assert(with.push(line).map_values(cut) =~= with.map_values(cut).push(v));
        text_laws::law_nonempty_in_parts(vals, seq![v], v);
        assert(vals.push(v) =~= vals + seq![v]);
        let found = text::nonempty(vals);
        if found.len() == 0 {
            assert(found + text::nonempty(seq![v]) =~= text::nonempty(seq![v]));
            if v.len() == 0 {
                assert(v =~= Seq::empty());
            }
        } else {
            assert((found + text::nonempty(seq![v]))[0] == found[0]);
            assert(found[0].len() > 0);
        }
    }
}

/// ICE details are read line by line: a line with a user fragment or a password
/// tells it unless an earlier line did, a line with a candidate adds it, and
/// every other line tells nothing.
pub proof fn law_details_line_by_line(lines: Seq<Seq<char>>, line: Seq<char>)
    ensures
        ({
            let none = icerestart::ice_details(Seq::empty());
            let d = icerestart::ice_details(lines);
            let e = icerestart::ice_details(lines.push(line));
            &&& none.ufrag.len() == 0 && none.pwd.len() == 0 && none.candidates.len() == 0
            &&& e.ufrag == (if d.ufrag.len() == 0 && "a=ice-ufrag:"@.is_prefix_of(line) {
                line.skip(12)
            } else {
                d.ufrag
            })
            &&& e.pwd == (if d.pwd.len() == 0 && "a=ice-pwd:"@.is_prefix_of(line) {
                line.skip(10)
            } else {
                d.pwd
            })
            &&& e.candidates == (if "a=candidate:"@.is_prefix_of(line) {
                d.candidates.push(line.skip(12))
            } else {
                d.candidates
            })
        }),
{
    reveal_strlit("a=ice-ufrag:");
    reveal_strlit("a=ice-pwd:");
    reveal_strlit("a=candidate:");
    law_values_in_order(lines, line, "a=ice-ufrag:"@);
    law_values_in_order(lines, line, "a=ice-pwd:"@);
    law_values_in_order(lines, line, "a=candidate:"@);
}

/// Credentials are complete if and only if neither is empty.
pub proof fn law_credentials(d: IceDetailsView)
    ensures
        d.has_credentials() <==> d.ufrag.len() > 0 && d.pwd.len() > 0,
{
}

proof fn lemma_media_before(lines: Seq<Seq<char>>, n: int)
    requires
        0 <= n <= lines.len(),
    ensures
        icerestart::lines_with(lines.take(n), "m="@).len() == 0 <==> forall|i: int|
            0 <= i < n ==> !"m="@.is_prefix_of(#[trigger] lines[i]),
        icerestart::lines_with(lines.take(n), "m="@).len() <= 1 <==> forall|i: int, j: int|
            0 <= i < j < n ==> !("m="@.is_prefix_of(#[trigger] lines[i]) && "m="@.is_prefix_of(
                #[trigger] lines[j],
            )),
    decreases n,
{
    if n > 0 {
        lemma_media_before(lines, n - 1);
        assert(lines.take(n).drop_last() =~= lines.take(n - 1));
        assert(lines.take(n).last() == lines[n - 1]);
        let before = icerestart::lines_with(lines.take(n - 1), "m="@);
        if before.len() > 0 {
            let k = choose|k: int| 0 <= k < n - 1 && "m="@.is_prefix_of(#[trigger] lines[k]);
            if "m="@.is_prefix_of(lines[n - 1]) {
                assert("m="@.is_prefix_of(lines[k]) && "m="@.is_prefix_of(lines[n - 1]));
            }
        }
    }
}

proof fn lemma_bundle_end(lines: Seq<Seq<char>>)
    ensures
        ({
            let end = icerestart::bundle_end(lines);
            &&& 0 <= end <= lines.len()
            &&& icerestart::lines_with(lines.take(end), "m="@).len() <= 1
            &&& end < lines.len() ==> "m="@.is_prefix_of(lines[end]) && icerestart::lines_with(
                lines.take(end),
                "m="@,
            ).len() > 0
        }),
    decreases lines.len(),
{
    if lines.len() > 0 {
        let front = lines.drop_last();
        lemma_bundle_end(front);
        let end = icerestart::bundle_end(lines);
        assert(front.take(front.len() as int) =~= front);
        if end == lines.len() {
            assert(lines.take(end) =~= lines);
        } else {
            assert(lines.take(end) =~= front.take(end));
            if end < front.len() {
                assert(lines[end] == front[end]);
            }
        }
    } else {
        assert(lines.take(0) =~= lines);
    }
}

/// The bundle master ends where the second m-line stands, and with the
/// description if there is none: before that end are no two m-lines, and at it
/// stands an m-line that has one before it.
pub proof fn law_bundle_master(lines: Seq<Seq<char>>)
    ensures
        ({
            let end = icerestart::bundle_end(lines);
            &&& 0 <= end <= lines.len()
            &&& forall|i: int, j: int|
                0 <= i < j < end ==> !("m="@.is_prefix_of(#[trigger] lines[i])
                    && "m="@.is_prefix_of(#[trigger] lines[j]))
            &&& end < lines.len() ==> "m="@.is_prefix_of(lines[end]) && exists|i: int|
                0 <= i < end && "m="@.is_prefix_of(#[trigger] lines[i])
        }),
{
    let end = icerestart::bundle_end(lines);
    lemma_bundle_end(lines);
    lemma_media_before(lines, end);
    if end < lines.len() {
        assert(icerestart::lines_with(lines.take(end), "m="@).len() != 0);
    }
}

/// `line` if `there`, nothing otherwise.
pub open spec fn line_if(there: bool, line: Seq<char>) -> Seq<Seq<char>> {
    if there {
        seq![line]
    } else {
        Seq::empty()
    }
}

/// A fragment tells, in this order: the credentials that the bundle master has,
/// its m-line, its mid, each of its candidates, and that there are no more.
pub proof fn law_fragment_in_order(local: Seq<Seq<char>>)
    ensures
        ({
            let master = local.take(icerestart::bundle_end(local));
            let d = icerestart::ice_details(master);
            let mid = icerestart::first_value(master, "a=mid:"@);
            icerestart::fragment_lines(local) == line_if(
                d.ufrag.len() > 0,
                "a=ice-ufrag:"@ + d.ufrag,
            ) + line_if(d.pwd.len() > 0, "a=ice-pwd:"@ + d.pwd) + icerestart::lines_with(
                master,
                "m="@,
            ) + line_if(mid.len() > 0, "a=mid:"@ + mid) + Seq::new(
                d.candidates.len(),
                |i: int| "a=candidate:"@ + d.candidates[i],
            ) + seq!["a=end-of-candidates"@]
        }),
{
    let master = local.take(icerestart::bundle_end(local));
    let d = icerestart::ice_details(master);
    assert(icerestart::candidate_lines(d.candidates) =~= Seq::new(
        d.candidates.len(),
        |i: int| "a=candidate:"@ + d.candidates[i],
    ));
}

/// Whether a restart leaves `line` alone: it is neither the origin, nor a
/// credential, nor a candidate, nor the mark of the last one.
pub open spec fn is_untouched(line: Seq<char>) -> bool {
    &&& !"o="@.is_prefix_of(line)
    &&& !"a=ice-ufrag:"@.is_prefix_of(line)
    &&& !"a=ice-pwd:"@.is_prefix_of(line)
    &&& !"a=candidate:"@.is_prefix_of(line)
    &&& line != "a=end-of-candidates"@
}

/// A fold goes line by line: a candidate and the mark of the last one are
/// dropped, credentials become the new ones, the origin rises, and every other
/// line stays as it is.
pub proof fn law_fold_line_by_line(lines: Seq<Seq<char>>, line: Seq<char>, d: IceDetailsView)
    ensures
        ({
            let before = icerestart::revised(lines, d);
            let after = icerestart::revised(lines.push(line), d);
            &&& icerestart::revised(Seq::empty(), d) == Seq::<Seq<char>>::empty()
            &&& is_untouched(line) ==> after == before.push(line)
            &&& "a=candidate:"@.is_prefix_of(line) || line == "a=end-of-candidates"@ ==> after
                == before
            &&& "a=ice-ufrag:"@.is_prefix_of(line) ==> after == before.push(
                "a=ice-ufrag:"@ + d.ufrag,
            )
            &&& "a=ice-pwd:"@.is_prefix_of(line) ==> after == before.push("a=ice-pwd:"@ + d.pwd)
            &&& "o="@.is_prefix_of(line) ==> after == before.push(icerestart::next_origin(line))
        }),
{
    assert(lines.push(line).drop_last() =~= lines);
    icerestart_laws::lemma_kinds_exclude(line);
}

/// A folded answer is the old one line by line, with the fragment's candidates
/// and the mark of the last one at the end of the first media section, if there
/// are candidates.
pub proof fn law_fold_inserts_candidates(remote: Seq<Seq<char>>, d: IceDetailsView)
    ensures
        ({
            let end = icerestart::bundle_end(remote);
            let announced = Seq::new(d.candidates.len(), |i: int| "a=candidate:"@ + d.candidates[i])
                + line_if(d.candidates.len() > 0, "a=end-of-candidates"@);
            icerestart::folded(remote, d) == icerestart::revised(remote.take(end), d) + announced
                + icerestart::revised(remote.skip(end), d)
        }),
{
    let announced = Seq::new(d.candidates.len(), |i: int| "a=candidate:"@ + d.candidates[i])
        + line_if(d.candidates.len() > 0, "a=end-of-candidates"@);
    assert(icerestart::candidate_block(d) =~= announced);
}

/// Folding succeeds if and only if the fragment carries both credentials, and
/// then gives the body of the folded lines.
pub proof fn law_fold_needs_credentials(remote: Seq<char>, fragment: Seq<char>)
    ensures
        ({
            let d = icerestart::ice_details(icerestart::sdp_lines(fragment));
            &&& icerestart::folded_answer(remote, fragment) is Some <==> d.ufrag.len() > 0
                && d.pwd.len() > 0
            &&& icerestart::folded_answer(remote, fragment) matches Some(answer) ==> answer
                == icerestart::sdp_text(icerestart::folded(icerestart::sdp_lines(remote), d))
        }),
{
}

/// What a restart is not meant to renegotiate stands in the answer verbatim and
/// in order: every line of the old answer that is neither the origin, nor a
/// credential, nor a candidate, nor the mark of the last one.
pub proof fn law_untouched_lines_stand(remote: Seq<char>, fragment: Seq<char>)
    requires
        icerestart::can_fold(remote, fragment),
    ensures
        ({
            let keep = |l: Seq<char>|
                !"o="@.is_prefix_of(l) && !"a=ice-ufrag:"@.is_prefix_of(l)
                    && !"a=ice-pwd:"@.is_prefix_of(l) && !"a=candidate:"@.is_prefix_of(l) && l
                    != "a=end-of-candidates"@;
            icerestart::folded_answer(remote, fragment) matches Some(answer)
                ==> icerestart::sdp_lines(answer).filter(keep) == icerestart::sdp_lines(
                remote,
            ).filter(keep)
        }),
{
    let keep = |l: Seq<char>|
        !"o="@.is_prefix_of(l) && !"a=ice-ufrag:"@.is_prefix_of(l)
            && !"a=ice-pwd:"@.is_prefix_of(l) && !"a=candidate:"@.is_prefix_of(l) && l
            != "a=end-of-candidates"@;
    if let Some(answer) = icerestart::folded_answer(remote, fragment) {
        let d = icerestart::ice_details(icerestart::sdp_lines(fragment));
        icerestart_laws::law_answer_lines(remote, fragment);
        icerestart_laws::law_fold_changes_ice_generation_only(icerestart::sdp_lines(remote), d);
        assert((|l: Seq<char>| icerestart_laws::is_carried(l)) =~= keep);
    }
}

/// An origin line with at least six fields, the third of them a number, has that
/// number one higher and its fields apart by one blank; every other origin line
/// stays as it is.
pub proof fn law_origin_of_next_revision(line: Seq<char>)
    requires
        "o="@.is_prefix_of(line),
    ensures
        ({
            let fields = text::words(line.skip(2));
            let next = icerestart::next_origin(line);
            &&& fields.len() >= 6 && text::parsed_u64(fields[2]) is Some ==> next == "o="@
                + text::joined(
                fields.update(2, text::decimal((text::parsed_u64(fields[2])->0 + 1) as nat)),
                seq![' '],
            )
            &&& fields.len() < 6 || text::parsed_u64(fields[2]) is None ==> next == line
        }),
{
    reveal_strlit(" ");
    assert(" "@ =~= seq![' ']);
    assert(text::after(line, 2) =~= line.skip(2));
}

/// A line that is no origin line is read as one without its mark.
pub proof fn law_bare_origin(line: Seq<char>)
    requires
        !"o="@.is_prefix_of(line),
    ensures
        ({
            let fields = text::words(line);
            let next = icerestart::next_origin(line);
            &&& fields.len() >= 6 && text::parsed_u64(fields[2]) is Some ==> next
                == icerestart::next_origin("o="@ + line)
            &&& fields.len() < 6 || text::parsed_u64(fields[2]) is None ==> next == line
        }),
{
    reveal_strlit("o=");
    let marked = "o="@ + line;
    assert(marked.subrange(0, 2) =~= "o="@);
    assert(text::after(marked, 2) =~= line);
}

/// The session version on a line can rise unless the line has at least six fields,
/// the third of them the largest number there is.
pub proof fn law_version_can_rise(line: Seq<char>)
    ensures
        ({
            let fields = text::words(
                if "o="@.is_prefix_of(line) {
                    line.skip(2)
                } else {
                    line
                },
            );
            icerestart::origin_can_rise(line) <==> !(fields.len() >= 6 && text::parsed_u64(
                fields[2],
            ) == Some(0xffff_ffff_ffff_ffffu64))
        }),
{
    if "o="@.is_prefix_of(line) {
        assert(text::after(line, 2) =~= line.skip(2));
    }
}

/// Folding is possible unless the fragment carries both credentials and an origin
/// line of the answer has the largest session version there is.
pub proof fn law_fold_is_possible(remote: Seq<char>, fragment: Seq<char>)
    ensures
        ({
            let d = icerestart::ice_details(icerestart::sdp_lines(fragment));
            let lines = icerestart::sdp_lines(remote);
            icerestart::can_fold(remote, fragment) <==> !(d.ufrag.len() > 0 && d.pwd.len() > 0
                && exists|i: int|
                0 <= i < lines.len() && "o="@.is_prefix_of(#[trigger] lines[i]) && text::words(
                    lines[i].skip(2),
                ).len() >= 6 && text::parsed_u64(text::words(lines[i].skip(2))[2]) == Some(
                    0xffff_ffff_ffff_ffffu64,
                ))
        }),
{
    let lines = icerestart::sdp_lines(remote);
    assert forall|i: int| 0 <= i < lines.len() && "o="@.is_prefix_of(#[trigger] lines[i]) implies (
    icerestart::origin_can_rise(lines[i]) <==> !(text::words(lines[i].skip(2)).len() >= 6
        && text::parsed_u64(text::words(lines[i].skip(2))[2]) == Some(0xffff_ffff_ffff_ffffu64))) by {
        assert(text::after(lines[i], 2) =~= lines[i].skip(2));
    }
}

} // verus!
