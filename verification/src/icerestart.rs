//! ICE restart support.
//!
//! An ICE restart swaps only the ICE generation of a session, so nothing above
//! the transport notices. The wire format is an SDP fragment: the new local
//! offer becomes a fragment to PATCH, and the server's reply is folded back
//! into the answer already held.
use vstd::prelude::*;

use crate::text;

verus! {

/// Media type of an ICE restart body.
pub const ICE_FRAGMENT_CONTENT_TYPE: &'static str = "application/trickle-ice-sdpfrag";

/// ICE credentials and candidates read out of an SDP or fragment.
#[derive(Debug, Clone)]
pub struct IceDetails {
    pub ufrag: String,
    pub pwd: String,
    pub candidates: Vec<String>,
}

/// What an [`IceDetails`] says, as texts.
#[verifier::ext_equal]
pub struct IceDetailsView {
    pub ufrag: Seq<char>,
    pub pwd: Seq<char>,
    pub candidates: Seq<Seq<char>>,
}

impl View for IceDetails {
    type V = IceDetailsView;

    open spec fn view(&self) -> IceDetailsView {
        IceDetailsView {
            ufrag: self.ufrag@,
            pwd: self.pwd@,
            candidates: self.candidates.deep_view(),
        }
    }
}

impl Default for IceDetails {
    /// No credentials and no candidates.
    fn default() -> (r: Self)
        ensures
            r@ == (IceDetailsView {
                ufrag: Seq::empty(),
                pwd: Seq::empty(),
                candidates: Seq::empty(),
            }),
    {
        let r = IceDetails {
            ufrag: String::new(),
            pwd: String::new(),
            candidates: Vec::new(),
        };
        assert(r.candidates.deep_view() =~= Seq::empty());
        r
    }
}

impl IceDetailsView {
    /// Whether both credentials are there.
    pub open spec fn has_credentials(self) -> bool {
        self.ufrag.len() > 0 && self.pwd.len() > 0
    }
}

/// `line` without the carriage returns at its end.
pub open spec fn trim_end_cr(line: Seq<char>) -> Seq<char>
    decreases line.len(),
{
    if line.len() > 0 && line.last() == '\r' {
        trim_end_cr(line.drop_last())
    } else {
        line
    }
}

/// The lines of an SDP or fragment: what stands between line feeds, without
/// carriage returns at the end, the empty ones left out.
pub open spec fn sdp_lines(sdp: Seq<char>) -> Seq<Seq<char>> {
    text::nonempty(text::pieces(sdp, |c: char| c == '\n').map_values(|l: Seq<char>| trim_end_cr(l)))
}

/// `lines` as a body: a CR LF between neighbours and one at the end.
pub open spec fn sdp_text(lines: Seq<Seq<char>>) -> Seq<char> {
    text::joined(lines, "\r\n"@) + "\r\n"@
}

/// The lines that begin with `prefix`.
pub open spec fn lines_with(lines: Seq<Seq<char>>, prefix: Seq<char>) -> Seq<Seq<char>>
    decreases lines.len(),
{
    if lines.len() == 0 {
        Seq::empty()
    } else if prefix.is_prefix_of(lines.last()) {
        lines_with(lines.drop_last(), prefix).push(lines.last())
    } else {
        lines_with(lines.drop_last(), prefix)
    }
}

/// What follows `prefix` on each line that begins with it.
pub open spec fn values(lines: Seq<Seq<char>>, prefix: Seq<char>) -> Seq<Seq<char>> {
    lines_with(lines, prefix).map_values(|l: Seq<char>| text::after(l, prefix.len() as int))
}

/// The first of [`values`] that is not empty, or the empty text.
pub open spec fn first_value(lines: Seq<Seq<char>>, prefix: Seq<char>) -> Seq<char> {
    let found = text::nonempty(values(lines, prefix));
    if found.len() > 0 {
        found[0]
    } else {
        Seq::empty()
    }
}

/// The ICE credentials and candidates on `lines`.
pub open spec fn ice_details(lines: Seq<Seq<char>>) -> IceDetailsView {
    IceDetailsView {
        ufrag: first_value(lines, "a=ice-ufrag:"@),
        pwd: first_value(lines, "a=ice-pwd:"@),
        candidates: values(lines, "a=candidate:"@),
    }
}

/// Where the second media section begins, or the number of lines if there is
/// none: what stands before is the session level and the bundle master.
pub open spec fn bundle_end(lines: Seq<Seq<char>>) -> int
    decreases lines.len(),
{
    if lines.len() == 0 {
        0
    } else {
        let end = bundle_end(lines.drop_last());
        if end == lines.len() - 1 && !("m="@.is_prefix_of(lines.last()) && lines_with(
            lines.drop_last(),
            "m="@,
        ).len() > 0) {
            lines.len() as int
        } else {
            end
        }
    }
}

/// One line with `prefix` and `value`, or none if the value is empty.
pub open spec fn line_unless_empty(prefix: Seq<char>, value: Seq<char>) -> Seq<Seq<char>> {
    if value.len() > 0 {
        seq![prefix + value]
    } else {
        Seq::empty()
    }
}

/// A line for each candidate.
pub open spec fn candidate_lines(candidates: Seq<Seq<char>>) -> Seq<Seq<char>> {
    candidates.map_values(|c: Seq<char>| "a=candidate:"@ + c)
}

/// The lines of the fragment that describes a local offer with these lines:
/// the credentials, the m-line of the bundle master, its mid and its
/// candidates.
pub open spec fn fragment_lines(local: Seq<Seq<char>>) -> Seq<Seq<char>> {
    let master = local.take(bundle_end(local));
    let details = ice_details(master);
    line_unless_empty("a=ice-ufrag:"@, details.ufrag) + line_unless_empty(
        "a=ice-pwd:"@,
        details.pwd,
    ) + lines_with(master, "m="@) + line_unless_empty("a=mid:"@, first_value(master, "a=mid:"@))
        + candidate_lines(details.candidates) + seq!["a=end-of-candidates"@]
}

/// The fields of an `o=` line.
pub open spec fn origin_fields(line: Seq<char>) -> Seq<Seq<char>> {
    if "o="@.is_prefix_of(line) {
        text::words(text::after(line, 2))
    } else {
        text::words(line)
    }
}

/// The session version in an `o=` line, if the line is well formed.
pub open spec fn origin_version(line: Seq<char>) -> Option<u64> {
    let fields = origin_fields(line);
    if fields.len() < 6 {
        None
    } else {
        text::parsed_u64(fields[2])
    }
}

/// The `o=` line of the next revision: the same fields with the session
/// version one higher. A malformed line stays as it is.
pub open spec fn next_origin(line: Seq<char>) -> Seq<char> {
    match origin_version(line) {
        Some(v) => "o="@ + text::joined(
            origin_fields(line).update(2, text::decimal((v + 1) as nat)),
            " "@,
        ),
        None => line,
    }
}

/// Whether the session version on `line`, if it has one, can still rise.
pub open spec fn origin_can_rise(line: Seq<char>) -> bool {
    origin_version(line) != Some(u64::MAX)
}

/// Whether a next revision of a description with these lines exists: no
/// session version in it has reached its maximum.
pub open spec fn can_revise(lines: Seq<Seq<char>>) -> bool {
    forall|i: int|
        0 <= i < lines.len() && "o="@.is_prefix_of(#[trigger] lines[i]) ==> origin_can_rise(
            lines[i],
        )
}

/// Whether `line` belongs to the previous ICE generation's candidates.
pub open spec fn is_stale(line: Seq<char>) -> bool {
    "a=candidate:"@.is_prefix_of(line) || line == "a=end-of-candidates"@
}

/// `line` in the next revision, under the new credentials.
pub open spec fn revised_line(line: Seq<char>, details: IceDetailsView) -> Seq<char> {
    if "o="@.is_prefix_of(line) {
        next_origin(line)
    } else if "a=ice-ufrag:"@.is_prefix_of(line) {
        "a=ice-ufrag:"@ + details.ufrag
    } else if "a=ice-pwd:"@.is_prefix_of(line) {
        "a=ice-pwd:"@ + details.pwd
    } else {
        line
    }
}

/// The lines that survive a restart, each revised.
pub open spec fn revised(lines: Seq<Seq<char>>, details: IceDetailsView) -> Seq<Seq<char>>
    decreases lines.len(),
{
    if lines.len() == 0 {
        Seq::empty()
    } else if is_stale(lines.last()) {
        revised(lines.drop_last(), details)
    } else {
        revised(lines.drop_last(), details).push(revised_line(lines.last(), details))
    }
}

/// The lines that announce the new candidates: none if there are no
/// candidates, else one for each and a mark of the end.
pub open spec fn candidate_block(details: IceDetailsView) -> Seq<Seq<char>> {
    if details.candidates.len() > 0 {
        candidate_lines(details.candidates).push("a=end-of-candidates"@)
    } else {
        Seq::empty()
    }
}

/// The lines of the answer after a restart: everything revised, the new
/// candidates at the end of the first media section.
pub open spec fn folded(remote: Seq<Seq<char>>, details: IceDetailsView) -> Seq<Seq<char>> {
    let end = bundle_end(remote);
    revised(remote.take(end), details) + candidate_block(details) + revised(
        remote.skip(end),
        details,
    )
}

/// The answer after folding `fragment` into `remote`; none if the fragment
/// carries no credentials.
pub open spec fn folded_answer(remote: Seq<char>, fragment: Seq<char>) -> Option<Seq<char>> {
    let details = ice_details(sdp_lines(fragment));
    if details.has_credentials() {
        Some(sdp_text(folded(sdp_lines(remote), details)))
    } else {
        None
    }
}

/// Whether folding `fragment` into `remote` is possible at all: it is not when
/// it would raise a session version past its maximum.
pub open spec fn can_fold(remote: Seq<char>, fragment: Seq<char>) -> bool {
    ice_details(sdp_lines(fragment)).has_credentials() ==> can_revise(sdp_lines(remote))
}

/// Drops the carriage returns at the end of `line`.
fn trim_line(line: &str) -> (r: String)
    ensures
        r@ == trim_end_cr(line@),
{
    let mut n: usize = line.unicode_len();
    assert(line@.take(n as int) =~= line@);
    while n > 0 && line.get_char(n - 1) == '\r'
        invariant
            n <= line@.len(),
            trim_end_cr(line@.take(n as int)) == trim_end_cr(line@),
        decreases n,
    {
        assert(line@.take(n as int).drop_last() =~= line@.take(n - 1));
        n -= 1;
    }
    assert(line@.subrange(0, n as int) =~= line@.take(n as int));
    line.substring_char(0, n).to_owned()
}

/// Adds `line` to `out` as a line of an SDP, unless nothing is left of it.
fn push_trimmed(out: &mut Vec<String>, line: &str)
    ensures
        trim_end_cr(line@).len() == 0 ==> final(out).deep_view() == old(out).deep_view(),
        trim_end_cr(line@).len() > 0 ==> final(out).deep_view() == old(out).deep_view().push(
            trim_end_cr(line@),
        ),
{
    let trimmed = trim_line(line);
    if !trimmed.as_str().is_empty() {
        let ghost before = *out;
        out.push(trimmed);
        proof {
            text::lemma_deep_push(before, *out, trimmed);
        }
    }
}

/// Splits an SDP or fragment into lines, tolerating LF-only bodies.
pub fn split_sdp_lines(sdp: &str) -> (r: Vec<String>)
    ensures
        r.deep_view() == sdp_lines(sdp@),
{
    let ghost sep = |c: char| c == '\n';
    let ghost trim = |l: Seq<char>| trim_end_cr(l);
    let ghost mut raw: Seq<Seq<char>> = Seq::empty();
    let mut out: Vec<String> = Vec::new();
    let mut cur = String::new();
    assert(out.deep_view() =~= text::nonempty(raw.map_values(trim)));
    assert(text::pieces(sdp@.take(0), sep) =~= raw.push(cur@));
    for c in it: sdp.chars()
        invariant
            it.seq() == sdp@,
            sep == (|c: char| c == '\n'),
            trim == (|l: Seq<char>| trim_end_cr(l)),
            text::pieces(sdp@.take(it.index() as int), sep) == raw.push(cur@),
            out.deep_view() == text::nonempty(raw.map_values(trim)),
    {
        proof {
            let seen = sdp@.take(it.index() + 1);
            assert(seen.drop_last() =~= sdp@.take(it.index() as int));
            assert(seen.last() == c);
            assert(raw.push(cur@).drop_last() =~= raw);
        }
        if c == '\n' {
            push_trimmed(&mut out, cur.as_str());
            proof {
                let next = raw.push(cur@);
                assert(next.map_values(trim).drop_last() =~= raw.map_values(trim));
                raw = next;
            }
            cur = String::new();
        } else {
            cur.push(c);
        }
    }
    assert(sdp@.take(sdp@.len() as int) =~= sdp@);
    assert(raw.push(cur@).map_values(trim).drop_last() =~= raw.map_values(trim));
    push_trimmed(&mut out, cur.as_str());
    out
}

/// The values after `prefix` on the first `n` lines.
fn read_values(lines: &Vec<String>, n: usize, prefix: &str) -> (r: Vec<String>)
    requires
        n <= lines.len(),
    ensures
        r.deep_view() == values(lines.deep_view().take(n as int), prefix@),
{
    let ghost all = lines.deep_view();
    let ghost cut = |l: Seq<char>| text::after(l, prefix@.len() as int);
    let mut out: Vec<String> = Vec::new();
    let mut i: usize = 0;
    assert(out.deep_view() =~= values(all.take(0), prefix@));
    while i < n
        invariant
            i <= n <= lines.len(),
            all == lines.deep_view(),
            cut == (|l: Seq<char>| text::after(l, prefix@.len() as int)),
            out.deep_view() == lines_with(all.take(i as int), prefix@).map_values(cut),
        decreases n - i,
    {
        proof {
            let seen = all.take(i + 1);
            assert(seen.drop_last() =~= all.take(i as int));
            assert(seen.last() == lines[i as int]@);
        }
        if let Some(value) = text::without_prefix(lines[i].as_str(), prefix) {
            let ghost before = out;
            let ghost value_text = value@;
            out.push(value);
            proof {
                text::lemma_deep_push(before, out, value);
                let found = lines_with(all.take(i as int), prefix@);
                assert(found.push(all[i as int]).map_values(cut) =~= found.map_values(cut).push(
                    value_text,
                ));
            }
        }
        i += 1;
    }
    out
}

/// The first value after `prefix` on the first `n` lines that is not empty.
fn read_first_value(lines: &Vec<String>, n: usize, prefix: &str) -> (r: String)
    requires
        n <= lines.len(),
    ensures
        r@ == first_value(lines.deep_view().take(n as int), prefix@),
{
    let found = read_values(lines, n, prefix);
    let ghost all = found.deep_view();
    let mut i: usize = 0;
    while i < found.len()
        invariant
            i <= found.len(),
            all == found.deep_view(),
            all == values(lines.deep_view().take(n as int), prefix@),
            text::nonempty(all.take(i as int)).len() == 0,
        decreases found.len() - i,
    {
        proof {
            let seen = all.take(i + 1);
            assert(seen.drop_last() =~= all.take(i as int));
            assert(seen.last() == found[i as int]@);
        }
        if !found[i].as_str().is_empty() {
            proof {
                lemma_nonempty_first(all, i + 1);
            }
            return found[i].clone();
        }
        i += 1;
    }
    assert(all.take(i as int) =~= all);
    String::new()
}

/// The first nonempty member of a beginning of `items` is the first of all.
proof fn lemma_nonempty_first(items: Seq<Seq<char>>, n: int)
    requires
        0 <= n <= items.len(),
        text::nonempty(items.take(n)).len() > 0,
    ensures
        text::nonempty(items).len() > 0,
        text::nonempty(items)[0] == text::nonempty(items.take(n))[0],
    decreases items.len() - n,
{
    if n < items.len() {
        assert(items.take(n + 1).drop_last() =~= items.take(n));
        lemma_nonempty_first(items, n + 1);
    } else {
        assert(items.take(n) =~= items);
    }
}

/// Reads the ICE details off the first `n` lines.
fn read_details(lines: &Vec<String>, n: usize) -> (r: IceDetails)
    requires
        n <= lines.len(),
    ensures
        r@ == ice_details(lines.deep_view().take(n as int)),
{
    IceDetails {
        ufrag: read_first_value(lines, n, "a=ice-ufrag:"),
        pwd: read_first_value(lines, n, "a=ice-pwd:"),
        candidates: read_values(lines, n, "a=candidate:"),
    }
}

/// Reads the ICE credentials and candidates out of an SDP or fragment.
/// Credentials may sit at session or media level; the first of each that is
/// not empty wins, which is what a bundled description means anyway.
pub fn parse_ice_details(sdp: &str) -> (r: IceDetails)
    ensures
        r@ == ice_details(sdp_lines(sdp@)),
{
    let lines = split_sdp_lines(sdp);
    assert(lines.deep_view().take(lines.len() as int) =~= lines.deep_view());
    read_details(&lines, lines.len())
}

/// Finds where the second media section begins.
fn find_bundle_end(lines: &Vec<String>) -> (r: usize)
    ensures
        r <= lines.len(),
        r == bundle_end(lines.deep_view()),
{
    let ghost all = lines.deep_view();
    let mut media = false;
    let mut i: usize = 0;
    while i < lines.len()
        invariant
            i <= lines.len(),
            all == lines.deep_view(),
            bundle_end(all.take(i as int)) == i,
            media == (lines_with(all.take(i as int), "m="@).len() > 0),
        decreases lines.len() - i,
    {
        proof {
            let seen = all.take(i + 1);
            assert(seen.drop_last() =~= all.take(i as int));
            assert(seen.last() == lines[i as int]@);
        }
        if text::has_prefix(lines[i].as_str(), "m=") {
            if media {
                proof {
                    lemma_bundle_end_found(all, i + 1);
                }
                return i;
            }
            media = true;
        }
        i += 1;
    }
    assert(all.take(i as int) =~= all);
    i
}

/// Once found, the end of the bundle master does not move.
proof fn lemma_bundle_end_found(lines: Seq<Seq<char>>, n: int)
    requires
        0 <= n <= lines.len(),
        bundle_end(lines.take(n)) < n,
    ensures
        bundle_end(lines) == bundle_end(lines.take(n)),
    decreases lines.len() - n,
{
    if n < lines.len() {
        assert(lines.take(n + 1).drop_last() =~= lines.take(n));
        lemma_bundle_end_found(lines, n + 1);
    } else {
        assert(lines.take(n) =~= lines);
    }
}

/// Adds the line `prefix` + `value` to `out`.
fn push_line(out: &mut Vec<String>, prefix: &str, value: &str)
    ensures
        final(out).deep_view() == old(out).deep_view().push(prefix@ + value@),
{
    let line = text::concatenate(prefix, value);
    let ghost before = *out;
    out.push(line);
    proof {
        text::lemma_deep_push(before, *out, line);
    }
}

/// Adds the line `prefix` + `value` to `out`, unless the value is empty.
fn push_line_unless_empty(out: &mut Vec<String>, prefix: &str, value: &str)
    ensures
        final(out).deep_view() == old(out).deep_view() + line_unless_empty(prefix@, value@),
{
    if !value.is_empty() {
        push_line(out, prefix, value);
    }
}

/// Adds a line for each candidate to `out`.
fn push_candidates(out: &mut Vec<String>, candidates: &Vec<String>)
    ensures
        final(out).deep_view() == old(out).deep_view() + candidate_lines(candidates.deep_view()),
{
    let ghost start = out.deep_view();
    let ghost all = candidates.deep_view();
    let mut i: usize = 0;
    while i < candidates.len()
        invariant
            i <= candidates.len(),
            all == candidates.deep_view(),
            out.deep_view() =~= start + candidate_lines(all.take(i as int)),
        decreases candidates.len() - i,
    {
        push_line(out, "a=candidate:", candidates[i].as_str());
        i += 1;
    }
    assert(all.take(i as int) =~= all);
}

/// Adds the first `n` lines that begin with `prefix` to `out`.
fn push_lines_with(out: &mut Vec<String>, lines: &Vec<String>, n: usize, prefix: &str)
    requires
        n <= lines.len(),
    ensures
        final(out).deep_view() == old(out).deep_view() + lines_with(
            lines.deep_view().take(n as int),
            prefix@,
        ),
{
    let ghost start = out.deep_view();
    let ghost all = lines.deep_view();
    let mut i: usize = 0;
    while i < n
        invariant
            i <= n <= lines.len(),
            all == lines.deep_view(),
            out.deep_view() =~= start + lines_with(all.take(i as int), prefix@),
        decreases n - i,
    {
        proof {
            let seen = all.take(i + 1);
            assert(seen.drop_last() =~= all.take(i as int));
            assert(seen.last() == lines[i as int]@);
        }
        if text::has_prefix(lines[i].as_str(), prefix) {
            let line = lines[i].clone();
            let ghost before = *out;
            out.push(line);
            proof {
                text::lemma_deep_push(before, *out, line);
            }
        }
        i += 1;
    }
}

/// Renders lines as a body.
fn render_sdp(lines: &Vec<String>) -> (r: String)
    ensures
        r@ == sdp_text(lines.deep_view()),
{
    text::concatenate(text::join(lines, "\r\n").as_str(), "\r\n")
}

/// Renders a local offer as the fragment to PATCH: the credentials, then the
/// bundle-master m-line with its mid and candidates.
pub fn ice_fragment_from_sdp(local_sdp: &str) -> (r: String)
    ensures
        r@ == sdp_text(fragment_lines(sdp_lines(local_sdp@))),
{
    let lines = split_sdp_lines(local_sdp);
    let n: usize = find_bundle_end(&lines);
    let details = read_details(&lines, n);
    let mid = read_first_value(&lines, n, "a=mid:");

    let mut out: Vec<String> = Vec::new();
    push_line_unless_empty(&mut out, "a=ice-ufrag:", details.ufrag.as_str());
    push_line_unless_empty(&mut out, "a=ice-pwd:", details.pwd.as_str());
    push_lines_with(&mut out, &lines, n, "m=");
    push_line_unless_empty(&mut out, "a=mid:", mid.as_str());
    push_candidates(&mut out, &details.candidates);
    push_line(&mut out, "", "a=end-of-candidates");
    proof {
        reveal_strlit("");
        assert(""@ + "a=end-of-candidates"@ =~= "a=end-of-candidates"@);
        assert(out.deep_view() =~= fragment_lines(lines.deep_view()));
    }
    render_sdp(&out)
}

/// The fields of an `o=` line.
fn read_origin_fields(line: &str) -> (r: Vec<String>)
    ensures
        r.deep_view() == origin_fields(line@),
{
    proof {
        reveal_strlit("o=");
    }
    match text::without_prefix(line, "o=") {
        Some(rest) => text::split_words(rest.as_str()),
        None => text::split_words(line),
    }
}

/// Increments the session version in an `o=` line, which is how JSEP marks a
/// description as a new revision of the same session. A line that is not well
/// formed is left alone.
pub fn bump_sdp_origin(line: &str) -> (r: String)
    requires
        origin_can_rise(line@),
    ensures
        r@ == next_origin(line@),
{
    let mut fields = read_origin_fields(line);
    if fields.len() < 6 {
        return line.to_owned();
    }
    let ghost before = fields.deep_view();
    match text::parse_u64(fields[2].as_str()) {
        Some(v) => {
            fields.set(2, text::render_u64(v + 1));
            assert(fields.deep_view() =~= before.update(2, text::decimal((v + 1) as nat)));
            text::concatenate("o=", text::join(&fields, " ").as_str())
        },
        None => line.to_owned(),
    }
}

/// Whether every session version on `lines` can still rise.
fn check_can_revise(lines: &Vec<String>) -> (r: bool)
    ensures
        r == can_revise(lines.deep_view()),
{
    let mut i: usize = 0;
    while i < lines.len()
        invariant
            i <= lines.len(),
            forall|k: int|
                0 <= k < i && "o="@.is_prefix_of(#[trigger] lines.deep_view()[k])
                    ==> origin_can_rise(lines.deep_view()[k]),
        decreases lines.len() - i,
    {
        assert(lines.deep_view()[i as int] == lines[i as int]@);
        if text::has_prefix(lines[i].as_str(), "o=") {
            let fields = read_origin_fields(lines[i].as_str());
            if fields.len() >= 6 {
                if let Some(v) = text::parse_u64(fields[2].as_str()) {
                    if v == u64::MAX {
                        return false;
                    }
                }
            }
        }
        i += 1;
    }
    true
}

/// Whether [`apply_ice_fragment`] can fold `fragment` into `remote_sdp`
/// without a session version passing its maximum.
pub fn can_apply_ice_fragment(remote_sdp: &str, fragment: &str) -> (r: bool)
    ensures
        r == can_fold(remote_sdp@, fragment@),
{
    let details = parse_ice_details(fragment);
    if details.ufrag.as_str().is_empty() || details.pwd.as_str().is_empty() {
        return true;
    }
    check_can_revise(&split_sdp_lines(remote_sdp))
}

/// Revises one line.
fn revise_line(line: &str, details: &IceDetails) -> (r: String)
    requires
        "o="@.is_prefix_of(line@) ==> origin_can_rise(line@),
    ensures
        r@ == revised_line(line@, details@),
{
    if text::has_prefix(line, "o=") {
        bump_sdp_origin(line)
    } else if text::has_prefix(line, "a=ice-ufrag:") {
        text::concatenate("a=ice-ufrag:", details.ufrag.as_str())
    } else if text::has_prefix(line, "a=ice-pwd:") {
        text::concatenate("a=ice-pwd:", details.pwd.as_str())
    } else {
        line.to_owned()
    }
}

/// Adds the lines from `from` up to `to` that survive a restart to `out`.
fn push_revised(
    out: &mut Vec<String>,
    lines: &Vec<String>,
    from: usize,
    to: usize,
    details: &IceDetails,
)
    requires
        from <= to <= lines.len(),
        can_revise(lines.deep_view()),
    ensures
        final(out).deep_view() == old(out).deep_view() + revised(
            lines.deep_view().subrange(from as int, to as int),
            details@,
        ),
{
    let ghost start = out.deep_view();
    let ghost all = lines.deep_view();
    let mut i: usize = from;
    assert(out.deep_view() =~= start + revised(all.subrange(from as int, i as int), details@));
    while i < to
        invariant
            from <= i <= to <= lines.len(),
            all == lines.deep_view(),
            can_revise(all),
            out.deep_view() == start + revised(all.subrange(from as int, i as int), details@),
        decreases to - i,
    {
        let line = lines[i].as_str();
        proof {
            let seen = all.subrange(from as int, i + 1);
            assert(seen.drop_last() =~= all.subrange(from as int, i as int));
            assert(seen.last() == line@);
            assert(all[i as int] == line@);
        }
        if !text::has_prefix(line, "a=candidate:") && !text::same_text(line, "a=end-of-candidates") {
            let revised_text = revise_line(line, details);
            let ghost before = *out;
            out.push(revised_text);
            proof {
                text::lemma_deep_push(before, *out, revised_text);
                assert(out.deep_view() =~= start + revised(
                    all.subrange(from as int, i + 1),
                    details@,
                ));
            }
        }
        i += 1;
    }
}

/// Folds the server's reply fragment into the answer already held, producing
/// a full SDP.
///
/// Only the ICE generation changes: credentials are replaced wherever they
/// appear, stale candidates are dropped, and the new ones are inserted into
/// the first media section. Everything else is carried over verbatim, because
/// a restart is not meant to renegotiate any of it.
///
/// Returns `None` if the fragment carries no credentials, which would mean it
/// is not a restart reply at all.
pub fn apply_ice_fragment(remote_sdp: &str, fragment: &str) -> (r: Option<String>)
    requires
        can_fold(remote_sdp@, fragment@),
    ensures
        r is Some == folded_answer(remote_sdp@, fragment@) is Some,
        r matches Some(sdp) ==> Some(sdp@) == folded_answer(remote_sdp@, fragment@),
{
    let details = parse_ice_details(fragment);
    if details.ufrag.as_str().is_empty() || details.pwd.as_str().is_empty() {
        return None;
    }
    let lines = split_sdp_lines(remote_sdp);
    let n: usize = find_bundle_end(&lines);
    let ghost all = lines.deep_view();

    let mut out: Vec<String> = Vec::new();
    push_revised(&mut out, &lines, 0, n, &details);
    if details.candidates.len() > 0 {
        push_candidates(&mut out, &details.candidates);
        push_line(&mut out, "", "a=end-of-candidates");
    }
    push_revised(&mut out, &lines, n, lines.len(), &details);
    proof {
        reveal_strlit("");
        assert(""@ + "a=end-of-candidates"@ =~= "a=end-of-candidates"@);
        assert(all.subrange(0, n as int) =~= all.take(n as int));
        assert(all.subrange(n as int, all.len() as int) =~= all.skip(n as int));
        assert(out.deep_view() =~= folded(all, details@));
    }
    Some(render_sdp(&out))
}

} // verus!
