//! How splitting and joining texts undo each other.
use vstd::prelude::*;

use crate::text;

verus! {

/// Whether `sep` picks out no character of `s`.
pub open spec fn free_of(s: Seq<char>, sep: spec_fn(char) -> bool) -> bool {
    forall|i: int| 0 <= i < s.len() ==> !sep(#[trigger] s[i])
}

/// There is always at least one piece.
pub proof fn lemma_pieces_len(s: Seq<char>, sep: spec_fn(char) -> bool)
    ensures
        text::pieces(s, sep).len() > 0,
    decreases s.len(),
{
    if s.len() > 0 {
        lemma_pieces_len(s.drop_last(), sep);
    }
}

/// No piece holds a separator.
pub proof fn lemma_pieces_free(s: Seq<char>, sep: spec_fn(char) -> bool)
    ensures
        forall|k: int|
            0 <= k < text::pieces(s, sep).len() ==> free_of(#[trigger] text::pieces(s, sep)[k], sep),
    decreases s.len(),
{
    if s.len() > 0 {
        lemma_pieces_len(s.drop_last(), sep);
        lemma_pieces_free(s.drop_last(), sep);
        let before = text::pieces(s.drop_last(), sep);
        assert(free_of(before[before.len() - 1], sep));
    }
}

/// Text without separators only makes the last piece longer.
pub proof fn lemma_pieces_extend(s: Seq<char>, w: Seq<char>, sep: spec_fn(char) -> bool)
    requires
        free_of(w, sep),
    ensures
        text::pieces(s + w, sep) == text::pieces(s, sep).drop_last().push(
            text::pieces(s, sep).last() + w,
        ),
    decreases w.len(),
{
    lemma_pieces_len(s, sep);
    let p = text::pieces(s, sep);
    if w.len() == 0 {
        assert(s + w =~= s);
        assert(p.last() + w =~= p.last());
        assert(p.drop_last().push(p.last()) =~= p);
    } else {
        let v = w.drop_last();
        assert(!sep(w[w.len() - 1]));
        assert forall|i: int| 0 <= i < v.len() implies !sep(#[trigger] v[i]) by {
            assert(v[i] == w[i]);
        }
        lemma_pieces_extend(s, v, sep);
        assert((s + w).drop_last() =~= s + v);
        let q = p.drop_last().push(p.last() + v);
        assert(q.drop_last() =~= p.drop_last());
        assert((p.last() + v).push(w.last()) =~= p.last() + w);
    }
}

/// A separator at the end opens a new, empty piece.
pub proof fn lemma_pieces_push_separator(s: Seq<char>, c: char, sep: spec_fn(char) -> bool)
    requires
        sep(c),
    ensures
        text::pieces(s.push(c), sep) == text::pieces(s, sep).push(Seq::empty()),
{
    assert(s.push(c).drop_last() =~= s);
}

/// Items that hold no separator, joined by one, are split into the same items.
pub proof fn law_pieces_of_joined(items: Seq<Seq<char>>, c: char, sep: spec_fn(char) -> bool)
    requires
        items.len() > 0,
        sep(c),
        forall|i: int| 0 <= i < items.len() ==> free_of(#[trigger] items[i], sep),
    ensures
        text::pieces(text::joined(items, seq![c]), sep) == items,
    decreases items.len(),
{
    let last = items.last();
    assert(free_of(items[items.len() - 1], sep));
    if items.len() == 1 {
        lemma_pieces_extend(Seq::empty(), last, sep);
        assert(Seq::<char>::empty() + last =~= last);
        assert(text::pieces(Seq::empty(), sep) =~= seq![Seq::empty()]);
        assert(text::pieces(last, sep) =~= items);
    } else {
        let front = items.drop_last();
        assert forall|i: int| 0 <= i < front.len() implies free_of(#[trigger] front[i], sep) by {
            assert(front[i] == items[i]);
        }
        law_pieces_of_joined(front, c, sep);
        let head = text::joined(front, seq![c]);
        lemma_pieces_push_separator(head, c, sep);
        assert(head + seq![c] =~= head.push(c));
        lemma_pieces_extend(head.push(c), last, sep);
        assert(Seq::<char>::empty() + last =~= last);
        assert(front.push(Seq::empty()).drop_last() =~= front);
        assert(front.push(last) =~= items);
    }
}

/// Dropping the empty members leaves members that are not empty, each from the
/// given sequence.
pub proof fn lemma_nonempty_members(items: Seq<Seq<char>>)
    ensures
        forall|k: int|
            0 <= k < text::nonempty(items).len() ==> (#[trigger] text::nonempty(items)[k]).len() > 0
                && items.contains(text::nonempty(items)[k]),
    decreases items.len(),
{
    if items.len() > 0 {
        let front = items.drop_last();
        lemma_nonempty_members(front);
        assert forall|k: int| 0 <= k < text::nonempty(items).len() implies (
        #[trigger] text::nonempty(items)[k]).len() > 0 && items.contains(
            text::nonempty(items)[k],
        ) by {
            let m = text::nonempty(items)[k];
            if k < text::nonempty(front).len() {
                assert(m == text::nonempty(front)[k]);
                let j = choose|j: int| 0 <= j < front.len() && front[j] == m;
                assert(items[j] == m);
            } else {
                assert(items[items.len() - 1] == m);
            }
        }
    }
}

/// If no member is empty, none is dropped.
pub proof fn lemma_nonempty_all(items: Seq<Seq<char>>)
    requires
        forall|i: int| 0 <= i < items.len() ==> (#[trigger] items[i]).len() > 0,
    ensures
        text::nonempty(items) == items,
    decreases items.len(),
{
    if items.len() > 0 {
        let front = items.drop_last();
        assert forall|i: int| 0 <= i < front.len() implies (#[trigger] front[i]).len() > 0 by {
            assert(front[i] == items[i]);
        }
        lemma_nonempty_all(front);
        assert(items[items.len() - 1].len() > 0);
        assert(front.push(items.last()) =~= items);
    } else {
        assert(text::nonempty(items) =~= items);
    }
}

/// Whether `s` is a word: not empty and without white space.
pub open spec fn is_word(s: Seq<char>) -> bool {
    s.len() > 0 && free_of(s, |c: char| text::white_space(c))
}

/// What [`text::words`] gives are words.
pub proof fn lemma_words_are_words(s: Seq<char>)
    ensures
        forall|k: int| 0 <= k < text::words(s).len() ==> is_word(#[trigger] text::words(s)[k]),
{
    let sep = |c: char| text::white_space(c);
    let p = text::pieces(s, sep);
    lemma_pieces_free(s, sep);
    lemma_nonempty_members(p);
    assert forall|k: int| 0 <= k < text::words(s).len() implies is_word(
        #[trigger] text::words(s)[k],
    ) by {
        let m = text::nonempty(p)[k];
        let j = choose|j: int| 0 <= j < p.len() && p[j] == m;
        assert(free_of(p[j], sep));
    }
}

/// Words joined by single blanks are split into the same words.
pub proof fn law_words_of_joined(items: Seq<Seq<char>>)
    requires
        forall|i: int| 0 <= i < items.len() ==> is_word(#[trigger] items[i]),
    ensures
        text::words(text::joined(items, " "@)) == items,
{
    let sep = |c: char| text::white_space(c);
    reveal_strlit(" ");
    assert(" "@ =~= seq![' ']);
    if items.len() == 0 {
        assert(text::pieces(Seq::empty(), sep) =~= seq![Seq::<char>::empty()]);
        let p = seq![Seq::<char>::empty()];
        assert(p.drop_last() =~= Seq::empty());
        assert(text::nonempty(p) =~= text::nonempty(p.drop_last()));
        assert(text::nonempty(p) =~= items);
    } else {
        assert forall|i: int| 0 <= i < items.len() implies free_of(#[trigger] items[i], sep) by {
            assert(is_word(items[i]));
        }
        assert forall|i: int| 0 <= i < items.len() implies (#[trigger] items[i]).len() > 0 by {
            assert(is_word(items[i]));
        }
        law_pieces_of_joined(items, ' ', sep);
        lemma_nonempty_all(items);
    }
}

/// A text that words and blanks were joined into holds no white space but
/// blanks, and does not end in one.
pub proof fn lemma_joined_words(items: Seq<Seq<char>>)
    requires
        items.len() > 0,
        forall|i: int| 0 <= i < items.len() ==> is_word(#[trigger] items[i]),
    ensures
        text::joined(items, " "@).len() > 0,
        !text::white_space(text::joined(items, " "@).last()),
        forall|k: int|
            0 <= k < text::joined(items, " "@).len() ==> (text::white_space(
                #[trigger] text::joined(items, " "@)[k],
            ) ==> text::joined(items, " "@)[k] == ' '),
    decreases items.len(),
{
    reveal_strlit(" ");
    let last = items.last();
    let sep = |c: char| text::white_space(c);
    assert(is_word(items[items.len() - 1]));
    assert(!sep(last[last.len() - 1]));
    assert forall|k: int| 0 <= k < last.len() implies !text::white_space(#[trigger] last[k]) by {
        assert(!sep(last[k]));
    }
    if items.len() > 1 {
        let front = items.drop_last();
        assert forall|i: int| 0 <= i < front.len() implies is_word(#[trigger] front[i]) by {
            assert(front[i] == items[i]);
        }
        lemma_joined_words(front);
        let head = text::joined(front, " "@);
        let all = text::joined(items, " "@);
        assert(all == head + " "@ + last);
        assert forall|k: int|
            0 <= k < all.len() && text::white_space(#[trigger] all[k]) implies all[k] == ' ' by {
            if k < head.len() {
                assert(all[k] == head[k]);
            } else if k > head.len() {
                assert(all[k] == last[k - head.len() - 1]);
            }
        }
    }
}

/// A separator parts what stands before it from what stands after: the pieces are
/// those of the one and then those of the other.
pub proof fn law_separator_parts(a: Seq<char>, c: char, b: Seq<char>, sep: spec_fn(char) -> bool)
    requires
        sep(c),
    ensures
        text::pieces(a.push(c) + b, sep) == text::pieces(a, sep) + text::pieces(b, sep),
    decreases b.len(),
{
    let p = text::pieces(a, sep);
    lemma_pieces_push_separator(a, c, sep);
    if b.len() == 0 {
        assert(a.push(c) + b =~= a.push(c));
        assert(text::pieces(b, sep) =~= seq![Seq::empty()]);
        assert(p.push(Seq::empty()) =~= p + seq![Seq::<char>::empty()]);
    } else {
        let front = b.drop_last();
        law_separator_parts(a, c, front, sep);
        assert((a.push(c) + b).drop_last() =~= a.push(c) + front);
        let q = text::pieces(front, sep);
        lemma_pieces_len(front, sep);
        if sep(b.last()) {
            assert((p + q).push(Seq::empty()) =~= p + q.push(Seq::empty()));
        } else {
            assert((p + q).last() == q.last());
            assert((p + q).drop_last() =~= p + q.drop_last());
            let last = q.last().push(b.last());
            assert((p + q.drop_last()).push(last) =~= p + q.drop_last().push(last));
        }
    }
}

/// A text without separators is one piece.
pub proof fn law_one_piece(s: Seq<char>, sep: spec_fn(char) -> bool)
    requires
        forall|i: int| 0 <= i < s.len() ==> !sep(#[trigger] s[i]),
    ensures
        text::pieces(s, sep) == seq![s],
{
    lemma_pieces_extend(Seq::empty(), s, sep);
    assert(Seq::<char>::empty() + s =~= s);
    assert(text::pieces(Seq::empty(), sep) =~= seq![Seq::empty()]);
    assert(text::pieces(s, sep) =~= seq![s]);
}

/// Joining nothing gives nothing, joining one item gives the item, and each
/// further item comes after a separator.
pub proof fn law_joined_grows(items: Seq<Seq<char>>, item: Seq<char>, sep: Seq<char>)
    ensures
        text::joined(Seq::empty(), sep) == Seq::<char>::empty(),
        text::joined(seq![item], sep) == item,
        items.len() > 0 ==> text::joined(items.push(item), sep) == text::joined(items, sep) + sep
            + item,
{
    assert(items.push(item).drop_last() =~= items);
}

/// Dropping what is empty keeps the rest in order: it may be done in parts, drops
/// an empty text, and keeps any other.
pub proof fn law_nonempty_in_parts(a: Seq<Seq<char>>, b: Seq<Seq<char>>, item: Seq<char>)
    ensures
        text::nonempty(a + b) == text::nonempty(a) + text::nonempty(b),
        text::nonempty(Seq::empty()) == Seq::<Seq<char>>::empty(),
        text::nonempty(seq![item]) == (if item.len() > 0 {
            seq![item]
        } else {
            Seq::empty()
        }),
    decreases b.len(),
{
    let one = seq![item];
    assert(one.drop_last() =~= Seq::empty());
    assert(text::nonempty(one.drop_last()) =~= Seq::empty());
    if item.len() > 0 {
        assert(text::nonempty(one) =~= one);
    }
    if b.len() == 0 {
        assert(a + b =~= a);
        assert(text::nonempty(a) + text::nonempty(b) =~= text::nonempty(a));
    } else {
        let front = b.drop_last();
        law_nonempty_in_parts(a, front, item);
        assert((a + b).drop_last() =~= a + front);
        if b.last().len() > 0 {
            assert((text::nonempty(a) + text::nonempty(front)).push(b.last()) =~= text::nonempty(a)
                + text::nonempty(front).push(b.last()));
        }
    }
}

/// White space parts words: the words are those before it and then those after.
/// A text without white space is one word, or none if it is empty.
pub proof fn law_white_space_parts_words(a: Seq<char>, c: char, b: Seq<char>)
    ensures
        text::white_space(c) ==> text::words(a.push(c) + b) == text::words(a) + text::words(b),
        (forall|i: int| 0 <= i < a.len() ==> !text::white_space(#[trigger] a[i])) ==> text::words(a)
            == (if a.len() > 0 {
            seq![a]
        } else {
            Seq::empty()
        }),
{
    let sep = |x: char| text::white_space(x);
    if text::white_space(c) {
        law_separator_parts(a, c, b, sep);
        law_nonempty_in_parts(text::pieces(a, sep), text::pieces(b, sep), a);
    }
    if forall|i: int| 0 <= i < a.len() ==> !text::white_space(#[trigger] a[i]) {
        law_one_piece(a, sep);
        law_nonempty_in_parts(Seq::empty(), Seq::empty(), a);
    }
}

/// White space is the characters with these code points and no others.
pub proof fn law_white_space(c: char)
    ensures
        text::white_space(c) <==> {
            let code = c as int;
            ||| 9 <= code <= 13
            ||| code == 32
            ||| code == 0x85
            ||| code == 0xa0
            ||| code == 0x1680
            ||| 0x2000 <= code <= 0x200a
            ||| code == 0x2028
            ||| code == 0x2029
            ||| code == 0x202f
            ||| code == 0x205f
            ||| code == 0x3000
        },
{
}

/// Appending a digit to a rendered number renders ten times the number and the
/// digit; a number below ten is its digit.
pub proof fn law_decimal_appends(n: nat, d: nat)
    requires
        d < 10,
    ensures
        text::decimal(d) == seq![('0' as int + d) as char],
        n > 0 ==> text::decimal(10 * n + d) == text::decimal(n).push(('0' as int + d) as char),
{
    if n > 0 {
        assert((10 * n + d) / 10 == n);
        assert((10 * n + d) % 10 == d);
    }
}

/// A digit at the end of a run of digits makes it denote ten times as much and
/// the digit.
pub proof fn law_digits_denote(s: Seq<char>, c: char)
    requires
        '0' <= c <= '9',
    ensures
        text::digits_value(Seq::empty()) == 0,
        text::digits_value(s.push(c)) == 10 * text::digits_value(s) + (c as int - '0' as int),
{
    assert(s.push(c).drop_last() =~= s);
}

/// A text denotes a number if and only if it is digits, at least one, with or
/// without one plus sign before them, and what they denote fits in 64 bits; then
/// it is that number.
pub proof fn law_numbers_are_read(s: Seq<char>, d: Seq<char>)
    requires
        s == d || s == seq!['+'] + d,
        d.len() > 0 ==> d[0] != '+' || s != d,
    ensures
        text::parsed_u64(s) is Some <==> d.len() > 0 && (forall|i: int|
            0 <= i < d.len() ==> '0' <= #[trigger] d[i] <= '9') && text::digits_value(d)
            <= 0xffff_ffff_ffff_ffff,
        text::parsed_u64(s) matches Some(v) ==> v == text::digits_value(d),
{
    if s != d {
        assert(text::after(s, 1) =~= d);
    }
}

/// A JSON string is its characters between quotes, each for itself.
pub proof fn law_json_in_parts(a: Seq<char>, b: Seq<char>)
    ensures
        text::json_string(a) == seq!['"'] + text::json_chars(a) + seq!['"'],
        text::json_chars(a + b) == text::json_chars(a) + text::json_chars(b),
        text::json_chars(Seq::empty()) == Seq::<char>::empty(),
    decreases b.len(),
{
    if b.len() == 0 {
        assert(a + b =~= a);
        assert(text::json_chars(a) + text::json_chars(b) =~= text::json_chars(a));
    } else {
        law_json_in_parts(a, b.drop_last());
        assert((a + b).drop_last() =~= a + b.drop_last());
        assert(text::json_chars(a) + text::json_chars(b.drop_last()) + text::json_char(b.last())
            =~= text::json_chars(a) + (text::json_chars(b.drop_last()) + text::json_char(b.last())));
    }
}

/// What a character inside a JSON string stands for, where `s` is the string from
/// it on: the character, and how many it takes.
pub open spec fn json_read(s: Seq<char>) -> (int, int) {
    if s[0] != '\\' {
        (s[0] as int, 1)
    } else if s[1] == 'b' {
        (8, 2)
    } else if s[1] == 't' {
        (9, 2)
    } else if s[1] == 'n' {
        (10, 2)
    } else if s[1] == 'f' {
        (12, 2)
    } else if s[1] == 'r' {
        (13, 2)
    } else if s[1] == 'u' {
        (16 * hex_value(s[4]) + hex_value(s[5]), 6)
    } else {
        (s[1] as int, 2)
    }
}

/// What a hexadecimal digit stands for.
pub open spec fn hex_value(c: char) -> int {
    if c <= '9' {
        c as int - '0' as int
    } else {
        c as int - 'a' as int + 10
    }
}

/// A character is read back from a JSON string whatever follows it, and it is
/// written as valid JSON: no control character stands there, a quote only after a
/// backslash, and only a backslash begins an escape.
pub proof fn law_json_reads_back(c: char, rest: Seq<char>)
    ensures
        ({
            let w = text::json_chars(seq![c]);
            &&& json_read(w + rest) == (c as int, w.len() as int)
            &&& forall|i: int| 0 <= i < w.len() ==> 32 <= (#[trigger] w[i]) as int
            &&& w.len() == 6 ==> w[2] == '0' && w[3] == '0' && (c as int) < 32
            &&& w.len() == 1 ==> c != '"' && c != '\\'
            &&& w.len() > 1 ==> w[0] == '\\'
        }),
{
    let one = seq![c];
    assert(one.drop_last() =~= Seq::empty());
    assert(text::json_chars(one.drop_last()) =~= Seq::empty());
    let w = text::json_chars(one);
    assert(w =~= text::json_char(c));
    assert forall|k: int| 0 <= k < w.len() implies (w + rest)[k] == w[k] by {}
    assert((w + rest)[0] == w[0]);
    if w.len() > 1 {
        assert((w + rest)[1] == w[1]);
    }
    if w.len() > 5 {
        assert((w + rest)[4] == w[4] && (w + rest)[5] == w[5]);
    }
}

/// What follows the beginning of a text is the rest of it.
pub proof fn law_rest_of_text(start: Seq<char>, rest: Seq<char>)
    ensures
        text::after(start + rest, start.len() as int) == rest,
{
    assert(text::after(start + rest, start.len() as int) =~= rest);
}

/// A result's view is the view of what it holds.
pub proof fn law_result_view<T: View, E: View>(t: T, e: E)
    ensures
        text::result_view(Ok::<T, E>(t)) == Ok::<T::V, E::V>(t@),
        text::result_view(Err::<T, E>(e)) == Err::<T::V, E::V>(e@),
{
}

} // verus!
