//! Comma-separated configuration values.

use crate::guc::{
    entry_of_text, filters_of_entries, filters_of_text, key_of_text, key_text, list_entries,
    names_of_entries, names_of_text, unknown_keys_of_entries, FailoverSlotFilterKey,
    FilterEntryView, FilterView,
};
use crate::text::{
    head_len, is_white_space, lemma_head_len, lemma_head_len_unique, pieces, split_at_first,
    trimmed,
};
use vstd::prelude::*;

verus! {

// ---------------------------------------------------------------------------
// White space
// ---------------------------------------------------------------------------

/// White space behind a text does not count.
proof fn lemma_trimmed_push(s: Seq<char>, c: char)
    requires
        is_white_space(c),
    ensures
        trimmed(s.push(c)) == trimmed(s),
    decreases s.len(),
{
    let longer = s.push(c);
    if s.len() == 0 {
        assert(longer.drop_first() =~= s);
    } else if is_white_space(s.first()) {
        assert(longer.drop_first() =~= s.drop_first().push(c));
        lemma_trimmed_push(s.drop_first(), c);
    } else {
        assert(longer.drop_last() =~= s);
    }
}

/// White space in front of a text does not count.
proof fn lemma_trimmed_cons(s: Seq<char>, c: char)
    requires
        is_white_space(c),
    ensures
        trimmed(seq![c] + s) == trimmed(s),
{
    assert((seq![c] + s).drop_first() =~= s);
}

/// White space around a text does not count, and a text that has none at its ends is left as
/// it is.
pub proof fn trimmed_is_between_white_space(before: Seq<char>, s: Seq<char>, after: Seq<char>)
    requires
        forall|i: int| 0 <= i < before.len() ==> is_white_space(#[trigger] before[i]),
        forall|i: int| 0 <= i < after.len() ==> is_white_space(#[trigger] after[i]),
    ensures
        trimmed(before + s + after) == trimmed(s),
        s.len() > 0 && !is_white_space(s.first()) && !is_white_space(s.last()) ==> trimmed(s) == s,
    decreases before.len() + after.len(),
{
    if before.len() > 0 {
        trimmed_is_between_white_space(before.drop_first(), s, after);
        assert(before + s + after =~= seq![before[0]] + (before.drop_first() + s + after));
        lemma_trimmed_cons(before.drop_first() + s + after, before[0]);
    } else if after.len() > 0 {
        trimmed_is_between_white_space(before, s, after.drop_last());
        assert(before + s + after =~= (before + s + after.drop_last()).push(after.last()));
        lemma_trimmed_push(before + s + after.drop_last(), after.last());
    } else {
        assert(before + s + after =~= s);
    }
}

// ---------------------------------------------------------------------------
// Pieces
// ---------------------------------------------------------------------------

/// There is always a piece, and no piece holds the separator.
pub proof fn pieces_hold_no_separator(s: Seq<char>, sep: char)
    ensures
        pieces(s, sep).len() > 0,
        forall|i: int, j: int|
            0 <= i < pieces(s, sep).len() && 0 <= j < pieces(s, sep)[i].len() ==> pieces(
                s,
                sep,
            )[i][j] != sep,
    decreases s.len(),
{
    lemma_head_len(s, sep);
    let n = head_len(s, sep) as int;
    if n < s.len() {
        let rest = pieces(s.skip(n + 1), sep);
        pieces_hold_no_separator(s.skip(n + 1), sep);
        assert forall|i: int, j: int|
            0 <= i < pieces(s, sep).len() && 0 <= j < pieces(s, sep)[i].len() implies pieces(
            s,
            sep,
        )[i][j] != sep by {
            if i > 0 {
                assert(pieces(s, sep)[i] == rest[i - 1]);
            }
        }
    }
}

/// A text without the separator is one piece.
pub proof fn text_without_separator_is_one_piece(s: Seq<char>, sep: char)
    requires
        !s.contains(sep),
    ensures
        pieces(s, sep) == seq![s],
{
    assert forall|i: int| 0 <= i < s.len() implies s[i] != sep by {
        assert(s.contains(s[i]));
    }
    lemma_head_len_unique(s, sep, s.len() as int);
}

/// The pieces of two texts with the separator between them are the pieces of both.
pub proof fn pieces_of_joined_texts(a: Seq<char>, b: Seq<char>, sep: char)
    ensures
        pieces(a + seq![sep] + b, sep) == pieces(a, sep) + pieces(b, sep),
    decreases a.len(),
{
    let s = a + seq![sep] + b;
    lemma_head_len(a, sep);
    let n = head_len(a, sep) as int;
    lemma_head_len_unique(s, sep, n);
    assert(s.take(n) =~= a.take(n));
    if n < a.len() {
        assert(s.skip(n + 1) =~= a.skip(n + 1) + seq![sep] + b);
        pieces_of_joined_texts(a.skip(n + 1), b, sep);
        assert(seq![a.take(n)] + (pieces(a.skip(n + 1), sep) + pieces(b, sep)) =~= (seq![a.take(n)]
            + pieces(a.skip(n + 1), sep)) + pieces(b, sep));
    } else {
        assert(s.skip(n + 1) =~= b);
        assert(a.take(n) =~= a);
    }
}

/// Two lists of pieces that differ in nothing but white space around the pieces.
spec fn same_trimmed(a: Seq<Seq<char>>, b: Seq<Seq<char>>) -> bool {
    &&& a.len() == b.len()
    &&& forall|i: int| 0 <= i < a.len() ==> trimmed(#[trigger] a[i]) == trimmed(b[i])
}

proof fn lemma_pieces_push(s: Seq<char>, c: char, sep: char)
    requires
        c != sep,
    ensures
        pieces(s, sep).len() > 0,
        pieces(s.push(c), sep) == pieces(s, sep).drop_last().push(pieces(s, sep).last().push(c)),
    decreases s.len(),
{
    pieces_hold_no_separator(s, sep);
    let longer = s.push(c);
    lemma_head_len(s, sep);
    let n = head_len(s, sep) as int;
    if n < s.len() {
        lemma_head_len_unique(longer, sep, n);
        assert(longer.take(n) =~= s.take(n));
        assert(longer.skip(n + 1) =~= s.skip(n + 1).push(c));
        let rest = pieces(s.skip(n + 1), sep);
        lemma_pieces_push(s.skip(n + 1), c, sep);
        assert(seq![s.take(n)] + rest.drop_last().push(rest.last().push(c)) =~= (seq![s.take(n)]
            + rest).drop_last().push((seq![s.take(n)] + rest).last().push(c)));
    } else {
        lemma_head_len_unique(longer, sep, n + 1);
        assert(seq![longer] =~= seq![s].drop_last().push(seq![s].last().push(c)));
    }
}

/// White space around a text shows only around its pieces.
proof fn lemma_pieces_trimmed(s: Seq<char>, sep: char)
    requires
        !is_white_space(sep),
    ensures
        same_trimmed(pieces(trimmed(s), sep), pieces(s, sep)),
    decreases s.len(),
{
    if s.len() == 0 {
    } else if is_white_space(s.first()) {
        let rest = s.drop_first();
        lemma_pieces_trimmed(rest, sep);
        lemma_head_len(rest, sep);
        let n = head_len(rest, sep) as int;
        assert(head_len(s, sep) == n + 1);
        assert(s.take(n + 1) =~= seq![s.first()] + rest.take(n));
        if n < rest.len() {
            assert(s.skip(n + 2) =~= rest.skip(n + 1));
        }
        lemma_trimmed_cons(rest.take(n), s.first());
        assert(rest.take(rest.len() as int) =~= rest);
        assert(s.take(s.len() as int) =~= s);
        assert(same_trimmed(pieces(rest, sep), pieces(s, sep)));
    } else if is_white_space(s.last()) {
        let head = s.drop_last();
        lemma_pieces_trimmed(head, sep);
        assert(s =~= head.push(s.last()));
        lemma_pieces_push(head, s.last(), sep);
        lemma_trimmed_push(pieces(head, sep).last(), s.last());
        assert(same_trimmed(pieces(head, sep), pieces(s, sep)));
    }
}

// ---------------------------------------------------------------------------
// Lists
// ---------------------------------------------------------------------------

proof fn lemma_same_entries(a: Seq<Seq<char>>, b: Seq<Seq<char>>)
    requires
        same_trimmed(a, b),
    ensures
        filters_of_entries(a) == filters_of_entries(b),
        unknown_keys_of_entries(a) == unknown_keys_of_entries(b),
        names_of_entries(a) == names_of_entries(b),
    decreases a.len(),
{
    if a.len() > 0 {
        assert(same_trimmed(a.drop_last(), b.drop_last()));
        lemma_same_entries(a.drop_last(), b.drop_last());
        assert(trimmed(a.last()) == trimmed(b.last()));
    }
}

proof fn lemma_entries_concat(a: Seq<Seq<char>>, b: Seq<Seq<char>>)
    ensures
        filters_of_entries(a + b) == filters_of_entries(a) + filters_of_entries(b),
        unknown_keys_of_entries(a + b) == unknown_keys_of_entries(a) + unknown_keys_of_entries(b),
        names_of_entries(a + b) == names_of_entries(a) + names_of_entries(b),
    decreases b.len(),
{
    if b.len() == 0 {
        assert(a + b =~= a);
    } else {
        lemma_entries_concat(a, b.drop_last());
        assert((a + b).drop_last() =~= a + b.drop_last());
        assert((a + b).last() == b.last());
    }
}

proof fn lemma_list_is_its_pieces(raw: Seq<char>)
    ensures
        filters_of_text(raw) == filters_of_entries(pieces(raw, ',')),
        names_of_text(raw) == names_of_entries(pieces(raw, ',')),
        unknown_keys_of_entries(list_entries(raw)) == unknown_keys_of_entries(pieces(raw, ',')),
{
    lemma_pieces_trimmed(raw, ',');
    lemma_same_entries(list_entries(raw), pieces(raw, ','));
}

/// Values joined by a comma stand for what the first stands for, followed by what the second
/// stands for. So the order of the entries is kept, and what is wrong with one entry does not
/// reach another.
pub proof fn joined_lists_concatenate(a: Seq<char>, b: Seq<char>)
    ensures
        filters_of_text(a + seq![','] + b) == filters_of_text(a) + filters_of_text(b),
        names_of_text(a + seq![','] + b) == names_of_text(a) + names_of_text(b),
        unknown_keys_of_entries(list_entries(a + seq![','] + b)) == unknown_keys_of_entries(
            list_entries(a),
        ) + unknown_keys_of_entries(list_entries(b)),
{
    lemma_list_is_its_pieces(a);
    lemma_list_is_its_pieces(b);
    lemma_list_is_its_pieces(a + seq![','] + b);
    pieces_of_joined_texts(a, b, ',');
    lemma_entries_concat(pieces(a, ','), pieces(b, ','));
}

/// White space alone stands for nothing.
pub proof fn blank_list_is_empty(raw: Seq<char>)
    requires
        forall|i: int| 0 <= i < raw.len() ==> is_white_space(#[trigger] raw[i]),
    ensures
        filters_of_text(raw).len() == 0,
        names_of_text(raw).len() == 0,
{
    let none = Seq::<char>::empty();
    trimmed_is_between_white_space(raw, none, none);
    assert(raw + none + none =~= raw);
    text_without_separator_is_one_piece(none, ',');
    reveal_with_fuel(filters_of_entries, 2);
    reveal_with_fuel(names_of_entries, 2);
    assert(seq![none].drop_last() =~= Seq::<Seq<char>>::empty());
}

/// A text that a list entry gives back as it is: it has no comma and no white space around it.
pub open spec fn is_clean(s: Seq<char>) -> bool {
    &&& !s.contains(',')
    &&& trimmed(s) == s
}

proof fn lemma_single_entry(s: Seq<char>)
    requires
        is_clean(s),
    ensures
        list_entries(s) == seq![s],
        filters_of_text(s) == match entry_of_text(s) {
            FilterEntryView::Filter(f) => seq![f],
            _ => Seq::empty(),
        },
        names_of_text(s) == if s.len() > 0 {
            seq![s]
        } else {
            Seq::empty()
        },
{
    text_without_separator_is_one_piece(s, ',');
    reveal_with_fuel(filters_of_entries, 2);
    reveal_with_fuel(names_of_entries, 2);
    assert(seq![s].drop_last() =~= Seq::<Seq<char>>::empty());
    assert(Seq::<Seq<char>>::empty().push(s) =~= seq![s]);
    if let FilterEntryView::Filter(f) = entry_of_text(s) {
        assert(Seq::<FilterView>::empty().push(f) =~= seq![f]);
    }
}

/// A bare word is an exact slot name.
pub proof fn bare_word_is_name(word: Seq<char>)
    requires
        is_clean(word),
        word.len() > 0,
        !word.contains(':'),
    ensures
        filters_of_text(word) == seq![
            FilterView { key: FailoverSlotFilterKey::Name, val: word },
        ],
{
    lemma_single_entry(word);
    assert forall|i: int| 0 <= i < word.len() implies word[i] != ':' by {
        assert(word.contains(word[i]));
    }
    lemma_head_len_unique(word, ':', word.len() as int);
}

/// A single name is itself.
pub proof fn single_name_is_itself(name: Seq<char>)
    requires
        is_clean(name),
        name.len() > 0,
    ensures
        names_of_text(name) == seq![name],
{
    lemma_single_entry(name);
}

proof fn lemma_trimmed_ends(s: Seq<char>)
    ensures
        trimmed(s).len() > 0 ==> !is_white_space(trimmed(s).first()) && !is_white_space(
            trimmed(s).last(),
        ),
        trimmed(s).len() <= s.len(),
        forall|c: char| trimmed(s).contains(c) ==> s.contains(c),
    decreases s.len(),
{
    if s.len() == 0 {
    } else if is_white_space(s.first()) {
        lemma_trimmed_ends(s.drop_first());
        assert forall|c: char| trimmed(s).contains(c) implies s.contains(c) by {
            assert(s.drop_first().contains(c));
            let i = choose|i: int| 0 <= i < s.drop_first().len() && s.drop_first()[i] == c;
            assert(s[i + 1] == c);
        }
    } else if is_white_space(s.last()) {
        lemma_trimmed_ends(s.drop_last());
        assert forall|c: char| trimmed(s).contains(c) implies s.contains(c) by {
            assert(s.drop_last().contains(c));
            let i = choose|i: int| 0 <= i < s.drop_last().len() && s.drop_last()[i] == c;
            assert(s[i] == c);
        }
    }
}

/// A text with a colon, after its white space was taken off, has the same two sides of the colon
/// up to white space.
proof fn lemma_trimmed_around_colon(head: Seq<char>, tail: Seq<char>) -> (sides: (
    Seq<char>,
    Seq<char>,
))
    requires
        !head.contains(':'),
    ensures
        trimmed(head + seq![':'] + tail) == sides.0 + seq![':'] + sides.1,
        trimmed(sides.0) == trimmed(head),
        trimmed(sides.1) == trimmed(tail),
        !sides.0.contains(':'),
    decreases head.len() + tail.len(),
{
    let s = head + seq![':'] + tail;
    assert(s[head.len() as int] == ':');
    if head.len() > 0 && is_white_space(head.first()) {
        assert(s.drop_first() =~= head.drop_first() + seq![':'] + tail);
        assert(s.first() == head.first());
        assert(!head.drop_first().contains(':')) by {
            if head.drop_first().contains(':') {
                let i = choose|i: int|
                    0 <= i < head.drop_first().len() && head.drop_first()[i] == ':';
                assert(head[i + 1] == ':');
            }
        }
        lemma_trimmed_around_colon(head.drop_first(), tail)
    } else if tail.len() > 0 && is_white_space(tail.last()) {
        assert(s.drop_last() =~= head + seq![':'] + tail.drop_last());
        assert(s.last() == tail.last());
        assert(s.first() == if head.len() > 0 {
            head.first()
        } else {
            ':'
        });
        let none = Seq::<char>::empty();
        trimmed_is_between_white_space(none, tail.drop_last(), seq![tail.last()]);
        assert(none + tail.drop_last() + seq![tail.last()] =~= tail);
        lemma_trimmed_around_colon(head, tail.drop_last())
    } else {
        assert(s.first() == if head.len() > 0 {
            head.first()
        } else {
            ':'
        });
        assert(s.last() == if tail.len() > 0 {
            tail.last()
        } else {
            ':'
        });
        (head, tail)
    }
}

/// What an entry without a comma gives: a filter, or a key that is not recognised.
proof fn lemma_entry_alone(s: Seq<char>)
    requires
        !s.contains(','),
    ensures
        filters_of_text(s) == match entry_of_text(s) {
            FilterEntryView::Filter(f) => seq![f],
            _ => Seq::empty(),
        },
        unknown_keys_of_entries(list_entries(s)) == match entry_of_text(s) {
            FilterEntryView::UnknownKey(key) => seq![key],
            _ => Seq::empty(),
        },
        names_of_text(s) == if trimmed(s).len() > 0 {
            seq![trimmed(s)]
        } else {
            Seq::empty()
        },
{
    lemma_list_is_its_pieces(s);
    text_without_separator_is_one_piece(s, ',');
    reveal_with_fuel(filters_of_entries, 2);
    reveal_with_fuel(unknown_keys_of_entries, 2);
    reveal_with_fuel(names_of_entries, 2);
    assert(seq![s].drop_last() =~= Seq::<Seq<char>>::empty());
    assert(Seq::<Seq<char>>::empty().push(trimmed(s)) =~= seq![trimmed(s)]);
    match entry_of_text(s) {
        FilterEntryView::Filter(f) => {
            assert(Seq::<FilterView>::empty().push(f) =~= seq![f]);
        },
        FilterEntryView::UnknownKey(key) => {
            assert(Seq::<Seq<char>>::empty().push(key) =~= seq![key]);
        },
        FilterEntryView::Blank => {},
    }
}

/// An entry with a colon is a key, up to the first colon, and a value, both without the white
/// space around them. There are three keys; an entry with another one gives no filter, and its
/// key is told.
pub proof fn entry_with_colon_is_key_and_value(head: Seq<char>, tail: Seq<char>)
    requires
        !head.contains(':'),
        !head.contains(','),
        !tail.contains(','),
    ensures
        ({
            let s = head + seq![':'] + tail;
            let key = trimmed(head);
            let val = trimmed(tail);
            let none = Seq::<FilterView>::empty();
            &&& key == "name"@ ==> filters_of_text(s) == seq![
                FilterView { key: FailoverSlotFilterKey::Name, val },
            ]
            &&& key == "name_like"@ ==> filters_of_text(s) == seq![
                FilterView { key: FailoverSlotFilterKey::NameLike, val },
            ]
            &&& key == "plugin"@ ==> filters_of_text(s) == seq![
                FilterView { key: FailoverSlotFilterKey::Plugin, val },
            ]
            &&& key == "name"@ || key == "name_like"@ || key == "plugin"@
                ==> unknown_keys_of_entries(list_entries(s)).len() == 0
            &&& key != "name"@ && key != "name_like"@ && key != "plugin"@ ==> filters_of_text(s)
                == none && unknown_keys_of_entries(list_entries(s)) == seq![key]
        }),
{
    let s = head + seq![':'] + tail;
    assert(!s.contains(',')) by {
        if s.contains(',') {
            let i = choose|i: int| 0 <= i < s.len() && s[i] == ',';
            if i < head.len() {
                assert(head[i] == ',');
            } else if i > head.len() {
                assert(tail[i - head.len() - 1] == ',');
            }
        }
    }
    lemma_entry_alone(s);
    let (a, b) = lemma_trimmed_around_colon(head, tail);
    let entry = trimmed(s);
    assert forall|i: int| 0 <= i < a.len() implies entry[i] != ':' by {
        assert(a.contains(a[i]));
    }
    assert(entry[a.len() as int] == ':');
    lemma_head_len_unique(entry, ':', a.len() as int);
    assert(entry.take(a.len() as int) =~= a);
    assert(entry.skip(a.len() as int + 1) =~= b);
    assert(split_at_first(entry, ':') == Some((a, b)));
    reveal_strlit("name");
    reveal_strlit("name_like");
    reveal_strlit("plugin");
    assert("name"@.len() != "name_like"@.len());
    assert("name"@.len() != "plugin"@.len());
    assert("plugin"@.len() != "name_like"@.len());
}

/// An entry without a colon is an exact slot name, without the white space around it, and a blank
/// one is nothing.
pub proof fn entry_without_colon_is_a_name(s: Seq<char>)
    requires
        !s.contains(':'),
        !s.contains(','),
    ensures
        trimmed(s).len() > 0 ==> filters_of_text(s) == seq![
            FilterView { key: FailoverSlotFilterKey::Name, val: trimmed(s) },
        ],
        trimmed(s).len() == 0 ==> filters_of_text(s).len() == 0,
        unknown_keys_of_entries(list_entries(s)).len() == 0,
{
    lemma_entry_alone(s);
    lemma_trimmed_ends(s);
    let entry = trimmed(s);
    assert forall|i: int| 0 <= i < entry.len() implies entry[i] != ':' by {
        assert(entry.contains(entry[i]));
    }
    lemma_head_len_unique(entry, ':', entry.len() as int);
}

/// An entry of a list of names is a name, whatever is in it, without the white space around it. A
/// blank one is none.
pub proof fn entry_of_names_is_a_name(s: Seq<char>)
    requires
        !s.contains(','),
    ensures
        trimmed(s).len() > 0 ==> names_of_text(s) == seq![trimmed(s)],
        trimmed(s).len() == 0 ==> names_of_text(s).len() == 0,
{
    lemma_entry_alone(s);
}

/// How a filter is written as `key:value`.
pub open spec fn filter_text(f: FilterView) -> Seq<char> {
    key_text(f.key) + seq![':'] + f.val
}

proof fn lemma_key_text(key: FailoverSlotFilterKey)
    ensures
        key_text(key).len() > 0,
        key_of_text(key_text(key)) == Some(key),
        !key_text(key).contains(':'),
        !key_text(key).contains(','),
        trimmed(key_text(key)) == key_text(key),
        !is_white_space(key_text(key).first()),
{
    reveal_strlit("name");
    reveal_strlit("name_like");
    reveal_strlit("plugin");
}

/// A filter that is written as `key:value` is read as it was.
pub proof fn filter_round_trip(f: FilterView)
    requires
        is_clean(f.val),
    ensures
        is_clean(filter_text(f)),
        filters_of_text(filter_text(f)) == seq![f],
{
    let key = key_text(f.key);
    let s = filter_text(f);
    lemma_key_text(f.key);
    lemma_trimmed_ends(f.val);
    assert(s.first() == key.first());
    assert(s.last() == if f.val.len() > 0 {
        f.val.last()
    } else {
        ':'
    });
    assert(!s.contains(',')) by {
        if s.contains(',') {
            let i = choose|i: int| 0 <= i < s.len() && s[i] == ',';
            if i < key.len() {
                assert(key[i] == ',');
            } else if i > key.len() {
                assert(f.val[i - key.len() - 1] == ',');
            }
        }
    }
    lemma_single_entry(s);
    assert forall|i: int| 0 <= i < key.len() implies s[i] != ':' by {
        assert(key.contains(key[i]));
    }
    lemma_head_len_unique(s, ':', key.len() as int);
    assert(s.take(key.len() as int) =~= key);
    assert(s.skip(key.len() as int + 1) =~= f.val);
}

/// How a list of filters is written.
pub open spec fn filters_text(filters: Seq<FilterView>) -> Seq<char>
    decreases filters.len(),
{
    if filters.len() == 0 {
        Seq::empty()
    } else if filters.len() == 1 {
        filter_text(filters[0])
    } else {
        filters_text(filters.drop_last()) + seq![','] + filter_text(filters.last())
    }
}

/// A list of filters that is written as `key:value` entries is read as it was.
pub proof fn filter_list_round_trip(filters: Seq<FilterView>)
    requires
        forall|i: int| 0 <= i < filters.len() ==> is_clean((#[trigger] filters[i]).val),
    ensures
        filters_of_text(filters_text(filters)) == filters,
    decreases filters.len(),
{
    if filters.len() == 0 {
        blank_list_is_empty(Seq::empty());
    } else if filters.len() == 1 {
        filter_round_trip(filters[0]);
        assert(seq![filters[0]] =~= filters);
    } else {
        let head = filters.drop_last();
        assert forall|i: int| 0 <= i < head.len() implies is_clean((#[trigger] head[i]).val) by {
            assert(head[i] == filters[i]);
        }
        filter_list_round_trip(head);
        filter_round_trip(filters.last());
        joined_lists_concatenate(filters_text(head), filter_text(filters.last()));
        assert(head + seq![filters.last()] =~= filters);
    }
}

/// How a list of names is written.
pub open spec fn names_text(names: Seq<Seq<char>>) -> Seq<char>
    decreases names.len(),
{
    if names.len() == 0 {
        Seq::empty()
    } else if names.len() == 1 {
        names[0]
    } else {
        names_text(names.drop_last()) + seq![','] + names.last()
    }
}

/// A list of names that is written with commas is read as it was.
pub proof fn name_list_round_trip(names: Seq<Seq<char>>)
    requires
        forall|i: int|
            0 <= i < names.len() ==> is_clean(#[trigger] names[i]) && names[i].len() > 0,
    ensures
        names_of_text(names_text(names)) == names,
    decreases names.len(),
{
    if names.len() == 0 {
        blank_list_is_empty(Seq::empty());
    } else if names.len() == 1 {
        single_name_is_itself(names[0]);
        assert(seq![names[0]] =~= names);
    } else {
        let head = names.drop_last();
        assert forall|i: int| 0 <= i < head.len() implies is_clean(#[trigger] head[i])
            && head[i].len() > 0 by {
            assert(head[i] == names[i]);
        }
        name_list_round_trip(head);
        single_name_is_itself(names.last());
        joined_lists_concatenate(names_text(head), names.last());
        assert(head + seq![names.last()] =~= names);
    }
}

proof fn lemma_trimmed_twice(s: Seq<char>)
    ensures
        trimmed(trimmed(s)) == trimmed(s),
{
    lemma_trimmed_ends(s);
}

proof fn lemma_names_are_clean(entries: Seq<Seq<char>>)
    requires
        forall|i: int| 0 <= i < entries.len() ==> !(#[trigger] entries[i]).contains(','),
    ensures
        forall|i: int|
            0 <= i < names_of_entries(entries).len() ==> is_clean(
                #[trigger] names_of_entries(entries)[i],
            ) && names_of_entries(entries)[i].len() > 0,
    decreases entries.len(),
{
    if entries.len() > 0 {
        let head = entries.drop_last();
        assert forall|i: int| 0 <= i < head.len() implies !(#[trigger] head[i]).contains(',') by {
            assert(head[i] == entries[i]);
        }
        lemma_names_are_clean(head);
        assert(!entries.last().contains(',')) by {
            assert(entries.last() == entries[entries.len() - 1]);
        }
        lemma_trimmed_ends(entries.last());
        lemma_trimmed_twice(entries.last());
        let names = names_of_entries(entries);
        assert forall|i: int| 0 <= i < names.len() implies is_clean(#[trigger] names[i])
            && names[i].len() > 0 by {
            if i < names_of_entries(head).len() {
                assert(names[i] == names_of_entries(head)[i]);
            } else {
                assert(names[i] == trimmed(entries.last()));
            }
        }
    }
}

/// Every name read from a list is there: it is not empty, and has no comma and no white space
/// around it.
pub proof fn names_are_clean(raw: Seq<char>)
    ensures
        forall|i: int|
            0 <= i < names_of_text(raw).len() ==> is_clean(#[trigger] names_of_text(raw)[i])
                && names_of_text(raw)[i].len() > 0,
{
    let entries = list_entries(raw);
    pieces_hold_no_separator(trimmed(raw), ',');
    assert forall|i: int| 0 <= i < entries.len() implies !(#[trigger] entries[i]).contains(',') by {
        if entries[i].contains(',') {
            let j = choose|j: int| 0 <= j < entries[i].len() && entries[i][j] == ',';
            assert(entries[i][j] != ',');
        }
    }
    lemma_names_are_clean(entries);
}

/// An entry with a key that is not recognised gives no filter, and its key is told.
pub proof fn unknown_key_gives_no_filter(key: Seq<char>, val: Seq<char>)
    requires
        is_clean(key),
        !key.contains(':'),
        key.len() > 0,
        key_of_text(key) is None,
        is_clean(val),
    ensures
        filters_of_text(key + seq![':'] + val).len() == 0,
        unknown_keys_of_entries(list_entries(key + seq![':'] + val)) == seq![key],
{
    let s = key + seq![':'] + val;
    lemma_trimmed_ends(val);
    lemma_trimmed_ends(key);
    assert(s.first() == key.first());
    assert(s.last() == if val.len() > 0 {
        val.last()
    } else {
        ':'
    });
    assert(!s.contains(',')) by {
        if s.contains(',') {
            let i = choose|i: int| 0 <= i < s.len() && s[i] == ',';
            if i < key.len() {
                assert(key[i] == ',');
            } else if i > key.len() {
                assert(val[i - key.len() - 1] == ',');
            }
        }
    }
    lemma_single_entry(s);
    assert forall|i: int| 0 <= i < key.len() implies s[i] != ':' by {
        assert(key.contains(key[i]));
    }
    lemma_head_len_unique(s, ':', key.len() as int);
    assert(s.take(key.len() as int) =~= key);
    reveal_with_fuel(unknown_keys_of_entries, 2);
    assert(seq![s].drop_last() =~= Seq::<Seq<char>>::empty());
    assert(Seq::<Seq<char>>::empty().push(key) =~= seq![key]);
}

} // verus!
