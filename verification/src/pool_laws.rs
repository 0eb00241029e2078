//! What holds of the rewrites of a pool file, whatever the file holds.

use crate::decimal::{decimal, is_digit, lemma_decimal_digits};
use crate::pool_file::{
    anchor, anchor_from, directive, entry, has_anchor, is_anchor, is_listed, is_sentinel, joined,
    lemma_anchor_from, lemma_line_length, line_length, line_text, max_conns_keyword, names,
    occurs_at, pieces, pieces_from, server_keyword, server_pattern, text_with_server,
    text_without_server, weight_keyword, with_server, without_server,
};
use vstd::prelude::*;

verus! {

/// Joining distributes over concatenation of piece sequences.
pub proof fn lemma_joined_concat(a: Seq<Seq<u8>>, b: Seq<Seq<u8>>)
    ensures
        joined(a + b) == joined(a) + joined(b),
    decreases b.len(),
{
    if b.len() == 0 {
        assert(a + b =~= a);
        assert(joined(a) + joined(b) =~= joined(a));
    } else {
        lemma_joined_concat(a, b.drop_last());
        assert((a + b).drop_last() =~= a + b.drop_last());
        assert((a + b).last() == b.last());
        assert(joined(a + b) =~= joined(a) + joined(b));
    }
}

/// One piece joins to itself.
pub proof fn lemma_joined_one(piece: Seq<u8>)
    ensures
        joined(seq![piece]) == piece,
{
    assert(seq![piece].drop_last() =~= Seq::<Seq<u8>>::empty());
    assert(joined(seq![piece].drop_last()) =~= Seq::<u8>::empty());
    assert(joined(seq![piece]) =~= piece);
}

/// The pieces from an offset on join to the text from that offset on.
proof fn lemma_joined_pieces_from(text: Seq<u8>, from: int)
    requires
        0 <= from <= text.len(),
    ensures
        joined(pieces_from(text, from)) == text.subrange(from, text.len() as int),
    decreases text.len() - from,
{
    if from >= text.len() {
        assert(joined(pieces_from(text, from)) =~= text.subrange(from, text.len() as int));
    } else {
        lemma_line_length(text, from);
        let end = from + line_length(text, from);
        if end < text.len() {
            let piece = text.subrange(from, end + 1);
            lemma_joined_pieces_from(text, end + 1);
            lemma_joined_concat(seq![piece], pieces_from(text, end + 1));
            lemma_joined_one(piece);
            assert(piece + text.subrange(end + 1, text.len() as int) =~= text.subrange(
                from,
                text.len() as int,
            ));
        } else {
            lemma_joined_one(text.subrange(from, text.len() as int));
        }
    }
}

/// The pieces of a text, put together, are the text.
pub proof fn lemma_pieces_join_to_text(text: Seq<u8>)
    ensures
        joined(pieces(text)) == text,
{
    lemma_joined_pieces_from(text, 0);
    assert(text.subrange(0, text.len() as int) =~= text);
}

/// Removing an address that no line names keeps every piece.
pub proof fn lemma_remove_absent_keeps_pieces(pieces: Seq<Seq<u8>>, address: Seq<u8>)
    requires
        !is_listed(pieces, address),
    ensures
        without_server(pieces, address) == pieces,
    decreases pieces.len(),
{
    reveal(Seq::filter);
    if pieces.len() > 0 {
        let init = pieces.drop_last();
        assert(!is_listed(init, address)) by {
            if is_listed(init, address) {
                let k = choose|k: int|
                    0 <= k < init.len() && names(line_text(#[trigger] init[k]), address);
                assert(names(line_text(pieces[k]), address));
            }
        }
        lemma_remove_absent_keeps_pieces(init, address);
        assert(!names(line_text(pieces[pieces.len() - 1]), address));
        assert(init.push(pieces.last()) =~= pieces);
    }
}

/// Removing an address that no line of the file names changes no byte of
/// the file.
pub proof fn lemma_remove_absent_keeps_text(text: Seq<u8>, address: Seq<u8>)
    requires
        !is_listed(pieces(text), address),
    ensures
        text_without_server(text, address) == text,
{
    lemma_remove_absent_keeps_pieces(pieces(text), address);
    lemma_pieces_join_to_text(text);
}

/// Adding for an address for which the file has no place changes no byte of
/// the file.
pub proof fn lemma_add_without_place_keeps_text(
    text: Seq<u8>,
    address: Seq<u8>,
    weight: u64,
    max_connections: u64,
)
    requires
        !has_anchor(pieces(text), address),
    ensures
        text_with_server(text, address, weight, max_connections) == text,
{
    lemma_anchor_from(pieces(text), address, 0);
    lemma_pieces_join_to_text(text);
}

/// A directive holds no line feed where its address holds none, and it ends
/// with a digit.
proof fn lemma_directive_is_one_line(address: Seq<u8>, weight: u64, max_connections: u64)
    requires
        forall|j: int| 0 <= j < address.len() ==> address[j] != 10u8,
    ensures
        forall|j: int|
            0 <= j < directive(address, weight, max_connections).len() ==> directive(
                address,
                weight,
                max_connections,
            )[j] != 10u8,
        directive(address, weight, max_connections).len() > 0,
{
    let line = directive(address, weight, max_connections);
    let w = decimal(weight as nat);
    let m = decimal(max_connections as nat);
    lemma_decimal_digits(weight as nat);
    lemma_decimal_digits(max_connections as nat);
    let a = server_keyword().len() as int;
    let b = a + address.len();
    let c = b + weight_keyword().len();
    let d = c + w.len();
    let e = d + max_conns_keyword().len();
    assert forall|j: int| 0 <= j < line.len() implies line[j] != 10u8 by {
        if j < a {
            assert(line[j] == server_keyword()[j]);
        } else if j < b {
            assert(line[j] == address[j - a]);
        } else if j < c {
            assert(line[j] == weight_keyword()[j - b]);
        } else if j < d {
            assert(line[j] == w[j - c]);
            assert(is_digit(w[j - c]));
        } else if j < e {
            assert(line[j] == max_conns_keyword()[j - d]);
        } else {
            assert(line[j] == m[j - e]);
            assert(is_digit(m[j - e]));
        }
    }
}

/// The line of the piece that a directive makes is the directive, and it
/// names the address that the directive was made for.
pub proof fn lemma_entry_names_address(address: Seq<u8>, weight: u64, max_connections: u64)
    ensures
        line_text(entry(address, weight, max_connections)) == directive(
            address,
            weight,
            max_connections,
        ),
        names(line_text(entry(address, weight, max_connections)), address),
{
    let line = directive(address, weight, max_connections);
    let m = decimal(max_connections as nat);
    lemma_decimal_digits(max_connections as nat);
    assert(line.last() == m.last());
    assert(is_digit(m[m.len() - 1]));
    assert(line.push(10u8).drop_last() =~= line);
    let pattern = server_pattern(address);
    assert(line.subrange(0, pattern.len() as int) =~= pattern);
    assert(occurs_at(line, pattern, 0));
}

/// A piece as cutting makes it: not empty, and without a line feed before
/// its last byte.
pub open spec fn is_piece(piece: Seq<u8>) -> bool {
    &&& piece.len() > 0
    &&& forall|j: int| 0 <= j < piece.len() - 1 ==> piece[j] != 10u8
}

/// Pieces as cutting makes them: each but the last ends with a line feed.
pub open spec fn are_pieces(pieces: Seq<Seq<u8>>) -> bool {
    forall|i: int|
        0 <= i < pieces.len() ==> is_piece(#[trigger] pieces[i]) && (i < pieces.len() - 1
            ==> pieces[i].last() == 10u8)
}

/// Where no line feed stands between `from` and `end`, and `end` is a line
/// feed or the end of the text, the line at `from` ends at `end`.
proof fn lemma_line_length_is(text: Seq<u8>, from: int, end: int)
    requires
        0 <= from <= end <= text.len(),
        forall|j: int| from <= j < end ==> text[j] != 10u8,
        end < text.len() ==> text[end] == 10u8,
    ensures
        from + line_length(text, from) == end,
    decreases end - from,
{
    if from < end {
        lemma_line_length_is(text, from + 1, end);
    }
}

/// The pieces from an offset on are the pieces of the text from that offset
/// on.
proof fn lemma_pieces_from_suffix(text: Seq<u8>, base: int, from: int)
    requires
        0 <= base,
        0 <= from,
        base + from <= text.len(),
    ensures
        pieces_from(text, base + from) == pieces_from(
            text.subrange(base, text.len() as int),
            from,
        ),
    decreases text.len() - base - from,
{
    let rest = text.subrange(base, text.len() as int);
    if base + from < text.len() {
        lemma_line_length(text, base + from);
        let end = base + from + line_length(text, base + from);
        assert forall|j: int| from <= j < end - base implies rest[j] != 10u8 by {
            assert(rest[j] == text[base + j]);
        }
        lemma_line_length_is(rest, from, end - base);
        if end < text.len() {
            assert(text.subrange(base + from, end + 1) =~= rest.subrange(from, end + 1 - base));
            lemma_pieces_from_suffix(text, base, end + 1 - base);
        } else {
            assert(text.subrange(base + from, text.len() as int) =~= rest.subrange(
                from,
                rest.len() as int,
            ));
        }
    }
}

/// Cutting makes pieces.
proof fn lemma_cut_makes_pieces(text: Seq<u8>, from: int)
    requires
        0 <= from <= text.len(),
    ensures
        are_pieces(pieces_from(text, from)),
    decreases text.len() - from,
{
    if from < text.len() {
        lemma_line_length(text, from);
        let end = from + line_length(text, from);
        if end < text.len() {
            let piece = text.subrange(from, end + 1);
            let tail = pieces_from(text, end + 1);
            lemma_cut_makes_pieces(text, end + 1);
            assert forall|j: int| 0 <= j < piece.len() - 1 implies piece[j] != 10u8 by {
                assert(piece[j] == text[from + j]);
            }
            assert(piece.last() == text[end]);
            let all = pieces_from(text, from);
            assert forall|i: int| 0 <= i < all.len() implies is_piece(#[trigger] all[i]) && (i
                < all.len() - 1 ==> all[i].last() == 10u8) by {
                if i == 0 {
                    assert(all[0] == piece);
                } else {
                    assert(all[i] == tail[i - 1]);
                }
            }
        } else {
            let piece = text.subrange(from, text.len() as int);
            assert forall|j: int| 0 <= j < piece.len() - 1 implies piece[j] != 10u8 by {
                assert(piece[j] == text[from + j]);
            }
        }
    }
}

/// Pieces that are put together and cut again are the same pieces.
pub proof fn lemma_pieces_survive(pieces_in: Seq<Seq<u8>>)
    requires
        are_pieces(pieces_in),
    ensures
        pieces(joined(pieces_in)) == pieces_in,
    decreases pieces_in.len(),
{
    if pieces_in.len() == 0 {
        assert(pieces(joined(pieces_in)) =~= pieces_in);
    } else {
        let first = pieces_in[0];
        let rest = pieces_in.drop_first();
        assert(pieces_in =~= seq![first] + rest);
        assert(is_piece(first));
        lemma_joined_concat(seq![first], rest);
        lemma_joined_one(first);
        let text = joined(pieces_in);
        assert(text == first + joined(rest));
        let n = first.len() as int;
        assert forall|j: int| 0 <= j < n - 1 implies text[j] != 10u8 by {
            assert(text[j] == first[j]);
        }
        if rest.len() == 0 {
            assert(joined(rest) =~= Seq::<u8>::empty());
            assert(text =~= first);
            if first.last() == 10u8 {
                lemma_line_length_is(text, 0, n - 1);
                assert(text.subrange(0, n) =~= first);
                assert(pieces_from(text, n) =~= Seq::<Seq<u8>>::empty());
                assert(pieces(text) =~= seq![first]);
            } else {
                lemma_line_length_is(text, 0, n);
                assert(text.subrange(0, n) =~= first);
                assert(pieces(text) =~= seq![first]);
            }
        } else {
            assert(first.last() == 10u8);
            assert(text[n - 1] == first[n - 1]);
            assert(are_pieces(rest)) by {
                assert forall|i: int| 0 <= i < rest.len() implies is_piece(#[trigger] rest[i])
                    && (i < rest.len() - 1 ==> rest[i].last() == 10u8) by {
                    assert(rest[i] == pieces_in[i + 1]);
                }
            }
            assert(is_piece(rest[0]));
            lemma_joined_concat(seq![rest[0]], rest.drop_first());
            lemma_joined_one(rest[0]);
            assert(rest =~= seq![rest[0]] + rest.drop_first());
            assert(joined(rest).len() > 0);
            lemma_line_length_is(text, 0, n - 1);
            assert(text.subrange(0, n) =~= first);
            lemma_pieces_from_suffix(text, n, 0);
            assert(text.subrange(n, text.len() as int) =~= joined(rest));
            lemma_pieces_survive(rest);
            assert(pieces(text) =~= seq![first] + rest);
        }
    }
}

/// Removal takes out a piece whose line names the address, wherever the
/// piece was put.
proof fn lemma_insert_then_remove(
    pieces: Seq<Seq<u8>>,
    address: Seq<u8>,
    at: int,
    entry: Seq<u8>,
)
    requires
        names(line_text(entry), address),
        0 <= at <= pieces.len(),
    ensures
        without_server(pieces.insert(at, entry), address) == without_server(pieces, address),
{
    let head = pieces.take(at);
    let tail = pieces.skip(at);
    let keep = |piece: Seq<u8>| !names(line_text(piece), address);
    assert(pieces.insert(at, entry) =~= (head + seq![entry]) + tail);
    assert(pieces =~= head + tail);
    Seq::filter_distributes_over_add(head + seq![entry], tail, keep);
    Seq::filter_distributes_over_add(head, seq![entry], keep);
    Seq::filter_distributes_over_add(head, tail, keep);
    assert(seq![entry].filter(keep) =~= Seq::<Seq<u8>>::empty()) by {
        reveal_with_fuel(Seq::filter, 2);
        assert(seq![entry].drop_last() =~= Seq::<Seq<u8>>::empty());
        assert(!keep(seq![entry].last()));
    }
    assert(head.filter(keep) + Seq::<Seq<u8>>::empty() =~= head.filter(keep));
}

/// Adding a server that no line names, then removing it, gives back the
/// pieces as they were, in their order.
pub proof fn lemma_add_then_remove_pieces(
    pieces: Seq<Seq<u8>>,
    address: Seq<u8>,
    weight: u64,
    max_connections: u64,
)
    requires
        !is_listed(pieces, address),
    ensures
        without_server(
            with_server(pieces, address, entry(address, weight, max_connections)),
            address,
        ) == pieces,
        has_anchor(pieces, address) ==> with_server(
            pieces,
            address,
            entry(address, weight, max_connections),
        ) == pieces.insert(anchor(pieces, address), entry(address, weight, max_connections)),
        has_anchor(pieces, address) ==> is_listed(
            with_server(pieces, address, entry(address, weight, max_connections)),
            address,
        ),
{
    let piece = entry(address, weight, max_connections);
    let at = anchor(pieces, address);
    lemma_anchor_from(pieces, address, 0);
    lemma_entry_names_address(address, weight, max_connections);
    if at < pieces.len() {
        assert(!names(line_text(pieces[at]), address));
        lemma_insert_then_remove(pieces, address, at, piece);
        assert(names(line_text(pieces.insert(at, piece)[at]), address));
    }
    lemma_remove_absent_keeps_pieces(pieces, address);
}

/// Adding a server to a file and then removing it leaves the file as it
/// was, byte for byte, where no line named the address before and the
/// address holds no line feed. Where the add found a place, the remove finds
/// the entry.
pub proof fn lemma_add_then_remove_text(
    text: Seq<u8>,
    address: Seq<u8>,
    weight: u64,
    max_connections: u64,
)
    requires
        !is_listed(pieces(text), address),
        forall|j: int| 0 <= j < address.len() ==> address[j] != 10u8,
    ensures
        text_without_server(
            text_with_server(text, address, weight, max_connections),
            address,
        ) == text,
        has_anchor(pieces(text), address) ==> is_listed(
            pieces(text_with_server(text, address, weight, max_connections)),
            address,
        ),
{
    let cut = pieces(text);
    let piece = entry(address, weight, max_connections);
    let added = with_server(cut, address, piece);
    lemma_cut_makes_pieces(text, 0);
    lemma_directive_is_one_line(address, weight, max_connections);
    lemma_anchor_from(cut, address, 0);
    lemma_add_then_remove_pieces(cut, address, weight, max_connections);
    lemma_pieces_join_to_text(text);
    assert(are_pieces(added)) by {
        if has_anchor(cut, address) {
            let at = anchor(cut, address);
            assert(is_piece(piece)) by {
                let line = directive(address, weight, max_connections);
                assert forall|j: int| 0 <= j < piece.len() - 1 implies piece[j] != 10u8 by {
                    assert(piece[j] == line[j]);
                }
            }
            assert forall|i: int| 0 <= i < added.len() implies is_piece(#[trigger] added[i])
                && (i < added.len() - 1 ==> added[i].last() == 10u8) by {
                if i < at {
                    assert(added[i] == cut[i]);
                } else if i > at {
                    assert(added[i] == cut[i - 1]);
                }
            }
        }
    }
    lemma_pieces_survive(added);
}

/// Where no piece before `at` is an anchor and the piece at `at` is one,
/// the first anchor is `at`.
proof fn lemma_anchor_is(pieces: Seq<Seq<u8>>, address: Seq<u8>, from: int, at: int)
    requires
        0 <= from <= at < pieces.len(),
        forall|j: int| from <= j < at ==> !is_anchor(#[trigger] pieces[j], address),
        is_anchor(pieces[at], address),
    ensures
        anchor_from(pieces, address, from) == at,
    decreases at - from,
{
    if from < at {
        lemma_anchor_is(pieces, address, from + 1, at);
    }
}

/// Two servers added one after the other both stand in the file, side by
/// side before the marker, and every piece that was there is still there.
/// This holds where the file names neither of them yet and has a marker,
/// and where the entry of the first neither names the second nor carries
/// the marker.
pub proof fn lemma_two_adds_keep_both(
    pieces: Seq<Seq<u8>>,
    first: Seq<u8>,
    first_entry: Seq<u8>,
    second: Seq<u8>,
    second_entry: Seq<u8>,
)
    requires
        !is_listed(pieces, first),
        !is_listed(pieces, second),
        has_anchor(pieces, first),
        !names(line_text(first_entry), second),
        !is_sentinel(line_text(first_entry)),
    ensures
        with_server(with_server(pieces, first, first_entry), second, second_entry)
            == pieces.insert(anchor(pieces, first), first_entry).insert(
            anchor(pieces, first) + 1,
            second_entry,
        ),
{
    let at = anchor(pieces, first);
    lemma_anchor_from(pieces, first, 0);
    assert(!names(line_text(pieces[at]), first));
    assert(is_sentinel(line_text(pieces[at])));
    let once = pieces.insert(at, first_entry);
    assert(with_server(pieces, first, first_entry) == once);
    assert forall|j: int| 0 <= j < at + 1 implies !is_anchor(#[trigger] once[j], second) by {
        if j < at {
            assert(once[j] == pieces[j]);
            assert(!is_anchor(pieces[j], first));
            assert(!names(line_text(pieces[j]), second));
        }
    }
    assert(once[at + 1] == pieces[at]);
    assert(!names(line_text(pieces[at]), second));
    lemma_anchor_is(once, second, 0, at + 1);
}

} // verus!
