//! The pool file as text: the pieces it is made of, each a line with its own
//! terminator, the directive that names a server, and the two rewrites that
//! add and remove one. A rewrite touches no byte of a piece that it keeps.

use crate::decimal::{decimal, to_decimal};
use vstd::prelude::*;
use vstd::slice::slice_subrange;

verus! {

/// `pattern` stands in `line` at offset `at`.
pub open spec fn occurs_at(line: Seq<u8>, pattern: Seq<u8>, at: int) -> bool {
    &&& 0 <= at
    &&& at + pattern.len() <= line.len()
    &&& line.subrange(at, at + pattern.len()) == pattern
}

/// `pattern` is a contiguous part of `line`.
pub open spec fn contains(line: Seq<u8>, pattern: Seq<u8>) -> bool {
    exists|at: int| occurs_at(line, pattern, at)
}

/// The bytes of `server `, which open every directive.
pub open spec fn server_keyword() -> Seq<u8> {
    seq![115u8, 101u8, 114u8, 118u8, 101u8, 114u8, 32u8]
}

/// The bytes of ` weight=`.
pub open spec fn weight_keyword() -> Seq<u8> {
    seq![32u8, 119u8, 101u8, 105u8, 103u8, 104u8, 116u8, 61u8]
}

/// The bytes of ` max_conns=`.
pub open spec fn max_conns_keyword() -> Seq<u8> {
    seq![32u8, 109u8, 97u8, 120u8, 95u8, 99u8, 111u8, 110u8, 110u8, 115u8, 61u8]
}

/// The bytes of `# SERVERS -- END`, the marker before which new directives go.
pub open spec fn sentinel() -> Seq<u8> {
    seq![
        35u8, 32u8, 83u8, 69u8, 82u8, 86u8, 69u8, 82u8, 83u8, 32u8, 45u8, 45u8, 32u8, 69u8, 78u8,
        68u8,
    ]
}

/// What a line must contain to name `address`: `server ` and the address.
pub open spec fn server_pattern(address: Seq<u8>) -> Seq<u8> {
    server_keyword() + address
}

/// The directive line for a server:
/// `server <address> weight=<weight> max_conns=<max_connections>`.
pub open spec fn directive(address: Seq<u8>, weight: u64, max_connections: u64) -> Seq<u8> {
    server_pattern(address) + weight_keyword() + decimal(weight as nat) + max_conns_keyword()
        + decimal(max_connections as nat)
}

/// The line names `address`: it contains `server <address>` somewhere.
pub open spec fn names(line: Seq<u8>, address: Seq<u8>) -> bool {
    contains(line, server_pattern(address))
}

/// The line carries the end-of-servers marker.
pub open spec fn is_sentinel(line: Seq<u8>) -> bool {
    contains(line, sentinel())
}

/// Whether `pattern` stands in `line` at `at`.
fn matches_at(line: &[u8], pattern: &[u8], at: usize) -> (found: bool)
    requires
        at + pattern@.len() <= line@.len(),
    ensures
        found == occurs_at(line@, pattern@, at as int),
{
    let length: usize = line.len();
    let mut k: usize = 0;
    while k < pattern.len()
        invariant
            k <= pattern@.len(),
            at + pattern@.len() <= line@.len() == length,
            forall|j: int| 0 <= j < k ==> line@[at + j] == pattern@[j],
        decreases pattern@.len() - k,
    {
        if line[at + k] != pattern[k] {
            assert(line@.subrange(at as int, at + pattern@.len())[k as int] != pattern@[k as int]);
            return false;
        }
        k += 1;
    }
    assert(line@.subrange(at as int, at + pattern@.len()) =~= pattern@);
    true
}

/// Substring test on bytes.
pub fn line_contains(line: &[u8], pattern: &[u8]) -> (found: bool)
    ensures
        found == contains(line@, pattern@),
{
    if pattern.len() > line.len() {
        return false;
    }
    let last: usize = line.len() - pattern.len();
    let mut at: usize = 0;
    loop
        invariant
            at <= last,
            last == line@.len() - pattern@.len(),
            forall|j: int| 0 <= j < at ==> !occurs_at(line@, pattern@, j),
        decreases last - at,
    {
        if matches_at(line, pattern, at) {
            return true;
        }
        if at == last {
            return false;
        }
        at += 1;
    }
}

/// Appends a copy of `bytes` to `out`.
fn append_bytes(out: &mut Vec<u8>, bytes: &[u8])
    ensures
        final(out)@ == old(out)@ + bytes@,
{
    let mut i: usize = 0;
    while i < bytes.len()
        invariant
            i <= bytes@.len(),
            out@ == old(out)@ + bytes@.subrange(0, i as int),
        decreases bytes@.len() - i,
    {
        out.push(bytes[i]);
        assert(bytes@.subrange(0, i + 1) =~= bytes@.subrange(0, i as int).push(bytes@[i as int]));
        i += 1;
    }
    assert(bytes@.subrange(0, i as int) =~= bytes@);
}

/// The pattern that a line must contain to name `address`.
pub fn make_server_pattern(address: &[u8]) -> (pattern: Vec<u8>)
    ensures
        pattern@ == server_pattern(address@),
{
    let mut pattern: Vec<u8> = vec![115u8, 101u8, 114u8, 118u8, 101u8, 114u8, 32u8];
    assert(pattern@ =~= server_keyword());
    append_bytes(&mut pattern, address);
    pattern
}

/// The end-of-servers marker.
pub fn make_sentinel() -> (marker: Vec<u8>)
    ensures
        marker@ == sentinel(),
{
    let marker: Vec<u8> = vec![
        35u8, 32u8, 83u8, 69u8, 82u8, 86u8, 69u8, 82u8, 83u8, 32u8, 45u8, 45u8, 32u8, 69u8, 78u8,
        68u8,
    ];
    assert(marker@ =~= sentinel());
    marker
}

/// Renders the directive line for a server.
pub fn make_directive(address: &[u8], weight: u64, max_connections: u64) -> (line: Vec<u8>)
    ensures
        line@ == directive(address@, weight, max_connections),
{
    let mut line: Vec<u8> = make_server_pattern(address);
    let weight_key: Vec<u8> = vec![32u8, 119u8, 101u8, 105u8, 103u8, 104u8, 116u8, 61u8];
    assert(weight_key@ =~= weight_keyword());
    let max_key: Vec<u8> = vec![
        32u8, 109u8, 97u8, 120u8, 95u8, 99u8, 111u8, 110u8, 110u8, 115u8, 61u8,
    ];
    assert(max_key@ =~= max_conns_keyword());
    append_bytes(&mut line, weight_key.as_slice());
    let weight_text: Vec<u8> = to_decimal(weight);
    append_bytes(&mut line, weight_text.as_slice());
    append_bytes(&mut line, max_key.as_slice());
    let max_text: Vec<u8> = to_decimal(max_connections);
    append_bytes(&mut line, max_text.as_slice());
    line
}

/// Number of bytes from offset `from` up to the next line feed, or up to the
/// end of the text where none follows.
pub open spec fn line_length(text: Seq<u8>, from: int) -> nat
    decreases text.len() - from,
{
    if from < 0 || from >= text.len() || text[from] == 10u8 {
        0
    } else {
        1 + line_length(text, from + 1)
    }
}

/// The pieces of the text that starts at offset `from`.
pub open spec fn pieces_from(text: Seq<u8>, from: int) -> Seq<Seq<u8>>
    decreases text.len() - from,
{
    if from < 0 || from >= text.len() {
        Seq::empty()
    } else {
        let end = from + line_length(text, from);
        if end < text.len() {
            seq![text.subrange(from, end + 1)] + pieces_from(text, end + 1)
        } else {
            seq![text.subrange(from, text.len() as int)]
        }
    }
}

/// The pieces of a text: it is cut behind each line feed, so that every
/// piece is a line with its terminator. What follows the last line feed is a
/// piece without one, unless it is empty. The pieces, put together, are the
/// text.
pub open spec fn pieces(text: Seq<u8>) -> Seq<Seq<u8>> {
    pieces_from(text, 0)
}

/// The given pieces put together.
pub open spec fn joined(pieces: Seq<Seq<u8>>) -> Seq<u8>
    decreases pieces.len(),
{
    if pieces.len() == 0 {
        Seq::empty()
    } else {
        joined(pieces.drop_last()) + pieces.last()
    }
}

/// A line without the carriage return that ends it, if one does.
pub open spec fn strip_cr(line: Seq<u8>) -> Seq<u8> {
    if line.len() > 0 && line.last() == 13u8 {
        line.drop_last()
    } else {
        line
    }
}

/// The line that a piece holds: the piece without its line feed and without
/// a carriage return directly before that line feed.
pub open spec fn line_text(piece: Seq<u8>) -> Seq<u8> {
    if piece.len() > 0 && piece.last() == 10u8 {
        strip_cr(piece.drop_last())
    } else {
        piece
    }
}

/// The pieces that a vector of byte vectors stands for.
pub open spec fn pieces_view(pieces: Seq<Vec<u8>>) -> Seq<Seq<u8>> {
    Seq::new(pieces.len(), |i: int| pieces[i]@)
}

/// A line ends where `line_length` says: inside the text, at the first line
/// feed if there is one.
pub proof fn lemma_line_length(text: Seq<u8>, from: int)
    requires
        0 <= from <= text.len(),
    ensures
        from + line_length(text, from) <= text.len(),
        forall|j: int| from <= j < from + line_length(text, from) ==> text[j] != 10u8,
        from + line_length(text, from) < text.len() ==> text[from + line_length(text, from)]
            == 10u8,
    decreases text.len() - from,
{
    if from < text.len() && text[from] != 10u8 {
        lemma_line_length(text, from + 1);
    }
}

/// The length of a line does not depend on where the count starts inside it.
proof fn lemma_line_length_step(text: Seq<u8>, from: int, end: int)
    requires
        0 <= from <= end < text.len(),
        text[end] != 10u8,
        line_length(text, from) == (end - from) + line_length(text, end),
    ensures
        line_length(text, from) == (end + 1 - from) + line_length(text, end + 1),
{
}

/// Cuts a text into its pieces.
pub fn split_pieces(text: &[u8]) -> (cut: Vec<Vec<u8>>)
    ensures
        pieces_view(cut@) == pieces(text@),
{
    let length: usize = text.len();
    let mut cut: Vec<Vec<u8>> = Vec::new();
    let mut from: usize = 0;
    assert(pieces_view(cut@) + pieces_from(text@, 0) =~= pieces(text@));
    while from < length
        invariant
            from <= length == text@.len(),
            pieces_view(cut@) + pieces_from(text@, from as int) == pieces(text@),
        decreases length - from,
    {
        let mut piece: Vec<u8> = Vec::new();
        let mut end: usize = from;
        while end < length && text[end] != 10u8
            invariant
                from <= end <= length == text@.len(),
                piece@ == text@.subrange(from as int, end as int),
                line_length(text@, from as int) == (end - from) + line_length(text@, end as int),
            decreases length - end,
        {
            piece.push(text[end]);
            proof {
                lemma_line_length_step(text@, from as int, end as int);
                assert(text@.subrange(from as int, end + 1) =~= text@.subrange(
                    from as int,
                    end as int,
                ).push(text@[end as int]));
            }
            end += 1;
        }
        let ghost before = cut@;
        let ghost start = from;
        if end < length {
            piece.push(10u8);
            assert(piece@ =~= text@.subrange(from as int, end + 1));
            from = end + 1;
        } else {
            from = end;
        }
        cut.push(piece);
        proof {
            let tail = pieces_from(text@, from as int);
            assert(pieces_from(text@, start as int) =~= seq![cut@.last()@] + tail);
            assert(pieces_view(cut@) =~= pieces_view(before).push(cut@.last()@));
            assert(pieces_view(before).push(cut@.last()@) + tail =~= pieces_view(before) + (
            seq![cut@.last()@] + tail));
        }
    }
    assert(pieces_view(cut@) + pieces_from(text@, from as int) =~= pieces_view(cut@));
    cut
}

/// Puts pieces together.
pub fn join_pieces(pieces: &Vec<Vec<u8>>) -> (text: Vec<u8>)
    ensures
        text@ == joined(pieces_view(pieces@)),
{
    let mut text: Vec<u8> = Vec::new();
    let mut i: usize = 0;
    while i < pieces.len()
        invariant
            i <= pieces@.len(),
            text@ == joined(pieces_view(pieces@).take(i as int)),
        decreases pieces@.len() - i,
    {
        append_bytes(&mut text, pieces[i].as_slice());
        proof {
            let view = pieces_view(pieces@);
            assert(view.take(i + 1).drop_last() =~= view.take(i as int));
            assert(view.take(i + 1).last() == pieces@[i as int]@);
        }
        i += 1;
    }
    assert(pieces_view(pieces@).take(i as int) =~= pieces_view(pieces@));
    text
}

/// The line that a piece holds.
pub fn line_of(piece: &[u8]) -> (line: &[u8])
    ensures
        line@ == line_text(piece@),
{
    let length: usize = piece.len();
    if length > 0 && piece[length - 1] == 10u8 {
        if length > 1 && piece[length - 2] == 13u8 {
            let line = slice_subrange(piece, 0, length - 2);
            assert(line@ =~= strip_cr(piece@.drop_last()));
            line
        } else {
            let line = slice_subrange(piece, 0, length - 1);
            assert(line@ =~= strip_cr(piece@.drop_last()));
            line
        }
    } else {
        let line = slice_subrange(piece, 0, length);
        assert(line@ =~= piece@);
        line
    }
}

/// A piece at which a directive for `address` goes in: one whose line names
/// the address already, or carries the end-of-servers marker.
pub open spec fn is_anchor(piece: Seq<u8>, address: Seq<u8>) -> bool {
    names(line_text(piece), address) || is_sentinel(line_text(piece))
}

/// Index of the first anchor at or after `from`, or the number of pieces
/// where there is none.
pub open spec fn anchor_from(pieces: Seq<Seq<u8>>, address: Seq<u8>, from: int) -> int
    decreases pieces.len() - from,
{
    if from < 0 || from >= pieces.len() {
        pieces.len() as int
    } else if is_anchor(pieces[from], address) {
        from
    } else {
        anchor_from(pieces, address, from + 1)
    }
}

/// Index of the first anchor for `address`, or the number of pieces where
/// there is none.
pub open spec fn anchor(pieces: Seq<Seq<u8>>, address: Seq<u8>) -> int {
    anchor_from(pieces, address, 0)
}

/// The pieces after `entry` was added for `address`. At the first anchor, a
/// piece whose line names the address gives way to the entry, and a marker
/// moves down behind it. Without an anchor nothing changes.
pub open spec fn with_server(pieces: Seq<Seq<u8>>, address: Seq<u8>, entry: Seq<u8>) -> Seq<
    Seq<u8>,
> {
    let at = anchor(pieces, address);
    if at >= pieces.len() {
        pieces
    } else if names(line_text(pieces[at]), address) {
        pieces.update(at, entry)
    } else {
        pieces.insert(at, entry)
    }
}

/// Whether adding for `address` finds a place among the pieces.
pub open spec fn has_anchor(pieces: Seq<Seq<u8>>, address: Seq<u8>) -> bool {
    anchor(pieces, address) < pieces.len()
}

/// The pieces whose lines do not name `address`, in their order.
pub open spec fn without_server(pieces: Seq<Seq<u8>>, address: Seq<u8>) -> Seq<Seq<u8>> {
    pieces.filter(|piece: Seq<u8>| !names(line_text(piece), address))
}

/// Whether the line of some piece names `address`.
pub open spec fn is_listed(pieces: Seq<Seq<u8>>, address: Seq<u8>) -> bool {
    exists|i: int| 0 <= i < pieces.len() && names(line_text(#[trigger] pieces[i]), address)
}

/// The first anchor is an anchor, and no piece before it is one.
pub proof fn lemma_anchor_from(pieces: Seq<Seq<u8>>, address: Seq<u8>, from: int)
    requires
        0 <= from <= pieces.len(),
    ensures
        from <= anchor_from(pieces, address, from) <= pieces.len(),
        forall|j: int|
            from <= j < anchor_from(pieces, address, from) ==> !is_anchor(
                #[trigger] pieces[j],
                address,
            ),
        anchor_from(pieces, address, from) < pieces.len() ==> is_anchor(
            pieces[anchor_from(pieces, address, from)],
            address,
        ),
    decreases pieces.len() - from,
{
    if from < pieces.len() && !is_anchor(pieces[from], address) {
        lemma_anchor_from(pieces, address, from + 1);
    }
}

/// Adds `entry` for `address` to the pieces; says whether it found a place.
pub fn insert_server(pieces: Vec<Vec<u8>>, address: &[u8], entry: Vec<u8>) -> (out: (
    Vec<Vec<u8>>,
    bool,
))
    ensures
        pieces_view(out.0@) == with_server(pieces_view(pieces@), address@, entry@),
        out.1 == has_anchor(pieces_view(pieces@), address@),
{
    let pattern: Vec<u8> = make_server_pattern(address);
    let marker: Vec<u8> = make_sentinel();
    let ghost view = pieces_view(pieces@);
    let mut out: Vec<Vec<u8>> = pieces;
    let mut i: usize = 0;
    while i < out.len()
        invariant
            i <= out@.len(),
            view == pieces_view(pieces@),
            pieces_view(out@) == view,
            pattern@ == server_pattern(address@),
            marker@ == sentinel(),
            anchor_from(view, address@, i as int) == anchor(view, address@),
        decreases out@.len() - i,
    {
        assert(view[i as int] == out@[i as int]@);
        if line_contains(line_of(out[i].as_slice()), pattern.as_slice()) {
            out.set(i, entry);
            assert(pieces_view(out@) =~= view.update(i as int, entry@));
            return (out, true);
        }
        if line_contains(line_of(out[i].as_slice()), marker.as_slice()) {
            out.insert(i, entry);
            assert(pieces_view(out@) =~= view.insert(i as int, entry@));
            return (out, true);
        }
        i += 1;
    }
    (out, false)
}

/// Drops every piece whose line names `address`; says whether there was one.
pub fn drop_server(pieces: &Vec<Vec<u8>>, address: &[u8]) -> (out: (Vec<Vec<u8>>, bool))
    ensures
        pieces_view(out.0@) == without_server(pieces_view(pieces@), address@),
        out.1 == is_listed(pieces_view(pieces@), address@),
{
    let pattern: Vec<u8> = make_server_pattern(address);
    let ghost view = pieces_view(pieces@);
    let ghost keep = |piece: Seq<u8>| !names(line_text(piece), address@);
    let mut kept: Vec<Vec<u8>> = Vec::new();
    let mut removed: bool = false;
    let mut i: usize = 0;
    proof {
        reveal(Seq::filter);
        assert(view.take(0) =~= Seq::<Seq<u8>>::empty());
    }
    while i < pieces.len()
        invariant
            i <= pieces@.len(),
            view == pieces_view(pieces@),
            pattern@ == server_pattern(address@),
            keep == |piece: Seq<u8>| !names(line_text(piece), address@),
            pieces_view(kept@) == view.take(i as int).filter(keep),
            removed == is_listed(view.take(i as int), address@),
        decreases pieces@.len() - i,
    {
        let ghost before = kept@;
        proof {
            reveal(Seq::filter);
            assert(view.take(i + 1).drop_last() =~= view.take(i as int));
            assert(view.take(i + 1).last() == view[i as int]);
            assert(view[i as int] == pieces@[i as int]@);
        }
        if line_contains(line_of(pieces[i].as_slice()), pattern.as_slice()) {
            removed = true;
            assert(names(line_text(view.take(i + 1)[i as int]), address@));
        } else {
            let mut piece: Vec<u8> = Vec::new();
            append_bytes(&mut piece, pieces[i].as_slice());
            kept.push(piece);
            assert(pieces_view(kept@) =~= pieces_view(before).push(view[i as int]));
            proof {
                if is_listed(view.take(i + 1), address@) {
                    let k = choose|k: int|
                        0 <= k < view.take(i + 1).len() && names(
                            line_text(#[trigger] view.take(i + 1)[k]),
                            address@,
                        );
                    assert(names(line_text(view.take(i as int)[k]), address@));
                }
                if is_listed(view.take(i as int), address@) {
                    let k = choose|k: int|
                        0 <= k < view.take(i as int).len() && names(
                            line_text(#[trigger] view.take(i as int)[k]),
                            address@,
                        );
                    assert(names(line_text(view.take(i + 1)[k]), address@));
                }
            }
        }
        i += 1;
    }
    assert(view.take(i as int) =~= view);
    (kept, removed)
}

/// The piece that a directive makes: the directive and a line feed.
pub open spec fn entry(address: Seq<u8>, weight: u64, max_connections: u64) -> Seq<u8> {
    directive(address, weight, max_connections).push(10u8)
}

/// The text after a directive for `address` was added to it: before the
/// first piece that carries the marker, or in place of the first piece that
/// names the address, whichever comes first. Every other byte stays.
pub open spec fn text_with_server(
    text: Seq<u8>,
    address: Seq<u8>,
    weight: u64,
    max_connections: u64,
) -> Seq<u8> {
    joined(with_server(pieces(text), address, entry(address, weight, max_connections)))
}

/// The text after every piece whose line names `address` was taken out of
/// it. Every other byte stays.
pub open spec fn text_without_server(text: Seq<u8>, address: Seq<u8>) -> Seq<u8> {
    joined(without_server(pieces(text), address))
}

/// Rewrites a pool file so that it holds a directive for `address`. The flag
/// says whether the directive went in.
pub fn add_to_text(text: &[u8], address: &[u8], weight: u64, max_connections: u64) -> (out: (
    Vec<u8>,
    bool,
))
    ensures
        out.0@ == text_with_server(text@, address@, weight, max_connections),
        out.1 == has_anchor(pieces(text@), address@),
{
    let cut: Vec<Vec<u8>> = split_pieces(text);
    let mut piece: Vec<u8> = make_directive(address, weight, max_connections);
    piece.push(10u8);
    let (cut, inserted) = insert_server(cut, address, piece);
    (join_pieces(&cut), inserted)
}

/// Rewrites a pool file so that no line of it names `address`. The flag says
/// whether there was such a line.
pub fn remove_from_text(text: &[u8], address: &[u8]) -> (out: (Vec<u8>, bool))
    ensures
        out.0@ == text_without_server(text@, address@),
        out.1 == is_listed(pieces(text@), address@),
{
    let cut: Vec<Vec<u8>> = split_pieces(text);
    let (kept, removed) = drop_server(&cut, address);
    (join_pieces(&kept), removed)
}

} // verus!
