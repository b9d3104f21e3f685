//! The byte format of stored records: numbers in little-endian order, byte
//! strings and lists preceded by their length as a 64-bit number, and an
//! identifier as the byte string of its sixteen bytes, the most significant
//! first.

use vstd::prelude::*;
use vstd::bytes::*;
use vstd::utf8::{decode_utf8, encode_utf8, valid_utf8};
use crate::ambient::id_bytes;

verus! {

/// Decodes UTF-8 (`String::from_utf8`): the conversion succeeds exactly on
/// valid UTF-8 and yields the text that the bytes encode.
#[verifier::external_body]
fn text_from_utf8(bytes: Vec<u8>) -> (text: Option<String>)
    ensures
        text is Some <==> valid_utf8(bytes@),
        text matches Some(t) ==> t@ == decode_utf8(bytes@),
{
    String::from_utf8(bytes).ok()
}

/// The bytes of a 64-bit number.
pub open spec fn wire_u64(x: u64) -> Seq<u8> {
    spec_u64_to_le_bytes(x)
}

/// The bytes of an identifier: the length 16 as a 64-bit number, then
/// the sixteen bytes of the identifier, the most significant first.
pub open spec fn wire_id(x: u128) -> Seq<u8> {
    wire_u64(16) + id_bytes(x)
}

/// The byte of a truth value.
pub open spec fn wire_bool(b: bool) -> Seq<u8> {
    seq![if b {
        1u8
    } else {
        0u8
    }]
}

/// The bytes of a byte string: its length, then its bytes.
pub open spec fn wire_bytes(b: Seq<u8>) -> Seq<u8> {
    wire_u64(b.len() as u64) + b
}

/// The bytes of a text: its UTF-8 encoding as a byte string.
pub open spec fn wire_text(s: Seq<char>) -> Seq<u8> {
    wire_bytes(encode_utf8(s))
}

/// The bytes of the elements of a list of identifiers, one after the other.
pub open spec fn wire_id_items(ids: Seq<u128>) -> Seq<u8>
    decreases ids.len(),
{
    if ids.len() == 0 {
        Seq::<u8>::empty()
    } else {
        wire_id_items(ids.drop_last()) + wire_id(ids.last())
    }
}

/// The bytes of a list of identifiers: its length, then its elements.
pub open spec fn wire_ids(ids: Seq<u128>) -> Seq<u8> {
    wire_u64(ids.len() as u64) + wire_id_items(ids)
}

/// The bytes of the elements of a list of texts, one after the other.
pub open spec fn wire_text_items(texts: Seq<Seq<char>>) -> Seq<u8>
    decreases texts.len(),
{
    if texts.len() == 0 {
        Seq::<u8>::empty()
    } else {
        wire_text_items(texts.drop_last()) + wire_text(texts.last())
    }
}

/// The bytes of a list of texts: its length, then its elements.
pub open spec fn wire_texts(texts: Seq<Seq<char>>) -> Seq<u8> {
    wire_u64(texts.len() as u64) + wire_text_items(texts)
}

/// Reads a 64-bit number from the front of bytes: the number and the bytes
/// that follow it.
pub open spec fn parse_u64(b: Seq<u8>) -> Option<(u64, Seq<u8>)> {
    if b.len() >= 8 {
        Some((spec_u64_from_le_bytes(b.subrange(0, 8)), b.subrange(8, b.len() as int)))
    } else {
        None
    }
}

/// Reads an identifier from the front of bytes: a byte string of sixteen
/// bytes, the most significant first.
pub open spec fn parse_id(b: Seq<u8>) -> Option<(u128, Seq<u8>)> {
    match parse_bytes(b) {
        Some((bytes, rest)) => if bytes.len() == 16 {
            Some((spec_u128_from_le_bytes(bytes.reverse()), rest))
        } else {
            None
        },
        None => None,
    }
}

/// Reads a truth value from the front of bytes. Only the bytes 0 and 1 are
/// truth values.
pub open spec fn parse_bool(b: Seq<u8>) -> Option<(bool, Seq<u8>)> {
    if b.len() >= 1 && b[0] <= 1 {
        Some((b[0] == 1, b.subrange(1, b.len() as int)))
    } else {
        None
    }
}

/// Reads a byte string from the front of bytes.
pub open spec fn parse_bytes(b: Seq<u8>) -> Option<(Seq<u8>, Seq<u8>)> {
    match parse_u64(b) {
        Some((n, rest)) => if rest.len() >= n {
            Some((rest.subrange(0, n as int), rest.subrange(n as int, rest.len() as int)))
        } else {
            None
        },
        None => None,
    }
}

/// Reads a text from the front of bytes. The bytes of the text must be valid
/// UTF-8.
pub open spec fn parse_text(b: Seq<u8>) -> Option<(Seq<char>, Seq<u8>)> {
    match parse_bytes(b) {
        Some((bytes, rest)) => if valid_utf8(bytes) {
            Some((decode_utf8(bytes), rest))
        } else {
            None
        },
        None => None,
    }
}

/// Reads `n` identifiers from the front of bytes.
pub open spec fn parse_id_items(b: Seq<u8>, n: nat) -> Option<(Seq<u128>, Seq<u8>)>
    decreases n,
{
    if n == 0 {
        Some((Seq::<u128>::empty(), b))
    } else {
        match parse_id(b) {
            Some((x, rest)) => match parse_id_items(rest, (n - 1) as nat) {
                Some((xs, last)) => Some((seq![x] + xs, last)),
                None => None,
            },
            None => None,
        }
    }
}

/// Reads a list of identifiers from the front of bytes.
pub open spec fn parse_ids(b: Seq<u8>) -> Option<(Seq<u128>, Seq<u8>)> {
    match parse_u64(b) {
        Some((n, rest)) => parse_id_items(rest, n as nat),
        None => None,
    }
}

/// Reads `n` texts from the front of bytes.
pub open spec fn parse_text_items(b: Seq<u8>, n: nat) -> Option<(Seq<Seq<char>>, Seq<u8>)>
    decreases n,
{
    if n == 0 {
        Some((Seq::<Seq<char>>::empty(), b))
    } else {
        match parse_text(b) {
            Some((x, rest)) => match parse_text_items(rest, (n - 1) as nat) {
                Some((xs, last)) => Some((seq![x] + xs, last)),
                None => None,
            },
            None => None,
        }
    }
}

/// Reads a list of texts from the front of bytes.
pub open spec fn parse_texts(b: Seq<u8>) -> Option<(Seq<Seq<char>>, Seq<u8>)> {
    match parse_u64(b) {
        Some((n, rest)) => parse_text_items(rest, n as nat),
        None => None,
    }
}

/// A number is read back from its bytes, whatever follows them.
pub proof fn lemma_parse_u64(x: u64, rest: Seq<u8>)
    ensures
        parse_u64(wire_u64(x) + rest) == Some((x, rest)),
        wire_u64(x).len() == 8,
{
    lemma_auto_spec_u64_to_from_le_bytes();
    let b = wire_u64(x) + rest;
    assert(b.subrange(0, 8) =~= wire_u64(x));
    assert(b.subrange(8, b.len() as int) =~= rest);
}

/// An identifier is read back from its bytes.
pub proof fn lemma_parse_id(x: u128, rest: Seq<u8>)
    ensures
        parse_id(wire_id(x) + rest) == Some((x, rest)),
        wire_id(x).len() == 24,
{
    lemma_auto_spec_u128_to_from_le_bytes();
    lemma_auto_spec_u64_to_from_le_bytes();
    let bytes = id_bytes(x);
    assert(bytes.len() == 16);
    assert(bytes.reverse() =~= spec_u128_to_le_bytes(x));
    lemma_parse_bytes(bytes, rest);
    assert(wire_id(x) + rest =~= wire_bytes(bytes) + rest);
}

/// A truth value is read back from its byte.
pub proof fn lemma_parse_bool(x: bool, rest: Seq<u8>)
    ensures
        parse_bool(wire_bool(x) + rest) == Some((x, rest)),
{
    let b = wire_bool(x) + rest;
    assert(b.subrange(1, b.len() as int) =~= rest);
}

/// A byte string that is not too long to say is read back from its bytes.
pub proof fn lemma_parse_bytes(x: Seq<u8>, rest: Seq<u8>)
    requires
        x.len() <= u64::MAX,
    ensures
        parse_bytes(wire_bytes(x) + rest) == Some((x, rest)),
{
    lemma_parse_u64(x.len() as u64, x + rest);
    assert(wire_bytes(x) + rest =~= wire_u64(x.len() as u64) + (x + rest));
    let after = x + rest;
    assert(after.subrange(0, x.len() as int) =~= x);
    assert(after.subrange(x.len() as int, after.len() as int) =~= rest);
}

/// A text is read back from its bytes.
pub proof fn lemma_parse_text(x: Seq<char>, rest: Seq<u8>)
    requires
        encode_utf8(x).len() <= u64::MAX,
    ensures
        parse_text(wire_text(x) + rest) == Some((x, rest)),
{
    lemma_parse_bytes(encode_utf8(x), rest);
    vstd::utf8::encode_utf8_valid_utf8(x);
    vstd::utf8::encode_utf8_decode_utf8(x);
}

/// The bytes of a list begin with those of its first element.
pub proof fn lemma_id_items_front(ids: Seq<u128>)
    requires
        ids.len() > 0,
    ensures
        wire_id_items(ids) == wire_id(ids[0]) + wire_id_items(ids.drop_first()),
    decreases ids.len(),
{
    if ids.len() == 1 {
        assert(ids.drop_last() =~= Seq::<u128>::empty());
        assert(ids.drop_first() =~= Seq::<u128>::empty());
        assert(wire_id_items(ids) =~= wire_id(ids[0]) + wire_id_items(ids.drop_first()));
    } else {
        lemma_id_items_front(ids.drop_last());
        assert(ids.drop_last().drop_first() =~= ids.drop_first().drop_last());
        assert(ids.drop_first().last() == ids.last());
        assert(wire_id_items(ids) =~= wire_id(ids[0]) + wire_id_items(ids.drop_first()));
    }
}

/// The elements of a list of identifiers are read back from their bytes.
pub proof fn lemma_parse_id_items(ids: Seq<u128>, rest: Seq<u8>)
    ensures
        parse_id_items(wire_id_items(ids) + rest, ids.len()) == Some((ids, rest)),
    decreases ids.len(),
{
    if ids.len() == 0 {
        assert(wire_id_items(ids) + rest =~= rest);
        assert(ids =~= Seq::<u128>::empty());
    } else {
        lemma_id_items_front(ids);
        let tail = ids.drop_first();
        lemma_parse_id(ids[0], wire_id_items(tail) + rest);
        assert(wire_id_items(ids) + rest =~= wire_id(ids[0]) + (wire_id_items(tail) + rest));
        lemma_parse_id_items(tail, rest);
        assert(seq![ids[0]] + tail =~= ids);
    }
}

/// A list of identifiers is read back from its bytes.
pub proof fn lemma_parse_ids(ids: Seq<u128>, rest: Seq<u8>)
    requires
        ids.len() <= u64::MAX,
    ensures
        parse_ids(wire_ids(ids) + rest) == Some((ids, rest)),
{
    lemma_parse_u64(ids.len() as u64, wire_id_items(ids) + rest);
    assert(wire_ids(ids) + rest =~= wire_u64(ids.len() as u64) + (wire_id_items(ids) + rest));
    lemma_parse_id_items(ids, rest);
}

/// Whether every text of a list is short enough for its length to be said.
pub open spec fn texts_fit(texts: Seq<Seq<char>>) -> bool {
    forall|i: int| 0 <= i < texts.len() ==> encode_utf8(#[trigger] texts[i]).len() <= u64::MAX
}

/// The bytes of a list of texts begin with those of its first element.
pub proof fn lemma_text_items_front(texts: Seq<Seq<char>>)
    requires
        texts.len() > 0,
    ensures
        wire_text_items(texts) == wire_text(texts[0]) + wire_text_items(texts.drop_first()),
    decreases texts.len(),
{
    if texts.len() == 1 {
        assert(texts.drop_last() =~= Seq::<Seq<char>>::empty());
        assert(texts.drop_first() =~= Seq::<Seq<char>>::empty());
        assert(wire_text_items(texts) =~= wire_text(texts[0]) + wire_text_items(
            texts.drop_first(),
        ));
    } else {
        lemma_text_items_front(texts.drop_last());
        assert(texts.drop_last().drop_first() =~= texts.drop_first().drop_last());
        assert(texts.drop_first().last() == texts.last());
        assert(wire_text_items(texts) =~= wire_text(texts[0]) + wire_text_items(
            texts.drop_first(),
        ));
    }
}

/// The elements of a list of texts are read back from their bytes.
pub proof fn lemma_parse_text_items(texts: Seq<Seq<char>>, rest: Seq<u8>)
    requires
        texts_fit(texts),
    ensures
        parse_text_items(wire_text_items(texts) + rest, texts.len()) == Some((texts, rest)),
    decreases texts.len(),
{
    if texts.len() == 0 {
        assert(wire_text_items(texts) + rest =~= rest);
        assert(texts =~= Seq::<Seq<char>>::empty());
    } else {
        lemma_text_items_front(texts);
        let tail = texts.drop_first();
        assert(texts_fit(tail)) by {
            assert forall|i: int| 0 <= i < tail.len() implies encode_utf8(
                #[trigger] tail[i],
            ).len() <= u64::MAX by {
                assert(tail[i] == texts[i + 1]);
            }
        }
        lemma_parse_text(texts[0], wire_text_items(tail) + rest);
        assert(wire_text_items(texts) + rest =~= wire_text(texts[0]) + (wire_text_items(tail)
            + rest));
        lemma_parse_text_items(tail, rest);
        assert(seq![texts[0]] + tail =~= texts);
    }
}

/// A list of texts is read back from its bytes.
pub proof fn lemma_parse_texts(texts: Seq<Seq<char>>, rest: Seq<u8>)
    requires
        texts.len() <= u64::MAX,
        texts_fit(texts),
    ensures
        parse_texts(wire_texts(texts) + rest) == Some((texts, rest)),
{
    lemma_parse_u64(texts.len() as u64, wire_text_items(texts) + rest);
    assert(wire_texts(texts) + rest =~= wire_u64(texts.len() as u64) + (wire_text_items(texts)
        + rest));
    lemma_parse_text_items(texts, rest);
}

/// The bytes from a position to the end.
pub open spec fn remaining(bytes: Seq<u8>, pos: int) -> Seq<u8> {
    bytes.subrange(pos, bytes.len() as int)
}

/// Appends bytes.
pub fn put_bytes(out: &mut Vec<u8>, bytes: &[u8])
    ensures
        final(out)@ == old(out)@ + bytes@,
{
    let mut i: usize = 0;
    while i < bytes.len()
        invariant
            i <= bytes.len(),
            out@ == old(out)@ + bytes@.subrange(0, i as int),
        decreases bytes.len() - i,
    {
        out.push(bytes[i]);
        assert(out@ =~= old(out)@ + bytes@.subrange(0, i + 1));
        i += 1;
    }
    assert(bytes@.subrange(0, bytes.len() as int) =~= bytes@);
}

/// Appends a 64-bit number.
pub fn put_u64(out: &mut Vec<u8>, x: u64)
    ensures
        final(out)@ == old(out)@ + wire_u64(x),
{
    let bytes = u64_to_le_bytes(x);
    put_bytes(out, bytes.as_slice());
}

/// Appends an identifier.
pub fn put_id(out: &mut Vec<u8>, x: u128)
    ensures
        final(out)@ == old(out)@ + wire_id(x),
{
    let bytes = u128_to_le_bytes(x);
    put_u64(out, 16);
    let ghost start = out@;
    proof {
        lemma_auto_spec_u128_to_from_le_bytes();
    }
    let mut i: usize = 0;
    while i < 16
        invariant
            i <= 16,
            bytes@ == spec_u128_to_le_bytes(x),
            bytes@.len() == 16,
            out@ == start + id_bytes(x).subrange(0, i as int),
        decreases 16 - i,
    {
        out.push(bytes[15 - i]);
        assert(out@ =~= start + id_bytes(x).subrange(0, i + 1));
        i += 1;
    }
    assert(out@ =~= old(out)@ + wire_id(x));
}

/// Appends a truth value.
pub fn put_bool(out: &mut Vec<u8>, b: bool)
    ensures
        final(out)@ == old(out)@ + wire_bool(b),
{
    out.push(if b {
        1
    } else {
        0
    });
    assert(out@ =~= old(out)@ + wire_bool(b));
}

/// Appends a text.
pub fn put_text(out: &mut Vec<u8>, text: &str)
    ensures
        final(out)@ == old(out)@ + wire_text(text@),
{
    let bytes = text.as_bytes();
    put_u64(out, bytes.len() as u64);
    put_bytes(out, bytes);
    assert(out@ =~= old(out)@ + wire_text(text@));
}

/// Appends a list of identifiers.
pub fn put_ids(out: &mut Vec<u8>, ids: &Vec<u128>)
    ensures
        final(out)@ == old(out)@ + wire_ids(ids@),
{
    put_u64(out, ids.len() as u64);
    let ghost start = out@;
    let mut i: usize = 0;
    assert(ids@.subrange(0, 0) =~= Seq::<u128>::empty());
    assert(out@ =~= start + wire_id_items(ids@.subrange(0, 0)));
    while i < ids.len()
        invariant
            i <= ids@.len(),
            out@ == start + wire_id_items(ids@.subrange(0, i as int)),
        decreases ids@.len() - i,
    {
        put_id(out, ids[i]);
        proof {
            let more = ids@.subrange(0, i + 1);
            assert(more.drop_last() =~= ids@.subrange(0, i as int));
            assert(out@ =~= start + wire_id_items(more));
        }
        i += 1;
    }
    assert(ids@.subrange(0, ids@.len() as int) =~= ids@);
    assert(out@ =~= old(out)@ + wire_ids(ids@));
}

/// The views of a list of texts.
pub open spec fn text_views(texts: Seq<String>) -> Seq<Seq<char>> {
    Seq::new(texts.len(), |i: int| texts[i]@)
}

/// Appends a list of texts.
pub fn put_texts(out: &mut Vec<u8>, texts: &Vec<String>)
    ensures
        final(out)@ == old(out)@ + wire_texts(text_views(texts@)),
{
    put_u64(out, texts.len() as u64);
    let ghost start = out@;
    let ghost views = text_views(texts@);
    let mut i: usize = 0;
    assert(views.subrange(0, 0) =~= Seq::<Seq<char>>::empty());
    assert(out@ =~= start + wire_text_items(views.subrange(0, 0)));
    while i < texts.len()
        invariant
            i <= texts@.len(),
            views == text_views(texts@),
            out@ == start + wire_text_items(views.subrange(0, i as int)),
        decreases texts@.len() - i,
    {
        put_text(out, texts[i].as_str());
        proof {
            let more = views.subrange(0, i + 1);
            assert(more.drop_last() =~= views.subrange(0, i as int));
            assert(more.last() == texts@[i as int]@);
            assert(out@ =~= start + wire_text_items(more));
        }
        i += 1;
    }
    assert(views.subrange(0, views.len() as int) =~= views);
    assert(out@ =~= old(out)@ + wire_texts(views));
}

/// Reads a 64-bit number at a position: the number and the position behind
/// it.
pub fn take_u64(bytes: &[u8], pos: usize) -> (result: Option<(u64, usize)>)
    requires
        pos <= bytes@.len(),
    ensures
        match parse_u64(remaining(bytes@, pos as int)) {
            Some((x, rest)) => result matches Some((y, next)) && y == x && pos <= next
                <= bytes@.len() && remaining(bytes@, next as int) == rest,
            None => result is None,
        },
{
    if bytes.len() - pos < 8 {
        return None;
    }
    let mut piece: Vec<u8> = Vec::new();
    let mut i: usize = 0;
    while i < 8
        invariant
            i <= 8,
            pos + 8 <= bytes@.len() <= usize::MAX,
            piece@ == bytes@.subrange(pos as int, pos + i),
        decreases 8 - i,
    {
        piece.push(bytes[pos + i]);
        assert(piece@ =~= bytes@.subrange(pos as int, pos + i + 1));
        i += 1;
    }
    let x = u64_from_le_bytes(piece.as_slice());
    proof {
        let r = remaining(bytes@, pos as int);
        assert(r.subrange(0, 8) =~= piece@);
        assert(r.subrange(8, r.len() as int) =~= remaining(bytes@, pos + 8));
    }
    Some((x, pos + 8))
}

/// Reads an identifier at a position.
pub fn take_id(bytes: &[u8], pos: usize) -> (result: Option<(u128, usize)>)
    requires
        pos <= bytes@.len(),
    ensures
        match parse_id(remaining(bytes@, pos as int)) {
            Some((x, rest)) => result matches Some((y, next)) && y == x && pos <= next
                <= bytes@.len() && remaining(bytes@, next as int) == rest,
            None => result is None,
        },
{
    let (n, at) = match take_u64(bytes, pos) {
        Some(found) => found,
        None => {
            return None;
        },
    };
    if n != 16 || bytes.len() - at < 16 {
        return None;
    }
    let mut piece: Vec<u8> = Vec::new();
    let mut i: usize = 0;
    while i < 16
        invariant
            i <= 16,
            at + 16 <= bytes@.len() <= usize::MAX,
            piece@.len() == i,
            forall|k: int| 0 <= k < i ==> piece@[k] == bytes@[at + 15 - k],
        decreases 16 - i,
    {
        piece.push(bytes[at + 15 - i]);
        i += 1;
    }
    let x = u128_from_le_bytes(piece.as_slice());
    proof {
        let rest = remaining(bytes@, at as int);
        assert(rest.subrange(0, 16).reverse() =~= piece@);
        assert(rest.subrange(16, rest.len() as int) =~= remaining(bytes@, at + 16));
    }
    Some((x, at + 16))
}

/// Reads a truth value at a position.
pub fn take_bool(bytes: &[u8], pos: usize) -> (result: Option<(bool, usize)>)
    requires
        pos <= bytes@.len(),
    ensures
        match parse_bool(remaining(bytes@, pos as int)) {
            Some((x, rest)) => result matches Some((y, next)) && y == x && pos <= next
                <= bytes@.len() && remaining(bytes@, next as int) == rest,
            None => result is None,
        },
{
    if pos >= bytes.len() {
        return None;
    }
    let b = bytes[pos];
    proof {
        let r = remaining(bytes@, pos as int);
        assert(r[0] == b);
        assert(r.subrange(1, r.len() as int) =~= remaining(bytes@, pos + 1));
    }
    if b > 1 {
        return None;
    }
    Some((b == 1, pos + 1))
}

/// Reads a text at a position.
pub fn take_text(bytes: &[u8], pos: usize) -> (result: Option<(String, usize)>)
    requires
        pos <= bytes@.len(),
    ensures
        match parse_text(remaining(bytes@, pos as int)) {
            Some((x, rest)) => result matches Some((y, next)) && y@ == x && pos <= next
                <= bytes@.len() && remaining(bytes@, next as int) == rest,
            None => result is None,
        },
{
    let (n, start) = match take_u64(bytes, pos) {
        Some(read) => read,
        None => {
            return None;
        },
    };
    let left: u64 = (bytes.len() - start) as u64;
    if left < n {
        return None;
    }
    let count: usize = n as usize;
    let mut piece: Vec<u8> = Vec::new();
    let mut i: usize = 0;
    while i < count
        invariant
            i <= count,
            start + count <= bytes@.len() <= usize::MAX,
            piece@ == bytes@.subrange(start as int, start + i),
        decreases count - i,
    {
        piece.push(bytes[start + i]);
        assert(piece@ =~= bytes@.subrange(start as int, start + i + 1));
        i += 1;
    }
    proof {
        let r = remaining(bytes@, start as int);
        assert(r.subrange(0, n as int) =~= piece@);
        assert(r.subrange(n as int, r.len() as int) =~= remaining(bytes@, start + count));
    }
    match text_from_utf8(piece) {
        Some(text) => Some((text, start + count)),
        None => None,
    }
}

/// Reads a list of identifiers at a position.
pub fn take_ids(bytes: &[u8], pos: usize) -> (result: Option<(Vec<u128>, usize)>)
    requires
        pos <= bytes@.len(),
    ensures
        match parse_ids(remaining(bytes@, pos as int)) {
            Some((x, rest)) => result matches Some((y, next)) && y@ == x && pos <= next
                <= bytes@.len() && remaining(bytes@, next as int) == rest,
            None => result is None,
        },
{
    let (n, start) = match take_u64(bytes, pos) {
        Some(read) => read,
        None => {
            return None;
        },
    };
    let ghost first = remaining(bytes@, start as int);
    let mut ids: Vec<u128> = Vec::new();
    let mut at: usize = start;
    let mut i: u64 = 0;
    assert(Seq::<u128>::empty() + Seq::<u128>::empty() =~= Seq::<u128>::empty());
    while i < n
        invariant
            i <= n,
            start <= at <= bytes@.len(),
            first == remaining(bytes@, start as int),
            parse_ids(remaining(bytes@, pos as int)) == parse_id_items(first, n as nat),
            parse_id_items(first, n as nat) == (match parse_id_items(
                remaining(bytes@, at as int),
                (n - i) as nat,
            ) {
                Some((xs, rest)) => Some((ids@ + xs, rest)),
                None => None,
            }),
        decreases n - i,
    {
        let ghost here = remaining(bytes@, at as int);
        match take_id(bytes, at) {
            Some((x, next)) => {
                proof {
                    let after = remaining(bytes@, next as int);
                    match parse_id_items(after, (n - i - 1) as nat) {
                        Some((xs, rest)) => {
                            assert(ids@ + (seq![x] + xs) =~= ids@.push(x) + xs);
                        },
                        None => {},
                    }
                }
                ids.push(x);
                at = next;
            },
            None => {
                return None;
            },
        }
        i += 1;
    }
    assert(ids@ + Seq::<u128>::empty() =~= ids@);
    Some((ids, at))
}

/// Reads a list of texts at a position.
pub fn take_texts(bytes: &[u8], pos: usize) -> (result: Option<(Vec<String>, usize)>)
    requires
        pos <= bytes@.len(),
    ensures
        match parse_texts(remaining(bytes@, pos as int)) {
            Some((x, rest)) => result matches Some((y, next)) && text_views(y@) == x && pos
                <= next <= bytes@.len() && remaining(bytes@, next as int) == rest,
            None => result is None,
        },
{
    let (n, start) = match take_u64(bytes, pos) {
        Some(read) => read,
        None => {
            return None;
        },
    };
    let ghost first = remaining(bytes@, start as int);
    let mut texts: Vec<String> = Vec::new();
    let mut at: usize = start;
    let mut i: u64 = 0;
    assert(text_views(texts@) =~= Seq::<Seq<char>>::empty());
    assert(Seq::<Seq<char>>::empty() + Seq::<Seq<char>>::empty() =~= Seq::<Seq<char>>::empty());
    while i < n
        invariant
            i <= n,
            start <= at <= bytes@.len(),
            first == remaining(bytes@, start as int),
            parse_texts(remaining(bytes@, pos as int)) == parse_text_items(first, n as nat),
            parse_text_items(first, n as nat) == (match parse_text_items(
                remaining(bytes@, at as int),
                (n - i) as nat,
            ) {
                Some((xs, rest)) => Some((text_views(texts@) + xs, rest)),
                None => None,
            }),
        decreases n - i,
    {
        match take_text(bytes, at) {
            Some((x, next)) => {
                let ghost before = text_views(texts@);
                let ghost view = x@;
                proof {
                    let after = remaining(bytes@, next as int);
                    match parse_text_items(after, (n - i - 1) as nat) {
                        Some((xs, rest)) => {
                            assert(before + (seq![view] + xs) =~= before.push(view) + xs);
                        },
                        None => {},
                    }
                }
                texts.push(x);
                assert(text_views(texts@) =~= before.push(view));
                at = next;
            },
            None => {
                return None;
            },
        }
        i += 1;
    }
    assert(text_views(texts@) + Seq::<Seq<char>>::empty() =~= text_views(texts@));
    Some((texts, at))
}

} // verus!
