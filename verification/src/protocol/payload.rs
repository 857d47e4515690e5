//! Building blocks of payloads: length-prefixed byte strings, counted
//! lists of them, and vectors of 32-bit words.
//!
//! Every length and count is a 32-bit big-endian integer. Reading is
//! strict: a prefix that announces more bytes than are left is an error.

use vstd::prelude::*;
use super::frame::ProtocolError;
use crate::wire::{
    be_u32_at, copy_range, get_u32, lemma_be_u32_window, put_slice, put_u32, u32_be,
};

verus! {

/// A byte string behind its length.
pub open spec fn prefixed(data: Seq<u8>) -> Seq<u8> {
    u32_be(data.len() as u32) + data
}

/// Each byte string of `items` behind its length, one after the other.
pub open spec fn prefixed_all(items: Seq<Seq<u8>>) -> Seq<u8>
    decreases items.len(),
{
    if items.len() == 0 {
        Seq::empty()
    } else {
        prefixed(items[0]) + prefixed_all(items.skip(1))
    }
}

/// The words of `v`, four big-endian bytes each.
pub open spec fn words_be(v: Seq<u32>) -> Seq<u8>
    decreases v.len(),
{
    if v.len() == 0 {
        Seq::empty()
    } else {
        words_be(v.drop_last()) + u32_be(v.last())
    }
}

/// A vector behind its dimension.
pub open spec fn counted_words(v: Seq<u32>) -> Seq<u8> {
    u32_be(v.len() as u32) + words_be(v)
}

/// Something read from a payload, and the position behind it.
pub struct Taken<T> {
    pub value: T,
    pub next: int,
}

/// The length-prefixed byte string at `at`. `short_prefix` is the error
/// when the prefix itself is cut off, `short_data` when the string is.
pub open spec fn take_prefixed(
    s: Seq<u8>,
    at: int,
    short_prefix: ProtocolError,
    short_data: ProtocolError,
) -> Result<Taken<Seq<u8>>, ProtocolError> {
    if s.len() - at < 4 {
        Err(short_prefix)
    } else if s.len() - at - 4 < be_u32_at(s, at) {
        Err(short_data)
    } else {
        Ok(
            Taken {
                value: s.subrange(at + 4, at + 4 + be_u32_at(s, at)),
                next: at + 4 + be_u32_at(s, at),
            },
        )
    }
}

/// `count` length-prefixed byte strings starting at `at`.
pub open spec fn take_items(
    s: Seq<u8>,
    at: int,
    count: nat,
    short_prefix: ProtocolError,
    short_data: ProtocolError,
) -> Result<Taken<Seq<Seq<u8>>>, ProtocolError>
    decreases count,
{
    if count == 0 {
        Ok(Taken { value: Seq::empty(), next: at })
    } else {
        match take_prefixed(s, at, short_prefix, short_data) {
            Err(e) => Err(e),
            Ok(first) => match take_items(
                s,
                first.next,
                (count - 1) as nat,
                short_prefix,
                short_data,
            ) {
                Err(e) => Err(e),
                Ok(others) => Ok(
                    Taken { value: seq![first.value] + others.value, next: others.next },
                ),
            },
        }
    }
}

/// The vector at `at`: a dimension, then that many 32-bit words.
pub open spec fn take_words(s: Seq<u8>, at: int) -> Result<Taken<Seq<u32>>, ProtocolError> {
    if s.len() - at < 4 {
        Err(ProtocolError::MissingField)
    } else if s.len() - at - 4 < 4 * be_u32_at(s, at) {
        Err(ProtocolError::MissingVectorData)
    } else {
        Ok(
            Taken {
                value: Seq::new(be_u32_at(s, at) as nat, |i: int| be_u32_at(s, at + 4 + 4 * i)),
                next: at + 4 + 4 * be_u32_at(s, at),
            },
        )
    }
}

/// The byte strings that a list of buffers holds.
pub open spec fn byte_strings(items: Seq<Vec<u8>>) -> Seq<Seq<u8>> {
    Seq::new(items.len(), |i: int| items[i]@)
}

/// The pairs of byte strings that a list of pairs of buffers holds.
pub open spec fn byte_pairs(pairs: Seq<(Vec<u8>, Vec<u8>)>) -> Seq<(Seq<u8>, Seq<u8>)> {
    Seq::new(pairs.len(), |i: int| (pairs[i].0@, pairs[i].1@))
}

/// Each word takes four bytes.
pub proof fn lemma_words_len(v: Seq<u32>)
    ensures
        words_be(v).len() == 4 * v.len(),
    decreases v.len(),
{
    if v.len() > 0 {
        lemma_words_len(v.drop_last());
    }
}

/// The four bytes of word `i` stand at offset `4 * i` of the written vector.
pub proof fn lemma_words_window(v: Seq<u32>, i: int)
    requires
        0 <= i < v.len(),
    ensures
        words_be(v).len() == 4 * v.len(),
        words_be(v).subrange(4 * i, 4 * i + 4) == u32_be(v[i]),
    decreases v.len(),
{
    lemma_words_len(v);
    lemma_words_len(v.drop_last());
    let init = v.drop_last();
    if i == v.len() - 1 {
        assert(words_be(v).subrange(4 * i, 4 * i + 4) =~= u32_be(v.last()));
    } else {
        lemma_words_window(init, i);
        assert(words_be(v).subrange(4 * i, 4 * i + 4) =~= words_be(init).subrange(
            4 * i,
            4 * i + 4,
        ));
    }
}

/// Each item takes at least the four bytes of its length.
pub proof fn lemma_prefixed_all_len(items: Seq<Seq<u8>>)
    ensures
        prefixed_all(items).len() >= 4 * items.len(),
    decreases items.len(),
{
    if items.len() > 0 {
        lemma_prefixed_all_len(items.skip(1));
    }
}

/// Where the bytes at `at` are a written length-prefixed string, it is
/// read back, whatever stands around it.
pub proof fn lemma_prefixed_window(
    s: Seq<u8>,
    at: int,
    data: Seq<u8>,
    short_prefix: ProtocolError,
    short_data: ProtocolError,
)
    requires
        data.len() <= u32::MAX,
        0 <= at,
        at + 4 + data.len() <= s.len(),
        s.subrange(at, at + 4 + data.len()) == prefixed(data),
    ensures
        take_prefixed(s, at, short_prefix, short_data) == Ok::<Taken<Seq<u8>>, ProtocolError>(
            Taken { value: data, next: at + 4 + data.len() },
        ),
{
    let w = s.subrange(at, at + 4 + data.len());
    assert(s.subrange(at, at + 4) =~= w.subrange(0, 4));
    assert(w.subrange(0, 4) =~= u32_be(data.len() as u32));
    lemma_be_u32_window(s, at, data.len() as u32);
    assert(s.subrange(at + 4, at + 4 + data.len()) =~= w.subrange(4, (4 + data.len()) as int));
    assert(w.subrange(4, (4 + data.len()) as int) =~= data);
}

/// Where the bytes at `at` are a written list of length-prefixed strings,
/// the list is read back.
pub proof fn lemma_items_window(
    s: Seq<u8>,
    at: int,
    items: Seq<Seq<u8>>,
    short_prefix: ProtocolError,
    short_data: ProtocolError,
)
    requires
        forall|i: int| 0 <= i < items.len() ==> (#[trigger] items[i]).len() <= u32::MAX,
        0 <= at,
        at + prefixed_all(items).len() <= s.len(),
        s.subrange(at, at + prefixed_all(items).len()) == prefixed_all(items),
    ensures
        take_items(s, at, items.len(), short_prefix, short_data) == Ok::<
            Taken<Seq<Seq<u8>>>,
            ProtocolError,
        >(Taken { value: items, next: at + prefixed_all(items).len() }),
    decreases items.len(),
{
    if items.len() > 0 {
        let tail = items.skip(1);
        let all = prefixed_all(items);
        let w = s.subrange(at, at + all.len());
        let first_len = 4 + items[0].len();
        assert(all == prefixed(items[0]) + prefixed_all(tail));
        assert(s.subrange(at, at + first_len) =~= w.subrange(0, first_len as int));
        assert(w.subrange(0, first_len as int) =~= prefixed(items[0]));
        lemma_prefixed_window(s, at, items[0], short_prefix, short_data);
        assert forall|i: int| 0 <= i < tail.len() implies (#[trigger] tail[i]).len()
            <= u32::MAX by {
            assert(tail[i] == items[i + 1]);
        }
        let at2 = at + first_len;
        assert(s.subrange(at2, at2 + prefixed_all(tail).len()) =~= w.subrange(
            first_len as int,
            all.len() as int,
        ));
        assert(w.subrange(first_len as int, all.len() as int) =~= prefixed_all(tail));
        lemma_items_window(s, at2, tail, short_prefix, short_data);
        assert(seq![items[0]] + tail =~= items);
        assert(take_items(s, at2, (items.len() - 1) as nat, short_prefix, short_data)
            == take_items(s, at2, tail.len(), short_prefix, short_data));
    } else {
        assert(items =~= Seq::<Seq<u8>>::empty());
    }
}

/// Where the bytes at `at` are a written vector, it is read back.
pub proof fn lemma_counted_words_window(s: Seq<u8>, at: int, v: Seq<u32>)
    requires
        v.len() <= u32::MAX,
        0 <= at,
        at + 4 + 4 * v.len() <= s.len(),
        s.subrange(at, at + 4 + 4 * v.len()) == counted_words(v),
    ensures
        take_words(s, at) == Ok::<Taken<Seq<u32>>, ProtocolError>(
            Taken { value: v, next: at + 4 + 4 * v.len() },
        ),
{
    lemma_words_len(v);
    let w = s.subrange(at, at + 4 + 4 * v.len());
    assert(s.subrange(at, at + 4) =~= w.subrange(0, 4));
    assert(w.subrange(0, 4) =~= u32_be(v.len() as u32));
    lemma_be_u32_window(s, at, v.len() as u32);
    let got = Seq::new(v.len(), |i: int| be_u32_at(s, at + 4 + 4 * i));
    assert forall|i: int| 0 <= i < v.len() implies got[i] == v[i] by {
        lemma_words_window(v, i);
        assert(s.subrange(at + 4 + 4 * i, at + 4 + 4 * i + 4) =~= w.subrange(
            4 + 4 * i,
            4 + 4 * i + 4,
        ));
        assert(w.subrange(4 + 4 * i, 4 + 4 * i + 4) =~= words_be(v).subrange(4 * i, 4 * i + 4));
        lemma_be_u32_window(s, at + 4 + 4 * i, v[i]);
    }
    assert(got =~= v);
}

/// Appends `data` behind its length.
pub fn write_prefixed(buf: &mut Vec<u8>, data: &Vec<u8>)
    ensures
        final(buf)@ == old(buf)@ + prefixed(data@),
{
    put_u32(buf, data.len() as u32);
    put_slice(buf, data);
    assert(buf@ =~= old(buf)@ + prefixed(data@));
}

/// Appends the words of `v`, four big-endian bytes each.
pub fn write_words(buf: &mut Vec<u8>, v: &Vec<u32>)
    ensures
        final(buf)@ == old(buf)@ + words_be(v@),
{
    let mut i: usize = 0;
    assert(words_be(v@.take(0)) =~= Seq::<u8>::empty());
    while i < v.len()
        invariant
            i <= v.len(),
            buf@ == old(buf)@ + words_be(v@.take(i as int)),
        decreases v.len() - i,
    {
        put_u32(buf, v[i]);
        proof {
            let next = v@.take(i + 1);
            assert(next.drop_last() =~= v@.take(i as int));
            assert(next.last() == v@[i as int]);
            assert(buf@ =~= old(buf)@ + words_be(next));
        }
        i += 1;
    }
    assert(v@.take(v.len() as int) =~= v@);
}

/// Appends each byte string of `items` behind its length.
pub fn write_items(buf: &mut Vec<u8>, items: &Vec<Vec<u8>>)
    ensures
        final(buf)@ == old(buf)@ + prefixed_all(byte_strings(items@)),
{
    let ghost all = byte_strings(items@);
    let mut i: usize = 0;
    assert(all.skip(0) =~= all);
    while i < items.len()
        invariant
            i <= items.len(),
            all == byte_strings(items@),
            buf@ + prefixed_all(all.skip(i as int)) == old(buf)@ + prefixed_all(all),
        decreases items.len() - i,
    {
        let ghost before = buf@;
        write_prefixed(buf, &items[i]);
        proof {
            let rest = all.skip(i as int);
            assert(rest[0] == items[i as int]@);
            assert(rest.skip(1) =~= all.skip(i + 1));
            assert(buf@ + prefixed_all(all.skip(i + 1)) =~= before + prefixed_all(rest));
        }
        i += 1;
    }
    assert(prefixed_all(all.skip(items.len() as int)) =~= Seq::<u8>::empty());
    assert(buf@ =~= old(buf)@ + prefixed_all(all));
}

/// Reads the length-prefixed byte string at `*at` and moves `*at` behind it.
pub fn read_prefixed(
    buf: &Vec<u8>,
    at: &mut usize,
    short_prefix: ProtocolError,
    short_data: ProtocolError,
) -> (r: Result<Vec<u8>, ProtocolError>)
    requires
        *old(at) <= buf.len(),
    ensures
        match take_prefixed(buf@, *old(at) as int, short_prefix, short_data) {
            Ok(taken) => r matches Ok(data) && data@ == taken.value && *final(at) == taken.next,
            Err(e) => r == Err::<Vec<u8>, ProtocolError>(e) && *final(at) == *old(at),
        },
        *final(at) <= buf.len(),
{
    let start = *at;
    if buf.len() - start < 4 {
        return Err(short_prefix);
    }
    let len = get_u32(buf, start) as usize;
    if buf.len() - start - 4 < len {
        return Err(short_data);
    }
    let data = copy_range(buf, start + 4, len);
    *at = start + 4 + len;
    Ok(data)
}

/// Reads `count` length-prefixed byte strings starting at `*at`.
pub fn read_items(
    buf: &Vec<u8>,
    at: &mut usize,
    count: u64,
    short_prefix: ProtocolError,
    short_data: ProtocolError,
) -> (r: Result<Vec<Vec<u8>>, ProtocolError>)
    requires
        *old(at) <= buf.len(),
    ensures
        match take_items(buf@, *old(at) as int, count as nat, short_prefix, short_data) {
            Ok(taken) => r matches Ok(items) && byte_strings(items@) == taken.value && *final(at)
                == taken.next,
            Err(e) => r == Err::<Vec<Vec<u8>>, ProtocolError>(e),
        },
        *final(at) <= buf.len(),
{
    let ghost start = *at as int;
    let ghost goal = take_items(buf@, start, count as nat, short_prefix, short_data);
    let mut items: Vec<Vec<u8>> = Vec::new();
    let mut i: u64 = 0;
    assert(byte_strings(items@) =~= Seq::<Seq<u8>>::empty());
    assert(byte_strings(items@) + goal->Ok_0.value =~= goal->Ok_0.value);
    while i < count
        invariant
            i <= count,
            *at <= buf.len(),
            start == *old(at) as int,
            goal == take_items(buf@, start, count as nat, short_prefix, short_data),
            goal == match take_items(
                buf@,
                *at as int,
                (count - i) as nat,
                short_prefix,
                short_data,
            ) {
                Ok(rest) => Ok::<Taken<Seq<Seq<u8>>>, ProtocolError>(
                    Taken { value: byte_strings(items@) + rest.value, next: rest.next },
                ),
                Err(e) => Err(e),
            },
        decreases count - i,
    {
        let ghost here = *at as int;
        let ghost before = byte_strings(items@);
        assert(count - i > 0);
        match read_prefixed(buf, at, short_prefix, short_data) {
            Err(e) => {
                assert(take_items(buf@, here, (count - i) as nat, short_prefix, short_data)
                    == Err::<Taken<Seq<Seq<u8>>>, ProtocolError>(e));
                return Err(e);
            },
            Ok(item) => {
                let ghost item_view = item@;
                items.push(item);
                proof {
                    assert(byte_strings(items@) =~= before + seq![item_view]);
                    let rest = take_items(
                        buf@,
                        *at as int,
                        (count - i - 1) as nat,
                        short_prefix,
                        short_data,
                    );
                    if let Ok(r) = rest {
                        assert(before + (seq![item_view] + r.value) =~= byte_strings(items@)
                            + r.value);
                    }
                }
            },
        }
        i += 1;
    }
    proof {
        assert(byte_strings(items@) + Seq::<Seq<u8>>::empty() =~= byte_strings(items@));
    }
    Ok(items)
}

/// Reads the vector at `*at` and moves `*at` behind it.
pub fn read_words(buf: &Vec<u8>, at: &mut usize) -> (r: Result<Vec<u32>, ProtocolError>)
    requires
        *old(at) <= buf.len(),
    ensures
        match take_words(buf@, *old(at) as int) {
            Ok(taken) => r matches Ok(v) && v@ == taken.value && *final(at) == taken.next,
            Err(e) => r == Err::<Vec<u32>, ProtocolError>(e) && *final(at) == *old(at),
        },
        *final(at) <= buf.len(),
{
    let start = *at;
    if buf.len() - start < 4 {
        return Err(ProtocolError::MissingField);
    }
    let count = get_u32(buf, start);
    if ((buf.len() - start - 4) as u64) < 4 * (count as u64) {
        return Err(ProtocolError::MissingVectorData);
    }
    let mut v: Vec<u32> = Vec::new();
    let mut i: usize = 0;
    while i < count as usize
        invariant
            i <= count,
            start + 4 + 4 * count <= buf.len(),
            v@.len() == i,
            forall|j: int| 0 <= j < i ==> v@[j] == be_u32_at(buf@, start + 4 + 4 * j),
        decreases count - i,
    {
        v.push(get_u32(buf, start + 4 + 4 * i));
        i += 1;
    }
    assert(v@ =~= Seq::new(count as nat, |j: int| be_u32_at(buf@, start + 4 + 4 * j)));
    *at = start + 4 + 4 * (count as usize);
    Ok(v)
}

} // verus!
