//! The binary layout of a one-dimensional array of text values.

use crate::endian::be_i32;
use crate::endian::read_i32_be;
use crate::error::PgToPlError;
use crate::error::PgToPlResult;
use crate::text::text_from_utf8;
use crate::text::text_of;
use vstd::prelude::*;
use vstd::slice::slice_subrange;

verus! {

/// Why an array payload cannot be read.
pub enum PayloadFault {
    /// The payload announces a number of dimensions other than zero or one.
    Dimensions,
    /// The payload ends inside a number, announces a negative number of
    /// elements, or an element announces more bytes than are left.
    NotEnoughBytes,
}

/// The texts that a vector of optional strings holds.
pub open spec fn texts_of(v: Seq<Option<String>>) -> Seq<Option<Seq<char>>> {
    Seq::new(
        v.len(),
        |i: int|
            match v[i] {
                Some(s) => Some(s@),
                None => None,
            },
    )
}

/// The first `n` elements written in `bytes`: each is a four-byte signed
/// length followed by that many bytes of UTF-8, the length -1 standing
/// for a null element. An element whose bytes are not well-formed UTF-8
/// is null too. Bytes after the last element are not looked at.
pub open spec fn array_items(bytes: Seq<u8>, n: nat) -> Result<Seq<Option<Seq<char>>>, PayloadFault>
    decreases n,
{
    if n == 0 {
        Ok(Seq::empty())
    } else if bytes.len() < 4 {
        Err(PayloadFault::NotEnoughBytes)
    } else {
        let len = be_i32(bytes.subrange(0, 4));
        let rest = bytes.subrange(4, bytes.len() as int);
        if len == -1 {
            match array_items(rest, (n - 1) as nat) {
                Ok(s) => Ok(seq![None::<Seq<char>>] + s),
                Err(e) => Err(e),
            }
        } else if len < 0 || rest.len() < len {
            Err(PayloadFault::NotEnoughBytes)
        } else {
            match array_items(rest.subrange(len, rest.len() as int), (n - 1) as nat) {
                Ok(s) => Ok(seq![text_of(rest.subrange(0, len))] + s),
                Err(e) => Err(e),
            }
        }
    }
}

/// The array written in `bytes`: the number of dimensions, a null flag and
/// the element type (both passed over), then for the one dimension its
/// length and lower bound, then the elements. Zero dimensions make the
/// empty array. A payload that ends inside these numbers, or whose length
/// is negative, does not hold the bytes it announces.
pub open spec fn text_array(bytes: Seq<u8>) -> Result<Seq<Option<Seq<char>>>, PayloadFault> {
    if bytes.len() < 4 {
        Err(PayloadFault::NotEnoughBytes)
    } else if be_i32(bytes.subrange(0, 4)) == 0 {
        Ok(Seq::empty())
    } else if be_i32(bytes.subrange(0, 4)) != 1 {
        Err(PayloadFault::Dimensions)
    } else if bytes.len() < 20 {
        Err(PayloadFault::NotEnoughBytes)
    } else if be_i32(bytes.subrange(12, 16)) < 0 {
        Err(PayloadFault::NotEnoughBytes)
    } else {
        array_items(bytes.subrange(20, bytes.len() as int), be_i32(bytes.subrange(12, 16)) as nat)
    }
}

/// The outcome `r` is the one that the model `m` asks for.
pub open spec fn array_outcome(
    r: PgToPlResult<Vec<Option<String>>>,
    m: Result<Seq<Option<Seq<char>>>, PayloadFault>,
) -> bool {
    match m {
        Ok(items) => r matches Ok(v) && texts_of(v@) == items,
        Err(PayloadFault::Dimensions) => r matches Err(PgToPlError::OnlyOneDimensionArraySupported),
        Err(PayloadFault::NotEnoughBytes) => r matches Err(PgToPlError::NotEnoughBytes),
    }
}

/// What is left to read decides the whole: the elements read so far,
/// followed by what the rest gives.
pub open spec fn items_after(
    done: Seq<Option<Seq<char>>>,
    rest: Result<Seq<Option<Seq<char>>>, PayloadFault>,
) -> Result<Seq<Option<Seq<char>>>, PayloadFault> {
    match rest {
        Ok(s) => Ok(done + s),
        Err(e) => Err(e),
    }
}

/// Reads a one-dimensional text array from its binary form.
pub fn parse_text_array(bytes: &[u8]) -> (r: PgToPlResult<Vec<Option<String>>>)
    ensures
        array_outcome(r, text_array(bytes@)),
{
    let (ndim, rest) = match read_i32_be(bytes) {
        Ok(p) => p,
        Err(_) => { return Err(PgToPlError::NotEnoughBytes); },
    };
    if ndim == 0 {
        let empty: Vec<Option<String>> = Vec::new();
        assert(texts_of(empty@) =~= Seq::empty());
        return Ok(empty);
    } else if ndim != 1 {
        return Err(PgToPlError::OnlyOneDimensionArraySupported);
    }
    let (_has_null, rest) = match read_i32_be(rest) {
        Ok(p) => p,
        Err(_) => { return Err(PgToPlError::NotEnoughBytes); },
    };
    let (_element_oid, rest) = match read_i32_be(rest) {
        Ok(p) => p,
        Err(_) => { return Err(PgToPlError::NotEnoughBytes); },
    };
    let (dim_len, rest) = match read_i32_be(rest) {
        Ok(p) => p,
        Err(_) => { return Err(PgToPlError::NotEnoughBytes); },
    };
    let (_lower_bound, rest) = match read_i32_be(rest) {
        Ok(p) => p,
        Err(_) => { return Err(PgToPlError::NotEnoughBytes); },
    };
    proof {
        assert(rest@ =~= bytes@.subrange(20, bytes@.len() as int));
        assert(bytes@.subrange(4, bytes@.len() as int).subrange(4, bytes@.len() - 4).subrange(
            4,
            bytes@.len() - 8,
        ).subrange(0, 4) =~= bytes@.subrange(12, 16));
    }
    if dim_len < 0 {
        return Err(PgToPlError::NotEnoughBytes);
    }
    let count: usize = dim_len as usize;
    let ghost start = rest@;
    let mut cur: &[u8] = rest;
    let mut values: Vec<Option<String>> = Vec::new();
    let mut i: usize = 0;
    proof {
        assert(texts_of(values@) =~= Seq::empty());
        assert(items_after(texts_of(values@), array_items(cur@, (count - i) as nat))
            == array_items(start, count as nat)) by {
            match array_items(start, count as nat) {
                Ok(s) => { assert(Seq::<Option<Seq<char>>>::empty() + s =~= s); },
                Err(_) => {},
            }
        }
    }
    while i < count
        invariant
            i <= count,
            text_array(bytes@) == array_items(start, count as nat),
            items_after(texts_of(values@), array_items(cur@, (count - i) as nat)) == array_items(
                start,
                count as nat,
            ),
        decreases count - i,
    {
        let ghost done = texts_of(values@);
        let (item_len, after_len) = match read_i32_be(cur) {
            Ok(p) => p,
            Err(_) => { return Err(PgToPlError::NotEnoughBytes); },
        };
        if item_len == -1 {
            values.push(None);
            cur = after_len;
            proof {
                assert(texts_of(values@) =~= done + seq![None::<Seq<char>>]);
                lemma_items_after_step(done, None, array_items(cur@, (count - i - 1) as nat));
            }
        } else {
            if item_len < 0 {
                return Err(PgToPlError::NotEnoughBytes);
            }
            let item_len = item_len as usize;
            if after_len.len() < item_len {
                return Err(PgToPlError::NotEnoughBytes);
            }
            let str_bytes = slice_subrange(after_len, 0, item_len);
            let ghost text = text_of(str_bytes@);
            values.push(text_from_utf8(str_bytes));
            cur = slice_subrange(after_len, item_len, after_len.len());
            proof {
                assert(texts_of(values@) =~= done + seq![text]);
                lemma_items_after_step(done, text, array_items(cur@, (count - i - 1) as nat));
            }
        }
        i = i + 1;
    }
    proof {
        assert(texts_of(values@) + Seq::<Option<Seq<char>>>::empty() =~= texts_of(values@));
    }
    Ok(values)
}

/// Moving one element from the front of what is left to the back of what
/// is done changes nothing of the whole.
proof fn lemma_items_after_step(
    done: Seq<Option<Seq<char>>>,
    item: Option<Seq<char>>,
    rest: Result<Seq<Option<Seq<char>>>, PayloadFault>,
)
    ensures
        items_after(done + seq![item], rest) == items_after(
            done,
            match rest {
                Ok(s) => Ok(seq![item] + s),
                Err(e) => Err(e),
            },
        ),
{
    match rest {
        Ok(s) => {
            assert((done + seq![item]) + s =~= done + (seq![item] + s));
        },
        Err(_) => {},
    }
}

} // verus!
