//! Collations: the orders under which byte strings are compared.

use vstd::prelude::*;
use vstd::string::StrSliceExecFns;
use vstd::utf8::{decode_utf8, valid_utf8};
use core::marker::PhantomData;
use crate::bytes_order::{bytes_equal, bytes_less, lex_lt};
use crate::extremum::{EvalError, SortOrder};

verus! {

/// The collations that a field may be declared with.
#[derive(Clone, Copy, Debug, PartialEq, Eq, Structural)]
pub enum Collation {
    Binary,
    Utf8Mb4Bin,
    Utf8Mb4GeneralCi,
    Utf8Mb4BinNoPadding,
}

/// An order on byte strings. Some collations cannot compare every pair of
/// byte strings; for such a pair the order is undefined and the comparison
/// fails with [`EvalError::InvalidCollationInput`].
pub trait Collator: Sized {
    /// How `a` stands to `b`, where the collation can tell.
    spec fn order(a: Seq<u8>, b: Seq<u8>) -> Option<SortOrder>;

    /// Compares `a` with `b`.
    fn sort_compare(a: &Vec<u8>, b: &Vec<u8>) -> (compared: Result<SortOrder, EvalError>)
        ensures
            match compared {
                Ok(o) => Self::order(a@, b@) == Some(o),
                Err(e) => Self::order(a@, b@).is_none() && e == EvalError::InvalidCollationInput,
            },
    ;
}

/// How `a` stands to `b` in byte order.
pub open spec fn byte_order(a: Seq<u8>, b: Seq<u8>) -> SortOrder {
    if lex_lt(a, b) {
        SortOrder::Less
    } else if a == b {
        SortOrder::Equal
    } else {
        SortOrder::Greater
    }
}

/// Executable form of [`byte_order`].
pub fn compare_bytes(a: &Vec<u8>, b: &Vec<u8>) -> (order: SortOrder)
    ensures
        order == byte_order(a@, b@),
{
    if bytes_less(a, b) {
        SortOrder::Less
    } else if bytes_equal(a, b) {
        SortOrder::Equal
    } else {
        SortOrder::Greater
    }
}

/// The space with which texts are padded.
pub const PADDING_SPACE: u8 = 0x20;

/// `bytes` without the spaces at its end.
pub open spec fn trimmed(bytes: Seq<u8>) -> Seq<u8>
    decreases bytes.len(),
{
    if bytes.len() > 0 && bytes.last() == PADDING_SPACE {
        trimmed(bytes.drop_last())
    } else {
        bytes
    }
}

/// A copy of `bytes` without the spaces at its end.
pub fn trim_padding(bytes: &Vec<u8>) -> (short: Vec<u8>)
    ensures
        short@ == trimmed(bytes@),
{
    let mut n: usize = bytes.len();
    assert(bytes@.take(n as int) =~= bytes@);
    while n > 0 && bytes[n - 1] == PADDING_SPACE
        invariant
            n <= bytes.len(),
            trimmed(bytes@) == trimmed(bytes@.take(n as int)),
        decreases n,
    {
        assert(bytes@.take(n as int).drop_last() =~= bytes@.take(n - 1));
        n -= 1;
    }
    assert(trimmed(bytes@.take(n as int)) == bytes@.take(n as int)) by {
        if n > 0 {
            assert(bytes@.take(n as int).last() == bytes@[n - 1]);
        }
    }
    let mut short: Vec<u8> = Vec::new();
    let mut i: usize = 0;
    assert(short@ =~= bytes@.take(0));
    while i < n
        invariant
            i <= n <= bytes.len(),
            short@ == bytes@.take(i as int),
        decreases n - i,
    {
        short.push(bytes[i]);
        assert(short@ =~= bytes@.take(i + 1));
        i += 1;
    }
    short
}

/// Calls `core::str::from_utf8`. Trusted: it succeeds on exactly the byte
/// strings that are well-formed UTF-8, and the text that it gives holds
/// the characters that the bytes encode.
#[verifier::external_body]
pub(crate) fn as_utf8(bytes: &Vec<u8>) -> (text: Option<&str>)
    ensures
        match text {
            Some(s) => valid_utf8(bytes@) && s@ == decode_utf8(bytes@),
            None => !valid_utf8(bytes@),
        },
{
    core::str::from_utf8(bytes).ok()
}

/// The collation that compares byte by byte.
#[derive(Debug, Clone, Copy)]
pub struct CollatorBinary;

impl Collator for CollatorBinary {
    open spec fn order(a: Seq<u8>, b: Seq<u8>) -> Option<SortOrder> {
        Some(byte_order(a, b))
    }

    fn sort_compare(a: &Vec<u8>, b: &Vec<u8>) -> (compared: Result<SortOrder, EvalError>) {
        Ok(compare_bytes(a, b))
    }
}

/// The collation of UTF-8 texts that compares byte by byte and takes no
/// account of the spaces at the end of a text.
#[derive(Debug, Clone, Copy)]
pub struct CollatorUtf8Mb4Bin;

impl Collator for CollatorUtf8Mb4Bin {
    open spec fn order(a: Seq<u8>, b: Seq<u8>) -> Option<SortOrder> {
        if valid_utf8(a) && valid_utf8(b) {
            Some(byte_order(trimmed(a), trimmed(b)))
        } else {
            None
        }
    }

    fn sort_compare(a: &Vec<u8>, b: &Vec<u8>) -> (compared: Result<SortOrder, EvalError>) {
        if as_utf8(a).is_none() {
            return Err(EvalError::InvalidCollationInput);
        }
        if as_utf8(b).is_none() {
            return Err(EvalError::InvalidCollationInput);
        }
        let sa = trim_padding(a);
        let sb = trim_padding(b);
        Ok(compare_bytes(&sa, &sb))
    }
}

/// The collation of UTF-8 texts that compares byte by byte, the spaces at
/// the end of a text included.
#[derive(Debug, Clone, Copy)]
pub struct CollatorUtf8Mb4BinNoPadding;

impl Collator for CollatorUtf8Mb4BinNoPadding {
    open spec fn order(a: Seq<u8>, b: Seq<u8>) -> Option<SortOrder> {
        if valid_utf8(a) && valid_utf8(b) {
            Some(byte_order(a, b))
        } else {
            None
        }
    }

    fn sort_compare(a: &Vec<u8>, b: &Vec<u8>) -> (compared: Result<SortOrder, EvalError>) {
        if as_utf8(a).is_none() {
            return Err(EvalError::InvalidCollationInput);
        }
        if as_utf8(b).is_none() {
            return Err(EvalError::InvalidCollationInput);
        }
        Ok(compare_bytes(a, b))
    }
}

/// The weights by which a collation tells characters apart: characters
/// of one weight are the same to it.
pub trait CharWeights: Sized {
    /// The weight of `c`.
    spec fn spec_weight(c: char) -> u16;

    /// The weight of `c`.
    fn weight(c: char) -> (w: u16)
        ensures
            w == Self::spec_weight(c),
    ;
}

/// The weights under which each character of the first 65536 weighs what
/// its number is, and every other character 0xFFFD.
#[derive(Debug, Clone, Copy)]
pub struct PlainWeights;

impl CharWeights for PlainWeights {
    open spec fn spec_weight(c: char) -> u16 {
        if c as u32 > 0xFFFF {
            0xFFFDu16
        } else {
            c as u32 as u16
        }
    }

    fn weight(c: char) -> (w: u16) {
        let r = c as u32;
        if r > 0xFFFF {
            0xFFFD
        } else {
            r as u16
        }
    }
}

/// `text` without the spaces at its end.
pub open spec fn trimmed_text(text: Seq<char>) -> Seq<char>
    decreases text.len(),
{
    if text.len() > 0 && text.last() == ' ' {
        trimmed_text(text.drop_last())
    } else {
        text
    }
}

/// The key by which a text is sorted under the weights `W`: the weight of
/// each of its characters in turn, the high byte first.
pub open spec fn sort_key<W: CharWeights>(text: Seq<char>) -> Seq<u8>
    decreases text.len(),
{
    if text.len() == 0 {
        Seq::empty()
    } else {
        sort_key::<W>(text.drop_last()).push((W::spec_weight(text.last()) / 256) as u8).push(
            (W::spec_weight(text.last()) % 256) as u8,
        )
    }
}

/// The characters that `bytes` encode, where `bytes` is well-formed UTF-8.
pub fn decode(bytes: &Vec<u8>) -> (text: Option<Vec<char>>)
    ensures
        match text {
            Some(t) => valid_utf8(bytes@) && t@ == decode_utf8(bytes@),
            None => !valid_utf8(bytes@),
        },
{
    match as_utf8(bytes) {
        None => None,
        Some(s) => {
            let n = s.unicode_len();
            let mut text: Vec<char> = Vec::new();
            let mut i: usize = 0;
            while i < n
                invariant
                    n == s@.len(),
                    i <= n,
                    text@ == s@.take(i as int),
                decreases n - i,
            {
                text.push(s.get_char(i));
                assert(text@ =~= s@.take(i + 1));
                i += 1;
            }
            assert(text@ =~= s@);
            Some(text)
        },
    }
}

/// The sort key of `text`, its spaces at the end left out.
pub fn padded_sort_key<W: CharWeights>(text: &Vec<char>) -> (key: Vec<u8>)
    ensures
        key@ == sort_key::<W>(trimmed_text(text@)),
{
    let mut n: usize = text.len();
    assert(text@.take(n as int) =~= text@);
    while n > 0 && text[n - 1] == ' '
        invariant
            n <= text.len(),
            trimmed_text(text@) == trimmed_text(text@.take(n as int)),
        decreases n,
    {
        assert(text@.take(n as int).drop_last() =~= text@.take(n - 1));
        n -= 1;
    }
    assert(trimmed_text(text@.take(n as int)) == text@.take(n as int)) by {
        if n > 0 {
            assert(text@.take(n as int).last() == text@[n - 1]);
        }
    }
    let mut key: Vec<u8> = Vec::new();
    let mut i: usize = 0;
    assert(text@.take(0) =~= Seq::<char>::empty());
    while i < n
        invariant
            i <= n <= text.len(),
            key@ == sort_key::<W>(text@.take(i as int)),
        decreases n - i,
    {
        let w = W::weight(text[i]);
        proof {
            assert(text@.take(i + 1).drop_last() =~= text@.take(i as int));
            assert(text@.take(i + 1).last() == text@[i as int]);
        }
        key.push((w / 256) as u8);
        key.push((w % 256) as u8);
        i += 1;
    }
    key
}

/// The collation of UTF-8 texts that compares character by character
/// under the weights `W` and takes no account of the spaces at the end of
/// a text. With the weights of the general case-insensitive collation it
/// is that collation.
#[derive(Debug)]
pub struct CollatorUtf8Mb4GeneralCi<W: CharWeights> {
    _weights: PhantomData<W>,
}

impl<W: CharWeights> Collator for CollatorUtf8Mb4GeneralCi<W> {
    open spec fn order(a: Seq<u8>, b: Seq<u8>) -> Option<SortOrder> {
        if valid_utf8(a) && valid_utf8(b) {
            Some(
                byte_order(
                    sort_key::<W>(trimmed_text(decode_utf8(a))),
                    sort_key::<W>(trimmed_text(decode_utf8(b))),
                ),
            )
        } else {
            None
        }
    }

    fn sort_compare(a: &Vec<u8>, b: &Vec<u8>) -> (compared: Result<SortOrder, EvalError>) {
        let ta = match decode(a) {
            Some(t) => t,
            None => {
                return Err(EvalError::InvalidCollationInput);
            },
        };
        let tb = match decode(b) {
            Some(t) => t,
            None => {
                return Err(EvalError::InvalidCollationInput);
            },
        };
        let ka = padded_sort_key::<W>(&ta);
        let kb = padded_sort_key::<W>(&tb);
        Ok(compare_bytes(&ka, &kb))
    }
}

} // verus!
