//! Vendor extensions: an ordered list of (name, data) string pairs, kept as
//! the flat string list of the wire in a `vec_strings::Strings`.
use vstd::prelude::*;
use vstd::utf8::*;

use vec_strings::Strings;

use crate::error::Error;
use crate::wire::{be_u32, decoded_as, parse_str, parse_u32, read_str, read_u32};

verus! {

#[verifier::external_type_specification]
#[verifier::external_body]
pub struct ExStrings(Strings);

/// The strings that a `Strings` holds, in the order they were pushed.
pub uninterp spec fn strings_of(v: Strings) -> Seq<Seq<char>>;

/// The number of UTF-8 bytes that the strings `ss` take together.
pub open spec fn utf8_total(ss: Seq<Seq<char>>) -> int
    decreases ss.len(),
{
    if ss.len() == 0 {
        0
    } else {
        utf8_total(ss.drop_last()) + encode_utf8(ss.last()).len()
    }
}

/// Consecutive strings taken two at a time; a last unmatched string is left
/// out.
pub open spec fn pairs_of(ss: Seq<Seq<char>>) -> Seq<(Seq<char>, Seq<char>)> {
    Seq::new((ss.len() / 2) as nat, |i: int| (ss[2 * i], ss[2 * i + 1]))
}

/// Relies on `Strings::new`: an empty collection.
#[verifier::external_body]
fn strings_new() -> (r: Strings)
    ensures
        strings_of(r) == Seq::<Seq<char>>::empty(),
{
    Strings::new()
}

/// Relies on `Strings::push`: it appends `s`.  It panics when the bytes of
/// all strings would exceed `u32::MAX`, which `requires` leaves out; a
/// `Strings` holds at most `u32::MAX` strings, which `requires` keeps too.
#[verifier::external_body]
fn strings_push(v: &mut Strings, s: &str)
    requires
        strings_of(*old(v)).len() < u32::MAX,
        utf8_total(strings_of(*old(v))) + encode_utf8(s@).len() <= u32::MAX,
    ensures
        strings_of(*final(v)) == strings_of(*old(v)).push(s@),
{
    v.push(s)
}

/// Relies on `Strings::len`: the number of strings held, which the type
/// documents to be at most `u32::MAX`.
#[verifier::external_body]
fn strings_len(v: &Strings) -> (r: u32)
    requires
        strings_of(*v).len() <= u32::MAX,
    ensures
        r as int == strings_of(*v).len(),
{
    v.len()
}

/// Relies on `Strings::strs_len`: the number of bytes of all strings held.
#[verifier::external_body]
fn strings_bytes_len(v: &Strings) -> (r: u32)
    ensures
        r as int == utf8_total(strings_of(*v)),
{
    v.strs_len()
}

/// Relies on `Strings::get`: the string at `index`, if there is one.
#[verifier::external_body]
fn strings_get(v: &Strings, index: u32) -> (r: Option<&str>)
    ensures
        index < strings_of(*v).len() ==> r is Some && r->Some_0@ == strings_of(*v)[index as int],
        index >= strings_of(*v).len() ==> r is None,
{
    v.get(index)
}

/// Relies on the derived `Clone` of `Strings`, which clones its byte buffer
/// and its array of string ends: the copy holds the same strings.
pub assume_specification[ <Strings as Clone>::clone ](v: &Strings) -> (r: Strings)
    ensures
        strings_of(r) == strings_of(*v),
;

/// The (name, data) pairs of vendor extensions.
#[derive(Debug)]
pub struct Extensions {
    strings: Strings,
}

impl View for Extensions {
    type V = Seq<(Seq<char>, Seq<char>)>;

    closed spec fn view(&self) -> Seq<(Seq<char>, Seq<char>)> {
        pairs_of(strings_of(self.strings))
    }
}

impl Clone for Extensions {
    fn clone(&self) -> (r: Self)
        ensures
            r@ == self@,
    {
        proof {
            use_type_invariant(self);
        }
        Extensions { strings: self.strings.clone() }
    }
}

impl Extensions {
    /// A `Strings` never holds more than `u32::MAX` strings.
    #[verifier::type_invariant]
    spec fn within_bounds(self) -> bool {
        strings_of(self.strings).len() <= u32::MAX
    }

    /// Pairs up a flat list of strings; `None` when their number is odd.
    pub fn new(strings: Strings) -> (r: Option<Self>)
        requires
            strings_of(strings).len() <= u32::MAX,
        ensures
            strings_of(strings).len() % 2 == 0 <==> r is Some,
            r is Some ==> r->Some_0@ == pairs_of(strings_of(strings)),
    {
        if strings_len(&strings) % 2 == 0 {
            Some(Extensions { strings })
        } else {
            None
        }
    }

    /// The number of pairs.
    pub fn len(&self) -> (r: u32)
        ensures
            r as int == self@.len(),
    {
        proof {
            use_type_invariant(self);
        }
        strings_len(&self.strings) / 2
    }

    pub fn is_empty(&self) -> (r: bool)
        ensures
            r == (self@.len() == 0),
    {
        proof {
            use_type_invariant(self);
        }
        strings_len(&self.strings) < 2
    }

    /// The pair at `index`: its name and its data.
    pub fn get(&self, index: u32) -> (r: Option<(&str, &str)>)
        ensures
            index < self@.len() ==> r is Some && r->Some_0.0@ == self@[index as int].0
                && r->Some_0.1@ == self@[index as int].1,
            index >= self@.len() ==> r is None,
    {
        proof {
            use_type_invariant(self);
        }
        let n = strings_len(&self.strings);
        if index >= n / 2 {
            None
        } else {
            match (strings_get(&self.strings, 2 * index), strings_get(&self.strings, 2 * index + 1)) {
                (Some(name), Some(data)) => Some((name, data)),
                _ => None,
            }
        }
    }
}

/// Whether a string of `len` bytes still fits beside `count` strings of
/// `total` bytes: at most `u32::MAX` strings, and at most `u32::MAX` bytes.
pub open spec fn fits(count: nat, total: int, len: int) -> bool {
    count < u32::MAX && total + len <= u32::MAX
}

/// `k` strings, one after another, collected beside `count` strings of
/// `total` bytes: `TooLong` where the next string would not fit.
pub open spec fn parse_strs_from(s: Seq<u8>, k: nat, count: nat, total: int) -> Result<(Seq<Seq<char>>, Seq<u8>), Error>
    decreases k,
{
    if k == 0 {
        Ok((Seq::empty(), s))
    } else {
        match parse_str(s) {
            Err(e) => Err(e),
            Ok((x, rest)) => if !fits(count, total, encode_utf8(x).len() as int) {
                Err(Error::TooLong)
            } else {
                match parse_strs_from(rest, (k - 1) as nat, count + 1, total + encode_utf8(x).len()) {
                    Err(e) => Err(e),
                    Ok((xs, r)) => Ok((seq![x] + xs, r)),
                }
            },
        }
    }
}

/// `k` strings, one after another, into an empty collection.
pub open spec fn parse_strs(s: Seq<u8>, k: nat) -> Result<(Seq<Seq<char>>, Seq<u8>), Error> {
    parse_strs_from(s, k, 0, 0)
}

/// Strings, one after another, up to the end of `s`, collected beside
/// `count` strings of `total` bytes.
pub open spec fn parse_strs_to_end_from(s: Seq<u8>, count: nat, total: int) -> Result<Seq<Seq<char>>, Error>
    decreases s.len(),
{
    if s.len() == 0 {
        Ok(Seq::empty())
    } else {
        match parse_str(s) {
            Err(e) => Err(e),
            Ok((x, rest)) => if !fits(count, total, encode_utf8(x).len() as int) {
                Err(Error::TooLong)
            } else {
                match parse_strs_to_end_from(rest, count + 1, total + encode_utf8(x).len()) {
                    Err(e) => Err(e),
                    Ok(xs) => Ok(seq![x] + xs),
                }
            },
        }
    }
}

/// Strings, one after another, up to the end of `s`.
pub open spec fn parse_strs_to_end(s: Seq<u8>) -> Result<Seq<Seq<char>>, Error> {
    parse_strs_to_end_from(s, 0, 0)
}

/// The extension list of an attribute set: a `u32` count of pairs, then
/// a name and a data string for each pair.
pub open spec fn parse_extensions(s: Seq<u8>) -> Result<(Seq<(Seq<char>, Seq<char>)>, Seq<u8>), Error> {
    match parse_u32(s) {
        Err(e) => Err(e),
        Ok((n, rest)) => match parse_strs(rest, (2 * n) as nat) {
            Err(e) => Err(e),
            Ok((ss, r)) => Ok((pairs_of(ss), r)),
        },
    }
}

/// `p` put in front of the strings that `r` holds, if it holds any.
pub open spec fn prefixed(p: Seq<Seq<char>>, r: Result<(Seq<Seq<char>>, Seq<u8>), Error>) -> Result<(Seq<Seq<char>>, Seq<u8>), Error> {
    match r {
        Err(e) => Err(e),
        Ok((xs, rest)) => Ok((p + xs, rest)),
    }
}

pub open spec fn prefixed_to_end(p: Seq<Seq<char>>, r: Result<Seq<Seq<char>>, Error>) -> Result<Seq<Seq<char>>, Error> {
    match r {
        Err(e) => Err(e),
        Ok(xs) => Ok(p + xs),
    }
}

/// The bytes of a decoded string are the bytes it was decoded from, so
/// there are at most `u32::MAX` of them.
proof fn lemma_parse_str_len(s: Seq<u8>)
    requires
        parse_str(s) is Ok,
    ensures
        encode_utf8(parse_str(s)->Ok_0.0).len() <= u32::MAX,
{
    let n = be_u32(s) as u32;
    decode_utf8_encode_utf8(s.subrange(4, s.len() as int).subrange(0, n as int));
}

/// Reads `k` strings one after another, as `parse_strs` says.
fn read_strs(s: &[u8], k: u64) -> (r: Result<(Strings, &[u8]), Error>)
    ensures
        match r {
            Ok((v, rest)) => parse_strs(s@, k as nat) == Ok::<(Seq<Seq<char>>, Seq<u8>), Error>((strings_of(v), rest@)),
            Err(e) => parse_strs(s@, k as nat) == Err::<(Seq<Seq<char>>, Seq<u8>), Error>(e),
        },
        r is Ok ==> r->Ok_0.1@.len() <= s@.len() && strings_of(r->Ok_0.0).len() <= u32::MAX,
{
    let mut strings = strings_new();
    let mut cur = s;
    let mut i: u64 = 0;
    while i < k
        invariant
            i <= k,
            parse_strs(s@, k as nat) == prefixed(
                strings_of(strings),
                parse_strs_from(cur@, (k - i) as nat, strings_of(strings).len(), utf8_total(strings_of(strings))),
            ),
            strings_of(strings).len() <= u32::MAX,
            utf8_total(strings_of(strings)) <= u32::MAX,
            cur@.len() <= s@.len(),
        decreases k - i,
    {
        match read_str(cur) {
            Err(e) => {
                return Err(e);
            },
            Ok((x, rest)) => {
                proof {
                    lemma_parse_str_len(cur@);
                }
                let count = strings_len(&strings);
                let used = strings_bytes_len(&strings);
                if count == u32::MAX || x.len() > (u32::MAX - used) as usize {
                    return Err(Error::TooLong);
                }
                let ghost before = strings_of(strings);
                strings_push(&mut strings, x);
                proof {
                    assert(strings_of(strings).drop_last() =~= before);
                    let tail = parse_strs_from(rest@, (k - i - 1) as nat, strings_of(strings).len(), utf8_total(strings_of(strings)));
                    match tail {
                        Err(_) => {},
                        Ok((xs, r)) => {
                            assert(before + (seq![x@] + xs) =~= before.push(x@) + xs);
                        },
                    }
                }
                cur = rest;
                i = i + 1;
            },
        }
    }
    proof {
        assert(strings_of(strings) + Seq::<Seq<char>>::empty() =~= strings_of(strings));
    }
    Ok((strings, cur))
}

/// Reads an extension list as it stands in an attribute set.
pub fn read_extensions(s: &[u8]) -> (r: Result<(Extensions, &[u8]), Error>)
    ensures
        decoded_as(r, parse_extensions(s@)),
        r is Ok ==> r->Ok_0.1@.len() <= s@.len(),
{
    match read_u32(s) {
        Err(e) => Err(e),
        Ok((n, rest)) => match read_strs(rest, 2 * (n as u64)) {
            Err(e) => Err(e),
            Ok((strings, r)) => Ok((Extensions { strings }, r)),
        },
    }
}

/// Reads strings one after another until `s` is used up.
pub fn read_strs_to_end(s: &[u8]) -> (r: Result<Strings, Error>)
    ensures
        match r {
            Ok(v) => parse_strs_to_end(s@) == Ok::<Seq<Seq<char>>, Error>(strings_of(v)),
            Err(e) => parse_strs_to_end(s@) == Err::<Seq<Seq<char>>, Error>(e),
        },
        r is Ok ==> strings_of(r->Ok_0).len() <= u32::MAX,
{
    let mut strings = strings_new();
    let mut cur = s;
    while cur.len() > 0
        invariant
            parse_strs_to_end(s@) == prefixed_to_end(
                strings_of(strings),
                parse_strs_to_end_from(cur@, strings_of(strings).len(), utf8_total(strings_of(strings))),
            ),
            strings_of(strings).len() <= u32::MAX,
            utf8_total(strings_of(strings)) <= u32::MAX,
        decreases cur@.len(),
    {
        match read_str(cur) {
            Err(e) => {
                return Err(e);
            },
            Ok((x, rest)) => {
                proof {
                    lemma_parse_str_len(cur@);
                }
                let count = strings_len(&strings);
                let used = strings_bytes_len(&strings);
                if count == u32::MAX || x.len() > (u32::MAX - used) as usize {
                    return Err(Error::TooLong);
                }
                let ghost before = strings_of(strings);
                strings_push(&mut strings, x);
                proof {
                    assert(strings_of(strings).drop_last() =~= before);
                    match parse_strs_to_end_from(rest@, strings_of(strings).len(), utf8_total(strings_of(strings))) {
                        Err(_) => {},
                        Ok(xs) => {
                            assert(before + (seq![x@] + xs) =~= before.push(x@) + xs);
                        },
                    }
                }
                cur = rest;
            },
        }
    }
    proof {
        assert(strings_of(strings) + Seq::<Seq<char>>::empty() =~= strings_of(strings));
    }
    Ok(strings)
}

} // verus!
