//! The elementary encodings of the wire: little-endian integers and
//! length-prefixed strings, and the cursor they are read back through.

use vstd::prelude::*;
use vstd::utf8::*;

use crate::error::Error;

verus! {

/// The `n` low bytes of `v`, least significant first.
pub open spec fn le_bytes(v: nat, n: nat) -> Seq<u8>
    decreases n,
{
    if n == 0 {
        Seq::empty()
    } else {
        seq![(v % 256) as u8] + le_bytes(v / 256, (n - 1) as nat)
    }
}

/// The number a little-endian byte string stands for.
pub open spec fn le_value(s: Seq<u8>) -> nat
    decreases s.len(),
{
    if s.len() == 0 {
        0
    } else {
        s[0] as nat + 256 * le_value(s.drop_first())
    }
}

/// How many values `n` bytes can tell apart.
pub open spec fn byte_range(n: nat) -> nat
    decreases n,
{
    if n == 0 {
        1
    } else {
        256 * byte_range((n - 1) as nat)
    }
}

pub proof fn lemma_byte_ranges()
    ensures
        byte_range(2) == 0x1_0000,
        byte_range(4) == 0x1_0000_0000,
        byte_range(8) == 0x1_0000_0000_0000_0000,
{
    reveal_with_fuel(byte_range, 9);
}

pub proof fn lemma_le_bytes_len(v: nat, n: nat)
    ensures
        le_bytes(v, n).len() == n,
    decreases n,
{
    if n > 0 {
        lemma_le_bytes_len(v / 256, (n - 1) as nat);
    }
}

/// An `n`-byte string stands for a number below `byte_range(n)`.
pub proof fn lemma_le_value_bound(s: Seq<u8>)
    ensures
        le_value(s) < byte_range(s.len()),
    decreases s.len(),
{
    if s.len() > 0 {
        lemma_le_value_bound(s.drop_first());
    }
}

/// Reading back the `n` bytes of a number that fits them gives the
/// number.
pub proof fn lemma_le_value_of_bytes(v: nat, n: nat)
    requires
        v < byte_range(n),
    ensures
        le_value(le_bytes(v, n)) == v,
    decreases n,
{
    if n > 0 {
        let tail = le_bytes(v / 256, (n - 1) as nat);
        lemma_le_value_of_bytes(v / 256, (n - 1) as nat);
        assert(le_bytes(v, n).drop_first() =~= tail);
    }
}

/// Every byte string is the encoding of the number it stands for.
pub proof fn lemma_le_bytes_of_value(s: Seq<u8>)
    ensures
        le_bytes(le_value(s), s.len()) == s,
    decreases s.len(),
{
    if s.len() > 0 {
        let tail = s.drop_first();
        lemma_le_bytes_of_value(tail);
        assert(le_value(s) / 256 == le_value(tail));
        assert(le_bytes(le_value(s), s.len()) =~= s);
    }
}

/// Four bytes carry a number modulo 2^32.
pub proof fn lemma_le_bytes_mod_u32(v: nat)
    ensures
        le_bytes(v % 0x1_0000_0000, 4) == le_bytes(v, 4),
{
    reveal_with_fuel(le_bytes, 5);
    let w = v % 0x1_0000_0000;
    assert(w % 256 == v % 256);
    assert((w / 256) % 256 == (v / 256) % 256);
    assert((w / 256 / 256) % 256 == (v / 256 / 256) % 256);
    assert((w / 256 / 256 / 256) % 256 == (v / 256 / 256 / 256) % 256);
}

/// A string on the wire: the byte length of its UTF-8 encoding, modulo
/// 2^32, then the encoding.
pub open spec fn str_wire(s: Seq<char>) -> Seq<u8> {
    le_bytes(encode_utf8(s).len(), 4) + encode_utf8(s)
}

/// Append the `n` low bytes of `v`, least significant first.
fn put_le(buf: &mut Vec<u8>, v: u64, n: usize)
    ensures
        final(buf)@ == old(buf)@ + le_bytes(v as nat, n as nat),
    decreases n,
{
    if n > 0 {
        buf.push((v % 256) as u8);
        put_le(buf, v / 256, n - 1);
        assert(final(buf)@ =~= old(buf)@ + le_bytes(v as nat, n as nat));
    }
}

/// Append a 16-bit number.
pub fn put_u16(buf: &mut Vec<u8>, v: u16)
    ensures
        final(buf)@ == old(buf)@ + le_bytes(v as nat, 2),
{
    put_le(buf, v as u64, 2);
}

/// Append a 32-bit number.
pub fn put_u32(buf: &mut Vec<u8>, v: u32)
    ensures
        final(buf)@ == old(buf)@ + le_bytes(v as nat, 4),
{
    put_le(buf, v as u64, 4);
}

/// Append a 64-bit number.
pub fn put_u64(buf: &mut Vec<u8>, v: u64)
    ensures
        final(buf)@ == old(buf)@ + le_bytes(v as nat, 8),
{
    put_le(buf, v, 8);
}

/// Append a length or a count, modulo 2^32.
pub fn put_len(buf: &mut Vec<u8>, len: usize)
    ensures
        final(buf)@ == old(buf)@ + le_bytes(len as nat, 4),
{
    let wide: u64 = len as u64;
    assert(wide as u32 == wide % 0x1_0000_0000) by (bit_vector);
    proof {
        lemma_le_bytes_mod_u32(len as nat);
    }
    put_u32(buf, wide as u32);
}

/// Append a string behind its length.
pub fn put_str(buf: &mut Vec<u8>, s: &str)
    ensures
        final(buf)@ == old(buf)@ + str_wire(s@),
{
    let bytes: &[u8] = s.as_bytes();
    put_len(buf, bytes.len());
    buf.extend_from_slice(bytes);
    assert(final(buf)@ =~= old(buf)@ + str_wire(s@));
}

/// A value read off the front of a byte string, with the bytes behind
/// it, or why there is none.
pub type Parsed<T> = Result<(T, Seq<u8>), Error>;

/// The next `n` bytes of `s`.
pub open spec fn next_bytes(s: Seq<u8>, n: nat) -> Parsed<Seq<u8>> {
    if n <= s.len() {
        Ok((s.take(n as int), s.skip(n as int)))
    } else {
        Err(Error::PayloadEndsMidMessage)
    }
}

/// The next little-endian number of `n` bytes.
pub open spec fn next_number(s: Seq<u8>, n: nat) -> Parsed<nat> {
    match next_bytes(s, n) {
        Ok((bytes, rest)) => Ok((le_value(bytes), rest)),
        Err(e) => Err(e),
    }
}

/// The next length-prefixed string.
pub open spec fn next_string(s: Seq<u8>) -> Parsed<Seq<char>> {
    match next_number(s, 4) {
        Ok((len, rest)) => match next_bytes(rest, len) {
            Ok((bytes, rest)) => if valid_utf8(bytes) {
                Ok((decode_utf8(bytes), rest))
            } else {
                Err(Error::NotUtf8)
            },
            Err(e) => Err(e),
        },
        Err(e) => Err(e),
    }
}

/// How many bytes of `s` reading its next string takes, whether or not
/// it gives one.
pub open spec fn string_extent(s: Seq<u8>) -> nat {
    match next_number(s, 4) {
        Ok((len, rest)) => if len <= rest.len() {
            4 + len
        } else {
            4
        },
        Err(_) => 0,
    }
}

/// Reading back an encoded number that fits its bytes gives the number
/// and what was behind it.
pub proof fn lemma_next_number_of_bytes(v: nat, n: nat, rest: Seq<u8>)
    requires
        v < byte_range(n),
    ensures
        next_number(le_bytes(v, n) + rest, n) == Ok::<(nat, Seq<u8>), Error>((v, rest)),
{
    lemma_le_bytes_len(v, n);
    lemma_le_value_of_bytes(v, n);
    assert((le_bytes(v, n) + rest).take(n as int) =~= le_bytes(v, n));
    assert((le_bytes(v, n) + rest).skip(n as int) =~= rest);
}

/// What a number was read from is its encoding, followed by what is
/// left.
pub proof fn lemma_bytes_of_next_number(s: Seq<u8>, n: nat)
    requires
        next_number(s, n) is Ok,
    ensures
        next_number(s, n)->Ok_0.0 < byte_range(n),
        s == le_bytes(next_number(s, n)->Ok_0.0, n) + next_number(s, n)->Ok_0.1,
{
    let bytes = s.take(n as int);
    lemma_le_value_bound(bytes);
    lemma_le_bytes_of_value(bytes);
    assert(s =~= bytes + s.skip(n as int));
}

/// Reading back an encoded string gives the string and what was behind
/// it.
pub proof fn lemma_next_string_of_wire(text: Seq<char>, rest: Seq<u8>)
    requires
        encode_utf8(text).len() <= u32::MAX,
    ensures
        next_string(str_wire(text) + rest) == Ok::<(Seq<char>, Seq<u8>), Error>((text, rest)),
{
    let bytes = encode_utf8(text);
    lemma_byte_ranges();
    assert(str_wire(text) + rest =~= le_bytes(bytes.len(), 4) + (bytes + rest));
    lemma_next_number_of_bytes(bytes.len(), 4, bytes + rest);
    assert((bytes + rest).take(bytes.len() as int) =~= bytes);
    assert((bytes + rest).skip(bytes.len() as int) =~= rest);
    encode_utf8_valid_utf8(text);
    encode_utf8_decode_utf8(text);
}

/// What a string was read from is its encoding, followed by what is
/// left.
pub proof fn lemma_wire_of_next_string(s: Seq<u8>)
    requires
        next_string(s) is Ok,
    ensures
        encode_utf8(next_string(s)->Ok_0.0).len() <= u32::MAX,
        s == str_wire(next_string(s)->Ok_0.0) + next_string(s)->Ok_0.1,
{
    lemma_byte_ranges();
    lemma_bytes_of_next_number(s, 4);
    let (len, behind) = next_number(s, 4)->Ok_0;
    let bytes = behind.take(len as int);
    decode_utf8_encode_utf8(bytes);
    assert(behind =~= bytes + behind.skip(len as int));
    assert(s =~= str_wire(next_string(s)->Ok_0.0) + next_string(s)->Ok_0.1);
}

/// `core::str::from_utf8`, copied into a `String`: the text whose UTF-8
/// encoding is `bytes`, or nothing where `bytes` is not valid UTF-8.
#[verifier::external_body]
fn utf8_text(bytes: &[u8]) -> (text: Option<String>)
    ensures
        text is Some <==> valid_utf8(bytes@),
        text matches Some(t) ==> t@ == decode_utf8(bytes@),
{
    match core::str::from_utf8(bytes) {
        Ok(text) => Some(text.to_owned()),
        Err(_) => None,
    }
}

/// The number a byte string of at most eight bytes stands for.
fn number(bytes: &[u8]) -> (v: u64)
    requires
        bytes@.len() <= 8,
    ensures
        v == le_value(bytes@),
{
    let mut v: u64 = 0;
    let mut i: usize = bytes.len();
    proof {
        lemma_byte_ranges();
        assert(bytes@.skip(i as int) =~= Seq::empty());
    }
    while i > 0
        invariant
            i <= bytes@.len() <= 8,
            v == le_value(bytes@.skip(i as int)),
        decreases i,
    {
        proof {
            let tail = bytes@.skip(i - 1);
            assert(tail.drop_first() =~= bytes@.skip(i as int));
            lemma_le_value_bound(tail);
            lemma_byte_range_grows(tail.len(), 8);
            lemma_byte_ranges();
        }
        i -= 1;
        v = bytes[i] as u64 + 256 * v;
    }
    assert(bytes@.skip(0) =~= bytes@);
    v
}

proof fn lemma_byte_range_grows(m: nat, n: nat)
    requires
        m <= n,
    ensures
        byte_range(m) <= byte_range(n),
    decreases n,
{
    if m < n {
        lemma_byte_range_grows(m, (n - 1) as nat);
    }
}

/// A cursor over received bytes.
pub struct Reader<'a> {
    pub buf: &'a [u8],
    pub pos: usize,
}

impl<'a> Reader<'a> {
    /// The cursor stands inside its bytes, or at their end.
    pub open spec fn wf(&self) -> bool {
        self.pos <= self.buf@.len()
    }

    /// The bytes not read yet.
    pub open spec fn rest(&self) -> Seq<u8> {
        self.buf@.skip(self.pos as int)
    }

    /// A cursor at the start of `buf`.
    pub fn new(buf: &'a [u8]) -> (reader: Self)
        ensures
            reader.wf(),
            reader.buf@ == buf@,
            reader.pos == 0,
            reader.rest() == buf@,
    {
        let reader = Reader { buf, pos: 0 };
        assert(reader.rest() =~= buf@);
        reader
    }

    /// The next `len` bytes, advancing past them.
    pub fn take(&mut self, len: usize) -> (r: Result<&'a [u8], Error>)
        requires
            old(self).wf(),
        ensures
            final(self).wf(),
            r is Ok <==> len <= old(self).rest().len(),
            r matches Ok(bytes) ==> {
                &&& bytes@ == old(self).rest().take(len as int)
                &&& final(self).rest() == old(self).rest().skip(len as int)
                &&& final(self).pos == old(self).pos + len
                &&& final(self).buf@ == old(self).buf@
            },
            r matches Err(e) ==> e == Error::PayloadEndsMidMessage && *final(self) == *old(self),
    {
        if len > self.buf.len() - self.pos {
            return Err(Error::PayloadEndsMidMessage);
        }
        let end: usize = self.pos + len;
        let bytes: &'a [u8] = &self.buf[self.pos..end];
        assert(bytes@ =~= old(self).rest().take(len as int));
        self.pos = end;
        assert(self.rest() =~= old(self).rest().skip(len as int));
        Ok(bytes)
    }

    /// The next little-endian number of `n` bytes.
    fn number(&mut self, n: usize) -> (r: Result<u64, Error>)
        requires
            old(self).wf(),
            n <= 8,
        ensures
            final(self).wf(),
            match next_number(old(self).rest(), n as nat) {
                Ok((v, rest)) => {
                    &&& r matches Ok(w) && w == v
                    &&& v < byte_range(n as nat)
                    &&& final(self).rest() == rest
                    &&& final(self).pos == old(self).pos + n
                },
                Err(e) => r == Err::<u64, Error>(e) && *final(self) == *old(self),
            },
            final(self).buf@ == old(self).buf@,
    {
        match self.take(n) {
            Ok(bytes) => {
                proof {
                    lemma_le_value_bound(bytes@);
                }
                Ok(number(bytes))
            },
            Err(e) => Err(e),
        }
    }

    /// The next 16-bit number.
    pub fn u16(&mut self) -> (r: Result<u16, Error>)
        requires
            old(self).wf(),
        ensures
            final(self).wf(),
            match next_number(old(self).rest(), 2) {
                Ok((v, rest)) => {
                    &&& r matches Ok(w) && w == v
                    &&& final(self).rest() == rest
                    &&& final(self).pos == old(self).pos + 2
                },
                Err(e) => r == Err::<u16, Error>(e) && *final(self) == *old(self),
            },
            final(self).buf@ == old(self).buf@,
    {
        proof {
            lemma_byte_ranges();
        }
        match self.number(2) {
            Ok(v) => Ok(v as u16),
            Err(e) => Err(e),
        }
    }

    /// The next 32-bit number.
    pub fn u32(&mut self) -> (r: Result<u32, Error>)
        requires
            old(self).wf(),
        ensures
            final(self).wf(),
            match next_number(old(self).rest(), 4) {
                Ok((v, rest)) => {
                    &&& r matches Ok(w) && w == v
                    &&& final(self).rest() == rest
                    &&& final(self).pos == old(self).pos + 4
                },
                Err(e) => r == Err::<u32, Error>(e) && *final(self) == *old(self),
            },
            final(self).buf@ == old(self).buf@,
    {
        proof {
            lemma_byte_ranges();
        }
        match self.number(4) {
            Ok(v) => Ok(v as u32),
            Err(e) => Err(e),
        }
    }

    /// The next 64-bit number.
    pub fn u64(&mut self) -> (r: Result<u64, Error>)
        requires
            old(self).wf(),
        ensures
            final(self).wf(),
            match next_number(old(self).rest(), 8) {
                Ok((v, rest)) => {
                    &&& r matches Ok(w) && w == v
                    &&& final(self).rest() == rest
                    &&& final(self).pos == old(self).pos + 8
                },
                Err(e) => r == Err::<u64, Error>(e) && *final(self) == *old(self),
            },
            final(self).buf@ == old(self).buf@,
    {
        self.number(8)
    }

    /// The next length-prefixed string. Where there is none the cursor
    /// stands where reading ended: at the length, if that is cut short,
    /// behind the length, if the text is, and behind the text, if it is
    /// not UTF-8.
    pub fn string(&mut self) -> (r: Result<String, Error>)
        requires
            old(self).wf(),
        ensures
            final(self).wf(),
            match next_string(old(self).rest()) {
                Ok((text, rest)) => r matches Ok(s) && s@ == text && final(self).rest() == rest,
                Err(e) => r == Err::<String, Error>(e),
            },
            final(self).pos == old(self).pos + string_extent(old(self).rest()),
            final(self).buf@ == old(self).buf@,
    {
        let len: u32 = match self.u32() {
            Ok(len) => len,
            Err(e) => return Err(e),
        };
        let bytes: &[u8] = match self.take(len as usize) {
            Ok(bytes) => bytes,
            Err(e) => return Err(e),
        };
        match utf8_text(bytes) {
            Some(text) => Ok(text),
            None => Err(Error::NotUtf8),
        }
    }

    /// The payload must end here.
    pub fn done(&self) -> (r: Result<(), Error>)
        requires
            self.wf(),
        ensures
            r is Ok <==> self.rest().len() == 0,
            r matches Err(e) ==> e == Error::TrailingBytes,
    {
        if self.pos == self.buf.len() {
            Ok(())
        } else {
            Err(Error::TrailingBytes)
        }
    }
}

} // verus!
