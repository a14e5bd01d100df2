//! A character-oriented stream that takes a buffer of bytes and produces a
//! stream of decoded Unicode scalar values, one at a time.
//!
//! Decoding works on the leading byte's high-bit pattern (1 to 4 byte
//! sequences; the legacy 5/6-byte forms are rejected), combining the payload
//! bits of the leading byte with the low six bits of each continuation byte.
//! A decoded value is only handed out after it has been checked to be a legal
//! Unicode scalar value: overlong encodings, the UTF-16 surrogate range and
//! values above 0x10FFFF are rejected as `InvalidByteSequence`.

use vstd::prelude::*;
use vstd::utf8;

use crate::parser_errors::{stream_error, ParserError, ParserErrorCode, ParserResult, ParserStage};

verus! {

/// Relies on `char::from_u32`: it returns `Some` exactly for Unicode scalar
/// values, that is everything up to 0x10FFFF except the surrogate range.
pub assume_specification[ char::from_u32 ](v: u32) -> (r: Option<char>)
    ensures
        utf8::is_scalar(v) ==> r == Some(v as char),
        !utf8::is_scalar(v) ==> r is None,
;

/// The outcome of decoding the head of a byte sequence: the sequence may be
/// empty, truncated in the middle of a multi-byte character, malformed, or
/// hold a scalar value. The attached count says how many bytes the decoder
/// consumes in each case.
pub enum ByteDecode {
    /// No bytes at all were available.
    Empty,
    /// A multi-byte sequence started but the bytes ran out before it was
    /// complete; everything left is consumed.
    Truncated(nat),
    /// The leading byte matches no valid UTF-8 pattern, or the decoded value
    /// is not a legal Unicode scalar value.
    Malformed(nat),
    /// A scalar value, together with the number of bytes of its encoding.
    Decoded(char, nat),
}

/// What decoding one character from the head of `bs` yields, mirroring the
/// decoder exactly: the leading byte selects the sequence length, payload
/// bits are combined with the low six bits of each continuation byte, and
/// the combined value must be a legal scalar for its length.
pub open spec fn decode_head(bs: Seq<u8>) -> ByteDecode {
    if bs.len() == 0 {
        ByteDecode::Empty
    } else {
        let b0 = bs[0];
        if utf8::is_leading_byte_width_1(b0) {
            ByteDecode::Decoded(utf8::codepoint_width_1(b0) as char, 1)
        } else if utf8::is_leading_byte_width_2(b0) {
            if bs.len() < 2 {
                ByteDecode::Truncated(bs.len() as nat)
            } else {
                let v = utf8::codepoint_width_2(b0, bs[1]);
                if 0x80 <= v {
                    ByteDecode::Decoded(v as char, 2)
                } else {
                    ByteDecode::Malformed(2)
                }
            }
        } else if utf8::is_leading_byte_width_3(b0) {
            if bs.len() < 3 {
                ByteDecode::Truncated(bs.len() as nat)
            } else {
                let v = utf8::codepoint_width_3(b0, bs[1], bs[2]);
                if 0x800 <= v && utf8::not_surrogate(v) {
                    ByteDecode::Decoded(v as char, 3)
                } else {
                    ByteDecode::Malformed(3)
                }
            }
        } else if utf8::is_leading_byte_width_4(b0) {
            if bs.len() < 4 {
                ByteDecode::Truncated(bs.len() as nat)
            } else {
                let v = utf8::codepoint_width_4(b0, bs[1], bs[2], bs[3]);
                if 0x10000 <= v && v <= 0x10FFFF {
                    ByteDecode::Decoded(v as char, 4)
                } else {
                    ByteDecode::Malformed(4)
                }
            }
        } else {
            ByteDecode::Malformed(1)
        }
    }
}

/// A stream-stage error with the given code carries no coordinates and no cause.
pub open spec fn is_stream_error(e: ParserError, code: ParserErrorCode) -> bool {
    &&& e.stage == ParserStage::Stream
    &&& e.code == code
    &&& e.coords is None
    &&& e.inner is None
}

/// A character stream over a byte buffer, handing out one decoded scalar
/// value per call until the buffer is exhausted.
#[derive(Debug)]
pub struct CharStream {
    /// The input bytes
    data: Vec<u8>,
    /// How many bytes have been consumed so far
    pos: usize,
}

impl CharStream {
    /// The whole underlying byte buffer.
    pub closed spec fn all_bytes(&self) -> Seq<u8> {
        self.data@
    }

    /// How many bytes have been consumed so far.
    pub closed spec fn consumed(&self) -> nat {
        self.pos as nat
    }

    /// The bytes that have not been consumed yet.
    pub open spec fn remaining(&self) -> Seq<u8> {
        self.all_bytes().skip(self.consumed() as int)
    }

    /// The read position stays within the buffer, and the buffer leaves room
    /// for the coordinate arithmetic of the layers above.
    pub closed spec fn wf(&self) -> bool {
        &&& self.pos <= self.data@.len()
        &&& self.data@.len() < usize::MAX
    }

    /// What well-formedness guarantees about the visible quantities.
    pub proof fn lemma_wf(&self)
        requires
            self.wf(),
        ensures
            self.consumed() + self.remaining().len() == self.all_bytes().len(),
            self.all_bytes().len() < usize::MAX,
    {
    }

    /// Create a new character stream over the given bytes.
    pub fn new(data: Vec<u8>) -> (r: CharStream)
        requires
            data@.len() < usize::MAX,
        ensures
            r.wf(),
            r.all_bytes() == data@,
            r.consumed() == 0,
            r.remaining() == data@,
    {
        let r = CharStream { data, pos: 0 };
        proof {
            assert(r.remaining() =~= r.all_bytes());
        }
        r
    }

    /// Read a single byte from the input, widened as the decoder combines it.
    fn next_packed_byte(&mut self) -> (r: ParserResult<u32>)
        requires
            old(self).wf(),
        ensures
            final(self).wf(),
            final(self).all_bytes() == old(self).all_bytes(),
            old(self).remaining().len() > 0 ==> {
                &&& r matches Ok(w) && w == old(self).remaining()[0] as u32
                &&& final(self).consumed() == old(self).consumed() + 1
                &&& final(self).remaining() == old(self).remaining().skip(1)
            },
            old(self).remaining().len() == 0 ==> {
                &&& r matches Err(e) && is_stream_error(e, ParserErrorCode::EndOfInput)
                &&& *final(self) == *old(self)
            },
    {
        proof {
            self.lemma_wf();
        }
        if self.pos < self.data.len() {
            let b = self.data[self.pos];
            self.pos = self.pos + 1;
            proof {
                assert(final(self).remaining() =~= old(self).remaining().skip(1));
            }
            Ok(b as u32)
        } else {
            Err(stream_error(ParserErrorCode::EndOfInput, "no more bytes available"))
        }
    }

    /// Attempt to advance over the next character in the stream.
    ///
    /// Fails with `EndOfInput` when the buffer is exhausted before a leading
    /// byte is read, with `StreamFailure` when the bytes run out after a
    /// sequence has started (a sequence is never silently truncated into a
    /// bogus character), and with `InvalidByteSequence` when the leading byte
    /// matches no valid pattern or the decoded value is not a legal scalar.
    pub fn next_char(&mut self) -> (r: ParserResult<char>)
        requires
            old(self).wf(),
        ensures
            final(self).wf(),
            final(self).all_bytes() == old(self).all_bytes(),
            (match decode_head(old(self).remaining()) {
                ByteDecode::Decoded(c, k) => {
                    &&& r matches Ok(cc) && cc == c
                    &&& final(self).consumed() == old(self).consumed() + k
                    &&& final(self).remaining() == old(self).remaining().skip(k as int)
                },
                ByteDecode::Empty => {
                    &&& r matches Err(e) && is_stream_error(e, ParserErrorCode::EndOfInput)
                    &&& *final(self) == *old(self)
                },
                ByteDecode::Truncated(k) => {
                    &&& r matches Err(e) && is_stream_error(e, ParserErrorCode::StreamFailure)
                    &&& final(self).consumed() == old(self).consumed() + k
                    &&& final(self).remaining() == old(self).remaining().skip(k as int)
                },
                ByteDecode::Malformed(k) => {
                    &&& r matches Err(e) && is_stream_error(
                        e,
                        ParserErrorCode::InvalidByteSequence,
                    )
                    &&& final(self).consumed() == old(self).consumed() + k
                    &&& final(self).remaining() == old(self).remaining().skip(k as int)
                },
            }),
    {
        let ghost bs = old(self).remaining();
        let w0 = match self.next_packed_byte() {
            Ok(w) => w,
            Err(e) => {
                return Err(e);
            },
        };
        let ghost b0 = bs[0];
        if w0 < 0x80 {
            proof {
                lemma_low_byte_identity(b0, w0);
            }
            match char::from_u32(w0) {
                Some(c) => Ok(c),
                None => Err(
                    stream_error(
                        ParserErrorCode::InvalidByteSequence,
                        "failed to decode any valid UTF-8",
                    ),
                ),
            }
        } else if 0xC0 <= w0 && w0 <= 0xDF {
            let w1 = match self.next_packed_byte() {
                Ok(w) => w,
                Err(_) => {
                    return Err(
                        stream_error(
                            ParserErrorCode::StreamFailure,
                            "input ended inside a two byte sequence",
                        ),
                    );
                },
            };
            let v = decode_double(w0, w1);
            proof {
                lemma_decode_double_matches(b0, bs[1], w0, w1, v);
            }
            if v < 0x80 {
                return Err(
                    stream_error(
                        ParserErrorCode::InvalidByteSequence,
                        "overlong two byte sequence",
                    ),
                );
            }
            match char::from_u32(v) {
                Some(c) => Ok(c),
                None => Err(
                    stream_error(
                        ParserErrorCode::InvalidByteSequence,
                        "failed to decode any valid UTF-8",
                    ),
                ),
            }
        } else if 0xE0 <= w0 && w0 <= 0xEF {
            let w1 = match self.next_packed_byte() {
                Ok(w) => w,
                Err(_) => {
                    return Err(
                        stream_error(
                            ParserErrorCode::StreamFailure,
                            "input ended inside a three byte sequence",
                        ),
                    );
                },
            };
            let w2 = match self.next_packed_byte() {
                Ok(w) => w,
                Err(_) => {
                    return Err(
                        stream_error(
                            ParserErrorCode::StreamFailure,
                            "input ended inside a three byte sequence",
                        ),
                    );
                },
            };
            let v = decode_triple(w0, w1, w2);
            proof {
                lemma_decode_triple_matches(b0, bs[1], bs[2], w0, w1, w2, v);
            }
            if v < 0x800 {
                return Err(
                    stream_error(
                        ParserErrorCode::InvalidByteSequence,
                        "overlong three byte sequence",
                    ),
                );
            }
            match char::from_u32(v) {
                Some(c) => Ok(c),
                None => Err(
                    stream_error(
                        ParserErrorCode::InvalidByteSequence,
                        "surrogate value in three byte sequence",
                    ),
                ),
            }
        } else if 0xF0 <= w0 && w0 <= 0xF7 {
            let w1 = match self.next_packed_byte() {
                Ok(w) => w,
                Err(_) => {
                    return Err(
                        stream_error(
                            ParserErrorCode::StreamFailure,
                            "input ended inside a four byte sequence",
                        ),
                    );
                },
            };
            let w2 = match self.next_packed_byte() {
                Ok(w) => w,
                Err(_) => {
                    return Err(
                        stream_error(
                            ParserErrorCode::StreamFailure,
                            "input ended inside a four byte sequence",
                        ),
                    );
                },
            };
            let w3 = match self.next_packed_byte() {
                Ok(w) => w,
                Err(_) => {
                    return Err(
                        stream_error(
                            ParserErrorCode::StreamFailure,
                            "input ended inside a four byte sequence",
                        ),
                    );
                },
            };
            let v = decode_quad(w0, w1, w2, w3);
            proof {
                lemma_decode_quad_matches(b0, bs[1], bs[2], bs[3], w0, w1, w2, w3, v);
            }
            if v < 0x10000 {
                return Err(
                    stream_error(
                        ParserErrorCode::InvalidByteSequence,
                        "overlong four byte sequence",
                    ),
                );
            }
            match char::from_u32(v) {
                Some(c) => Ok(c),
                None => Err(
                    stream_error(
                        ParserErrorCode::InvalidByteSequence,
                        "value above 0x10FFFF in four byte sequence",
                    ),
                ),
            }
        } else {
            Err(stream_error(ParserErrorCode::InvalidByteSequence, "failed to decode any valid UTF-8"))
        }
    }
}

/// Combine the payload bits of a two byte sequence.
#[inline(always)]
pub fn decode_double(a: u32, b: u32) -> (r: u32)
    ensures
        r == (b & 0x3F) | ((a & 0x1F) << 6),
{
    (b & 0x3F) | ((a & 0x1F) << 6)
}

/// Combine the payload bits of a three byte sequence.
#[inline(always)]
pub fn decode_triple(a: u32, b: u32, c: u32) -> (r: u32)
    ensures
        r == (c & 0x3F) | ((b & 0x3F) << 6) | ((a & 0x0F) << 12),
{
    (c & 0x3F) | ((b & 0x3F) << 6) | ((a & 0x0F) << 12)
}

/// Combine the payload bits of a four byte sequence.
#[inline(always)]
pub fn decode_quad(a: u32, b: u32, c: u32, d: u32) -> (r: u32)
    ensures
        r == (d & 0x3F) | ((c & 0x3F) << 6) | ((b & 0x3F) << 12) | ((a & 0x07) << 18),
{
    (d & 0x3F) | ((c & 0x3F) << 6) | ((b & 0x3F) << 12) | ((a & 0x07) << 18)
}

/// A byte below 0x80 is its own payload.
proof fn lemma_low_byte_identity(b0: u8, w0: u32)
    by (bit_vector)
    requires
        w0 == b0 as u32,
        w0 < 0x80,
    ensures
        w0 == utf8::codepoint_width_1(b0),
{
}

/// The widened two byte combination equals the spec-level codepoint, and is
/// bounded by 0x7FF.
proof fn lemma_decode_double_matches(b0: u8, b1: u8, w0: u32, w1: u32, v: u32)
    by (bit_vector)
    requires
        w0 == b0 as u32,
        w1 == b1 as u32,
        v == (w1 & 0x3F) | ((w0 & 0x1F) << 6),
    ensures
        v == utf8::codepoint_width_2(b0, b1),
        v <= 0x7FF,
{
}

/// The widened three byte combination equals the spec-level codepoint, and is
/// bounded by 0xFFFF.
proof fn lemma_decode_triple_matches(b0: u8, b1: u8, b2: u8, w0: u32, w1: u32, w2: u32, v: u32)
    by (bit_vector)
    requires
        w0 == b0 as u32,
        w1 == b1 as u32,
        w2 == b2 as u32,
        v == (w2 & 0x3F) | ((w1 & 0x3F) << 6) | ((w0 & 0x0F) << 12),
    ensures
        v == utf8::codepoint_width_3(b0, b1, b2),
        v <= 0xFFFF,
{
}

/// The widened four byte combination equals the spec-level codepoint, and is
/// bounded by 0x1FFFFF.
proof fn lemma_decode_quad_matches(
    b0: u8,
    b1: u8,
    b2: u8,
    b3: u8,
    w0: u32,
    w1: u32,
    w2: u32,
    w3: u32,
    v: u32,
)
    by (bit_vector)
    requires
        w0 == b0 as u32,
        w1 == b1 as u32,
        w2 == b2 as u32,
        w3 == b3 as u32,
        v == (w3 & 0x3F) | ((w2 & 0x3F) << 6) | ((w1 & 0x3F) << 12) | ((w0 & 0x07) << 18),
    ensures
        v == utf8::codepoint_width_4(b0, b1, b2, b3),
        v <= 0x1FFFFF,
{
}

/// Every byte sequence that begins with a well-formed UTF-8 encoding of a
/// scalar value decodes to exactly that scalar value, consuming exactly the
/// bytes of its encoding. The notions of well-formedness and of the encoded
/// scalar are the independent ones of `vstd::utf8`.
pub proof fn lemma_decode_head_correct(bs: Seq<u8>)
    requires
        utf8::valid_first_scalar(bs),
    ensures
        decode_head(bs) == ByteDecode::Decoded(
            utf8::decode_first_scalar(bs) as char,
            utf8::length_of_first_scalar(bs) as nat,
        ),
{
    let b0 = bs[0];
    if utf8::is_leading_byte_width_1(b0) {
    } else if utf8::is_leading_byte_width_2(b0) {
        assert(utf8::codepoint_width_2(b0, bs[1]) <= 0x7FF) by {
            lemma_decode_double_matches(
                b0,
                bs[1],
                b0 as u32,
                bs[1] as u32,
                (bs[1] as u32 & 0x3F) | ((b0 as u32 & 0x1F) << 6),
            );
        }
    } else if utf8::is_leading_byte_width_3(b0) {
    } else {
    }
}

/// A leading byte that matches none of the four valid patterns (a stray
/// continuation byte, or a legacy 5/6-byte form) is rejected at once, with
/// exactly one byte consumed.
pub proof fn lemma_decode_head_rejects_bad_leading(bs: Seq<u8>)
    requires
        bs.len() > 0,
        !utf8::is_leading_byte_width_1(bs[0]),
        !utf8::is_leading_byte_width_2(bs[0]),
        !utf8::is_leading_byte_width_3(bs[0]),
        !utf8::is_leading_byte_width_4(bs[0]),
    ensures
        decode_head(bs) == ByteDecode::Malformed(1nat),
{
}

} // verus!
