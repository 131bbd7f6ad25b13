//! Positions in the search text, and the two cursors that produce them.
//!
//! A matching engine holds one `Input` implementation per search and walks it
//! by repeatedly asking for the position descriptor at a byte offset. The
//! character-mode cursor decodes one Unicode scalar value per step; the
//! byte-mode cursor steps one raw byte at a time but still decodes characters
//! around a position so word-boundary assertions stay meaningful.

use vstd::prelude::*;

use crate::decode;
use crate::literals::LiteralSearcher;
use crate::scalar::Char;

verus! {

use crate::decode::first_scalar_char;
use crate::decode::first_scalar_width;
use crate::decode::last_scalar_char;
use crate::literals::occurs_at;

/// The mathematical value of a position descriptor: the byte offset, the
/// character found there (if any), the raw byte found there (if any), and
/// the width in bytes to the next position.
pub ghost struct InputAtV {
    pub pos: int,
    pub c: Option<char>,
    pub byte: Option<u8>,
    pub len: int,
}

/// The descriptor a character-mode cursor over `s` yields at offset `i`: the
/// scalar value decoded at `i` with its encoded width, no raw byte, and
/// width 0 when nothing decodes there.
pub open spec fn char_at_v(s: Seq<u8>, i: int) -> InputAtV {
    InputAtV {
        pos: i,
        c: first_scalar_char(s.skip(i)),
        byte: None,
        len: first_scalar_width(s.skip(i)),
    }
}

/// The descriptor a byte-mode cursor over `s` yields at offset `i`: the raw
/// byte at `i` when there is one, no character, and always width 1.
pub open spec fn byte_at_v(s: Seq<u8>, i: int) -> InputAtV {
    InputAtV {
        pos: i,
        c: None,
        byte: if i < s.len() {
            Some(s[i])
        } else {
            None
        },
        len: 1,
    }
}

/// The descriptor yielded at offset `i` of buffer `s` in either cursor mode.
pub open spec fn at_v(char_mode: bool, s: Seq<u8>, i: int) -> InputAtV {
    if char_mode {
        char_at_v(s, i)
    } else {
        byte_at_v(s, i)
    }
}

/// Represents a location in the input: an immutable snapshot, derived from
/// (buffer, offset) and holding no reference into the buffer.
#[derive(Clone, Copy, Debug)]
pub struct InputAt {
    pos: usize,
    c: Char,
    byte: Option<u8>,
    len: usize,
}

impl View for InputAt {
    type V = InputAtV;

    closed spec fn view(&self) -> InputAtV {
        InputAtV { pos: self.pos as int, c: self.c@, byte: self.byte, len: self.len as int }
    }
}

impl InputAt {
    /// Returns true iff this position is at the beginning of the input.
    pub fn is_start(&self) -> (r: bool)
        ensures
            r <==> self@.pos == 0,
    {
        self.pos == 0
    }

    /// Returns true iff this position is past the end of the input.
    pub fn is_end(&self) -> (r: bool)
        ensures
            r <==> self@.c is None && self@.byte is None,
    {
        self.c.is_none() && self.byte.is_none()
    }

    /// Returns the character at this position.
    ///
    /// If this position is just before or after the input, then an absent
    /// character is returned.
    pub fn char(&self) -> (r: Char)
        ensures
            r@ == self@.c,
    {
        self.c
    }

    /// Returns the byte at this position.
    pub fn byte(&self) -> (r: Option<u8>)
        ensures
            r == self@.byte,
    {
        self.byte
    }

    /// Returns the width in bytes from this position to the next one.
    pub fn len(&self) -> (r: usize)
        ensures
            r == self@.len,
    {
        self.len
    }

    /// Returns the byte offset of this position.
    pub fn pos(&self) -> (r: usize)
        ensures
            r == self@.pos,
    {
        self.pos
    }

    /// Returns the byte offset of the next position in the input.
    pub fn next_pos(&self) -> (r: usize)
        requires
            self@.pos + self@.len <= usize::MAX,
        ensures
            r == self@.pos + self@.len,
    {
        self.pos + self.len
    }
}

/// An abstraction over input used in the matching engines.
///
/// An implementation fixes a byte buffer (`bytes`) and a cursor mode
/// (`is_char_mode`); every operation is then a pure function of those and
/// its arguments, as spelled out in each method's contract.
pub trait Input {
    /// The underlying byte buffer.
    spec fn bytes(&self) -> Seq<u8>;

    /// Whether a step means one decoded scalar value rather than one raw
    /// byte.
    spec fn is_char_mode(&self) -> bool;

    /// Return an encoding of the position at byte offset `i`.
    fn at(&self, i: usize) -> (r: InputAt)
        requires
            i <= self.bytes().len(),
        ensures
            r@ == at_v(self.is_char_mode(), self.bytes(), i as int),
    ;

    /// Return the Unicode character occurring next to `at`.
    ///
    /// If no such character could be decoded, then an absent character is
    /// returned.
    fn next_char(&self, at: InputAt) -> (r: Char)
        requires
            at@.pos <= self.bytes().len(),
            at@ == at_v(self.is_char_mode(), self.bytes(), at@.pos),
        ensures
            r@ == first_scalar_char(self.bytes().skip(at@.pos)),
    ;

    /// Return the Unicode character occurring previous to `at`.
    ///
    /// If no such character could be decoded, then an absent character is
    /// returned.
    fn previous_char(&self, at: InputAt) -> (r: Char)
        requires
            at@.pos <= self.bytes().len(),
        ensures
            r@ == last_scalar_char(self.bytes().take(at@.pos)),
    ;

    /// Scan the input for a matching prefix: the descriptor at the earliest
    /// position at or after `at` where one of the registered literals
    /// occurs, or nothing when none occurs in the rest of the input.
    fn prefix_at(&self, prefixes: &LiteralSearcher, at: InputAt) -> (r: Option<InputAt>)
        requires
            at@.pos <= self.bytes().len(),
        ensures
            ({
                let hay = self.bytes().skip(at@.pos);
                match r {
                    None => forall|p: int| !occurs_at(prefixes@, hay, p),
                    Some(d) => {
                        &&& at@.pos <= d@.pos <= self.bytes().len()
                        &&& occurs_at(prefixes@, hay, d@.pos - at@.pos)
                        &&& forall|q: int| 0 <= q < d@.pos - at@.pos ==> !occurs_at(prefixes@, hay, q)
                        &&& d@ == at_v(self.is_char_mode(), self.bytes(), d@.pos)
                    },
                }
            }),
    ;

    /// The number of bytes in the input.
    fn len(&self) -> (r: usize)
        ensures
            r == self.bytes().len(),
    ;

    /// Return the given input as a sequence of bytes.
    fn as_bytes(&self) -> (r: &[u8])
        ensures
            r@ == self.bytes(),
    ;
}

/// Any borrowed reference to an `Input` implementation is itself an `Input`
/// implementation over the same buffer and mode, with identical results for
/// every operation.
impl<'a, T: Input> Input for &'a T {
    open spec fn bytes(&self) -> Seq<u8> {
        (**self).bytes()
    }

    open spec fn is_char_mode(&self) -> bool {
        (**self).is_char_mode()
    }

    fn at(&self, i: usize) -> InputAt {
        (**self).at(i)
    }

    fn next_char(&self, at: InputAt) -> Char {
        (**self).next_char(at)
    }

    fn previous_char(&self, at: InputAt) -> Char {
        (**self).previous_char(at)
    }

    fn prefix_at(&self, prefixes: &LiteralSearcher, at: InputAt) -> Option<InputAt> {
        (**self).prefix_at(prefixes, at)
    }

    fn len(&self) -> usize {
        (**self).len()
    }

    fn as_bytes(&self) -> &[u8] {
        (**self).as_bytes()
    }
}

/// An input reader over characters.
///
/// The buffer is meant to be valid UTF-8 end to end; then every interior
/// position on a character boundary decodes a character and steps forward
/// (`lemma_char_at_interior`). Should the buffer be malformed anyway, the
/// descriptor at a malformed offset carries an absent character and width 0:
/// a walk that advances by `next_pos` stops there, reporting the end, rather
/// than skipping bytes it cannot decode.
#[derive(Clone, Copy, Debug)]
pub struct CharInput<'t>(&'t [u8]);

impl<'t> CharInput<'t> {
    /// Return a new character input reader for the given bytes.
    pub fn new(s: &'t [u8]) -> (r: CharInput<'t>)
        ensures
            r.bytes() == s@,
            r.is_char_mode(),
    {
        CharInput(s)
    }
}

impl<'t> Input for CharInput<'t> {
    closed spec fn bytes(&self) -> Seq<u8> {
        self.0@
    }

    closed spec fn is_char_mode(&self) -> bool {
        true
    }

    fn at(&self, i: usize) -> (r: InputAt) {
        match decode::decode_utf8(self.0, i) {
            Some((c, width)) => InputAt { pos: i, c: Char::from_char(c), byte: None, len: width },
            None => InputAt { pos: i, c: Char::absent(), byte: None, len: 0 },
        }
    }

    fn next_char(&self, at: InputAt) -> (r: Char) {
        at.char()
    }

    fn previous_char(&self, at: InputAt) -> (r: Char) {
        decode::previous_char_at(self.0, at.pos())
    }

    fn prefix_at(&self, prefixes: &LiteralSearcher, at: InputAt) -> (r: Option<InputAt>) {
        let start = at.pos();
        let hay = vstd::slice::slice_subrange(self.0, start, self.0.len());
        proof {
            assert(hay@ =~= self.bytes().skip(at@.pos));
        }
        match prefixes.find(hay) {
            None => None,
            Some((s, _)) => Some(self.at(start + s)),
        }
    }

    fn len(&self) -> (r: usize) {
        self.0.len()
    }

    fn as_bytes(&self) -> (r: &[u8]) {
        self.0
    }
}

/// An input reader over raw bytes.
///
/// It still wraps the same kind of byte buffer: full Unicode decoding around
/// a position (used for word-boundary look ahead and look behind) stays
/// available even while stepping one byte at a time.
#[derive(Clone, Copy, Debug)]
pub struct ByteInput<'t>(&'t [u8]);

impl<'t> ByteInput<'t> {
    /// Return a new byte-based input reader for the given bytes.
    pub fn new(s: &'t [u8]) -> (r: ByteInput<'t>)
        ensures
            r.bytes() == s@,
            !r.is_char_mode(),
    {
        ByteInput(s)
    }
}

impl<'t> Input for ByteInput<'t> {
    closed spec fn bytes(&self) -> Seq<u8> {
        self.0@
    }

    closed spec fn is_char_mode(&self) -> bool {
        false
    }

    fn at(&self, i: usize) -> (r: InputAt) {
        let byte = if i < self.0.len() {
            Some(self.0[i])
        } else {
            None
        };
        InputAt { pos: i, c: Char::absent(), byte, len: 1 }
    }

    fn next_char(&self, at: InputAt) -> (r: Char) {
        decode::next_char_at(self.0, at.pos())
    }

    fn previous_char(&self, at: InputAt) -> (r: Char) {
        decode::previous_char_at(self.0, at.pos())
    }

    fn prefix_at(&self, prefixes: &LiteralSearcher, at: InputAt) -> (r: Option<InputAt>) {
        let start = at.pos();
        let hay = vstd::slice::slice_subrange(self.0, start, self.0.len());
        proof {
            assert(hay@ =~= self.bytes().skip(at@.pos));
        }
        match prefixes.find(hay) {
            None => None,
            Some((s, _)) => Some(self.at(start + s)),
        }
    }

    fn len(&self) -> (r: usize) {
        self.0.len()
    }

    fn as_bytes(&self) -> (r: &[u8]) {
        self.0
    }
}

/// In either cursor mode, the descriptor at offset `i` carries `i` as its
/// position.
pub proof fn lemma_at_pos(char_mode: bool, s: Seq<u8>, i: int)
    ensures
        at_v(char_mode, s, i).pos == i,
{
}

/// In either cursor mode, the descriptor at offset 0 is at the start, and
/// the descriptor at the buffer's length is at the end: past the last byte
/// there is neither a character nor a byte.
pub proof fn lemma_at_boundaries(char_mode: bool, s: Seq<u8>)
    ensures
        at_v(char_mode, s, 0).pos == 0,
        at_v(char_mode, s, s.len() as int).c is None,
        at_v(char_mode, s, s.len() as int).byte is None,
{
    if char_mode {
        assert(s.skip(s.len() as int).len() == 0);
    }
}

/// In character mode the step width at a position is exactly the UTF-8
/// length of the character found there, 0 included when none decodes.
pub proof fn lemma_char_at_width(s: Seq<u8>, i: int)
    ensures
        char_at_v(s, i).len == crate::scalar::opt_char_len_utf8(char_at_v(s, i).c),
{
    crate::decode::lemma_first_scalar_width_is_len_utf8(s.skip(i));
}

/// In character mode over well-formed UTF-8, a descriptor at a character
/// boundary strictly inside the buffer always finds a character, and steps
/// forward: only the position at the buffer's length is at the end.
pub proof fn lemma_char_at_interior(s: Seq<u8>, i: int)
    requires
        vstd::utf8::valid_utf8(s),
        vstd::utf8::is_char_boundary(s, i),
        0 <= i < s.len(),
    ensures
        char_at_v(s, i).c is Some,
        1 <= char_at_v(s, i).len <= 4,
{
    vstd::utf8::valid_utf8_split(s, i);
    let t = s.subrange(i, s.len() as int);
    assert(t =~= s.skip(i));
    assert(vstd::utf8::valid_first_scalar(t));
}

/// In byte mode a descriptor is at the end only at the buffer's length; at
/// every interior offset it carries the byte found there, and always width 1.
pub proof fn lemma_byte_at_interior(s: Seq<u8>, i: int)
    requires
        0 <= i <= s.len(),
    ensures
        byte_at_v(s, i).len == 1,
        byte_at_v(s, i).c is None,
        byte_at_v(s, i).byte is None <==> i == s.len(),
{
}

} // verus!
