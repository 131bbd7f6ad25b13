//! A packed representation of "a Unicode scalar value, or none".
//!
//! The matching engine compares the characters around a position against real
//! characters at every zero-width assertion. Packing the absent case into a
//! reserved `u32` sentinel lets those comparisons run on plain integers; valid
//! Unicode scalar values never reach the sentinel, so no collision occurs.

use vstd::prelude::*;

verus! {

use core::cmp::Ordering;

broadcast use vstd::utf8::char_is_scalar, vstd::utf8::char_u32_cast;

/// What the classification of a character as a Unicode word character
/// returns; known to Verus only through the trusted wrapper below.
pub uninterp spec fn unicode_word_char(c: char) -> bool;

/// An ASCII word byte: `[_0-9a-zA-Z]`.
pub open spec fn ascii_word_byte(b: u8) -> bool {
    ||| b == 0x5f
    ||| 0x30 <= b <= 0x39
    ||| 0x61 <= b <= 0x7a
    ||| 0x41 <= b <= 0x5a
}

/// The UTF-8 byte width of an optional character: the width of its encoding
/// when present, and exactly 0 when absent.
pub open spec fn opt_char_len_utf8(v: Option<char>) -> int {
    match v {
        None => 0,
        Some(c) => vstd::utf8::encode_scalar(c as u32).len() as int,
    }
}

/// Whether an optional character is a Unicode word character; an absent
/// value is never one.
pub open spec fn opt_char_is_word_char(v: Option<char>) -> bool {
    match v {
        None => false,
        Some(c) => unicode_word_char(c),
    }
}

/// Whether an optional character is a word byte: present, byte-sized, and an
/// ASCII word byte. An absent value is never one.
pub open spec fn opt_char_is_word_byte(v: Option<char>) -> bool {
    match v {
        None => false,
        Some(c) => c as u32 <= 0xff && ascii_word_byte((c as u32) as u8),
    }
}

pub(crate) proof fn lemma_scalar_roundtrip(u: u32)
    requires
        vstd::utf8::is_scalar(u),
    ensures
        (u as char) as u32 == u,
{
}

/// How a packed value relates to a real character: they agree exactly when
/// the packed code equals the character's code point.
proof fn lemma_char_code(a: Char, c: char)
    requires
        a.inv(),
    ensures
        vstd::utf8::is_scalar(c as u32),
        a@ == Some(c) <==> a.0 == c as u32,
        a@ matches Some(d) ==> a.0 == d as u32,
{
    vstd::utf8::char_is_scalar(c);
    if vstd::utf8::is_scalar(a.0) {
        lemma_scalar_roundtrip(a.0);
        if a.0 == c as u32 {
            vstd::utf8::char_u32_cast(c, a.0);
        }
    }
}

/// Relies on std's `char::from_u32`: it returns the character with the given
/// code exactly when the value is a Unicode scalar value (not a surrogate and
/// at most 0x10FFFF), and `None` otherwise.
#[verifier::external_body]
pub(crate) fn char_from_u32(u: u32) -> (r: Option<char>)
    ensures
        r matches Some(c) ==> c as u32 == u,
        r is Some <==> vstd::utf8::is_scalar(u),
{
    char::from_u32(u)
}

/// Relies on `regex_syntax::is_word_character`, whose result is named
/// `unicode_word_char` here: it depends on the character alone. Its source
/// returns true outright for a byte-sized character that is an ASCII word
/// byte, and with the default `unicode-perl` feature enabled it cannot panic.
#[verifier::external_body]
fn syntax_is_word_character(c: char) -> (r: bool)
    ensures
        r == unicode_word_char(c),
        c as u32 <= 0xff && ascii_word_byte((c as u32) as u8) ==> r,
{
    regex_syntax::is_word_character(c)
}

/// Relies on `regex_syntax::is_word_byte`: true exactly for `[_0-9a-zA-Z]`.
#[verifier::external_body]
fn syntax_is_word_byte(b: u8) -> (r: bool)
    ensures
        r == ascii_word_byte(b),
{
    regex_syntax::is_word_byte(b)
}

/// An inline representation of an optional character: either a Unicode scalar
/// value or the reserved sentinel `u32::MAX`, which no scalar value reaches.
/// Its view is the `Option<char>` it stands for.
#[derive(Clone, Copy, Debug, Eq, Hash)]
pub struct Char(u32);

impl View for Char {
    type V = Option<char>;

    closed spec fn view(&self) -> Option<char> {
        if vstd::utf8::is_scalar(self.0) {
            Some(self.0 as char)
        } else {
            None
        }
    }
}

impl Char {
    #[verifier::type_invariant]
    spec fn inv(self) -> bool {
        self.0 == u32::MAX || vstd::utf8::is_scalar(self.0)
    }

    /// The character `c`, always present.
    pub fn from_char(c: char) -> (r: Char)
        ensures
            r@ == Some(c),
    {
        Char(c as u32)
    }

    /// The absent character.
    pub fn absent() -> (r: Char)
        ensures
            r@ is None,
    {
        Char(u32::MAX)
    }

    /// Present for `Some`, absent for `None`.
    pub fn from_option(c: Option<char>) -> (r: Char)
        ensures
            r@ == c,
    {
        match c {
            None => Char::absent(),
            Some(c) => Char::from_char(c),
        }
    }

    /// Returns true iff the character is absent.
    pub fn is_none(self) -> (r: bool)
        ensures
            r <==> self@ is None,
    {
        proof {
            use_type_invariant(self);
        }
        self.0 == u32::MAX
    }

    /// Returns the length of the character's UTF-8 encoding.
    ///
    /// If the character is absent, then `0` is returned.
    pub fn len_utf8(self) -> (r: usize)
        ensures
            r == opt_char_len_utf8(self@),
    {
        proof {
            use_type_invariant(self);
        }
        if self.0 == u32::MAX {
            0
        } else if self.0 < 0x80 {
            1
        } else if self.0 < 0x800 {
            2
        } else if self.0 < 0x10000 {
            3
        } else {
            4
        }
    }

    /// Returns true iff the character is a word character.
    ///
    /// If the character is absent, then false is returned. A present
    /// character that is a word byte is always also a word character.
    pub fn is_word_char(self) -> (r: bool)
        ensures
            r == opt_char_is_word_char(self@),
            opt_char_is_word_byte(self@) ==> r,
    {
        match self.as_char() {
            None => false,
            Some(c) => syntax_is_word_character(c),
        }
    }

    /// Returns true iff the character is a word byte.
    ///
    /// If the character is absent, then false is returned.
    pub fn is_word_byte(self) -> (r: bool)
        ensures
            r == opt_char_is_word_byte(self@),
    {
        match self.as_char() {
            None => false,
            Some(c) => {
                let u = c as u32;
                if u <= 0xff {
                    syntax_is_word_byte(u as u8)
                } else {
                    false
                }
            },
        }
    }

    /// Converts the character to a real primitive `char`.
    ///
    /// If the character is absent, then `None` is returned.
    pub fn as_char(self) -> (r: Option<char>)
        ensures
            r == self@,
    {
        proof {
            use_type_invariant(self);
        }
        let r = char_from_u32(self.0);
        proof {
            match r {
                Some(c) => vstd::utf8::char_u32_cast(c, self.0),
                None => (),
            }
        }
        r
    }
}

impl PartialEq for Char {
    fn eq(&self, other: &Char) -> (r: bool) {
        proof {
            use_type_invariant(*self);
            use_type_invariant(*other);
        }
        self.0 == other.0
    }
}

impl vstd::std_specs::cmp::PartialEqSpecImpl for Char {
    open spec fn obeys_eq_spec() -> bool {
        true
    }

    open spec fn eq_spec(&self, other: &Char) -> bool {
        self@ == other@
    }
}

impl PartialEq<char> for Char {
    fn eq(&self, other: &char) -> (r: bool) {
        proof {
            use_type_invariant(*self);
            lemma_char_code(*self, *other);
        }
        self.0 == *other as u32
    }
}

impl vstd::std_specs::cmp::PartialEqSpecImpl<char> for Char {
    open spec fn obeys_eq_spec() -> bool {
        true
    }

    open spec fn eq_spec(&self, other: &char) -> bool {
        self@ == Some(*other)
    }
}

impl PartialEq<Char> for char {
    fn eq(&self, other: &Char) -> (r: bool) {
        proof {
            use_type_invariant(*other);
            lemma_char_code(*other, *self);
        }
        *self as u32 == other.0
    }
}

impl vstd::std_specs::cmp::PartialEqSpecImpl<Char> for char {
    open spec fn obeys_eq_spec() -> bool {
        true
    }

    open spec fn eq_spec(&self, other: &Char) -> bool {
        other@ == Some(*self)
    }
}

impl PartialOrd<char> for Char {
    fn partial_cmp(&self, other: &char) -> (r: Option<Ordering>) {
        proof {
            use_type_invariant(*self);
            lemma_char_code(*self, *other);
        }
        let u = *other as u32;
        if self.0 < u {
            Some(Ordering::Less)
        } else if self.0 == u {
            Some(Ordering::Equal)
        } else {
            Some(Ordering::Greater)
        }
    }
}

impl vstd::std_specs::cmp::PartialOrdSpecImpl<char> for Char {
    open spec fn obeys_partial_cmp_spec() -> bool {
        true
    }

    open spec fn partial_cmp_spec(&self, other: &char) -> Option<Ordering> {
        match self@ {
            None => Some(Ordering::Greater),
            Some(c) => if (c as u32) < (*other as u32) {
                Some(Ordering::Less)
            } else if c == *other {
                Some(Ordering::Equal)
            } else {
                Some(Ordering::Greater)
            },
        }
    }
}

impl PartialOrd<Char> for char {
    fn partial_cmp(&self, other: &Char) -> (r: Option<Ordering>) {
        proof {
            use_type_invariant(*other);
            lemma_char_code(*other, *self);
        }
        let u = *self as u32;
        if u < other.0 {
            Some(Ordering::Less)
        } else if u == other.0 {
            Some(Ordering::Equal)
        } else {
            Some(Ordering::Greater)
        }
    }
}

impl vstd::std_specs::cmp::PartialOrdSpecImpl<Char> for char {
    open spec fn obeys_partial_cmp_spec() -> bool {
        true
    }

    open spec fn partial_cmp_spec(&self, other: &Char) -> Option<Ordering> {
        match other@ {
            None => Some(Ordering::Less),
            Some(c) => if (*self as u32) < (c as u32) {
                Some(Ordering::Less)
            } else if *self == c {
                Some(Ordering::Equal)
            } else {
                Some(Ordering::Greater)
            },
        }
    }
}

} // verus!
