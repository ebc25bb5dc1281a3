//! `FieldText`: a string checked to be printable ASCII (bytes 0x20 to 0x7e),
//! as RFC 8907 section 3.7 demands of most text fields on the wire.

use vstd::prelude::*;
use crate::wire::bytes_are_printable_ascii;
use crate::{char_is_printable_ascii, is_printable_ascii_char};

verus! {

/// Every character of `s` is printable ASCII.
pub open spec fn text_is_printable(s: Seq<char>) -> bool {
    forall|i: int| 0 <= i < s.len() ==> char_is_printable_ascii(#[trigger] s[i])
}

/// The characters denoted by a sequence of single-byte codepoints.
pub open spec fn chars_of_bytes(b: Seq<u8>) -> Seq<char> {
    Seq::new(b.len(), |i: int| b[i] as char)
}

/// The bytes that encode a sequence of ASCII characters, one byte per character.
pub open spec fn chars_as_bytes(s: Seq<char>) -> Seq<u8> {
    Seq::new(s.len(), |i: int| s[i] as u8)
}

/// A character with a one-byte codepoint survives the round trip through
/// `u8` unchanged.
pub proof fn lemma_char_u8_identity(c: char)
    requires
        (c as u32) <= 0xff,
    ensures
        (c as u8) as char == c,
        (c as u8) as u32 == c as u32,
{
}

/// A character above `0x7f` is not printable ASCII, and one at or below
/// `0x7f` compares with `'\u{7f}'` as its codepoint does with `0x7f`.
pub proof fn lemma_char_order_is_codepoint_order(c: char)
    ensures
        (c <= '\u{7f}') == ((c as u32) <= 0x7f),
        ('\0' <= c),
{
}

/// A byte survives the round trip through its one-byte character unchanged,
/// so `chars_of_bytes` loses nothing.
pub proof fn lemma_bytes_chars_bytes(b: Seq<u8>)
    ensures
        chars_as_bytes(chars_of_bytes(b)) == b,
{
    assert forall|i: int| 0 <= i < b.len() implies chars_as_bytes(chars_of_bytes(b))[i] == b[i] by {
        let x = b[i];
        assert(chars_of_bytes(b)[i] == x as char);
        assert(chars_as_bytes(chars_of_bytes(b))[i] == (x as char) as u8);
        lemma_char_u8_identity(x as char);
    }
    assert(chars_as_bytes(chars_of_bytes(b)) =~= b);
}

/// Byte/character conversion round-trips on printable ASCII bytes.
pub proof fn lemma_chars_of_bytes_round_trip(b: Seq<u8>)
    requires
        bytes_are_printable_ascii(b),
    ensures
        text_is_printable(chars_of_bytes(b)),
        chars_as_bytes(chars_of_bytes(b)) == b,
{
    assert forall|i: int| 0 <= i < b.len() implies char_is_printable_ascii(
        #[trigger] chars_of_bytes(b)[i],
    ) by {
        let x = b[i];
        assert(crate::byte_is_printable_ascii(x));
        assert(chars_of_bytes(b)[i] == x as char);
        lemma_char_u8_identity(x as char);
    }
    lemma_bytes_chars_bytes(b);
}

/// Character/byte conversion round-trips on printable ASCII text.
pub proof fn lemma_chars_as_bytes_round_trip(s: Seq<char>)
    requires
        text_is_printable(s),
    ensures
        bytes_are_printable_ascii(chars_as_bytes(s)),
        chars_of_bytes(chars_as_bytes(s)) == s,
{
    assert forall|i: int| 0 <= i < s.len() implies crate::byte_is_printable_ascii(
        #[trigger] chars_as_bytes(s)[i],
    ) by {
        let c = s[i];
        assert(char_is_printable_ascii(c));
        lemma_char_u8_identity(c);
        assert(chars_as_bytes(s)[i] == c as u8);
    }
    assert forall|i: int| 0 <= i < s.len() implies chars_of_bytes(chars_as_bytes(s))[i] == s[i] by {
        let c = s[i];
        assert(char_is_printable_ascii(c));
        lemma_char_u8_identity(c);
        assert(chars_as_bytes(s)[i] == c as u8);
    }
    assert(chars_of_bytes(chars_as_bytes(s)) =~= s);
}

/// An immutable string whose characters are all printable ASCII.
#[derive(Debug, Clone, Eq, Hash)]
pub struct FieldText {
    bytes: Vec<u8>,
}

impl View for FieldText {
    type V = Seq<char>;

    closed spec fn view(&self) -> Seq<char> {
        chars_of_bytes(self.bytes@)
    }
}

impl FieldText {
    /// Checks `text` for printable ASCII and wraps it; rejects any other string.
    pub fn new(text: &str) -> (r: Option<FieldText>)
        ensures
            match r {
                Some(t) => text_is_printable(text@) && t@ == text@,
                None => !text_is_printable(text@),
            },
    {
        if !text.is_ascii() {
            proof {
                broadcast use vstd::utf8::is_ascii_chars_nat_bound;

                let s = text@;
                assert(!vstd::utf8::is_ascii_chars(s));
                let i = choose|i: int| !(0 <= i < s.len() ==> '\0' <= #[trigger] s[i] <= '\u{7f}');
                lemma_char_order_is_codepoint_order(s[i]);
                assert(!char_is_printable_ascii(s[i]));
            }
            return None;
        }
        let n: usize = text.unicode_len();
        let mut i: usize = 0;
        while i < n
            invariant
                n == text@.len(),
                i <= n,
                forall|j: int| 0 <= j < i ==> char_is_printable_ascii(#[trigger] text@[j]),
            decreases n - i,
        {
            let c = text.get_char(i);
            if !is_printable_ascii_char(c) {
                return None;
            }
            i += 1;
        }
        let bytes = text.as_bytes_vec();
        proof {
            broadcast use vstd::string::is_ascii_spec_bytes;

            assert(bytes@ =~= chars_as_bytes(text@));
            lemma_chars_as_bytes_round_trip(text@);
        }
        Some(FieldText { bytes })
    }

    /// Wraps raw bytes after checking each for printable ASCII; rejects any
    /// buffer with a byte outside 0x20 to 0x7e, handing the buffer back.
    pub fn from_bytes(bytes: Vec<u8>) -> (r: Result<FieldText, Vec<u8>>)
        ensures
            match r {
                Ok(t) => bytes_are_printable_ascii(bytes@) && t@ == chars_of_bytes(bytes@),
                Err(b) => !bytes_are_printable_ascii(bytes@) && b == bytes,
            },
    {
        let n: usize = bytes.len();
        let mut i: usize = 0;
        while i < n
            invariant
                n == bytes@.len(),
                i <= n,
                forall|j: int| 0 <= j < i ==> crate::byte_is_printable_ascii(#[trigger] bytes@[j]),
            decreases n - i,
        {
            let b = bytes[i];
            if b < 0x20 || b > 0x7e {
                return Err(bytes);
            }
            i += 1;
        }
        Ok(FieldText { bytes })
    }

    /// An empty `FieldText`.
    pub fn empty() -> (r: FieldText)
        ensures
            r@ == Seq::<char>::empty(),
    {
        let r = FieldText { bytes: Vec::new() };
        proof {
            assert(r@ =~= Seq::<char>::empty());
        }
        r
    }

    /// Kept from the borrowed/owned API split: the owned form of an owned
    /// string is itself.
    pub fn into_owned(self) -> (r: FieldText)
        ensures
            r == self,
    {
        self
    }

    /// The length of the text in characters (equally, in bytes).
    pub fn len(&self) -> (r: usize)
        ensures
            r == self@.len(),
    {
        self.bytes.len()
    }

    /// The byte encoding of the text, one byte per character.
    pub fn as_bytes(&self) -> (r: &Vec<u8>)
        ensures
            r@ == chars_as_bytes(self@),
    {
        proof {
            lemma_bytes_chars_bytes(self.bytes@);
        }
        &self.bytes
    }

    /// Whether the text has no characters.
    pub fn is_empty(&self) -> (r: bool)
        ensures
            r == (self@.len() == 0),
    {
        self.bytes.len() == 0
    }

    /// Whether the text contains any of the given characters.
    pub fn contains_any(&self, characters: &Vec<char>) -> (r: bool)
        ensures
            r == exists|i: int| 0 <= i < self@.len() && characters@.contains(#[trigger] self@[i]),
    {
        let n: usize = self.bytes.len();
        let mut i: usize = 0;
        while i < n
            invariant
                n == self@.len(),
                i <= n,
                forall|j: int| 0 <= j < i ==> !characters@.contains(#[trigger] self@[j]),
            decreases n - i,
        {
            let c = self.bytes[i] as char;
            let mut k: usize = 0;
            let m: usize = characters.len();
            while k < m
                invariant
                    m == characters@.len(),
                    k <= m,
                    c == self@[i as int],
                    i < self@.len(),
                    forall|j: int| 0 <= j < k ==> characters@[j] != c,
                decreases m - k,
            {
                if characters[k] == c {
                    assert(characters@.contains(self@[i as int]));
                    return true;
                }
                k += 1;
            }
            assert(!characters@.contains(self@[i as int])) by {
                if characters@.contains(self@[i as int]) {
                    let j = choose|j: int|
                        0 <= j < characters@.len() && characters@[j] == self@[i as int];
                }
            }
            i += 1;
        }
        false
    }

    /// Character-for-character comparison against an ordinary string.
    pub fn eq_str(&self, other: &str) -> (r: bool)
        ensures
            r == (self@ == other@),
    {
        let n: usize = other.unicode_len();
        if self.bytes.len() != n {
            proof {
                assert(self@.len() != other@.len());
            }
            return false;
        }
        let mut i: usize = 0;
        while i < n
            invariant
                n == other@.len(),
                n == self@.len(),
                i <= n,
                forall|j: int| 0 <= j < i ==> self@[j] == other@[j],
            decreases n - i,
        {
            let c = other.get_char(i);
            if self.bytes[i] as char != c {
                assert(self@[i as int] != other@[i as int]);
                return false;
            }
            i += 1;
        }
        proof {
            assert(self@ =~= other@);
        }
        true
    }
}

impl PartialEq for FieldText {
    /// Two texts are equal when they hold the same characters.
    fn eq(&self, other: &FieldText) -> (r: bool) {
        let r = self.bytes == other.bytes;
        proof {
            if r {
                assert(self.bytes@ =~= other.bytes@);
            } else {
                lemma_bytes_chars_bytes(self.bytes@);
                lemma_bytes_chars_bytes(other.bytes@);
                if self@ == other@ {
                    assert(self.bytes@ =~= other.bytes@);
                }
            }
        }
        r
    }
}

impl vstd::std_specs::cmp::PartialEqSpecImpl for FieldText {
    open spec fn obeys_eq_spec() -> bool {
        true
    }

    open spec fn eq_spec(&self, other: &FieldText) -> bool {
        self@ == other@
    }
}


/// The byte of the lowercase hexadecimal digit for `d` (0 to 15).
pub open spec fn hex_digit_byte(d: u32) -> u8 {
    if d < 10 {
        (0x30 + d) as u8
    } else {
        (0x57 + d) as u8
    }
}

/// The lowercase hexadecimal digits of `n`, most significant first, with
/// no leading zeros.
pub open spec fn hex_bytes(n: u32) -> Seq<u8>
    decreases n,
{
    if n < 16 {
        seq![hex_digit_byte(n)]
    } else {
        hex_bytes(n / 16) + seq![hex_digit_byte(n % 16)]
    }
}

/// How one character is written in the lossy ASCII form: printable ASCII
/// stays itself; tab, carriage return and newline take their two-byte
/// escapes; anything else becomes a `\u{...}` escape with lowercase
/// hexadecimal digits.
pub open spec fn escape_char_bytes(c: char) -> Seq<u8> {
    if crate::char_is_printable_ascii(c) {
        seq![c as u8]
    } else if c == '\t' {
        seq![0x5cu8, 0x74u8]
    } else if c == '\r' {
        seq![0x5cu8, 0x72u8]
    } else if c == '\n' {
        seq![0x5cu8, 0x6eu8]
    } else {
        seq![0x5cu8, 0x75u8, 0x7bu8] + hex_bytes(c as u32) + seq![0x7du8]
    }
}

/// The lossy ASCII form of a string: each character in order, escaped as
/// `escape_char_bytes` says.
pub open spec fn escape_bytes(s: Seq<char>) -> Seq<u8>
    decreases s.len(),
{
    if s.len() == 0 {
        Seq::empty()
    } else {
        escape_char_bytes(s[0]) + escape_bytes(s.drop_first())
    }
}

/// Escaping one more character appends its escape.
pub proof fn lemma_escape_bytes_push(s: Seq<char>, c: char)
    ensures
        escape_bytes(s.push(c)) == escape_bytes(s) + escape_char_bytes(c),
    decreases s.len(),
{
    assert(escape_bytes(s.push(c)) == escape_char_bytes(s.push(c)[0]) + escape_bytes(
        s.push(c).drop_first(),
    ));
    if s.len() == 0 {
        assert(s.push(c)[0] == c);
        assert(s.push(c).drop_first() =~= Seq::<char>::empty());
        assert(escape_bytes(Seq::<char>::empty()) =~= Seq::<u8>::empty());
        assert(escape_bytes(s) =~= Seq::<u8>::empty());
        assert(escape_bytes(s.push(c)) =~= escape_bytes(s) + escape_char_bytes(c));
    } else {
        assert(s.push(c)[0] == s[0]);
        assert(escape_bytes(s.push(c)) == escape_char_bytes(s.push(c)[0]) + escape_bytes(
            s.push(c).drop_first(),
        ));
        assert(s.push(c).drop_first() =~= s.drop_first().push(c));
        lemma_escape_bytes_push(s.drop_first(), c);
        assert(escape_bytes(s) == escape_char_bytes(s[0]) + escape_bytes(s.drop_first()));
        assert(escape_bytes(s.push(c)) =~= escape_bytes(s) + escape_char_bytes(c));
    }
}

/// Hexadecimal digit bytes are printable ASCII.
pub proof fn lemma_hex_bytes_printable(n: u32)
    ensures
        bytes_are_printable_ascii(hex_bytes(n)),
        hex_bytes(n).len() >= 1,
    decreases n,
{
    if n < 16 {
        assert(crate::byte_is_printable_ascii(hex_digit_byte(n)));
    } else {
        lemma_hex_bytes_printable(n / 16);
        assert(crate::byte_is_printable_ascii(hex_digit_byte(n % 16)));
        assert forall|i: int| 0 <= i < hex_bytes(n).len() implies crate::byte_is_printable_ascii(
            #[trigger] hex_bytes(n)[i],
        ) by {
            if i < hex_bytes(n / 16).len() {
                assert(hex_bytes(n)[i] == hex_bytes(n / 16)[i]);
            } else {
                assert(hex_bytes(n)[i] == hex_digit_byte(n % 16));
            }
        }
    }
}

/// The escape of any character is printable ASCII.
pub proof fn lemma_escape_char_printable(c: char)
    ensures
        bytes_are_printable_ascii(escape_char_bytes(c)),
{
    if crate::char_is_printable_ascii(c) {
        lemma_char_u8_identity(c);
    } else if c == '\t' || c == '\r' || c == '\n' {
    } else {
        lemma_hex_bytes_printable(c as u32);
        let b = escape_char_bytes(c);
        assert forall|i: int| 0 <= i < b.len() implies crate::byte_is_printable_ascii(
            #[trigger] b[i],
        ) by {
            if 3 <= i < 3 + hex_bytes(c as u32).len() {
                assert(b[i] == hex_bytes(c as u32)[i - 3]);
            }
        }
    }
}

/// The whole escaped form of any string is printable ASCII.
pub proof fn lemma_escape_bytes_printable(s: Seq<char>)
    ensures
        bytes_are_printable_ascii(escape_bytes(s)),
    decreases s.len(),
{
    if s.len() > 0 {
        lemma_escape_char_printable(s[0]);
        lemma_escape_bytes_printable(s.drop_first());
        let b = escape_bytes(s);
        let h = escape_char_bytes(s[0]);
        let t = escape_bytes(s.drop_first());
        assert forall|i: int| 0 <= i < b.len() implies crate::byte_is_printable_ascii(
            #[trigger] b[i],
        ) by {
            if i < h.len() {
                assert(b[i] == h[i]);
            } else {
                assert(b[i] == t[i - h.len()]);
            }
        }
    }
}

/// The lowercase hexadecimal digits of `n`, as bytes.
fn hex_bytes_exec(n: u32) -> (r: Vec<u8>)
    ensures
        r@ == hex_bytes(n),
    decreases n,
{
    if n < 16 {
        let d = if n < 10 {
            (0x30 + n) as u8
        } else {
            (0x57 + n) as u8
        };
        let mut out: Vec<u8> = Vec::new();
        out.push(d);
        proof {
            assert(out@ =~= hex_bytes(n));
        }
        out
    } else {
        let mut out = hex_bytes_exec(n / 16);
        let m = n % 16;
        let d = if m < 10 {
            (0x30 + m) as u8
        } else {
            (0x57 + m) as u8
        };
        out.push(d);
        proof {
            assert(out@ =~= hex_bytes(n));
        }
        out
    }
}

impl FieldText {
    /// Rewrites a string into printable ASCII, escaping what is not:
    /// tab, carriage return and newline as their two-byte escapes, any
    /// other non-printable character as `\u{...}`. Printable characters,
    /// quotes and backslashes included, stay as they are.
    pub fn from_string_lossy(string: String) -> (r: FieldText)
        ensures
            r@ == chars_of_bytes(escape_bytes(string@)),
    {
        let text: &str = string.as_str();
        let n: usize = text.unicode_len();
        let mut out: Vec<u8> = Vec::new();
        let mut i: usize = 0;
        while i < n
            invariant
                n == text@.len(),
                text@ == string@,
                i <= n,
                out@ == escape_bytes(text@.take(i as int)),
            decreases n - i,
        {
            let c = text.get_char(i);
            proof {
                assert(text@.take(i + 1) =~= text@.take(i as int).push(c));
                lemma_escape_bytes_push(text@.take(i as int), c);
            }
            if crate::is_printable_ascii_char(c) {
                out.push(c as u8);
                assert(out@ =~= escape_bytes(text@.take(i + 1)));
            } else if c == '\t' {
                out.push(0x5c);
                out.push(0x74);
                assert(out@ =~= escape_bytes(text@.take(i + 1)));
            } else if c == '\r' {
                out.push(0x5c);
                out.push(0x72);
                assert(out@ =~= escape_bytes(text@.take(i + 1)));
            } else if c == '\n' {
                out.push(0x5c);
                out.push(0x6e);
                assert(out@ =~= escape_bytes(text@.take(i + 1)));
            } else {
                out.push(0x5c);
                out.push(0x75);
                out.push(0x7b);
                let hex = hex_bytes_exec(c as u32);
                crate::wire::push_bytes(&mut out, &hex);
                out.push(0x7d);
                assert(out@ =~= escape_bytes(text@.take(i + 1)));
            }
            i += 1;
        }
        proof {
            assert(text@.take(n as int) =~= text@);
            lemma_escape_bytes_printable(text@);
        }
        FieldText { bytes: out }
    }

    /// An equal copy of the text.
    pub fn duplicate(&self) -> (r: FieldText)
        ensures
            r@ == self@,
    {
        let bytes = crate::wire::subvec(&self.bytes, 0, self.bytes.len());
        proof {
            assert(bytes@ =~= self.bytes@);
        }
        FieldText { bytes }
    }

    /// The text as an ordinary owned string.
    pub fn to_string_value(&self) -> (r: String)
        requires
            text_is_printable(self@),
        ensures
            r@ == self@,
    {
        proof {
            lemma_chars_as_bytes_round_trip(self@);
            lemma_bytes_chars_bytes(self.bytes@);
        }
        crate::trusted::string_of_bytes(self.bytes.clone())
    }
}

} // verus!
