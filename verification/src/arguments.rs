//! Arguments: the name/value/mandatory attribute triples carried by
//! authorization and accounting packets, their wire encoding
//! `name || delimiter || value`, and bounded argument sets.

use vstd::prelude::*;
use crate::text::{
    chars_as_bytes, chars_of_bytes, lemma_chars_as_bytes_round_trip, lemma_chars_of_bytes_round_trip,
    lemma_char_u8_identity, text_is_printable, FieldText,
};
use crate::wire::bytes_are_printable_ascii;
use crate::SerializeError;

verus! {

/// The wire byte of the delimiter of a mandatory argument, `'='`.
pub open spec fn mandatory_delimiter_byte() -> u8 {
    0x3d
}

/// The wire byte of the delimiter of an optional argument, `'*'`.
pub open spec fn optional_delimiter_byte() -> u8 {
    0x2a
}

/// Whether a byte is one of the two delimiter bytes.
pub open spec fn byte_is_delimiter(b: u8) -> bool {
    b == mandatory_delimiter_byte() || b == optional_delimiter_byte()
}

/// A reason an argument or its encoding is invalid.
#[derive(Debug, PartialEq, Eq, Structural, Clone, Copy, Hash)]
pub enum InvalidArgument {
    /// The argument had an empty name.
    EmptyName,
    /// The argument name contained a delimiter (`=` or `*`).
    NameContainsDelimiter,
    /// The argument encoding contained no delimiter.
    NoDelimiter,
    /// The argument was too long to be encodeable in one length byte.
    TooLong,
    /// The argument was not printable ASCII.
    BadText,
}

/// The mathematical model of an argument: its name and value as character
/// sequences and its mandatory bit.
pub struct ArgumentView {
    /// The name characters.
    pub name: Seq<char>,
    /// The value characters.
    pub value: Seq<char>,
    /// Whether processing the argument is mandatory.
    pub mandatory: bool,
}

/// The invariants every constructed argument satisfies: a non-empty
/// printable name free of both delimiters, a printable value, and a
/// combined encoding that fits in one length byte.
pub open spec fn argument_view_valid(v: ArgumentView) -> bool {
    &&& v.name.len() > 0
    &&& !v.name.contains('=')
    &&& !v.name.contains('*')
    &&& v.name.len() + 1 + v.value.len() <= 255
    &&& text_is_printable(v.name)
    &&& text_is_printable(v.value)
}

/// The delimiter character of an argument: `'='` when mandatory, `'*'` when
/// optional.
pub open spec fn spec_delimiter(mandatory: bool) -> u8 {
    if mandatory {
        mandatory_delimiter_byte()
    } else {
        optional_delimiter_byte()
    }
}

/// The wire encoding of an argument: name, delimiter, value.
pub open spec fn argument_wire_bytes(v: ArgumentView) -> Seq<u8> {
    chars_as_bytes(v.name) + seq![spec_delimiter(v.mandatory)] + chars_as_bytes(v.value)
}

/// The classification `Argument::new` applies, in order: empty name, name
/// holding a delimiter, then combined length.
pub open spec fn spec_validate(v: ArgumentView) -> Result<ArgumentView, InvalidArgument> {
    if v.name.len() == 0 {
        Err(InvalidArgument::EmptyName)
    } else if v.name.contains('=') || v.name.contains('*') {
        Err(InvalidArgument::NameContainsDelimiter)
    } else if v.name.len() + 1 + v.value.len() > 255 {
        Err(InvalidArgument::TooLong)
    } else {
        Ok(v)
    }
}

/// The position of the first delimiter byte at or after `i`, if any.
pub open spec fn first_delimiter_from(bytes: Seq<u8>, i: int) -> Option<int>
    decreases bytes.len() - i,
{
    if i < 0 || i >= bytes.len() {
        None
    } else if byte_is_delimiter(bytes[i]) {
        Some(i)
    } else {
        first_delimiter_from(bytes, i + 1)
    }
}

/// What decoding an argument encoding yields: the first `=` or `*` is the
/// delimiter; no delimiter, non-printable text, and the `Argument::new`
/// checks are the failure cases, in that order.
pub open spec fn spec_parse_argument(bytes: Seq<u8>) -> Result<ArgumentView, InvalidArgument> {
    match first_delimiter_from(bytes, 0) {
        Option::None => Err(InvalidArgument::NoDelimiter),
        Option::Some(d) => {
            let name_bytes = bytes.take(d);
            let value_bytes = bytes.skip(d + 1);
            if !bytes_are_printable_ascii(name_bytes) || !bytes_are_printable_ascii(value_bytes) {
                Err(InvalidArgument::BadText)
            } else {
                spec_validate(
                    ArgumentView {
                        name: chars_of_bytes(name_bytes),
                        value: chars_of_bytes(value_bytes),
                        mandatory: bytes[d] == mandatory_delimiter_byte(),
                    },
                )
            }
        },
    }
}

/// An argument: a name/value pair with a mandatory bit, as carried in
/// authorization and accounting bodies.
#[derive(Clone, Debug, Eq, Hash)]
pub struct Argument {
    pub name: FieldText,
    pub value: FieldText,
    pub mandatory: bool,
}

impl View for Argument {
    type V = ArgumentView;

    open spec fn view(&self) -> ArgumentView {
        ArgumentView { name: self.name@, value: self.value@, mandatory: self.mandatory }
    }
}

impl PartialEq for Argument {
    /// Two arguments are equal when their names, values, and mandatory
    /// bits agree.
    fn eq(&self, other: &Argument) -> (r: bool) {
        self.name == other.name && self.value == other.value && self.mandatory == other.mandatory
    }
}

impl vstd::std_specs::cmp::PartialEqSpecImpl for Argument {
    open spec fn obeys_eq_spec() -> bool {
        true
    }

    open spec fn eq_spec(&self, other: &Argument) -> bool {
        self@.name == other@.name && self@.value == other@.value && self@.mandatory
            == other@.mandatory
    }
}

impl Argument {
    /// Constructs an argument, classifying each violated invariant:
    /// an empty name, a delimiter inside the name, or a combined
    /// name/delimiter/value encoding longer than 255 bytes.
    pub fn new(name: FieldText, value: FieldText, mandatory: bool) -> (r: Result<
        Argument,
        InvalidArgument,
    >)
        requires
            text_is_printable(name@),
            text_is_printable(value@),
        ensures
            match r {
                Ok(a) => {
                    &&& spec_validate(
                        ArgumentView { name: name@, value: value@, mandatory },
                    ) is Ok
                    &&& a@ == (ArgumentView { name: name@, value: value@, mandatory })
                    &&& argument_view_valid(a@)
                },
                Err(e) => spec_validate(ArgumentView { name: name@, value: value@, mandatory })
                    == Err::<ArgumentView, InvalidArgument>(e),
            },
    {
        let delimiters: Vec<char> = vec!['=', '*'];
        if name.is_empty() {
            Err(InvalidArgument::EmptyName)
        } else if name.contains_any(&delimiters) {
            proof {
                let i = choose|i: int|
                    0 <= i < name@.len() && delimiters@.contains(#[trigger] name@[i]);
                assert(delimiters@[0] == '=' && delimiters@[1] == '*');
                assert(name@[i] == '=' || name@[i] == '*');
            }
            Err(InvalidArgument::NameContainsDelimiter)
        } else if name.len() > 255 || 255 - name.len() < 1 || 255 - name.len() - 1 < value.len() {
            proof {
                assert(name@.len() + 1 + value@.len() > 255);
            }
            Err(InvalidArgument::TooLong)
        } else {
            proof {
                assert(!name@.contains('=') && !name@.contains('*')) by {
                    if name@.contains('=') {
                        let i = choose|i: int| 0 <= i < name@.len() && name@[i] == '=';
                        assert(delimiters@.contains(name@[i]));
                    }
                    if name@.contains('*') {
                        let i = choose|i: int| 0 <= i < name@.len() && name@[i] == '*';
                        assert(delimiters@.contains(name@[i]));
                    }
                }
            }
            Ok(Argument { name, value, mandatory })
        }
    }

    /// An equal copy of the argument.
    pub fn duplicate(&self) -> (r: Argument)
        ensures
            r@ == self@,
    {
        Argument {
            name: self.name.duplicate(),
            value: self.value.duplicate(),
            mandatory: self.mandatory,
        }
    }

    /// The name of the argument.
    pub fn name(&self) -> (r: &FieldText)
        ensures
            r@ == self@.name,
    {
        &self.name
    }

    /// The value of the argument.
    pub fn value(&self) -> (r: &FieldText)
        ensures
            r@ == self@.value,
    {
        &self.value
    }

    /// Whether processing this argument is mandatory.
    pub fn mandatory(&self) -> (r: bool)
        ensures
            r == self@.mandatory,
    {
        self.mandatory
    }

    /// The length of the argument's encoding: name, delimiter, and value.
    pub fn encoded_length(&self) -> (r: u8)
        requires
            argument_view_valid(self@),
        ensures
            r == argument_wire_bytes(self@).len(),
    {
        (self.name.len() + 1 + self.value.len()) as u8
    }

    /// Appends the wire encoding `name || delimiter || value` to `out`.
    pub fn serialize_append(&self, out: &mut Vec<u8>)
        ensures
            final(out)@ == old(out)@ + argument_wire_bytes(self@),
    {
        crate::wire::push_bytes(out, self.name.as_bytes());
        if self.mandatory {
            out.push(0x3d);
        } else {
            out.push(0x2a);
        }
        crate::wire::push_bytes(out, self.value.as_bytes());
        assert(out@ =~= old(out)@ + argument_wire_bytes(self@));
    }

    /// Writes the wire encoding at the front of `buffer`; fails without
    /// touching the buffer when it is too short.
    pub fn serialize(&self, buffer: &mut Vec<u8>) -> (r: Result<usize, SerializeError>)
        ensures
            match r {
                Ok(n) => {
                    &&& n == argument_wire_bytes(self@).len()
                    &&& n <= old(buffer)@.len()
                    &&& final(buffer)@ == argument_wire_bytes(self@) + old(buffer)@.skip(n as int)
                },
                Err(e) => {
                    &&& e == SerializeError::NotEnoughSpace
                    &&& old(buffer)@.len() < argument_wire_bytes(self@).len()
                    &&& final(buffer)@ == old(buffer)@
                },
            },
    {
        let mut encoded: Vec<u8> = Vec::new();
        self.serialize_append(&mut encoded);
        if encoded.len() <= buffer.len() {
            let n = encoded.len();
            crate::wire::overwrite_prefix(buffer, &encoded);
            Ok(n)
        } else {
            Err(SerializeError::NotEnoughSpace)
        }
    }

    /// Decodes an argument from its wire encoding: the first `=` or `*`
    /// is the delimiter, and the `Argument::new` checks are re-applied.
    pub fn deserialize(buffer: &Vec<u8>) -> (r: Result<Argument, InvalidArgument>)
        ensures
            match r {
                Ok(a) => spec_parse_argument(buffer@) == Ok::<ArgumentView, InvalidArgument>(a@)
                    && argument_view_valid(a@),
                Err(e) => spec_parse_argument(buffer@) == Err::<ArgumentView, InvalidArgument>(e),
            },
    {
        let n: usize = buffer.len();
        let mut i: usize = 0;
        while i < n && !(buffer[i] == 0x3d || buffer[i] == 0x2a)
            invariant
                n == buffer@.len(),
                i <= n,
                first_delimiter_from(buffer@, 0) == first_delimiter_from(buffer@, i as int),
            decreases n - i,
        {
            i += 1;
        }
        if i >= n {
            proof {
                assert(first_delimiter_from(buffer@, n as int) is None);
            }
            Err(InvalidArgument::NoDelimiter)
        } else {
            let d = i;
            proof {
                assert(first_delimiter_from(buffer@, d as int) == Some(d as int));
                assert(first_delimiter_from(buffer@, 0) == Some(d as int));
            }
            let mandatory = buffer[d] == 0x3d;
            let name_bytes = crate::wire::subvec(buffer, 0, d);
            let value_bytes = crate::wire::subvec(buffer, d + 1, n);
            proof {
                assert(name_bytes@ =~= buffer@.take(d as int));
                assert(value_bytes@ =~= buffer@.skip(d + 1));
            }
            let name = match FieldText::from_bytes(name_bytes) {
                Ok(t) => t,
                Err(_) => {
                    return Err(InvalidArgument::BadText);
                },
            };
            let value = match FieldText::from_bytes(value_bytes) {
                Ok(t) => t,
                Err(_) => {
                    return Err(InvalidArgument::BadText);
                },
            };
            proof {
                lemma_chars_of_bytes_round_trip(buffer@.take(d as int));
                lemma_chars_of_bytes_round_trip(buffer@.skip(d + 1));
            }
            Self::new(name, value, mandatory)
        }
    }
}

/// Whatever decodes successfully is a valid argument: the parse checks
/// are exactly the construction checks.
pub proof fn lemma_parse_argument_valid(bytes: Seq<u8>)
    ensures
        spec_parse_argument(bytes) matches Ok(v) ==> argument_view_valid(v),
{
    if spec_parse_argument(bytes) is Ok {
        let d = first_delimiter_from(bytes, 0)->0;
        let name_bytes = bytes.take(d);
        let value_bytes = bytes.skip(d + 1);
        lemma_chars_of_bytes_round_trip(name_bytes);
        lemma_chars_of_bytes_round_trip(value_bytes);
    }
}

/// Every argument of the sequence satisfies the argument invariants.
pub open spec fn all_arguments_valid(s: Seq<ArgumentView>) -> bool {
    forall|i: int| 0 <= i < s.len() ==> argument_view_valid(#[trigger] s[i])
}

/// The count byte followed by the encoded length of each argument, as an
/// argument set opens on the wire.
pub open spec fn count_and_lengths_bytes(s: Seq<ArgumentView>) -> Seq<u8> {
    seq![s.len() as u8] + Seq::new(s.len(), |i: int| argument_wire_bytes(s[i]).len() as u8)
}

/// The concatenated wire encodings of the arguments, in order.
pub open spec fn encoded_values_bytes(s: Seq<ArgumentView>) -> Seq<u8>
    decreases s.len(),
{
    if s.len() == 0 {
        Seq::empty()
    } else {
        argument_wire_bytes(s[0]) + encoded_values_bytes(s.drop_first())
    }
}

/// Appending one argument to a sequence appends its encoding to the
/// concatenated encodings.
pub proof fn lemma_encoded_values_push(s: Seq<ArgumentView>, v: ArgumentView)
    ensures
        encoded_values_bytes(s.push(v)) == encoded_values_bytes(s) + argument_wire_bytes(v),
    decreases s.len(),
{
    if s.len() == 0 {
        assert(s.push(v)[0] == v);
        assert(s.push(v).drop_first() =~= Seq::<ArgumentView>::empty());
        assert(encoded_values_bytes(s.push(v)) =~= encoded_values_bytes(s)
            + argument_wire_bytes(v));
    } else {
        assert(s.push(v)[0] == s[0]);
        assert(s.push(v).len() > 0);
        assert(encoded_values_bytes(s.push(v)) == argument_wire_bytes(s.push(v)[0])
            + encoded_values_bytes(s.push(v).drop_first()));
        assert(s.push(v).drop_first() =~= s.drop_first().push(v));
        lemma_encoded_values_push(s.drop_first(), v);
        assert(encoded_values_bytes(s) == argument_wire_bytes(s[0]) + encoded_values_bytes(
            s.drop_first(),
        ));
        assert(encoded_values_bytes(s.push(v)) =~= encoded_values_bytes(s)
            + argument_wire_bytes(v));
    }
}

/// The concatenated encodings of valid arguments have one byte per
/// character plus one delimiter byte per argument, at most 255 each.
pub proof fn lemma_encoded_values_len(s: Seq<ArgumentView>)
    requires
        all_arguments_valid(s),
    ensures
        encoded_values_bytes(s).len() <= s.len() * 255,
    decreases s.len(),
{
    if s.len() > 0 {
        assert(argument_view_valid(s[0]));
        assert(all_arguments_valid(s.drop_first())) by {
            assert forall|i: int| 0 <= i < s.drop_first().len() implies argument_view_valid(
                #[trigger] s.drop_first()[i],
            ) by {
                assert(s.drop_first()[i] == s[i + 1]);
            }
        }
        lemma_encoded_values_len(s.drop_first());
        assert(argument_wire_bytes(s[0]).len() <= 255);
    }
}

/// A set of arguments bounded to at most 255 entries, so that its count
/// fits in one byte on the wire.
#[derive(Clone, Debug, PartialEq, Eq, Hash)]
pub struct Arguments {
    pub args: Vec<Argument>,
}

impl View for Arguments {
    type V = Seq<ArgumentView>;

    open spec fn view(&self) -> Seq<ArgumentView> {
        self.args@.map_values(|a: Argument| a@)
    }
}

impl Arguments {
    /// The set's invariant: at most 255 arguments, each valid.
    pub open spec fn valid(&self) -> bool {
        self@.len() <= 255 && all_arguments_valid(self@)
    }

    /// Bounds a vector of arguments: `Some` when at most 255 were given,
    /// `None` otherwise.
    pub fn new(arguments: Vec<Argument>) -> (r: Option<Arguments>)
        requires
            all_arguments_valid(arguments@.map_values(|a: Argument| a@)),
        ensures
            match r {
                Some(s) => arguments@.len() <= 255 && s@ == arguments@.map_values(
                    |a: Argument| a@,
                ) && s.valid(),
                None => arguments@.len() > 255,
            },
    {
        if arguments.len() <= 255 {
            Some(Arguments { args: arguments })
        } else {
            None
        }
    }

    /// The number of arguments in the set.
    pub fn argument_count(&self) -> (r: u8)
        requires
            self.valid(),
        ensures
            r == self@.len(),
    {
        self.args.len() as u8
    }

    /// The arguments as a slice of the underlying vector.
    pub fn as_slice(&self) -> (r: &Vec<Argument>)
        ensures
            r@.map_values(|a: Argument| a@) == self@,
    {
        &self.args
    }

    /// The size of the set on the wire: the count byte, one length byte
    /// per argument, and the encoded values.
    pub fn wire_size(&self) -> (r: usize)
        requires
            self.valid(),
        ensures
            r == 1 + self@.len() + encoded_values_bytes(self@).len(),
            r <= 1 + 255 + 255 * 255,
    {
        let values_len = self.encoded_values_size();
        proof {
            lemma_encoded_values_len(self@);
        }
        1 + self.args.len() + values_len
    }

    /// The total length of the concatenated argument encodings.
    pub fn encoded_values_size(&self) -> (r: usize)
        requires
            self.valid(),
        ensures
            r == encoded_values_bytes(self@).len(),
            r <= 255 * 255,
    {
        let n: usize = self.args.len();
        let mut total: usize = 0;
        let mut i: usize = 0;
        while i < n
            invariant
                self.valid(),
                n == self@.len(),
                i <= n,
                total == encoded_values_bytes(self@.take(i as int)).len(),
                total <= i * 255,
            decreases n - i,
        {
            proof {
                assert(argument_view_valid(self@[i as int]));
                assert(self@.take(i + 1) =~= self@.take(i as int).push(self@[i as int]));
                lemma_encoded_values_push(self@.take(i as int), self@[i as int]);
                assert(self.args@[i as int]@ == self@[i as int]);
            }
            let len = self.args[i].encoded_length();
            total = total + len as usize;
            i += 1;
        }
        proof {
            assert(self@.take(n as int) =~= self@);
            lemma_encoded_values_len(self@);
        }
        total
    }

    /// Appends the count byte and the per-argument length bytes to `out`.
    pub fn append_count_and_lengths(&self, out: &mut Vec<u8>)
        requires
            self.valid(),
        ensures
            final(out)@ == old(out)@ + count_and_lengths_bytes(self@),
    {
        let n: usize = self.args.len();
        out.push(n as u8);
        let mut i: usize = 0;
        while i < n
            invariant
                self.valid(),
                n == self@.len(),
                i <= n,
                out@ == old(out)@ + seq![n as u8] + Seq::new(
                    i as nat,
                    |j: int| argument_wire_bytes(self@[j]).len() as u8,
                ),
            decreases n - i,
        {
            proof {
                assert(argument_view_valid(self@[i as int]));
                assert(self.args@[i as int]@ == self@[i as int]);
            }
            let len = self.args[i].encoded_length();
            out.push(len);
            i += 1;
            assert(out@ =~= old(out)@ + seq![n as u8] + Seq::new(
                i as nat,
                |j: int| argument_wire_bytes(self@[j]).len() as u8,
            ));
        }
        assert(out@ =~= old(out)@ + count_and_lengths_bytes(self@));
    }

    /// Appends the concatenated argument encodings to `out`.
    pub fn append_encoded_values(&self, out: &mut Vec<u8>)
        requires
            self.valid(),
        ensures
            final(out)@ == old(out)@ + encoded_values_bytes(self@),
    {
        let n: usize = self.args.len();
        let mut i: usize = 0;
        while i < n
            invariant
                self.valid(),
                n == self@.len(),
                i <= n,
                out@ == old(out)@ + encoded_values_bytes(self@.take(i as int)),
            decreases n - i,
        {
            proof {
                assert(self@.take(i + 1) =~= self@.take(i as int).push(self@[i as int]));
                lemma_encoded_values_push(self@.take(i as int), self@[i as int]);
                assert(self.args@[i as int]@ == self@[i as int]);
            }
            self.args[i].serialize_append(out);
            i += 1;
        }
        proof {
            assert(self@.take(n as int) =~= self@);
        }
    }

    /// Writes the count and length bytes at the front of `buffer`: the
    /// buffer must hold strictly more bytes than the argument count.
    pub fn serialize_count_and_lengths(&self, buffer: &mut Vec<u8>) -> (r: Result<
        usize,
        SerializeError,
    >)
        requires
            self.valid(),
        ensures
            match r {
                Ok(n) => {
                    &&& old(buffer)@.len() > self@.len()
                    &&& n == 1 + self@.len()
                    &&& final(buffer)@ == count_and_lengths_bytes(self@) + old(buffer)@.skip(
                        n as int,
                    )
                },
                Err(e) => {
                    &&& e == SerializeError::NotEnoughSpace
                    &&& old(buffer)@.len() <= self@.len()
                    &&& final(buffer)@ == old(buffer)@
                },
            },
    {
        let count = self.args.len();
        if buffer.len() > count {
            let mut encoded: Vec<u8> = Vec::new();
            self.append_count_and_lengths(&mut encoded);
            crate::wire::overwrite_prefix(buffer, &encoded);
            Ok(1 + count)
        } else {
            Err(SerializeError::NotEnoughSpace)
        }
    }

    /// Writes the concatenated argument encodings at the front of
    /// `buffer`; the buffer must hold at least their total length.
    pub fn serialize_encoded_values(&self, buffer: &mut Vec<u8>) -> (r: Result<
        usize,
        SerializeError,
    >)
        requires
            self.valid(),
        ensures
            match r {
                Ok(n) => {
                    &&& n == encoded_values_bytes(self@).len()
                    &&& n <= old(buffer)@.len()
                    &&& final(buffer)@ == encoded_values_bytes(self@) + old(buffer)@.skip(n as int)
                },
                Err(e) => {
                    &&& e == SerializeError::NotEnoughSpace
                    &&& old(buffer)@.len() < encoded_values_bytes(self@).len()
                    &&& final(buffer)@ == old(buffer)@
                },
            },
    {
        let total = self.encoded_values_size();
        if buffer.len() >= total {
            let mut encoded: Vec<u8> = Vec::new();
            self.append_encoded_values(&mut encoded);
            crate::wire::overwrite_prefix(buffer, &encoded);
            Ok(total)
        } else {
            Err(SerializeError::NotEnoughSpace)
        }
    }
}


/// An argument whose name and value are ordinary owned strings.
#[derive(Debug, PartialEq, Eq, Clone, Hash)]
pub struct ArgumentOwned {
    /// The name of the argument.
    pub name: String,
    /// The value of the argument.
    pub value: String,
    /// Whether the argument is required.
    pub required: bool,
}

impl Argument {
    /// Converts this argument into one that holds ordinary owned strings.
    pub fn to_owned(&self) -> (r: ArgumentOwned)
        requires
            argument_view_valid(self@),
        ensures
            r.name@ == self@.name,
            r.value@ == self@.value,
            r.required == self@.mandatory,
    {
        ArgumentOwned {
            name: self.name.to_string_value(),
            value: self.value.to_string_value(),
            required: self.mandatory,
        }
    }
}

impl ArgumentOwned {
    /// Rebuilds a checked `Argument` from the owned strings, re-applying
    /// the printable-ASCII and `Argument::new` checks.
    pub fn borrowed(&self) -> (r: Result<Argument, InvalidArgument>)
        ensures
            match r {
                Ok(a) => {
                    &&& text_is_printable(self.name@)
                    &&& text_is_printable(self.value@)
                    &&& a@ == (ArgumentView {
                        name: self.name@,
                        value: self.value@,
                        mandatory: self.required,
                    })
                    &&& argument_view_valid(a@)
                },
                Err(e) => {
                    if !text_is_printable(self.name@) || !text_is_printable(self.value@) {
                        e == InvalidArgument::BadText
                    } else {
                        spec_validate(
                            ArgumentView {
                                name: self.name@,
                                value: self.value@,
                                mandatory: self.required,
                            },
                        ) == Err::<ArgumentView, InvalidArgument>(e)
                    }
                },
            },
    {
        let name = match FieldText::new(self.name.as_str()) {
            Some(t) => t,
            None => {
                return Err(InvalidArgument::BadText);
            },
        };
        let value = match FieldText::new(self.value.as_str()) {
            Some(t) => t,
            None => {
                return Err(InvalidArgument::BadText);
            },
        };
        Argument::new(name, value, self.required)
    }
}

/// Decoding inverts encoding: parsing the wire bytes of any valid argument
/// yields that argument back.
pub proof fn lemma_argument_round_trip(v: ArgumentView)
    requires
        argument_view_valid(v),
    ensures
        spec_parse_argument(argument_wire_bytes(v)) == Ok::<ArgumentView, InvalidArgument>(v),
{
    let bytes = argument_wire_bytes(v);
    let d = v.name.len() as int;
    lemma_chars_as_bytes_round_trip(v.name);
    lemma_chars_as_bytes_round_trip(v.value);
    assert(bytes[d] == spec_delimiter(v.mandatory));
    assert forall|i: int| 0 <= i < d implies !byte_is_delimiter(#[trigger] bytes[i]) by {
        let c = v.name[i];
        assert(bytes[i] == chars_as_bytes(v.name)[i]);
        assert(bytes[i] == c as u8);
        lemma_char_u8_identity(c);
        lemma_char_u8_identity('=');
        lemma_char_u8_identity('*');
        if c as u8 == 0x3d {
            assert(c as u32 == 0x3d);
            assert(c == '=') by {
                assert((0x3d as u8) as char == '=');
            }
            assert(v.name.contains('='));
        }
        if c as u8 == 0x2a {
            assert(c as u32 == 0x2a);
            assert(c == '*') by {
                assert((0x2a as u8) as char == '*');
            }
            assert(v.name.contains('*'));
        }
    }
    lemma_first_delimiter_position(bytes, d);
    assert(bytes.take(d) =~= chars_as_bytes(v.name));
    assert(bytes.skip(d + 1) =~= chars_as_bytes(v.value));
    assert(bytes[d] == mandatory_delimiter_byte() <==> v.mandatory) by {
        if !v.mandatory {
            assert(bytes[d] == optional_delimiter_byte());
        }
    }
    assert(spec_parse_argument(bytes) == spec_validate(v));
}

/// When no delimiter stands before `d` and a delimiter stands at `d`, the
/// first delimiter of the whole sequence is at `d`.
pub proof fn lemma_first_delimiter_position(bytes: Seq<u8>, d: int)
    requires
        0 <= d < bytes.len(),
        byte_is_delimiter(bytes[d]),
        forall|i: int| 0 <= i < d ==> !byte_is_delimiter(#[trigger] bytes[i]),
    ensures
        first_delimiter_from(bytes, 0) == Some(d),
{
    lemma_first_delimiter_position_from(bytes, 0, d);
}

proof fn lemma_first_delimiter_position_from(bytes: Seq<u8>, start: int, d: int)
    requires
        0 <= start <= d < bytes.len(),
        byte_is_delimiter(bytes[d]),
        forall|i: int| start <= i < d ==> !byte_is_delimiter(#[trigger] bytes[i]),
    ensures
        first_delimiter_from(bytes, start) == Some(d),
    decreases d - start,
{
    if start < d {
        lemma_first_delimiter_position_from(bytes, start + 1, d);
    }
}

} // verus!
