use vstd::prelude::*;

use crate::socket_io_data::SocketIoEventParameter;
use crate::text::{decimal, push_char, push_decimal, push_signed_decimal, signed_decimal};

verus! {

/// A character as it stands inside a quoted token: only `"` is escaped.
pub open spec fn escape_char(c: char) -> Seq<char> {
    if c == '"' {
        seq!['\\', '"']
    } else {
        seq![c]
    }
}

/// `s` with every `"` written as `\"`; no other character changes.
pub open spec fn escape(s: Seq<char>) -> Seq<char>
    decreases s.len(),
{
    if s.len() == 0 {
        seq![]
    } else {
        escape(s.drop_last()) + escape_char(s.last())
    }
}

/// `s` escaped and wrapped in double quotes.
pub open spec fn quoted(s: Seq<char>) -> Seq<char> {
    seq!['"'] + escape(s) + seq!['"']
}

/// `s` wrapped in double quotes, unescaped (numbers hold no quote).
pub open spec fn in_quotes(s: Seq<char>) -> Seq<char> {
    seq!['"'] + s + seq!['"']
}

/// A value that can stand as one element of a parameter array.
pub trait SocketIoDataValue {
    /// The element's text.
    spec fn wire(&self) -> Seq<char>;

    /// Appends the element's text to `out`.
    fn serialize(&self, out: &mut String)
        ensures
            final(out)@ == old(out)@ + self.wire(),
    ;
}

impl SocketIoDataValue for String {
    open spec fn wire(&self) -> Seq<char> {
        quoted(self@)
    }

    fn serialize(&self, out: &mut String) {
        serialize_str(out, self.as_str());
    }
}

impl<'a> SocketIoDataValue for &'a str {
    open spec fn wire(&self) -> Seq<char> {
        quoted((*self)@)
    }

    fn serialize(&self, out: &mut String) {
        serialize_str(out, *self);
    }
}

impl<'a> SocketIoDataValue for &'a String {
    open spec fn wire(&self) -> Seq<char> {
        quoted((*self)@)
    }

    fn serialize(&self, out: &mut String) {
        serialize_str(out, self.as_str());
    }
}

impl<'a> SocketIoDataValue for &'a u8 {
    open spec fn wire(&self) -> Seq<char> {
        in_quotes(decimal(**self as nat))
    }

    fn serialize(&self, out: &mut String) {
        push_char(out, '"');
        push_decimal(out, **self as u64);
        push_char(out, '"');
        proof {
            assert(out@ =~= old(out)@ + self.wire());
        }
    }
}

impl<'a> SocketIoDataValue for &'a u16 {
    open spec fn wire(&self) -> Seq<char> {
        in_quotes(decimal(**self as nat))
    }

    fn serialize(&self, out: &mut String) {
        push_char(out, '"');
        push_decimal(out, **self as u64);
        push_char(out, '"');
        proof {
            assert(out@ =~= old(out)@ + self.wire());
        }
    }
}

impl<'a> SocketIoDataValue for &'a u32 {
    open spec fn wire(&self) -> Seq<char> {
        in_quotes(decimal(**self as nat))
    }

    fn serialize(&self, out: &mut String) {
        push_char(out, '"');
        push_decimal(out, **self as u64);
        push_char(out, '"');
        proof {
            assert(out@ =~= old(out)@ + self.wire());
        }
    }
}

impl<'a> SocketIoDataValue for &'a u64 {
    open spec fn wire(&self) -> Seq<char> {
        in_quotes(decimal(**self as nat))
    }

    fn serialize(&self, out: &mut String) {
        push_char(out, '"');
        push_decimal(out, **self);
        push_char(out, '"');
        proof {
            assert(out@ =~= old(out)@ + self.wire());
        }
    }
}

impl<'a> SocketIoDataValue for &'a usize {
    open spec fn wire(&self) -> Seq<char> {
        in_quotes(decimal(**self as nat))
    }

    fn serialize(&self, out: &mut String) {
        push_char(out, '"');
        push_decimal(out, **self as u64);
        push_char(out, '"');
        proof {
            assert(out@ =~= old(out)@ + self.wire());
        }
    }
}

impl<'a> SocketIoDataValue for &'a i8 {
    open spec fn wire(&self) -> Seq<char> {
        in_quotes(signed_decimal(**self as int))
    }

    fn serialize(&self, out: &mut String) {
        push_char(out, '"');
        push_signed_decimal(out, **self as i64);
        push_char(out, '"');
        proof {
            assert(out@ =~= old(out)@ + self.wire());
        }
    }
}

impl<'a> SocketIoDataValue for &'a i16 {
    open spec fn wire(&self) -> Seq<char> {
        in_quotes(signed_decimal(**self as int))
    }

    fn serialize(&self, out: &mut String) {
        push_char(out, '"');
        push_signed_decimal(out, **self as i64);
        push_char(out, '"');
        proof {
            assert(out@ =~= old(out)@ + self.wire());
        }
    }
}

impl<'a> SocketIoDataValue for &'a i32 {
    open spec fn wire(&self) -> Seq<char> {
        in_quotes(signed_decimal(**self as int))
    }

    fn serialize(&self, out: &mut String) {
        push_char(out, '"');
        push_signed_decimal(out, **self as i64);
        push_char(out, '"');
        proof {
            assert(out@ =~= old(out)@ + self.wire());
        }
    }
}

impl<'a> SocketIoDataValue for &'a i64 {
    open spec fn wire(&self) -> Seq<char> {
        in_quotes(signed_decimal(**self as int))
    }

    fn serialize(&self, out: &mut String) {
        push_char(out, '"');
        push_signed_decimal(out, **self);
        push_char(out, '"');
        proof {
            assert(out@ =~= old(out)@ + self.wire());
        }
    }
}

impl<'a> SocketIoDataValue for &'a isize {
    open spec fn wire(&self) -> Seq<char> {
        in_quotes(signed_decimal(**self as int))
    }

    fn serialize(&self, out: &mut String) {
        push_char(out, '"');
        push_signed_decimal(out, **self as i64);
        push_char(out, '"');
        proof {
            assert(out@ =~= old(out)@ + self.wire());
        }
    }
}

/// Appends `value` to `out` as a quoted token, escaping each `"` as `\"`.
pub fn serialize_str(out: &mut String, value: &str)
    ensures
        final(out)@ == old(out)@ + quoted(value@),
{
    push_char(out, '"');
    let ghost start = out@;
    for c in it: value.chars()
        invariant
            it.seq() == value@,
            out@ == start + escape(value@.subrange(0, it.index() as int)),
    {
        let ghost prefix = value@.subrange(0, it.index() as int);
        if c == '"' {
            push_char(out, '\\');
            push_char(out, '"');
        } else {
            push_char(out, c);
        }
        proof {
            let next = value@.subrange(0, it.index() + 1);
            assert(next =~= prefix.push(c));
            assert(next.drop_last() =~= prefix);
            assert(out@ =~= start + escape(next));
        }
    }
    proof {
        assert(value@.subrange(0, value@.len() as int) =~= value@);
    }
    push_char(out, '"');
    proof {
        assert(out@ =~= old(out)@ + quoted(value@));
    }
}

/// Builds a JSON-array-shaped text element by element.
pub struct SocketIoDataSerializer {
    first_data: bool,
    data: String,
}

impl View for SocketIoDataSerializer {
    /// Whether no element was written yet, and the text so far (without the
    /// closing bracket).
    type V = (bool, Seq<char>);

    closed spec fn view(&self) -> (bool, Seq<char>) {
        (self.first_data, self.data@)
    }
}

impl SocketIoDataSerializer {
    pub fn new() -> (r: Self)
        ensures
            r@ == (true, seq!['[']),
    {
        let mut data = String::new();
        push_char(&mut data, '[');
        Self { first_data: true, data }
    }

    fn add_delimiter(&mut self)
        ensures
            final(self)@ == (false, old(self)@.1 + (if old(self)@.0 {
                seq![]
            } else {
                seq![',']
            })),
    {
        if self.first_data {
            self.first_data = false;
            proof {
                assert(self.data@ =~= self.data@ + seq![]);
            }
        } else {
            push_char(&mut self.data, ',');
        }
    }

    /// Appends one element, preceded by a comma unless it is the first.
    pub fn write_value(&mut self, value: impl SocketIoDataValue)
        ensures
            final(self)@ == (false, old(self)@.1 + (if old(self)@.0 {
                seq![]
            } else {
                seq![',']
            }) + value.wire()),
    {
        self.add_delimiter();
        value.serialize(&mut self.data);
    }

    /// Appends the finished array, closing bracket included, to `out`.
    pub fn build_into(&self, out: &mut String)
        ensures
            final(out)@ == old(out)@ + self@.1 + seq![']'],
    {
        crate::text::push_str(out, self.data.as_str());
        push_char(out, ']');
    }
}

/// The quoted tokens of `ts`, separated by commas.
pub open spec fn join_quoted(ts: Seq<Seq<char>>) -> Seq<char>
    decreases ts.len(),
{
    if ts.len() == 0 {
        seq![]
    } else if ts.len() == 1 {
        quoted(ts[0])
    } else {
        join_quoted(ts.drop_last()) + seq![','] + quoted(ts.last())
    }
}

/// The array text of the strings `ts`: `[` + quoted tokens + `]`.
pub open spec fn params_wire(ts: Seq<Seq<char>>) -> Seq<char> {
    seq!['['] + join_quoted(ts) + seq![']']
}

/// Whether every parameter is a string.
pub open spec fn all_text(ps: Seq<SocketIoEventParameter>) -> bool {
    forall|i: int| 0 <= i < ps.len() ==> (#[trigger] ps[i]) is String
}

/// The text of a string parameter; a binary one has none.
pub open spec fn text_of(p: SocketIoEventParameter) -> Seq<char> {
    match p {
        SocketIoEventParameter::String(s) => s@,
        SocketIoEventParameter::Binary(_) => seq![],
    }
}

/// The texts of a sequence of parameters.
pub open spec fn param_texts(ps: Seq<SocketIoEventParameter>) -> Seq<Seq<char>> {
    ps.map_values(|p: SocketIoEventParameter| text_of(p))
}

/// Whether every parameter is a string.
pub fn params_all_text(parameters: &Vec<SocketIoEventParameter>) -> (r: bool)
    ensures
        r == all_text(parameters@),
{
    let mut i: usize = 0;
    while i < parameters.len()
        invariant
            i <= parameters@.len(),
            all_text(parameters@.take(i as int)),
        decreases parameters@.len() - i,
    {
        match &parameters[i] {
            SocketIoEventParameter::Binary(_) => {
                return false;
            },
            SocketIoEventParameter::String(_) => {},
        }
        proof {
            assert forall|j: int| 0 <= j < i + 1 implies (#[trigger] parameters@.take(i + 1)[j]) is String by {
                if j < i {
                    assert(parameters@.take(i + 1)[j] == parameters@.take(i as int)[j]);
                }
            }
        }
        i = i + 1;
    }
    proof {
        assert(parameters@.take(i as int) =~= parameters@);
    }
    true
}

/// Appends the array text of string parameters to `out`.
pub fn serialize_parameters(parameters: &Vec<SocketIoEventParameter>, out: &mut String)
    requires
        all_text(parameters@),
    ensures
        final(out)@ == old(out)@ + params_wire(param_texts(parameters@)),
{
    let ghost texts = param_texts(parameters@);
    let mut serializer = SocketIoDataSerializer::new();
    let mut i: usize = 0;
    while i < parameters.len()
        invariant
            i <= parameters@.len(),
            all_text(parameters@),
            texts == param_texts(parameters@),
            serializer@ == (i == 0, seq!['['] + join_quoted(texts.take(i as int))),
        decreases parameters@.len() - i,
    {
        let p = &parameters[i];
        proof {
            assert(parameters@[i as int] is String);
        }
        match p {
            SocketIoEventParameter::String(s) => {
                serializer.write_value(s);
            },
            SocketIoEventParameter::Binary(_) => {},
        }
        proof {
            let next = texts.take(i + 1);
            assert(next.drop_last() =~= texts.take(i as int));
            assert(next.last() == text_of(parameters@[i as int]));
            if i == 0 {
                assert(next.len() == 1);
            }
            assert(serializer@.1 =~= seq!['['] + join_quoted(next));
        }
        i = i + 1;
    }
    serializer.build_into(out);
    proof {
        assert(texts.take(i as int) =~= texts);
        assert(out@ =~= old(out)@ + params_wire(texts));
    }
}

} // verus!
