use vstd::prelude::*;
use vstd::string::StrSliceExecFns;

use crate::error::SocketIoError;
use crate::text::{char_is_digit, chars_of, digit_value, digits_value, is_digit};

verus! {

/// A character at which a namespace ends.
pub open spec fn is_namespace_end(c: char) -> bool {
    c == ',' || c == '{' || c == '[' || is_digit(c)
}

/// The length of the namespace that `s` starts with.
pub open spec fn namespace_end(s: Seq<char>) -> nat
    decreases s.len(),
{
    if s.len() == 0 || is_namespace_end(s[0]) {
        0
    } else {
        1 + namespace_end(s.drop_first())
    }
}

/// The length of the run of decimal digits that `s` starts with.
pub open spec fn digit_run(s: Seq<char>) -> nat
    decreases s.len(),
{
    if s.len() == 0 || !is_digit(s[0]) {
        0
    } else {
        1 + digit_run(s.drop_first())
    }
}

/// The default namespace.
pub open spec fn default_namespace() -> Seq<char> {
    seq!['/']
}

/// What the header of a message says: its namespace, its ack id, and the
/// payload that follows them.
pub struct HeaderView {
    pub namespace: Seq<char>,
    pub ack: Option<nat>,
    pub data: Option<Seq<char>>,
}

/// The header grammar `[namespace][,][ack digits][payload]`, read from the
/// text that follows a message's type digit.
pub open spec fn parse_header(s: Seq<char>) -> HeaderView {
    let k = namespace_end(s);
    let namespace = if k == 0 {
        default_namespace()
    } else {
        s.take(k as int)
    };
    if k == s.len() {
        HeaderView { namespace, ack: None, data: None }
    } else {
        let rest = if s[k as int] == ',' {
            s.skip(k + 1 as int)
        } else {
            s.skip(k as int)
        };
        if rest.len() == 0 {
            HeaderView { namespace, ack: None, data: None }
        } else if is_digit(rest[0]) {
            let d = digit_run(rest);
            HeaderView {
                namespace,
                ack: Some(digits_value(rest.take(d as int))),
                data: Some(rest.skip(d as int)),
            }
        } else {
            HeaderView { namespace, ack: None, data: Some(rest) }
        }
    }
}

/// Whether the header's ack id, if any, fits in a `u64`.
pub open spec fn header_fits(h: HeaderView) -> bool {
    match h.ack {
        Some(n) => n <= u64::MAX,
        None => true,
    }
}

/// The parts of a message that follow its type digit.
pub struct SocketIoPayloadData<'s> {
    pub namespace: &'s str,
    pub data: Option<&'s str>,
    pub ack: Option<u64>,
}

impl<'s> SocketIoPayloadData<'s> {
    pub open spec fn namespace_view(&self) -> Seq<char> {
        self.namespace@
    }

    pub open spec fn data_view(&self) -> Option<Seq<char>> {
        match self.data {
            Some(d) => Some(d@),
            None => None,
        }
    }

    pub open spec fn ack_view(&self) -> Option<nat> {
        match self.ack {
            Some(a) => Some(a as nat),
            None => None,
        }
    }

    /// Whether this holds what the header of `s` says, ack id included.
    pub open spec fn is_header_of(&self, s: Seq<char>) -> bool {
        let h = parse_header(s);
        &&& self.namespace_view() == h.namespace
        &&& self.data_view() == h.data
        &&& self.ack_view() == h.ack
    }
}

/// The namespace ends within the text, at a character that ends it.
pub proof fn lemma_namespace_end_bound(s: Seq<char>)
    ensures
        namespace_end(s) <= s.len(),
        namespace_end(s) < s.len() ==> is_namespace_end(s[namespace_end(s) as int]),
        forall|j: int| 0 <= j < namespace_end(s) ==> !is_namespace_end(#[trigger] s[j]),
    decreases s.len(),
{
    if s.len() > 0 && !is_namespace_end(s[0]) {
        lemma_namespace_end_bound(s.drop_first());
        assert forall|j: int| 0 <= j < namespace_end(s) implies !is_namespace_end(#[trigger] s[j]) by {
            if j > 0 {
                assert(s[j] == s.drop_first()[j - 1]);
            }
        }
    }
}

/// The digit run ends within the text, at a character that is no digit.
pub proof fn lemma_digit_run_bound(s: Seq<char>)
    ensures
        digit_run(s) <= s.len(),
        digit_run(s) < s.len() ==> !is_digit(s[digit_run(s) as int]),
        forall|j: int| 0 <= j < digit_run(s) ==> is_digit(#[trigger] s[j]),
    decreases s.len(),
{
    if s.len() > 0 && is_digit(s[0]) {
        lemma_digit_run_bound(s.drop_first());
        assert forall|j: int| 0 <= j < digit_run(s) implies is_digit(#[trigger] s[j]) by {
            if j > 0 {
                assert(s[j] == s.drop_first()[j - 1]);
            }
        }
    }
}

/// Reading more digits never makes the value smaller.
proof fn lemma_digits_value_grows(s: Seq<char>, i: int, j: int)
    requires
        0 <= i <= j <= s.len(),
    ensures
        digits_value(s.take(i)) <= digits_value(s.take(j)),
    decreases j - i,
{
    if i < j {
        lemma_digits_value_grows(s, i, j - 1);
        assert(s.take(j).drop_last() =~= s.take(j - 1));
    }
}

/// The length of the namespace that `value` starts with: the index of the
/// first `,`, `{`, `[` or digit, or the length of `value`.
fn find_end_of_namespace(value: &[char]) -> (r: usize)
    ensures
        r == namespace_end(value@),
{
    let mut index: usize = 0;
    proof {
        assert(value@.skip(0) =~= value@);
    }
    while index < value.len()
        invariant
            index <= value@.len(),
            namespace_end(value@) == index + namespace_end(value@.skip(index as int)),
        decreases value@.len() - index,
    {
        let c = value[index];
        if c == ',' || c == '{' || c == '[' || char_is_digit(c) {
            return index;
        }
        proof {
            assert(value@.skip(index as int).drop_first() =~= value@.skip(index + 1));
        }
        index = index + 1;
    }
    index
}

/// The length of the digit run of `value` that starts at `start`.
fn find_end_of_ack_id(value: &[char], start: usize) -> (r: usize)
    requires
        start <= value@.len(),
    ensures
        r == start + digit_run(value@.skip(start as int)),
{
    let mut index: usize = start;
    while index < value.len()
        invariant
            start <= index <= value@.len(),
            start + digit_run(value@.skip(start as int)) == index + digit_run(
                value@.skip(index as int),
            ),
        decreases value@.len() - index,
    {
        if !char_is_digit(value[index]) {
            return index;
        }
        proof {
            assert(value@.skip(index as int).drop_first() =~= value@.skip(index + 1));
        }
        index = index + 1;
    }
    index
}

/// The value of the digits `value[from..to]`, or `None` where it exceeds `u64`.
fn parse_ack(value: &[char], from: usize, to: usize) -> (r: Option<u64>)
    requires
        from <= to <= value@.len(),
        forall|j: int| from <= j < to ==> is_digit(#[trigger] value@[j]),
    ensures
        match r {
            Some(n) => n as nat == digits_value(value@.subrange(from as int, to as int)),
            None => digits_value(value@.subrange(from as int, to as int)) > u64::MAX,
        },
{
    let ghost run = value@.subrange(from as int, to as int);
    let mut acc: u64 = 0;
    let mut i: usize = from;
    while i < to
        invariant
            from <= i <= to <= value@.len(),
            run == value@.subrange(from as int, to as int),
            forall|j: int| from <= j < to ==> is_digit(#[trigger] value@[j]),
            acc as nat == digits_value(run.take(i - from)),
        decreases to - i,
    {
        let c = value[i];
        let d: u64 = (c as u32 - 48) as u64;
        proof {
            assert(is_digit(value@[i as int]));
            assert(run.take(i - from + 1).drop_last() =~= run.take(i - from));
            assert(run.take(i - from + 1).last() == c);
            assert(d == digit_value(c));
        }
        if acc > (u64::MAX - d) / 10 {
            proof {
                assert(acc * 10 + d > u64::MAX) by (nonlinear_arith)
                    requires
                        acc > (u64::MAX - d) / 10,
                        d <= 9,
                ;
                lemma_digits_value_grows(run, i - from + 1, run.len() as int);
                assert(run.take(run.len() as int) =~= run);
            }
            return None;
        }
        proof {
            assert(acc * 10 + d <= u64::MAX) by (nonlinear_arith)
                requires
                    acc <= (u64::MAX - d) / 10,
                    d <= 9,
            ;
        }
        acc = acc * 10 + d;
        i = i + 1;
    }
    proof {
        assert(run.take(i - from) =~= run);
    }
    Some(acc)
}

/// Where the ack digits of `value` stand, as a range of character indices,
/// and the payload that follows them; `start` is the index after the
/// namespace and its comma.
fn get_ack_and_data<'s>(value: &'s str, chars: &Vec<char>, start: usize) -> (r: (
    Option<(usize, usize)>,
    Option<&'s str>,
))
    requires
        chars@ == value@,
        start < value@.len(),
    ensures
        ({
            let rest = value@.skip(start as int);
            let d = digit_run(rest);
            &&& is_digit(rest[0]) ==> r.0 == Some((start, (start + d) as usize))
            &&& !is_digit(rest[0]) ==> r.0 is None
            &&& r.1 is Some
            &&& r.1->0@ == rest.skip(d as int)
        }),
{
    if char_is_digit(chars[start]) {
        let index = find_end_of_ack_id(chars.as_slice(), start);
        proof {
            lemma_digit_run_bound(value@.skip(start as int));
        }
        let data = value.substring_char(index, chars.len());
        proof {
            assert(value@.skip(start as int).skip(index - start) =~= value@.subrange(
                index as int,
                value@.len() as int,
            ));
        }
        (Some((start, index)), Some(data))
    } else {
        let data = value.substring_char(start, chars.len());
        proof {
            assert(value@.skip(start as int) =~= value@.subrange(start as int, value@.len() as int));
            assert(digit_run(value@.skip(start as int)) == 0);
            assert(value@.skip(start as int).skip(0) =~= value@.skip(start as int));
        }
        (None, Some(data))
    }
}

/// Splits a header into its namespace, the character range of its ack
/// digits, and its payload.
fn read_name_space_and_data_position<'s>(value: &'s str, chars: &Vec<char>) -> (r: (
    &'s str,
    Option<(usize, usize)>,
    Option<&'s str>,
))
    requires
        chars@ == value@,
    ensures
        ({
            let h = parse_header(value@);
            &&& r.0@ == h.namespace
            &&& match r.2 {
                Some(d) => h.data == Some(d@),
                None => h.data is None,
            }
            &&& match r.1 {
                Some((a, b)) => {
                    &&& a <= b <= value@.len()
                    &&& forall|j: int| a <= j < b ==> is_digit(#[trigger] value@[j])
                    &&& h.ack == Some(digits_value(value@.subrange(a as int, b as int)))
                },
                None => h.ack is None,
            }
        }),
{
    proof {
        reveal_strlit("/");
        lemma_namespace_end_bound(value@);
    }
    let len = chars.len();
    if len == 0 {
        return ("/", None, None);
    }
    let index = find_end_of_namespace(chars.as_slice());
    let namespace = if index == 0 {
        "/"
    } else {
        value.substring_char(0, index)
    };
    if index == len {
        return (namespace, None, None);
    }
    let start = if chars[index] == ',' {
        index + 1
    } else {
        index
    };
    if start == len {
        return (namespace, None, None);
    }
    let (ack, data) = get_ack_and_data(value, chars, start);
    proof {
        let rest = value@.skip(start as int);
        lemma_digit_run_bound(rest);
        let d = digit_run(rest);
        assert(rest.take(d as int) =~= value@.subrange(start as int, start + d));
        assert forall|j: int| start <= j < start + d implies is_digit(#[trigger] value@[j]) by {
            assert(value@[j] == rest[j - start]);
        }
    }
    (namespace, ack, data)
}

/// The namespace and payload of a message whose ack id, if any, is not read.
pub fn deserialize_data(value: &str) -> (r: SocketIoPayloadData)
    ensures
        r.namespace_view() == parse_header(value@).namespace,
        r.data_view() == parse_header(value@).data,
        r.ack is None,
{
    let chars = chars_of(value);
    let (namespace, _, data) = read_name_space_and_data_position(value, &chars);
    SocketIoPayloadData { namespace, data, ack: None }
}

/// The namespace, ack id and payload of an event or acknowledgement; fails
/// with `MalformedHeader` where the ack id does not fit in a `u64`.
pub fn deserialize_event_data(value: &str) -> (r: Result<SocketIoPayloadData, SocketIoError>)
    ensures
        header_fits(parse_header(value@)) <==> r is Ok,
        r matches Ok(d) ==> d.is_header_of(value@),
        r matches Err(e) ==> e == SocketIoError::MalformedHeader,
{
    let chars = chars_of(value);
    let (namespace, ack_range, data) = read_name_space_and_data_position(value, &chars);
    let ack = match ack_range {
        Some((from, to)) => match parse_ack(chars.as_slice(), from, to) {
            Some(n) => Some(n),
            None => {
                return Err(SocketIoError::MalformedHeader);
            },
        },
        None => None,
    };
    Ok(SocketIoPayloadData { namespace, data, ack })
}

} // verus!
