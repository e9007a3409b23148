use vstd::prelude::*;
use vstd::string::{StrSliceExecFns, StringExecFns};
use vstd::utf8::encode_utf8;

use crate::text::{char_is_digit, chars_of, is_digit, push_char, push_str};

verus! {

/// The body of an older-style message frame: optional namespace, optional
/// ack id, and the raw data array.
#[derive(Debug, Clone, PartialEq, Eq)]
pub struct MySocketIoTextPayload {
    pub nsp: Option<String>,
    pub data: String,
    pub id: Option<String>,
}

/// The first index at or after `start` where `s` holds `c`.
pub open spec fn find_from(s: Seq<char>, start: int, c: char) -> Option<int>
    decreases s.len() - start,
{
    if start < 0 || start >= s.len() {
        None
    } else if s[start] == c {
        Some(start)
    } else {
        find_from(s, start + 1, c)
    }
}

/// The first index at or after `start` where `s` holds no digit.
pub open spec fn non_digit_from(s: Seq<char>, start: int) -> Option<int>
    decreases s.len() - start,
{
    if start < 0 || start >= s.len() {
        None
    } else if !is_digit(s[start]) {
        Some(start)
    } else {
        non_digit_from(s, start + 1)
    }
}

/// The namespace of a frame `s`: after a `/` at index 3, up to the next comma.
/// The outer `None` means that no comma closes it.
pub open spec fn nsp_of(s: Seq<char>) -> Option<Option<Seq<char>>> {
    if s.len() > 3 && s[3] == '/' {
        match find_from(s, 4, ',') {
            Some(end) => Some(Some(s.subrange(4, end))),
            None => None,
        }
    } else {
        Some(None)
    }
}

/// The ack id of a frame `s`: the digits from index 2 on. The outer `None`
/// means that they run to the end.
pub open spec fn id_of(s: Seq<char>) -> Option<Option<Seq<char>>> {
    if s.len() > 2 && is_digit(s[2]) {
        match non_digit_from(s, 2) {
            Some(end) => Some(Some(s.subrange(2, end))),
            None => None,
        }
    } else {
        Some(None)
    }
}

/// The payload of a whole frame `s` (two type digits first), if it has a data
/// array and its namespace and ack id are closed.
pub open spec fn parse_text_payload(s: Seq<char>) -> Option<
    (Option<Seq<char>>, Seq<char>, Option<Seq<char>>),
> {
    match (find_from(s, 2, '['), nsp_of(s), id_of(s)) {
        (Some(open), Some(nsp), Some(id)) => Some((nsp, s.skip(open), id)),
        _ => None,
    }
}

pub open spec fn opt_view(s: Option<String>) -> Option<Seq<char>> {
    match s {
        Some(s) => Some(s@),
        None => None,
    }
}

/// The wire text of a payload: namespace and comma, ack id, data.
pub open spec fn text_payload_text(
    nsp: Option<Seq<char>>,
    id: Option<Seq<char>>,
    data: Seq<char>,
) -> Seq<char> {
    (match nsp {
        Some(n) => n + seq![','],
        None => seq![],
    }) + (match id {
        Some(i) => i,
        None => seq![],
    }) + data
}

impl MySocketIoTextPayload {
    pub open spec fn text(&self) -> Seq<char> {
        text_payload_text(opt_view(self.nsp), opt_view(self.id), self.data@)
    }

    /// Reads the payload of a whole frame `src`, type digits included; `None`
    /// where it has no data array or an unclosed namespace or ack id.
    pub fn parse(src: &str) -> (r: Option<Self>)
        ensures
            match r {
                Some(p) => parse_text_payload(src@) == Some((opt_view(p.nsp), p.data@, opt_view(p.id))),
                None => parse_text_payload(src@) is None,
            },
    {
        let raw = chars_of(src);
        let open_array = match find(&raw, 2, '[') {
            Some(i) => i,
            None => {
                return None;
            },
        };
        let nsp = match extract_nsp(src, &raw) {
            Some(n) => n,
            None => {
                return None;
            },
        };
        let id = match extract_ack_id(src, &raw) {
            Some(i) => i,
            None => {
                return None;
            },
        };
        proof {
            lemma_find_from_bounds(raw@, 2, '[');
        }
        let data = src.substring_char(open_array, raw.len()).to_owned();
        proof {
            assert(src@.subrange(open_array as int, src@.len() as int) =~= src@.skip(open_array as int));
        }
        Some(Self { nsp, data, id })
    }

    /// Appends the payload's text to `out`.
    pub fn write_to(&self, out: &mut String)
        ensures
            final(out)@ == old(out)@ + self.text(),
    {
        if let Some(nsp) = &self.nsp {
            push_str(out, nsp.as_str());
            push_char(out, ',');
        }
        if let Some(id) = &self.id {
            push_str(out, id.as_str());
        }
        push_str(out, self.data.as_str());
        proof {
            assert(out@ =~= old(out)@ + self.text());
        }
    }

    /// Appends the UTF-8 bytes of the payload's text to `dest`.
    pub fn serialize(&self, dest: &mut Vec<u8>)
        ensures
            final(dest)@ == old(dest)@ + encode_utf8(self.text()),
    {
        let mut text = String::new();
        self.write_to(&mut text);
        let mut bytes = text.as_str().as_bytes_vec();
        dest.append(&mut bytes);
    }
}

/// The first index at or after `start` where `raw` holds `find_element`.
fn find(raw: &Vec<char>, start_pos: usize, find_element: char) -> (r: Option<usize>)
    ensures
        match r {
            Some(i) => find_from(raw@, start_pos as int, find_element) == Some(i as int),
            None => find_from(raw@, start_pos as int, find_element) is None,
        },
{
    let mut pos: usize = start_pos;
    while pos < raw.len()
        invariant
            start_pos <= pos,
            find_from(raw@, start_pos as int, find_element) == find_from(raw@, pos as int, find_element),
        decreases raw@.len() - pos,
    {
        if raw[pos] == find_element {
            return Some(pos);
        }
        pos = pos + 1;
    }
    None
}

fn extract_nsp(src: &str, raw: &Vec<char>) -> (r: Option<Option<String>>)
    requires
        raw@ == src@,
    ensures
        match r {
            Some(n) => nsp_of(src@) == Some(opt_view(n)),
            None => nsp_of(src@) is None,
        },
{
    if raw.len() <= 3 || raw[3] != '/' {
        return Some(None);
    }
    let end = match find(raw, 4, ',') {
        Some(end) => end,
        None => {
            return None;
        },
    };
    proof {
        lemma_find_from_bounds(raw@, 4, ',');
    }
    Some(Some(src.substring_char(4, end).to_owned()))
}

fn extract_ack_id(src: &str, raw: &Vec<char>) -> (r: Option<Option<String>>)
    requires
        raw@ == src@,
    ensures
        match r {
            Some(n) => id_of(src@) == Some(opt_view(n)),
            None => id_of(src@) is None,
        },
{
    if raw.len() <= 2 || !is_number(raw[2]) {
        return Some(None);
    }
    let mut i: usize = 2;
    while i < raw.len()
        invariant
            2 <= i <= raw@.len(),
            raw@ == src@,
            is_digit(raw@[2]),
            non_digit_from(raw@, 2) == non_digit_from(raw@, i as int),
        decreases raw@.len() - i,
    {
        if !is_number(raw[i]) {
            return Some(Some(src.substring_char(2, i).to_owned()));
        }
        i = i + 1;
    }
    None
}

fn is_number(c: char) -> (r: bool)
    ensures
        r == is_digit(c),
{
    char_is_digit(c)
}

proof fn lemma_find_from_bounds(s: Seq<char>, start: int, c: char)
    ensures
        find_from(s, start, c) matches Some(i) ==> start <= i < s.len(),
    decreases s.len() - start,
{
    if 0 <= start < s.len() && s[start] != c {
        lemma_find_from_bounds(s, start + 1, c);
    }
}

} // verus!
