use vstd::prelude::*;

use crate::text::push_char;

verus! {

/// One element of an event or acknowledgement payload.
#[derive(Debug, Clone, PartialEq, Eq)]
pub enum SocketIoEventParameter {
    String(String),
    Binary(Vec<u8>),
}

/// The mathematical value of a parameter.
pub enum ParameterView {
    Text(Seq<char>),
    Bytes(Seq<u8>),
}

impl View for SocketIoEventParameter {
    type V = ParameterView;

    open spec fn view(&self) -> ParameterView {
        match self {
            SocketIoEventParameter::String(s) => ParameterView::Text(s@),
            SocketIoEventParameter::Binary(b) => ParameterView::Bytes(b@),
        }
    }
}

/// The views of a sequence of parameters.
pub open spec fn params_view(ps: Seq<SocketIoEventParameter>) -> Seq<ParameterView> {
    ps.map_values(|p: SocketIoEventParameter| p@)
}

/// Text parameters holding the given strings.
pub open spec fn text_params(ts: Seq<Seq<char>>) -> Seq<ParameterView> {
    ts.map_values(|t: Seq<char>| ParameterView::Text(t))
}

/// The text of a string parameter; a binary one has none.
pub open spec fn view_text(p: ParameterView) -> Seq<char> {
    match p {
        ParameterView::Text(t) => t,
        ParameterView::Bytes(_) => seq![],
    }
}

/// The texts of a sequence of parameters.
pub open spec fn views_texts(ps: Seq<ParameterView>) -> Seq<Seq<char>> {
    ps.map_values(|p: ParameterView| view_text(p))
}

/// Whether every parameter is a string.
pub open spec fn views_all_text(ps: Seq<ParameterView>) -> bool {
    forall|i: int| 0 <= i < ps.len() ==> (#[trigger] ps[i]) is Text
}

/// The state of the string-array tokenizer between two characters.
pub struct TokenScan {
    /// The tokens closed so far.
    pub tokens: Seq<Seq<char>>,
    /// The token being read, if the scan is inside quotes.
    pub current: Option<Seq<char>>,
    /// Whether the previous character was an unconsumed backslash.
    pub escaped: bool,
}

pub open spec fn initial_scan() -> TokenScan {
    TokenScan { tokens: seq![], current: None, escaped: false }
}

/// One character of the tokenizer: outside quotes only `"` matters; inside,
/// a backslash takes the next character literally and `"` closes the token.
pub open spec fn scan_step(st: TokenScan, c: char) -> TokenScan {
    match st.current {
        None => if c == '"' {
            TokenScan { tokens: st.tokens, current: Some(seq![]), escaped: false }
        } else {
            st
        },
        Some(cur) => if st.escaped {
            TokenScan { tokens: st.tokens, current: Some(cur.push(c)), escaped: false }
        } else if c == '\\' {
            TokenScan { tokens: st.tokens, current: Some(cur), escaped: true }
        } else if c == '"' {
            TokenScan { tokens: st.tokens.push(cur), current: None, escaped: false }
        } else {
            TokenScan { tokens: st.tokens, current: Some(cur.push(c)), escaped: false }
        },
    }
}

/// The tokenizer state after reading `s` from state `st`.
pub open spec fn scan_from(st: TokenScan, s: Seq<char>) -> TokenScan
    decreases s.len(),
{
    if s.len() == 0 {
        st
    } else {
        scan_step(scan_from(st, s.drop_last()), s.last())
    }
}

/// The quoted strings of `s`, unescaped, in order; an unterminated one is dropped.
pub open spec fn tokenize(s: Seq<char>) -> Seq<Seq<char>> {
    scan_from(initial_scan(), s).tokens
}

impl SocketIoEventParameter {
    pub open spec fn is_text(&self) -> bool {
        self is String
    }

    /// The text of a string parameter.
    pub fn unwrap_as_str(&self) -> (r: &str)
        requires
            self.is_text(),
        ensures
            self@ == ParameterView::Text(r@),
    {
        match self {
            SocketIoEventParameter::String(value) => value.as_str(),
            SocketIoEventParameter::Binary(_) => {
                proof {
                    assert(false);
                }
                ""
            },
        }
    }

    /// Extracts the quoted strings of a JSON-array-shaped text as string
    /// parameters. Everything outside quotes is structure and is skipped.
    pub fn parse(value: &str) -> (r: Vec<SocketIoEventParameter>)
        ensures
            params_view(r@) == text_params(tokenize(value@)),
    {
        let mut result: Vec<SocketIoEventParameter> = Vec::new();
        let mut in_token = false;
        let mut token = String::new();
        let mut escape_mode = false;
        for c in it: value.chars()
            invariant
                it.seq() == value@,
                ({
                    let st = scan_from(initial_scan(), value@.subrange(0, it.index() as int));
                    &&& params_view(result@) == text_params(st.tokens)
                    &&& st.current == (if in_token { Some(token@) } else { None::<Seq<char>> })
                    &&& st.escaped == escape_mode
                }),
        {
            let ghost prefix = value@.subrange(0, it.index() as int);
            let ghost before = scan_from(initial_scan(), prefix);
            if in_token {
                if escape_mode {
                    push_char(&mut token, c);
                    escape_mode = false;
                } else if c == '\\' {
                    escape_mode = true;
                } else if c == '"' {
                    let done = token;
                    token = String::new();
                    in_token = false;
                    proof {
                        let p = SocketIoEventParameter::String(done);
                        assert(params_view(result@.push(p)) =~= params_view(result@).push(p@));
                        assert(text_params(before.tokens.push(done@)) =~= text_params(
                            before.tokens,
                        ).push(ParameterView::Text(done@)));
                    }
                    result.push(SocketIoEventParameter::String(done));
                } else {
                    push_char(&mut token, c);
                }
            } else if c == '"' {
                in_token = true;
                token = String::new();
                escape_mode = false;
            }
            proof {
                assert(value@.subrange(0, it.index() + 1) =~= prefix.push(c));
                assert(prefix.push(c).drop_last() =~= prefix);
            }
        }
        proof {
            assert(value@.subrange(0, value@.len() as int) =~= value@);
        }
        result
    }
}

} // verus!
