use vstd::prelude::*;

use crate::payload_deserializer::{
    default_namespace, digit_run, is_namespace_end, lemma_namespace_end_bound, namespace_end,
    parse_header, HeaderView,
};
use crate::payload_serializer::{ack_wire, field_object, namespace_prefix};
use crate::socket_id_data_serializer::{escape, join_quoted, params_wire, quoted};
use crate::socket_io_message::{
    decode_message, message_wire, namespace_of, params_of, MessageView, SocketIoMessage,
};
use crate::socket_io_protocol::{decode_frame, frame_wire, FrameView, SocketIoProtocol};
use crate::socket_io_data::{
    initial_scan, scan_from, scan_step, text_params, tokenize, view_text, views_all_text,
    views_texts, ParameterView, TokenScan,
};
use crate::text::{decimal, digit_char, digit_value, digits_value, is_digit};

verus! {

/// The tokenizer state outside quotes, with the tokens `ts` read.
pub open spec fn outside(ts: Seq<Seq<char>>) -> TokenScan {
    TokenScan { tokens: ts, current: None, escaped: false }
}

/// Whether `s` holds no backslash.
pub open spec fn no_backslash(s: Seq<char>) -> bool {
    forall|i: int| 0 <= i < s.len() ==> s[i] != '\\'
}

proof fn lemma_scan_concat(st: TokenScan, a: Seq<char>, b: Seq<char>)
    ensures
        scan_from(st, a + b) == scan_from(scan_from(st, a), b),
    decreases b.len(),
{
    if b.len() == 0 {
        assert(a + b =~= a);
    } else {
        lemma_scan_concat(st, a, b.drop_last());
        assert((a + b).drop_last() =~= a + b.drop_last());
    }
}

proof fn lemma_scan_one(st: TokenScan, c: char)
    ensures
        scan_from(st, seq![c]) == scan_step(st, c),
{
    assert(seq![c].drop_last() =~= Seq::<char>::empty());
    reveal_with_fuel(scan_from, 2);
}

proof fn lemma_scan_escaped(tokens: Seq<Seq<char>>, cur: Seq<char>, p: Seq<char>)
    requires
        no_backslash(p),
    ensures
        scan_from((TokenScan { tokens, current: Some(cur), escaped: false }), escape(p))
            == (TokenScan { tokens, current: Some(cur + p), escaped: false }),
    decreases p.len(),
{
    let st = TokenScan { tokens, current: Some(cur), escaped: false };
    if p.len() == 0 {
        assert(cur + p =~= cur);
    } else {
        let q = p.drop_last();
        let x = p.last();
        assert(no_backslash(q));
        lemma_scan_escaped(tokens, cur, q);
        let e = if x == '"' { seq!['\\', '"'] } else { seq![x] };
        lemma_scan_concat(st, escape(q), e);
        let mid = TokenScan { tokens, current: Some(cur + q), escaped: false };
        if x == '"' {
            assert(seq!['\\', '"'] =~= seq!['\\'] + seq!['"']);
            lemma_scan_concat(mid, seq!['\\'], seq!['"']);
            lemma_scan_one(mid, '\\');
            lemma_scan_one(scan_step(mid, '\\'), '"');
        } else {
            lemma_scan_one(mid, x);
        }
        assert((cur + q).push(x) =~= cur + p);
    }
}

proof fn lemma_scan_quoted(ts: Seq<Seq<char>>, p: Seq<char>)
    requires
        no_backslash(p),
    ensures
        scan_from(outside(ts), quoted(p)) == outside(ts.push(p)),
{
    let open = TokenScan { tokens: ts, current: Some(seq![]), escaped: false };
    lemma_scan_one(outside(ts), '"');
    lemma_scan_one(TokenScan { tokens: ts, current: Some(p), escaped: false }, '"');
    lemma_scan_concat(outside(ts), seq!['"'], escape(p));
    lemma_scan_escaped(ts, seq![], p);
    assert(Seq::<char>::empty() + p =~= p);
    lemma_scan_concat(outside(ts), seq!['"'] + escape(p), seq!['"']);
    assert(quoted(p) == seq!['"'] + escape(p) + seq!['"']);
}

proof fn lemma_scan_structural(ts: Seq<Seq<char>>, c: char)
    requires
        c != '"',
    ensures
        scan_from(outside(ts), seq![c]) == outside(ts),
{
    lemma_scan_one(outside(ts), c);
}

proof fn lemma_scan_join(ts: Seq<Seq<char>>, ps: Seq<Seq<char>>)
    requires
        forall|i: int| 0 <= i < ps.len() ==> no_backslash(#[trigger] ps[i]),
    ensures
        scan_from(outside(ts), join_quoted(ps)) == outside(ts + ps),
    decreases ps.len(),
{
    if ps.len() == 0 {
        assert(ts + ps =~= ts);
    } else if ps.len() == 1 {
        lemma_scan_quoted(ts, ps[0]);
        assert(ts.push(ps[0]) =~= ts + ps);
    } else {
        let q = ps.drop_last();
        assert forall|i: int| 0 <= i < q.len() implies no_backslash(#[trigger] q[i]) by {
            assert(q[i] == ps[i]);
        }
        lemma_scan_join(ts, q);
        lemma_scan_concat(outside(ts), join_quoted(q), seq![',']);
        lemma_scan_structural(ts + q, ',');
        lemma_scan_concat(outside(ts), join_quoted(q) + seq![','], quoted(ps.last()));
        assert(no_backslash(ps[ps.len() - 1]));
        lemma_scan_quoted(ts + q, ps.last());
        assert((ts + q).push(ps.last()) =~= ts + ps);
    }
}

/// Tokenizing the array text of strings without backslashes gives back those
/// strings.
pub proof fn lemma_tokenize_params_wire(ps: Seq<Seq<char>>)
    requires
        forall|i: int| 0 <= i < ps.len() ==> no_backslash(#[trigger] ps[i]),
    ensures
        tokenize(params_wire(ps)) == ps,
{
    let empty = Seq::<Seq<char>>::empty();
    assert(initial_scan() == outside(empty));
    lemma_scan_structural(empty, '[');
    lemma_scan_concat(outside(empty), seq!['['], join_quoted(ps));
    lemma_scan_join(empty, ps);
    assert(empty + ps =~= ps);
    lemma_scan_concat(outside(empty), seq!['['] + join_quoted(ps), seq![']']);
    lemma_scan_structural(ps, ']');
}

proof fn lemma_escape_concat(a: Seq<char>, b: Seq<char>)
    ensures
        escape(a + b) == escape(a) + escape(b),
    decreases b.len(),
{
    if b.len() == 0 {
        assert(a + b =~= a);
        assert(escape(a) + escape(b) =~= escape(a));
    } else {
        lemma_escape_concat(a, b.drop_last());
        assert((a + b).drop_last() =~= a + b.drop_last());
        assert(escape(a + b) =~= escape(a) + escape(b));
    }
}

/// A double quote inside a string is written as `\"`, and the tokenizer
/// reads the written token back as the original string.
pub proof fn lemma_quote_escaping_round_trip(p: Seq<char>, i: int)
    requires
        no_backslash(p),
        0 <= i < p.len(),
        p[i] == '"',
    ensures
        escape(p) == escape(p.take(i)) + seq!['\\', '"'] + escape(p.skip(i + 1)),
        tokenize(quoted(p)) == seq![p],
{
    assert(p.take(i + 1).drop_last() =~= p.take(i));
    assert(escape(p.take(i + 1)) == escape(p.take(i)) + seq!['\\', '"']);
    lemma_escape_concat(p.take(i + 1), p.skip(i + 1));
    assert(p.take(i + 1) + p.skip(i + 1) =~= p);
    let empty = Seq::<Seq<char>>::empty();
    assert(initial_scan() == outside(empty));
    lemma_scan_quoted(empty, p);
    assert(empty.push(p) =~= seq![p]);
}

proof fn lemma_digit_char(d: nat)
    requires
        d < 10,
    ensures
        is_digit(digit_char(d)),
        digit_value(digit_char(d)) == d,
{
}

proof fn lemma_decimal(n: nat)
    ensures
        decimal(n).len() > 0,
        forall|i: int| 0 <= i < decimal(n).len() ==> is_digit(#[trigger] decimal(n)[i]),
        digits_value(decimal(n)) == n,
    decreases n,
{
    lemma_digit_char(n % 10);
    if n < 10 {
        reveal_with_fuel(digits_value, 2);
        assert(decimal(n).drop_last() =~= Seq::<char>::empty());
    } else {
        lemma_decimal(n / 10);
        assert(decimal(n).drop_last() =~= decimal(n / 10));
        assert(n == (n / 10) * 10 + n % 10) by (nonlinear_arith);
    }
}

proof fn lemma_digit_run_of(d: Seq<char>, rest: Seq<char>)
    requires
        forall|i: int| 0 <= i < d.len() ==> is_digit(#[trigger] d[i]),
        rest.len() == 0 || !is_digit(rest[0]),
    ensures
        digit_run(d + rest) == d.len(),
    decreases d.len(),
{
    if d.len() == 0 {
        assert(d + rest =~= rest);
    } else {
        let e = d.drop_first();
        assert forall|i: int| 0 <= i < e.len() implies is_digit(#[trigger] e[i]) by {
            assert(e[i] == d[i + 1]);
        }
        lemma_digit_run_of(e, rest);
        assert((d + rest).drop_first() =~= e + rest);
        assert(is_digit(d[0]));
    }
}

/// A namespace that survives a trip over the wire: non-empty, and free of the
/// characters that end a namespace (`,`, `{`, `[` and digits).
pub open spec fn valid_namespace(ns: Seq<char>) -> bool {
    &&& ns.len() > 0
    &&& forall|i: int| 0 <= i < ns.len() ==> !is_namespace_end(#[trigger] ns[i])
}

proof fn lemma_namespace_end_of(ns: Seq<char>, rest: Seq<char>)
    requires
        forall|i: int| 0 <= i < ns.len() ==> !is_namespace_end(#[trigger] ns[i]),
        rest.len() == 0 || is_namespace_end(rest[0]),
    ensures
        namespace_end(ns + rest) == ns.len(),
    decreases ns.len(),
{
    if ns.len() == 0 {
        assert(ns + rest =~= rest);
    } else {
        let e = ns.drop_first();
        assert forall|i: int| 0 <= i < e.len() implies !is_namespace_end(#[trigger] e[i]) by {
            assert(e[i] == ns[i + 1]);
        }
        lemma_namespace_end_of(e, rest);
        assert((ns + rest).drop_first() =~= e + rest);
        assert(!is_namespace_end(ns[0]));
    }
}

/// Reading the namespace prefix of `ns` off the front of `s`.
proof fn lemma_skip_namespace(ns: Seq<char>, t: Seq<char>)
    requires
        valid_namespace(ns),
        t.len() == 0 || is_namespace_end(t[0]),
        t.len() > 0 ==> t[0] != ',',
    ensures
        ({
            let s = namespace_prefix(ns) + t;
            let k = namespace_end(s);
            &&& (if k == 0 { default_namespace() } else { s.take(k as int) }) == ns
            &&& k == s.len() <==> t.len() == 0 && ns == default_namespace()
            &&& k < s.len() ==> (if s[k as int] == ',' { s.skip(k + 1 as int) } else { s.skip(k as int) }) == t
        }),
{
    let s = namespace_prefix(ns) + t;
    lemma_namespace_end_bound(s);
    if ns == default_namespace() {
        assert(s =~= t);
        if t.len() > 0 {
            assert(namespace_end(t) == 0);
            assert(t.skip(0) =~= t);
        }
    } else {
        assert(s =~= ns + (seq![','] + t));
        lemma_namespace_end_of(ns, seq![','] + t);
        assert(s.take(ns.len() as int) =~= ns);
        assert(s[ns.len() as int] == ',');
        assert(s.skip(ns.len() + 1 as int) =~= t);
    }
}

/// The header of a namespace prefix, an optional ack id and a payload that
/// opens with `[` or `{`.
proof fn lemma_header_with_body(ns: Seq<char>, ack: Option<nat>, body: Seq<char>)
    requires
        valid_namespace(ns),
        body.len() > 0,
        body[0] == '[' || body[0] == '{',
    ensures
        parse_header(namespace_prefix(ns) + ack_wire(ack) + body) == (HeaderView {
            namespace: ns,
            ack,
            data: Some(body),
        }),
{
    let t = ack_wire(ack) + body;
    match ack {
        Some(n) => {
            lemma_decimal(n);
            assert(t[0] == decimal(n)[0]);
            lemma_digit_run_of(decimal(n), body);
            assert(t.take(decimal(n).len() as int) =~= decimal(n));
            assert(t.skip(decimal(n).len() as int) =~= body);
        },
        None => {
            assert(t =~= body);
        },
    }
    lemma_skip_namespace(ns, t);
    let s = namespace_prefix(ns) + ack_wire(ack) + body;
    assert(s =~= namespace_prefix(ns) + t);
    lemma_namespace_end_bound(s);
}

/// The header of a bare namespace prefix.
proof fn lemma_header_bare(ns: Seq<char>)
    requires
        valid_namespace(ns),
    ensures
        parse_header(namespace_prefix(ns)) == (HeaderView { namespace: ns, ack: None, data: None }),
{
    let t = Seq::<char>::empty();
    lemma_skip_namespace(ns, t);
    let s = namespace_prefix(ns);
    assert(s + t =~= s);
    lemma_namespace_end_bound(s);
}

/// Whether the parameters are strings without backslashes.
pub open spec fn plain_text_params(ps: Seq<ParameterView>) -> bool {
    &&& views_all_text(ps)
    &&& forall|i: int| 0 <= i < ps.len() ==> no_backslash(#[trigger] view_text(ps[i]))
}

/// Whether a message is one that the round trip keeps: its namespace is
/// valid and its parameters, if any, are strings without backslashes.
pub open spec fn round_trip_message(m: MessageView) -> bool {
    &&& valid_namespace(namespace_of(m))
    &&& match m {
        MessageView::Event { parameters, .. } => plain_text_params(parameters),
        MessageView::Ack { parameters, .. } => plain_text_params(parameters),
        _ => true,
    }
}

/// The field value that the serialized form of `m` carries in its payload
/// object: what a JSON reader gives back for it.
pub open spec fn carried_field(m: MessageView) -> Option<Seq<char>> {
    match m {
        MessageView::Connect { sid, .. } => sid,
        MessageView::ConnectError { message, .. } => Some(message),
        _ => None,
    }
}

proof fn lemma_params_round_trip(ps: Seq<ParameterView>)
    requires
        plain_text_params(ps),
    ensures
        params_of(Some(params_wire(views_texts(ps)))) == ps,
{
    let ts = views_texts(ps);
    assert forall|i: int| 0 <= i < ts.len() implies no_backslash(#[trigger] ts[i]) by {
        assert(ts[i] == view_text(ps[i]));
    }
    lemma_tokenize_params_wire(ts);
    assert(text_params(ts) =~= ps) by {
        assert forall|i: int| 0 <= i < ps.len() implies text_params(ts)[i] == ps[i] by {
            assert(ps[i] is Text);
        }
    }
}

/// Decoding the wire text of a message gives the message back, where the
/// JSON reader reports the field that the text carries.
pub proof fn lemma_message_round_trip(m: SocketIoMessage)
    requires
        round_trip_message(m@),
    ensures
        decode_message(message_wire(m@), carried_field(m@)) == Ok::<MessageView, crate::error::SocketIoError>(m@),
{
    let v = m@;
    let w = message_wire(v);
    let ns = namespace_of(v);
    match v {
        MessageView::Connect { namespace, sid } => {
            match sid {
                Some(s) => {
                    let body = field_object("sid"@, s);
                    lemma_header_with_body(ns, None, body);
                    assert(w.drop_first() =~= namespace_prefix(ns) + ack_wire(None) + body);
                },
                None => {
                    lemma_header_bare(ns);
                    assert(w.drop_first() =~= namespace_prefix(ns));
                },
            }
        },
        MessageView::Disconnect { namespace } => {
            lemma_header_bare(ns);
            assert(w.drop_first() =~= namespace_prefix(ns));
        },
        MessageView::Event { namespace, parameters, ack } => {
            let body = params_wire(views_texts(parameters));
            lemma_header_with_body(ns, ack, body);
            assert(w.drop_first() =~= namespace_prefix(ns) + ack_wire(ack) + body);
            lemma_params_round_trip(parameters);
        },
        MessageView::Ack { namespace, parameters, ack } => {
            let body = params_wire(views_texts(parameters));
            lemma_header_with_body(ns, Some(ack), body);
            assert(w.drop_first() =~= namespace_prefix(ns) + ack_wire(Some(ack)) + body);
            lemma_params_round_trip(parameters);
        },
        MessageView::ConnectError { namespace, message } => {
            let body = field_object("message"@, message);
            lemma_header_with_body(ns, None, body);
            assert(w.drop_first() =~= namespace_prefix(ns) + ack_wire(None) + body);
        },
    }
}

/// Whether a frame is one that the round trip keeps: a message frame must
/// carry such a message.
pub open spec fn round_trip_frame(f: FrameView) -> bool {
    match f {
        FrameView::Message(m) => round_trip_message(m),
        _ => true,
    }
}

/// The field value that the serialized form of a frame carries.
pub open spec fn carried_frame_field(f: FrameView) -> Option<Seq<char>> {
    match f {
        FrameView::Message(m) => carried_field(m),
        _ => None,
    }
}

/// Decoding the wire text of a frame gives the frame back, where the JSON
/// reader reports the field that the text carries.
pub proof fn lemma_frame_round_trip(f: SocketIoProtocol)
    requires
        round_trip_frame(f@),
    ensures
        decode_frame(frame_wire(f@), carried_frame_field(f@)) == Ok::<FrameView, crate::error::SocketIoError>(f@),
{
    reveal_strlit("probe");
    match f {
        SocketIoProtocol::Message(m) => {
            lemma_message_round_trip(m);
            assert(frame_wire(f@).drop_first() =~= message_wire(m@));
        },
        _ => {},
    }
}

/// The type digit of a message.
pub open spec fn type_digit(m: MessageView) -> char {
    match m {
        MessageView::Connect { .. } => '0',
        MessageView::Disconnect { .. } => '1',
        MessageView::Event { .. } => '2',
        MessageView::Ack { .. } => '3',
        MessageView::ConnectError { .. } => '4',
    }
}

/// What follows the namespace on the wire: a payload object, or an ack id
/// and a parameter array, or nothing.
pub open spec fn message_tail(m: MessageView) -> Seq<char> {
    match m {
        MessageView::Connect { sid, .. } => match sid {
            Some(s) => field_object("sid"@, s),
            None => seq![],
        },
        MessageView::Disconnect { .. } => seq![],
        MessageView::Event { parameters, ack, .. } => ack_wire(ack) + params_wire(
            views_texts(parameters),
        ),
        MessageView::Ack { parameters, ack, .. } => ack_wire(Some(ack)) + params_wire(
            views_texts(parameters),
        ),
        MessageView::ConnectError { message, .. } => field_object("message"@, message),
    }
}

/// The default namespace never reaches the wire: the type digit is followed
/// directly by the rest of the message, which starts with neither `/` nor a
/// comma. Any other namespace stands right after the type digit, followed by
/// a comma.
pub proof fn lemma_namespace_elision(m: MessageView)
    ensures
        namespace_of(m) == default_namespace() ==> message_wire(m) == seq![type_digit(m)]
            + message_tail(m),
        namespace_of(m) != default_namespace() ==> message_wire(m) == seq![type_digit(m)]
            + namespace_of(m) + seq![','] + message_tail(m),
        message_tail(m).len() > 0 ==> message_tail(m)[0] != '/' && message_tail(m)[0] != ',',
{
    let ns = namespace_of(m);
    let t = message_tail(m);
    match m {
        MessageView::Event { ack, .. } => {
            if let Some(n) = ack {
                lemma_decimal(n);
                assert(t[0] == decimal(n)[0]);
            }
        },
        MessageView::Ack { ack, .. } => {
            lemma_decimal(ack);
            assert(t[0] == decimal(ack)[0]);
        },
        _ => {},
    }
    if ns == default_namespace() {
        assert(message_wire(m) =~= seq![type_digit(m)] + t);
    } else {
        assert(message_wire(m) =~= seq![type_digit(m)] + ns + seq![','] + t);
    }
}

} // verus!
