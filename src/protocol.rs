use vstd::prelude::*;

use crate::model::Request;

verus! {

/// The lower-case hexadecimal digit for a value below sixteen.
pub open spec fn hex_digit(d: nat) -> char {
    if d < 10 {
        ((d + 48) as u8) as char
    } else {
        ((d + 87) as u8) as char
    }
}

/// How one character stands inside a JSON string literal: a quote and a
/// backslash are escaped, the five control characters with a short form use it,
/// the other control characters are written `\u00xx`, and the rest stand as
/// they are.
pub open spec fn json_escaped(c: char) -> Seq<char> {
    if c == '"' {
        seq!['\\', '"']
    } else if c == '\\' {
        seq!['\\', '\\']
    } else if c == '\u{8}' {
        seq!['\\', 'b']
    } else if c == '\t' {
        seq!['\\', 't']
    } else if c == '\n' {
        seq!['\\', 'n']
    } else if c == '\u{c}' {
        seq!['\\', 'f']
    } else if c == '\r' {
        seq!['\\', 'r']
    } else if (c as u32) < 32 {
        seq!['\\', 'u', '0', '0', hex_digit((c as u32 / 16) as nat), hex_digit((c as u32 % 16) as nat)]
    } else {
        seq![c]
    }
}

/// The escaped characters of a text, in order.
pub open spec fn json_escaped_text(s: Seq<char>) -> Seq<char>
    decreases s.len(),
{
    if s.len() == 0 {
        Seq::empty()
    } else {
        json_escaped_text(s.drop_last()) + json_escaped(s.last())
    }
}

/// The JSON string literal for a text: the escaped text between double quotes.
pub open spec fn json_string_of(s: Seq<char>) -> Seq<char> {
    seq!['"'] + json_escaped_text(s) + seq!['"']
}

/// Relies on `serde_json::to_string` applied to a string slice: it writes the
/// text as a JSON string literal into a `Vec`, which cannot fail.
#[verifier::external_body]
fn json_string(s: &str) -> (r: String)
    ensures
        r@ == json_string_of(s@),
{
    serde_json::to_string(s).unwrap_or_default()
}

/// The topic that carries the trades of `symbol`.
pub open spec fn topic_of(symbol: Seq<char>) -> Seq<char> {
    "trade."@ + symbol
}

/// The JSON array items for a list of texts, separated by commas.
pub open spec fn json_items(args: Seq<Seq<char>>) -> Seq<char>
    decreases args.len(),
{
    if args.len() == 0 {
        Seq::empty()
    } else if args.len() == 1 {
        json_string_of(args[0])
    } else {
        json_items(args.drop_last()) + ","@ + json_string_of(args.last())
    }
}

/// The texts of a list of strings.
pub open spec fn texts_of(args: Seq<String>) -> Seq<Seq<char>> {
    args.map_values(|a: String| a@)
}

/// The compact JSON text of a request: `{"op":<op>,"args":[<args>]}`.
pub open spec fn request_json(op: Seq<char>, args: Seq<Seq<char>>) -> Seq<char> {
    "{\"op\":"@ + json_string_of(op) + ",\"args\":["@ + json_items(args) + "]}"@
}

/// The topic that carries the trades of `symbol`: `trade.<symbol>`.
pub fn subscription_topic(symbol: &str) -> (r: String)
    ensures
        r@ == topic_of(symbol@),
{
    let t = String::from_str("trade.");
    t.concat(symbol)
}

/// The request that subscribes to the trades of `symbol`.
pub fn subscription_request(symbol: &str) -> (r: Request)
    ensures
        r.op@ == "subscribe"@,
        texts_of(r.args@) == seq![topic_of(symbol@)],
{
    let mut args: Vec<String> = Vec::new();
    args.push(subscription_topic(symbol));
    let r = Request { op: String::from_str("subscribe"), args };
    assert(texts_of(r.args@) =~= seq![topic_of(symbol@)]);
    r
}

/// The JSON text of a request, as it is sent on the wire.
pub fn request_payload(req: &Request) -> (r: String)
    ensures
        r@ == request_json(req.op@, texts_of(req.args@)),
{
    let op = json_string(req.op.as_str());
    let mut out = String::from_str("{\"op\":");
    out.append(op.as_str());
    out.append(",\"args\":[");
    let ghost head = "{\"op\":"@ + json_string_of(req.op@) + ",\"args\":["@;
    let ghost a = texts_of(req.args@);
    let n = req.args.len();
    let mut i: usize = 0;
    while i < n
        invariant
            n == req.args@.len(),
            a == texts_of(req.args@),
            i <= n,
            out@ == head + json_items(a.take(i as int)),
        decreases n - i,
    {
        let item = json_string(req.args[i].as_str());
        proof {
            assert(a.take(i as int + 1).drop_last() =~= a.take(i as int));
            if i == 0 {
                assert(a.take(1) =~= seq![a[0]]);
            }
        }
        if i > 0 {
            out.append(",");
        }
        out.append(item.as_str());
        proof {
            if i == 0 {
                assert(json_items(a.take(0)) =~= Seq::<char>::empty());
                assert(out@ =~= head + json_items(a.take(1)));
            } else {
                assert(out@ =~= head + json_items(a.take(i as int + 1)));
            }
        }
        i = i + 1;
    }
    out.append("]}");
    assert(a.take(n as int) =~= a);
    assert(out@ =~= request_json(req.op@, a));
    out
}

/// The message that subscribes to the trades of `symbol`: the JSON text of
/// [`subscription_request`], `{"op":"subscribe","args":["trade.<symbol>"]}`.
pub fn subscription_payload(symbol: &str) -> (r: String)
    ensures
        r@ == request_json("subscribe"@, seq![topic_of(symbol@)]),
{
    let req = subscription_request(symbol);
    request_payload(&req)
}

} // verus!
