use vstd::prelude::*;
use crate::grammar::{lookup, object, FieldView};
use crate::scan::{members_view, read_object, texts, Field};
use crate::text::{from_chars, push_char, same_chars, to_chars};

verus! {

/// The kind of an envelope, as its type discriminant names it.
#[derive(PartialEq, Eq, Structural, Clone, Copy, Debug)]
pub enum MsgTypes {
    Users,
    Register,
    Message,
}

/// One structured message of the wire protocol.
#[derive(Clone, Debug)]
pub enum Envelope {
    /// The full list of users online now.
    Users(Vec<String>),
    /// A user announcing their name.
    Register(String),
    /// A chat line: sender and body.
    Message(String, String),
}

/// What an envelope means, over character sequences.
pub enum EnvelopeView {
    Users(Seq<Seq<char>>),
    Register(Seq<char>),
    Message(Seq<char>, Seq<char>),
}

/// Why a frame is not an envelope.
#[derive(PartialEq, Eq, Structural, Clone, Copy, Debug)]
pub enum DecodeError {
    /// The type discriminant is missing or names no known kind.
    UnknownType,
    /// The payload does not fit the kind that the discriminant names.
    MalformedPayload,
    /// The frame is not an object of the wire grammar.
    SyntaxError,
}

pub open spec fn strings(v: Seq<String>) -> Seq<Seq<char>> {
    v.map_values(|s: String| s@)
}

impl View for Envelope {
    type V = EnvelopeView;

    open spec fn view(&self) -> EnvelopeView {
        match self {
            Envelope::Users(v) => EnvelopeView::Users(strings(v@)),
            Envelope::Register(n) => EnvelopeView::Register(n@),
            Envelope::Message(f, b) => EnvelopeView::Message(f@, b@),
        }
    }
}

impl Envelope {
    /// The kind of this envelope.
    pub fn kind(&self) -> (r: MsgTypes)
        ensures
            r == kind_of(self@),
    {
        match self {
            Envelope::Users(_) => MsgTypes::Users,
            Envelope::Register(_) => MsgTypes::Register,
            Envelope::Message(_, _) => MsgTypes::Message,
        }
    }
}

pub open spec fn kind_of(e: EnvelopeView) -> MsgTypes {
    match e {
        EnvelopeView::Users(_) => MsgTypes::Users,
        EnvelopeView::Register(_) => MsgTypes::Register,
        EnvelopeView::Message(_, _) => MsgTypes::Message,
    }
}

pub open spec fn type_key() -> Seq<char> {
    seq!['m', 'e', 's', 's', 'a', 'g', 'e', 'T', 'y', 'p', 'e']
}

pub open spec fn data_key() -> Seq<char> {
    seq!['d', 'a', 't', 'a']
}

pub open spec fn array_key() -> Seq<char> {
    seq!['d', 'a', 't', 'a', 'A', 'r', 'r', 'a', 'y']
}

pub open spec fn tag_of(k: MsgTypes) -> Seq<char> {
    match k {
        MsgTypes::Users => seq!['u', 's', 'e', 'r', 's'],
        MsgTypes::Register => seq!['r', 'e', 'g', 'i', 's', 't', 'e', 'r'],
        MsgTypes::Message => seq!['m', 'e', 's', 's', 'a', 'g', 'e'],
    }
}

/// A field that is missing or null.
pub open spec fn absent(v: Option<FieldView>) -> bool {
    v is None || v == Some(FieldView::Null)
}

/// The envelope that the members of an object describe.
pub open spec fn interpret(f: Seq<(Seq<char>, FieldView)>) -> Result<EnvelopeView, DecodeError> {
    let data = lookup(f, data_key());
    let arr = lookup(f, array_key());
    match lookup(f, type_key()) {
        Some(FieldView::Text(t)) => if t == tag_of(MsgTypes::Users) {
            if !absent(data) {
                Err(DecodeError::MalformedPayload)
            } else {
                match arr {
                    Some(FieldView::List(a)) => Ok(EnvelopeView::Users(a)),
                    None | Some(FieldView::Null) => Ok(EnvelopeView::Users(seq![])),
                    _ => Err(DecodeError::MalformedPayload),
                }
            }
        } else if t == tag_of(MsgTypes::Register) {
            if !absent(arr) {
                Err(DecodeError::MalformedPayload)
            } else {
                match data {
                    Some(FieldView::Text(x)) => Ok(EnvelopeView::Register(x)),
                    _ => Err(DecodeError::MalformedPayload),
                }
            }
        } else if t == tag_of(MsgTypes::Message) {
            if !absent(data) {
                Err(DecodeError::MalformedPayload)
            } else {
                match arr {
                    Some(FieldView::List(a)) => if a.len() == 2 {
                        Ok(EnvelopeView::Message(a[0], a[1]))
                    } else {
                        Err(DecodeError::MalformedPayload)
                    },
                    _ => Err(DecodeError::MalformedPayload),
                }
            }
        } else {
            Err(DecodeError::UnknownType)
        },
        _ => Err(DecodeError::UnknownType),
    }
}

/// What a frame decodes to.
pub open spec fn decoded(s: Seq<char>) -> Result<EnvelopeView, DecodeError> {
    match object(s) {
        Some(f) => interpret(f),
        None => Err(DecodeError::SyntaxError),
    }
}

pub open spec fn decode_view(r: Result<Envelope, DecodeError>) -> Result<EnvelopeView, DecodeError> {
    match r {
        Ok(e) => Ok(e@),
        Err(x) => Err(x),
    }
}

fn find_member(f: &Vec<(Vec<char>, Field)>, key: &Vec<char>) -> (r: Option<usize>)
    ensures
        match lookup(members_view(f@), key@) {
            Some(v) => r matches Some(i) && i < f.len() && f@[i as int].1@ == v,
            None => r is None,
        },
{
    let ghost mv = members_view(f@);
    let mut i: usize = 0;
    assert(mv.skip(0) =~= mv);
    while i < f.len()
        invariant
            i <= f.len(),
            mv == members_view(f@),
            lookup(mv, key@) == lookup(mv.skip(i as int), key@),
        decreases f.len() - i,
    {
        assert(mv.skip(i as int)[0] == mv[i as int]);
        if same_chars(&f[i].0, key) {
            return Some(i);
        }
        assert(mv.skip(i as int).drop_first() =~= mv.skip(i + 1));
        i += 1;
    }
    assert(mv.skip(i as int) =~= seq![]);
    None
}

fn is_absent(f: &Vec<(Vec<char>, Field)>, i: Option<usize>) -> (r: bool)
    requires
        i matches Some(k) ==> k < f.len(),
    ensures
        r == (i is None || f@[i->0 as int].1@ == FieldView::Null),
{
    match i {
        None => true,
        Some(k) => match &f[k].1 {
            Field::Null => true,
            _ => false,
        },
    }
}

fn strings_of(l: &Vec<Vec<char>>) -> (r: Vec<String>)
    ensures
        strings(r@) == texts(l@),
{
    let mut out: Vec<String> = Vec::new();
    let mut i: usize = 0;
    while i < l.len()
        invariant
            i <= l.len(),
            strings(out@) == texts(l@.take(i as int)),
        decreases l.len() - i,
    {
        let s = from_chars(&l[i]);
        assert(strings(out@.push(s)) =~= strings(out@).push(s@));
        assert(texts(l@.take(i + 1)) =~= texts(l@.take(i as int)).push(l@[i as int]@));
        out.push(s);
        i += 1;
    }
    assert(l@.take(i as int) =~= l@);
    out
}

/// Decodes one text frame into an envelope.
pub fn decode(frame: &str) -> (r: Result<Envelope, DecodeError>)
    ensures
        decode_view(r) == decoded(frame@),
{
    let s = to_chars(frame);
    let f = match read_object(&s) {
        Some(f) => f,
        None => {
            return Err(DecodeError::SyntaxError);
        },
    };
    let ghost mv = members_view(f@);
    let tkey = to_chars("messageType");
    let dkey = to_chars("data");
    let akey = to_chars("dataArray");
    let users = to_chars("users");
    let register = to_chars("register");
    let message = to_chars("message");
    proof {
        reveal_strlit("messageType");
        reveal_strlit("data");
        reveal_strlit("dataArray");
        reveal_strlit("users");
        reveal_strlit("register");
        reveal_strlit("message");
        assert(tkey@ =~= type_key());
        assert(dkey@ =~= data_key());
        assert(akey@ =~= array_key());
        assert(users@ =~= tag_of(MsgTypes::Users));
        assert(register@ =~= tag_of(MsgTypes::Register));
        assert(message@ =~= tag_of(MsgTypes::Message));
    }
    let ti = find_member(&f, &tkey);
    let di = find_member(&f, &dkey);
    let ai = find_member(&f, &akey);
    let t = match ti {
        Some(k) => match &f[k].1 {
            Field::Text(t) => t,
            _ => {
                return Err(DecodeError::UnknownType);
            },
        },
        None => {
            return Err(DecodeError::UnknownType);
        },
    };
    if same_chars(t, &users) {
        if !is_absent(&f, di) {
            return Err(DecodeError::MalformedPayload);
        }
        match ai {
            Some(k) => match &f[k].1 {
                Field::List(a) => Ok(Envelope::Users(strings_of(a))),
                Field::Text(_) | Field::Other => Err(DecodeError::MalformedPayload),
                Field::Null => {
                    let v: Vec<String> = Vec::new();
                    assert(strings(v@) =~= seq![]);
                    Ok(Envelope::Users(v))
                },
            },
            None => {
                let v: Vec<String> = Vec::new();
                assert(strings(v@) =~= seq![]);
                Ok(Envelope::Users(v))
            },
        }
    } else if same_chars(t, &register) {
        if !is_absent(&f, ai) {
            return Err(DecodeError::MalformedPayload);
        }
        match di {
            Some(k) => match &f[k].1 {
                Field::Text(x) => Ok(Envelope::Register(from_chars(x))),
                _ => Err(DecodeError::MalformedPayload),
            },
            None => Err(DecodeError::MalformedPayload),
        }
    } else if same_chars(t, &message) {
        if !is_absent(&f, di) {
            return Err(DecodeError::MalformedPayload);
        }
        match ai {
            Some(k) => match &f[k].1 {
                Field::List(a) => if a.len() == 2 {
                    Ok(Envelope::Message(from_chars(&a[0]), from_chars(&a[1])))
                } else {
                    Err(DecodeError::MalformedPayload)
                },
                _ => Err(DecodeError::MalformedPayload),
            },
            None => Err(DecodeError::MalformedPayload),
        }
    } else {
        Err(DecodeError::UnknownType)
    }
}

pub open spec fn hex_char(d: u32) -> char {
    if d == 0 { '0' } else if d == 1 { '1' } else if d == 2 { '2' } else if d == 3 { '3' }
    else if d == 4 { '4' } else if d == 5 { '5' } else if d == 6 { '6' } else if d == 7 { '7' }
    else if d == 8 { '8' } else if d == 9 { '9' } else if d == 10 { 'a' } else if d == 11 { 'b' }
    else if d == 12 { 'c' } else if d == 13 { 'd' } else if d == 14 { 'e' } else { 'f' }
}

/// How one character of a string is written inside a literal.
pub open spec fn escape_char(c: char) -> Seq<char> {
    if c == '"' {
        seq!['\\', '"']
    } else if c == '\\' {
        seq!['\\', '\\']
    } else if c == '\n' {
        seq!['\\', 'n']
    } else if c == '\r' {
        seq!['\\', 'r']
    } else if c == '\t' {
        seq!['\\', 't']
    } else if c == '\u{8}' {
        seq!['\\', 'b']
    } else if c == '\u{c}' {
        seq!['\\', 'f']
    } else if (c as u32) < 0x20 {
        seq!['\\', 'u', '0', '0', hex_char((c as u32) / 16), hex_char((c as u32) % 16)]
    } else {
        seq![c]
    }
}

pub open spec fn escape(x: Seq<char>) -> Seq<char>
    decreases x.len(),
{
    if x.len() == 0 {
        seq![]
    } else {
        escape(x.drop_last()) + escape_char(x.last())
    }
}

/// A string literal holding `x`.
pub open spec fn quote(x: Seq<char>) -> Seq<char> {
    seq!['"'] + escape(x) + seq!['"']
}

/// The literals of a non-empty list, separated by commas.
pub open spec fn items(xs: Seq<Seq<char>>) -> Seq<char>
    decreases xs.len(),
{
    if xs.len() <= 1 {
        if xs.len() == 0 { seq![] } else { quote(xs[0]) }
    } else {
        items(xs.drop_last()) + seq![','] + quote(xs.last())
    }
}

/// A list of string literals.
pub open spec fn list_text(xs: Seq<Seq<char>>) -> Seq<char> {
    if xs.len() == 0 {
        seq!['[', ']']
    } else {
        seq!['['] + items(xs) + seq![']']
    }
}

/// The start of every encoded envelope, up to its payload member.
pub open spec fn head(k: MsgTypes, key: Seq<char>) -> Seq<char> {
    seq!['{'] + quote(type_key()) + seq![':'] + quote(tag_of(k)) + seq![','] + quote(key) + seq![':']
}

/// The frame that encodes an envelope.
pub open spec fn encoded(e: EnvelopeView) -> Seq<char> {
    match e {
        EnvelopeView::Users(ns) => head(MsgTypes::Users, array_key()) + list_text(ns) + seq!['}'],
        EnvelopeView::Register(n) => head(MsgTypes::Register, data_key()) + quote(n) + seq!['}'],
        EnvelopeView::Message(a, b) => head(MsgTypes::Message, array_key()) + list_text(seq![a, b])
            + seq!['}'],
    }
}

fn hex_char_of(d: u32) -> (r: char)
    ensures
        r == hex_char(d),
{
    if d == 0 { '0' } else if d == 1 { '1' } else if d == 2 { '2' } else if d == 3 { '3' }
    else if d == 4 { '4' } else if d == 5 { '5' } else if d == 6 { '6' } else if d == 7 { '7' }
    else if d == 8 { '8' } else if d == 9 { '9' } else if d == 10 { 'a' } else if d == 11 { 'b' }
    else if d == 12 { 'c' } else if d == 13 { 'd' } else if d == 14 { 'e' } else { 'f' }
}

fn push_escaped(out: &mut String, c: char)
    ensures
        final(out)@ == old(out)@ + escape_char(c),
{
    let ghost o = out@;
    if c == '"' || c == '\\' {
        push_char(out, '\\');
        push_char(out, c);
    } else if c == '\n' {
        push_char(out, '\\');
        push_char(out, 'n');
    } else if c == '\r' {
        push_char(out, '\\');
        push_char(out, 'r');
    } else if c == '\t' {
        push_char(out, '\\');
        push_char(out, 't');
    } else if c == '\u{8}' {
        push_char(out, '\\');
        push_char(out, 'b');
    } else if c == '\u{c}' {
        push_char(out, '\\');
        push_char(out, 'f');
    } else if (c as u32) < 0x20 {
        push_char(out, '\\');
        push_char(out, 'u');
        push_char(out, '0');
        push_char(out, '0');
        push_char(out, hex_char_of((c as u32) / 16));
        push_char(out, hex_char_of((c as u32) % 16));
    } else {
        push_char(out, c);
    }
    assert(out@ =~= o + escape_char(c));
}

fn push_quoted(out: &mut String, x: &str)
    ensures
        final(out)@ == old(out)@ + quote(x@),
{
    let v = to_chars(x);
    push_char(out, '"');
    let ghost start = out@;
    let mut i: usize = 0;
    while i < v.len()
        invariant
            i <= v.len(),
            out@ == start + escape(v@.take(i as int)),
        decreases v.len() - i,
    {
        push_escaped(out, v[i]);
        assert(v@.take(i + 1).drop_last() =~= v@.take(i as int));
        assert(start + escape(v@.take(i as int)) + escape_char(v@[i as int]) =~= start + escape(v@.take(i + 1)));
        i += 1;
    }
    assert(v@.take(i as int) =~= v@);
    push_char(out, '"');
    assert(out@ =~= old(out)@ + quote(x@));
}

fn push_list(out: &mut String, xs: &Vec<String>)
    ensures
        final(out)@ == old(out)@ + list_text(strings(xs@)),
{
    let ghost ss = strings(xs@);
    push_char(out, '[');
    let ghost start = out@;
    let mut i: usize = 0;
    while i < xs.len()
        invariant
            i <= xs.len(),
            ss == strings(xs@),
            out@ == start + items(ss.take(i as int)),
        decreases xs.len() - i,
    {
        if i > 0 {
            push_char(out, ',');
        }
        push_quoted(out, xs[i].as_str());
        assert(ss.take(i + 1).drop_last() =~= ss.take(i as int));
        assert(ss.take(i + 1).last() == xs@[i as int]@);
        assert(out@ =~= start + items(ss.take(i + 1)));
        i += 1;
    }
    assert(ss.take(i as int) =~= ss);
    push_char(out, ']');
    assert(out@ =~= old(out)@ + list_text(ss));
}

fn push_head(out: &mut String, k: MsgTypes, key: &str)
    requires
        key@ == array_key() || key@ == data_key(),
    ensures
        final(out)@ == old(out)@ + head(k, key@),
{
    let tag = match k {
        MsgTypes::Users => "users",
        MsgTypes::Register => "register",
        MsgTypes::Message => "message",
    };
    proof {
        reveal_strlit("messageType");
        reveal_strlit("users");
        reveal_strlit("register");
        reveal_strlit("message");
        assert("messageType"@ =~= type_key());
        assert(tag@ =~= tag_of(k));
    }
    push_char(out, '{');
    push_quoted(out, "messageType");
    push_char(out, ':');
    push_quoted(out, tag);
    push_char(out, ',');
    push_quoted(out, key);
    push_char(out, ':');
    assert(out@ =~= old(out)@ + head(k, key@));
}

/// Encodes an envelope as one text frame.
pub fn encode(e: &Envelope) -> (r: String)
    ensures
        r@ == encoded(e@),
{
    let mut out = String::new();
    proof {
        reveal_strlit("dataArray");
        reveal_strlit("data");
        assert("dataArray"@ =~= array_key());
        assert("data"@ =~= data_key());
    }
    match e {
        Envelope::Users(ns) => {
            push_head(&mut out, MsgTypes::Users, "dataArray");
            push_list(&mut out, ns);
        },
        Envelope::Register(n) => {
            push_head(&mut out, MsgTypes::Register, "data");
            push_quoted(&mut out, n.as_str());
        },
        Envelope::Message(a, b) => {
            push_head(&mut out, MsgTypes::Message, "dataArray");
            let pair = vec![a.clone(), b.clone()];
            assert(strings(pair@) =~= seq![a@, b@]);
            push_list(&mut out, &pair);
        },
    }
    push_char(&mut out, '}');
    assert(out@ =~= encoded(e@));
    out
}

} // verus!
