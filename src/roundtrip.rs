use vstd::prelude::*;
use crate::codec::{
    array_key, data_key, decoded, encoded, escape, escape_char, head, hex_char, items, list_text,
    quote, tag_of, type_key, EnvelopeView, MsgTypes,
};
use crate::grammar::{
    char_of, hex4, hex_val, lookup, members, object, skip_ws, str_body, str_items, str_lit, str_list,
    unescape, value_at, FieldView,
};

verus! {

/// `t` stands in `s` from position `i` on.
pub open spec fn has_at(s: Seq<char>, i: int, t: Seq<char>) -> bool {
    0 <= i && i + t.len() <= s.len() && forall|k: int| 0 <= k < t.len() ==> s[i + k] == t[k]
}

proof fn lemma_split(s: Seq<char>, i: int, a: Seq<char>, b: Seq<char>)
    requires
        has_at(s, i, a + b),
    ensures
        has_at(s, i, a),
        has_at(s, i + a.len(), b),
{
    assert forall|k: int| 0 <= k < a.len() implies s[i + k] == a[k] by {
        assert((a + b)[k] == a[k]);
    }
    assert forall|k: int| 0 <= k < b.len() implies s[i + a.len() + k] == b[k] by {
        assert((a + b)[a.len() + k] == b[k]);
    }
}

proof fn lemma_at(s: Seq<char>, i: int, t: Seq<char>, k: int)
    requires
        has_at(s, i, t),
        0 <= k < t.len(),
    ensures
        s[i + k] == t[k],
{
}

proof fn lemma_hex(d: u32)
    requires
        d < 16,
    ensures
        hex_val(hex_char(d)) == Some(d),
{
}

proof fn lemma_escape_step(s: Seq<char>, i: int, acc: Seq<char>, c: char)
    requires
        has_at(s, i, escape_char(c)),
    ensures
        str_body(s, i, acc) == str_body(s, i + escape_char(c).len(), acc.push(c)),
{
    let e = escape_char(c);
    lemma_at(s, i, e, 0);
    if c == '"' || c == '\\' || c == '\n' || c == '\r' || c == '\t' || c == '\u{8}' || c == '\u{c}' {
        lemma_at(s, i, e, 1);
    } else if (c as u32) < 0x20 {
        let n = c as u32;
        lemma_at(s, i, e, 1);
        lemma_at(s, i, e, 2);
        lemma_at(s, i, e, 3);
        lemma_at(s, i, e, 4);
        lemma_at(s, i, e, 5);
        lemma_hex(n / 16);
        lemma_hex(n % 16);
        assert(hex_val('0') == Some(0u32));
        assert(hex4(s, i + 2) == Some(n));
        assert(char_of(n) as u32 == n);
        crate::text::char_code_injective(char_of(n), c);
        assert(unescape(s, i + 1) == Some((c, i + 6)));
    } else {
    }
}

proof fn lemma_escape_run(s: Seq<char>, i: int, acc: Seq<char>, x: Seq<char>)
    requires
        has_at(s, i, escape(x)),
    ensures
        str_body(s, i, acc) == str_body(s, i + escape(x).len(), acc + x),
    decreases x.len(),
{
    if x.len() == 0 {
        assert(acc + x =~= acc);
    } else {
        let y = x.drop_last();
        lemma_split(s, i, escape(y), escape_char(x.last()));
        lemma_escape_run(s, i, acc, y);
        lemma_escape_step(s, i + escape(y).len(), acc + y, x.last());
        assert((acc + y).push(x.last()) =~= acc + x);
    }
}

proof fn lemma_quote(s: Seq<char>, i: int, x: Seq<char>)
    requires
        has_at(s, i, quote(x)),
    ensures
        str_lit(s, i) == Some((x, i + quote(x).len())),
{
    lemma_split(s, i, seq!['"'] + escape(x), seq!['"']);
    lemma_split(s, i, seq!['"'], escape(x));
    lemma_at(s, i, seq!['"'], 0);
    lemma_escape_run(s, i + 1, seq![], x);
    assert(seq![] + x =~= x);
    lemma_at(s, i + 1 + escape(x).len(), seq!['"'], 0);
}

proof fn lemma_item_step(s: Seq<char>, i: int, acc: Seq<Seq<char>>, x: Seq<char>)
    requires
        has_at(s, i, quote(x) + seq![',']),
        i + quote(x).len() + 1 < s.len(),
        s[i + quote(x).len() + 1] == '"',
    ensures
        str_items(s, i, acc) == str_items(s, i + quote(x).len() + 1, acc.push(x)),
{
    lemma_split(s, i, quote(x), seq![',']);
    lemma_quote(s, i, x);
    lemma_at(s, i + quote(x).len(), seq![','], 0);
}

proof fn lemma_item_last(s: Seq<char>, i: int, acc: Seq<Seq<char>>, x: Seq<char>)
    requires
        has_at(s, i, quote(x) + seq![']']),
    ensures
        str_items(s, i, acc) == Some((acc.push(x), i + quote(x).len() + 1)),
{
    lemma_split(s, i, quote(x), seq![']']);
    lemma_quote(s, i, x);
    lemma_at(s, i + quote(x).len(), seq![']'], 0);
}

proof fn lemma_items_run(s: Seq<char>, i: int, acc: Seq<Seq<char>>, xs: Seq<Seq<char>>)
    requires
        xs.len() >= 1,
        has_at(s, i, items(xs) + seq![',']),
        i + items(xs).len() + 1 < s.len(),
        s[i + items(xs).len() + 1] == '"',
    ensures
        str_items(s, i, acc) == str_items(s, i + items(xs).len() + 1, acc + xs),
    decreases xs.len(),
{
    if xs.len() == 1 {
        assert(items(xs) == quote(xs[0]));
        lemma_item_step(s, i, acc, xs[0]);
        assert(acc.push(xs[0]) =~= acc + xs);
    } else {
        let ys = xs.drop_last();
        let y = xs.last();
        assert(items(xs) + seq![','] =~= (items(ys) + seq![',']) + (quote(y) + seq![',']));
        lemma_split(s, i, items(ys) + seq![','], quote(y) + seq![',']);
        lemma_at(s, i + items(ys).len() + 1, quote(y) + seq![','], 0);
        lemma_items_run(s, i, acc, ys);
        lemma_item_step(s, i + items(ys).len() + 1, acc + ys, y);
        assert((acc + ys).push(y) =~= acc + xs);
    }
}

proof fn lemma_list(s: Seq<char>, i: int, xs: Seq<Seq<char>>)
    requires
        has_at(s, i, list_text(xs)),
    ensures
        value_at(s, i) == Some((FieldView::List(xs), i + list_text(xs).len())),
{
    lemma_at(s, i, list_text(xs), 0);
    if xs.len() == 0 {
        lemma_at(s, i, list_text(xs), 1);
        assert(skip_ws(s, i + 1) == i + 1);
        assert(xs =~= seq![]);
        assert(str_list(s, i) == Some((xs, i + 2)));
    } else {
        assert(list_text(xs).len() == items(xs).len() + 2);
        assert(list_text(xs) =~= seq!['['] + (items(xs) + seq![']']));
        lemma_split(s, i, seq!['['], items(xs) + seq![']']);
        if xs.len() == 1 {
            assert(items(xs) == quote(xs[0]));
            lemma_item_last(s, i + 1, seq![], xs[0]);
        } else {
            let ys = xs.drop_last();
            let y = xs.last();
            assert(items(xs) + seq![']'] =~= (items(ys) + seq![',']) + (quote(y) + seq![']']));
            lemma_split(s, i + 1, items(ys) + seq![','], quote(y) + seq![']']);
            lemma_at(s, i + 1 + items(ys).len() + 1, quote(y) + seq![']'], 0);
            lemma_items_run(s, i + 1, seq![], ys);
            lemma_item_last(s, i + 1 + items(ys).len() + 1, seq![] + ys, y);
            assert((seq![] + ys).push(y) =~= xs);
        }
        assert(quote(xs[0])[0] == '"');
        assert(items(xs)[0] == '"') by {
            lemma_items_first(xs);
        }
        lemma_at(s, i + 1, items(xs) + seq![']'], 0);
        assert(skip_ws(s, i + 1) == i + 1);
        assert(str_list(s, i) == str_items(s, i + 1, seq![]));
        assert(str_items(s, i + 1, seq![]) == Some((xs, i + list_text(xs).len())));
    }
}

proof fn lemma_items_first(xs: Seq<Seq<char>>)
    requires
        xs.len() >= 1,
    ensures
        items(xs).len() >= 2,
        items(xs)[0] == '"',
    decreases xs.len(),
{
    if xs.len() > 1 {
        lemma_items_first(xs.drop_last());
    }
}

/// A sequence that holds no character that a literal escapes.
pub open spec fn plain(x: Seq<char>) -> bool {
    forall|k: int| 0 <= k < x.len() ==> x[k] != '"' && x[k] != '\\' && (x[k] as u32) >= 0x20
}

proof fn lemma_plain(x: Seq<char>)
    requires
        plain(x),
    ensures
        escape(x) == x,
    decreases x.len(),
{
    if x.len() > 0 {
        lemma_plain(x.drop_last());
        assert(escape(x) =~= x);
    }
}

proof fn lemma_keys()
    ensures
        escape(type_key()) == type_key(),
        escape(data_key()) == data_key(),
        escape(array_key()) == array_key(),
        escape(tag_of(MsgTypes::Users)) == tag_of(MsgTypes::Users),
        escape(tag_of(MsgTypes::Register)) == tag_of(MsgTypes::Register),
        escape(tag_of(MsgTypes::Message)) == tag_of(MsgTypes::Message),
{
    lemma_plain(type_key());
    lemma_plain(data_key());
    lemma_plain(array_key());
    lemma_plain(tag_of(MsgTypes::Users));
    lemma_plain(tag_of(MsgTypes::Register));
    lemma_plain(tag_of(MsgTypes::Message));
}

proof fn lemma_head(s: Seq<char>, k: MsgTypes, key: Seq<char>)
    requires
        has_at(s, 0, head(k, key)),
    ensures
        s[0] == '{',
        has_at(s, 1, quote(type_key())),
        s[1 + quote(type_key()).len() as int] == ':',
        has_at(s, 2 + quote(type_key()).len() as int, quote(tag_of(k))),
        s[(2 + quote(type_key()).len() + quote(tag_of(k)).len()) as int] == ',',
        has_at(s, (3 + quote(type_key()).len() + quote(tag_of(k)).len()) as int, quote(key)),
        s[(3 + quote(type_key()).len() + quote(tag_of(k)).len() + quote(key).len()) as int] == ':',
{
    let q1 = quote(type_key());
    let q2 = quote(tag_of(k));
    let q3 = quote(key);
    let a1 = seq!['{'] + q1;
    let a2 = a1 + seq![':'];
    let a3 = a2 + q2;
    let a4 = a3 + seq![','];
    let a5 = a4 + q3;
    assert(head(k, key) == a5 + seq![':']);
    lemma_split(s, 0, a5, seq![':']);
    lemma_split(s, 0, a4, q3);
    lemma_split(s, 0, a3, seq![',']);
    lemma_split(s, 0, a2, q2);
    lemma_split(s, 0, a1, seq![':']);
    lemma_split(s, 0, seq!['{'], q1);
    lemma_at(s, 0, seq!['{'], 0);
    lemma_at(s, a1.len() as int, seq![':'], 0);
    lemma_at(s, a3.len() as int, seq![','], 0);
    lemma_at(s, a5.len() as int, seq![':'], 0);
}

/// The members of an object of two members with no whitespace between tokens.
#[verifier::rlimit(50)]
proof fn lemma_members(
    s: Seq<char>,
    tag: Seq<char>,
    key: Seq<char>,
    val: FieldView,
    p2: int,
    p3: int,
    p4: int,
    m: int,
)
    requires
        1 < p2 < p3 < p4 < m,
        m + 1 == s.len(),
        s[0] == '{',
        s[1] == '"',
        str_lit(s, 1) == Some((type_key(), p2 - 1)),
        s[p2 - 1] == ':',
        s[p2] == '"',
        str_lit(s, p2) == Some((tag, p3 - 1)),
        s[p3 - 1] == ',',
        s[p3] == '"',
        str_lit(s, p3) == Some((key, p4 - 1)),
        s[p4 - 1] == ':',
        s[p4] == '"' || s[p4] == '[',
        value_at(s, p4) == Some((val, m)),
        s[m] == '}',
    ensures
        object(s) == Some(seq![(type_key(), FieldView::Text(tag)), (key, val)]),
{
    assert(skip_ws(s, p2 - 1) == p2 - 1);
    assert(skip_ws(s, p2) == p2);
    assert(value_at(s, p2) == Some((FieldView::Text(tag), p3 - 1)));
    assert(skip_ws(s, p3 - 1) == p3 - 1);
    assert(skip_ws(s, p3) == p3);
    assert(skip_ws(s, p4 - 1) == p4 - 1);
    assert(skip_ws(s, p4) == p4);
    assert(skip_ws(s, m) == m);
    assert(skip_ws(s, m + 1) == m + 1);
    let f1 = seq![(type_key(), FieldView::Text(tag))];
    assert(members(s, p3, f1) == Some((f1.push((key, val)), m + 1)));
    assert(seq![].push((type_key(), FieldView::Text(tag))) =~= f1);
    assert(members(s, 1, seq![]) == members(s, p3, f1));
    assert(skip_ws(s, 0) == 0);
    assert(skip_ws(s, 1) == 1);
    assert(f1.push((key, val)) =~= seq![(type_key(), FieldView::Text(tag)), (key, val)]);
}

/// The members of a frame made of `head(k, key)`, a value and the closing brace.
proof fn lemma_object(s: Seq<char>, k: MsgTypes, key: Seq<char>, v: Seq<char>, val: FieldView)
    requires
        key == array_key() || key == data_key(),
        v.len() > 0,
        v[0] == '"' || v[0] == '[',
        has_at(s, 0, head(k, key)),
        has_at(s, head(k, key).len() as int, v),
        s.len() == head(k, key).len() + v.len() + 1,
        s[s.len() - 1] == '}',
        value_at(s, head(k, key).len() as int) == Some((val, (head(k, key).len() + v.len()) as int)),
    ensures
        object(s) == Some(seq![(type_key(), FieldView::Text(tag_of(k))), (key, val)]),
{
    lemma_keys();
    let q1 = quote(type_key());
    let q2 = quote(tag_of(k));
    let q3 = quote(key);
    lemma_head(s, k, key);
    let p2: int = 2 + q1.len() as int;
    let p3: int = p2 + q2.len() + 1;
    let p4: int = p3 + q3.len() + 1;
    assert(head(k, key).len() == p4);
    lemma_at(s, p4, v, 0);
    lemma_quote(s, 1, type_key());
    lemma_quote(s, p2, tag_of(k));
    lemma_quote(s, p3, key);
    lemma_at(s, 1, q1, 0);
    lemma_at(s, p2, q2, 0);
    lemma_at(s, p3, q3, 0);
    lemma_members(s, tag_of(k), key, val, p2, p3, p4, (p4 + v.len()) as int);
}

#[verifier::rlimit(40)]
proof fn lemma_round_trip_users(ns: Seq<Seq<char>>)
    ensures
        object(encoded(EnvelopeView::Users(ns))) == Some(
            seq![(type_key(), FieldView::Text(tag_of(MsgTypes::Users))), (array_key(), FieldView::List(ns))],
        ),
{
    let s = encoded(EnvelopeView::Users(ns));
    let h = head(MsgTypes::Users, array_key());
    assert(has_at(s, 0, s));
    lemma_split(s, 0, h + list_text(ns), seq!['}']);
    lemma_split(s, 0, h, list_text(ns));
    lemma_at(s, (h.len() + list_text(ns).len()) as int, seq!['}'], 0);
    lemma_list(s, h.len() as int, ns);
    lemma_at(s, h.len() as int, list_text(ns), 0);
    lemma_object(s, MsgTypes::Users, array_key(), list_text(ns), FieldView::List(ns));
}

#[verifier::rlimit(40)]
proof fn lemma_round_trip_register(n: Seq<char>)
    ensures
        object(encoded(EnvelopeView::Register(n))) == Some(
            seq![(type_key(), FieldView::Text(tag_of(MsgTypes::Register))), (data_key(), FieldView::Text(n))],
        ),
{
    let s = encoded(EnvelopeView::Register(n));
    let h = head(MsgTypes::Register, data_key());
    assert(has_at(s, 0, s));
    lemma_split(s, 0, h + quote(n), seq!['}']);
    lemma_split(s, 0, h, quote(n));
    lemma_at(s, (h.len() + quote(n).len()) as int, seq!['}'], 0);
    lemma_quote(s, h.len() as int, n);
    lemma_at(s, h.len() as int, quote(n), 0);
    lemma_object(s, MsgTypes::Register, data_key(), quote(n), FieldView::Text(n));
}

#[verifier::rlimit(40)]
proof fn lemma_round_trip_message(a: Seq<char>, b: Seq<char>)
    ensures
        object(encoded(EnvelopeView::Message(a, b))) == Some(
            seq![(type_key(), FieldView::Text(tag_of(MsgTypes::Message))), (array_key(), FieldView::List(seq![a, b]))],
        ),
{
    let s = encoded(EnvelopeView::Message(a, b));
    let h = head(MsgTypes::Message, array_key());
    let l = list_text(seq![a, b]);
    assert(has_at(s, 0, s));
    lemma_split(s, 0, h + l, seq!['}']);
    lemma_split(s, 0, h, l);
    lemma_at(s, (h.len() + l.len()) as int, seq!['}'], 0);
    lemma_list(s, h.len() as int, seq![a, b]);
    lemma_at(s, h.len() as int, l, 0);
    lemma_object(s, MsgTypes::Message, array_key(), l, FieldView::List(seq![a, b]));
}

#[verifier::rlimit(40)]
proof fn lemma_decode_users(ns: Seq<Seq<char>>)
    ensures
        decoded(encoded(EnvelopeView::Users(ns))) == Ok::<EnvelopeView, crate::codec::DecodeError>(
            EnvelopeView::Users(ns),
        ),
{
    lemma_round_trip_users(ns);
    lemma_interpret(MsgTypes::Users, array_key(), FieldView::List(ns));
}

#[verifier::rlimit(40)]
proof fn lemma_decode_register(n: Seq<char>)
    ensures
        decoded(encoded(EnvelopeView::Register(n))) == Ok::<EnvelopeView, crate::codec::DecodeError>(
            EnvelopeView::Register(n),
        ),
{
    lemma_round_trip_register(n);
    lemma_interpret(MsgTypes::Register, data_key(), FieldView::Text(n));
}

#[verifier::rlimit(40)]
proof fn lemma_decode_message(a: Seq<char>, b: Seq<char>)
    ensures
        decoded(encoded(EnvelopeView::Message(a, b))) == Ok::<EnvelopeView, crate::codec::DecodeError>(
            EnvelopeView::Message(a, b),
        ),
{
    lemma_round_trip_message(a, b);
    lemma_interpret(MsgTypes::Message, array_key(), FieldView::List(seq![a, b]));
}

/// Decoding the frame that encodes an envelope gives that envelope back.
pub proof fn lemma_round_trip(e: EnvelopeView)
    ensures
        decoded(encoded(e)) == Ok::<EnvelopeView, crate::codec::DecodeError>(e),
{
    match e {
        EnvelopeView::Users(ns) => lemma_decode_users(ns),
        EnvelopeView::Register(n) => lemma_decode_register(n),
        EnvelopeView::Message(a, b) => lemma_decode_message(a, b),
    }
}

#[verifier::rlimit(40)]
proof fn lemma_interpret(k: MsgTypes, key: Seq<char>, val: FieldView)
    ensures
        lookup(seq![(type_key(), FieldView::Text(tag_of(k))), (key, val)], type_key())
            == Some(FieldView::Text(tag_of(k))),
        key == array_key() ==> lookup(seq![(type_key(), FieldView::Text(tag_of(k))), (key, val)], data_key()) is None,
        key == array_key() ==> lookup(seq![(type_key(), FieldView::Text(tag_of(k))), (key, val)], array_key()) == Some(val),
        key == data_key() ==> lookup(seq![(type_key(), FieldView::Text(tag_of(k))), (key, val)], array_key()) is None,
        key == data_key() ==> lookup(seq![(type_key(), FieldView::Text(tag_of(k))), (key, val)], data_key()) == Some(val),
        tag_of(MsgTypes::Users) != tag_of(MsgTypes::Register),
        tag_of(MsgTypes::Users) != tag_of(MsgTypes::Message),
        tag_of(MsgTypes::Register) != tag_of(MsgTypes::Message),
{
    let f = seq![(type_key(), FieldView::Text(tag_of(k))), (key, val)];
    assert(type_key().len() != data_key().len());
    assert(type_key().len() != array_key().len());
    assert(data_key().len() != array_key().len());
    assert(f.drop_first() =~= seq![(key, val)]);
    assert(f.drop_first().drop_first() =~= seq![]);
    assert(lookup(f.drop_first().drop_first(), data_key()) is None);
    assert(lookup(f.drop_first().drop_first(), array_key()) is None);
    assert(lookup(f.drop_first(), data_key()) == lookup(f.drop_first().drop_first(), data_key()) || key == data_key());
    assert(lookup(f.drop_first(), array_key()) == lookup(f.drop_first().drop_first(), array_key()) || key == array_key());
    assert(tag_of(MsgTypes::Users).len() != tag_of(MsgTypes::Register).len());
    assert(tag_of(MsgTypes::Users).len() != tag_of(MsgTypes::Message).len());
    assert(tag_of(MsgTypes::Register).len() != tag_of(MsgTypes::Message).len());
}

} // verus!
