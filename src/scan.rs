use vstd::prelude::*;
use crate::grammar::{
    any_items, any_list, any_members, any_object, any_value, digits_end, is_digit, number_end,
    number_tail, pair_code, at, char_of, hex4, hex_val, is_ws, members, object, skip_ws, str_body, str_items, str_lit, str_list,
    unescape, value_at, FieldView,
};

verus! {

/// A field value read from the wire.
pub enum Field {
    Null,
    Text(Vec<char>),
    List(Vec<Vec<char>>),
    Other,
}

pub open spec fn texts(v: Seq<Vec<char>>) -> Seq<Seq<char>> {
    v.map_values(|x: Vec<char>| x@)
}

pub open spec fn members_view(v: Seq<(Vec<char>, Field)>) -> Seq<(Seq<char>, FieldView)> {
    v.map_values(|p: (Vec<char>, Field)| (p.0@, p.1@))
}

impl View for Field {
    type V = FieldView;

    open spec fn view(&self) -> FieldView {
        match self {
            Field::Null => FieldView::Null,
            Field::Text(t) => FieldView::Text(t@),
            Field::List(l) => FieldView::List(texts(l@)),
            Field::Other => FieldView::Other,
        }
    }
}

pub open spec fn text_result(r: Option<(Vec<char>, usize)>, t: Option<(Seq<char>, int)>) -> bool {
    match (r, t) {
        (Some((v, k)), Some((x, e))) => v@ == x && k as int == e,
        (None, None) => true,
        _ => false,
    }
}

pub open spec fn list_result(r: Option<(Vec<Vec<char>>, usize)>, t: Option<(Seq<Seq<char>>, int)>) -> bool {
    match (r, t) {
        (Some((v, k)), Some((x, e))) => texts(v@) == x && k as int == e,
        (None, None) => true,
        _ => false,
    }
}

pub open spec fn field_result(r: Option<(Field, usize)>, t: Option<(FieldView, int)>) -> bool {
    match (r, t) {
        (Some((v, k)), Some((x, e))) => v@ == x && k as int == e,
        (None, None) => true,
        _ => false,
    }
}

pub open spec fn members_result(
    r: Option<(Vec<(Vec<char>, Field)>, usize)>,
    t: Option<(Seq<(Seq<char>, FieldView)>, int)>,
) -> bool {
    match (r, t) {
        (Some((v, k)), Some((x, e))) => members_view(v@) == x && k as int == e,
        (None, None) => true,
        _ => false,
    }
}

fn is_ws_char(c: char) -> (r: bool)
    ensures
        r == is_ws(c),
{
    c == ' ' || c == '\t' || c == '\n' || c == '\r'
}

fn is_at(s: &Vec<char>, i: usize, c: char) -> (r: bool)
    ensures
        r == at(s@, i as int, c),
{
    i < s.len() && s[i] == c
}

fn skip_ws_at(s: &Vec<char>, i: usize) -> (r: usize)
    requires
        i <= s.len(),
    ensures
        r as int == skip_ws(s@, i as int),
        i <= r <= s.len(),
{
    let mut j = i;
    while j < s.len() && is_ws_char(s[j])
        invariant
            i <= j <= s.len(),
            skip_ws(s@, j as int) == skip_ws(s@, i as int),
        decreases s.len() - j,
    {
        j += 1;
    }
    j
}

fn hex_digit(c: char) -> (r: Option<u32>)
    ensures
        r == hex_val(c),
{
    let n = c as u32;
    if 48 <= n && n <= 57 {
        Some(n - 48)
    } else if 97 <= n && n <= 102 {
        Some(n - 87)
    } else if 65 <= n && n <= 70 {
        Some(n - 55)
    } else {
        None
    }
}

fn read_hex4(s: &Vec<char>, i: usize) -> (r: Option<u32>)
    ensures
        r == hex4(s@, i as int),
{
    if i > s.len() || s.len() - i < 4 {
        return None;
    }
    match (hex_digit(s[i]), hex_digit(s[i + 1]), hex_digit(s[i + 2]), hex_digit(s[i + 3])) {
        (Some(a), Some(b), Some(c), Some(d)) => Some(a * 4096 + b * 256 + c * 16 + d),
        _ => None,
    }
}

fn read_escape(s: &Vec<char>, i: usize) -> (r: Option<(char, usize)>)
    requires
        i <= s.len(),
    ensures
        match (r, unescape(s@, i as int)) {
            (Some((c, k)), Some((d, e))) => c == d && k as int == e,
            (None, None) => true,
            _ => false,
        },
{
    if i >= s.len() {
        return None;
    }
    let c = s[i];
    if c == '"' || c == '\\' || c == '/' {
        Some((c, i + 1))
    } else if c == 'b' {
        Some(('\u{8}', i + 1))
    } else if c == 'f' {
        Some(('\u{c}', i + 1))
    } else if c == 'n' {
        Some(('\n', i + 1))
    } else if c == 'r' {
        Some(('\r', i + 1))
    } else if c == 't' {
        Some(('\t', i + 1))
    } else if c == 'u' {
        match read_hex4(s, i + 1) {
            Some(n) if 0xD800 <= n && n < 0xDC00 => {
                if !(is_at(s, i + 5, '\\') && is_at(s, i + 6, 'u')) {
                    return None;
                }
                match read_hex4(s, i + 7) {
                    Some(m) if 0xDC00 <= m && m < 0xE000 => {
                        let code = 0x10000 + (n - 0xD800) * 1024 + (m - 0xDC00);
                        assert(code == pair_code(n, m));
                        match crate::text::char_from_code(code) {
                            Some(d) => {
                                assert(char_of(code) as u32 == code);
                                proof {
                                    crate::text::char_code_injective(char_of(code), d);
                                }
                                Some((d, i + 11))
                            },
                            None => None,
                        }
                    },
                    _ => None,
                }
            },
            Some(n) => match crate::text::char_from_code(n) {
                Some(d) => {
                    assert(d as u32 == n);
                    assert(char_of(n) as u32 == n);
                    proof {
                        crate::text::char_code_injective(char_of(n), d);
                    }
                    Some((d, i + 5))
                },
                None => None,
            },
            None => None,
        }
    } else {
        None
    }
}

/// Reads the string literal starting at `i`.
pub fn read_str(s: &Vec<char>, i: usize) -> (r: Option<(Vec<char>, usize)>)
    requires
        i <= s.len(),
    ensures
        text_result(r, str_lit(s@, i as int)),
        r matches Some((_, k)) ==> k <= s.len(),
{
    if !is_at(s, i, '"') {
        return None;
    }
    let mut acc: Vec<char> = Vec::new();
    let mut j = i + 1;
    loop
        invariant
            i < j <= s.len(),
            str_body(s@, j as int, acc@) == str_lit(s@, i as int),
        decreases s.len() - j,
    {
        if j >= s.len() {
            return None;
        }
        let c = s[j];
        if c == '"' {
            return Some((acc, j + 1));
        } else if c == '\\' {
            match read_escape(s, j + 1) {
                Some((d, k)) => {
                    if j < k && k <= s.len() {
                        acc.push(d);
                        j = k;
                    } else {
                        return None;
                    }
                },
                None => {
                    return None;
                },
            }
        } else if (c as u32) < 0x20 {
            return None;
        } else {
            acc.push(c);
            j += 1;
        }
    }
}

/// Reads the list of strings starting at `i`.
pub fn read_list(s: &Vec<char>, i: usize) -> (r: Option<(Vec<Vec<char>>, usize)>)
    requires
        i <= s.len(),
    ensures
        list_result(r, str_list(s@, i as int)),
        r matches Some((_, k)) ==> k <= s.len(),
{
    if !is_at(s, i, '[') {
        return None;
    }
    let a = skip_ws_at(s, i + 1);
    if is_at(s, a, ']') {
        let empty: Vec<Vec<char>> = Vec::new();
        assert(texts(empty@) =~= seq![]);
        return Some((empty, a + 1));
    }
    let mut acc: Vec<Vec<char>> = Vec::new();
    assert(texts(acc@) =~= seq![]);
    let mut j = a;
    loop
        invariant
            j <= s.len(),
            str_items(s@, j as int, texts(acc@)) == str_list(s@, i as int),
        decreases s.len() - j,
    {
        match read_str(s, j) {
            Some((x, e)) => {
                let m = skip_ws_at(s, e);
                assert(texts(acc@.push(x)) =~= texts(acc@).push(x@));
                if is_at(s, m, ',') {
                    let n = skip_ws_at(s, m + 1);
                    if j < n {
                        acc.push(x);
                        j = n;
                    } else {
                        return None;
                    }
                } else if is_at(s, m, ']') {
                    acc.push(x);
                    return Some((acc, m + 1));
                } else {
                    return None;
                }
            },
            None => {
                return None;
            },
        }
    }
}

/// Reads the field value starting at `i`.
pub fn read_value(s: &Vec<char>, i: usize) -> (r: Option<(Field, usize)>)
    requires
        i <= s.len(),
    ensures
        field_result(r, value_at(s@, i as int)),
        r matches Some((_, k)) ==> k <= s.len(),
{
    if is_at(s, i, 'n') && is_at(s, i + 1, 'u') && is_at(s, i + 2, 'l') && is_at(s, i + 3, 'l') {
        Some((Field::Null, i + 4))
    } else if is_at(s, i, '"') {
        match read_str(s, i) {
            Some((x, e)) => Some((Field::Text(x), e)),
            None => None,
        }
    } else {
        match read_list(s, i) {
            Some((x, e)) => Some((Field::List(x), e)),
            None => match skip_value(s, i) {
                Some(e) => Some((Field::Other, e)),
                None => None,
            },
        }
    }
}

pub open spec fn end_result(r: Option<usize>, t: Option<int>) -> bool {
    match (r, t) {
        (Some(k), Some(e)) => k as int == e,
        (None, None) => true,
        _ => false,
    }
}

fn digits_end_at(s: &Vec<char>, i: usize) -> (r: usize)
    requires
        i <= s.len(),
    ensures
        r as int == digits_end(s@, i as int),
        i <= r <= s.len(),
{
    let mut j = i;
    while j < s.len() && 48 <= (s[j] as u32) && (s[j] as u32) <= 57
        invariant
            i <= j <= s.len(),
            digits_end(s@, j as int) == digits_end(s@, i as int),
        decreases s.len() - j,
    {
        j += 1;
    }
    j
}

fn number_tail_at(s: &Vec<char>, j: usize) -> (r: Option<usize>)
    requires
        j <= s.len(),
    ensures
        end_result(r, number_tail(s@, j as int)),
        r matches Some(k) ==> k <= s.len(),
{
    let j2 = if is_at(s, j, '.') {
        let k = digits_end_at(s, j + 1);
        if k == j + 1 {
            return None;
        }
        k
    } else {
        j
    };
    if is_at(s, j2, 'e') || is_at(s, j2, 'E') {
        let j3 = if is_at(s, j2 + 1, '+') || is_at(s, j2 + 1, '-') {
            j2 + 2
        } else {
            j2 + 1
        };
        if j3 > s.len() {
            return None;
        }
        let k = digits_end_at(s, j3);
        if k == j3 {
            None
        } else {
            Some(k)
        }
    } else {
        Some(j2)
    }
}

fn number_at(s: &Vec<char>, i: usize) -> (r: Option<usize>)
    requires
        i <= s.len(),
    ensures
        end_result(r, number_end(s@, i as int)),
        r matches Some(k) ==> k <= s.len(),
{
    let j = if is_at(s, i, '-') {
        i + 1
    } else {
        i
    };
    if is_at(s, j, '0') {
        number_tail_at(s, j + 1)
    } else if j < s.len() && 48 <= (s[j] as u32) && (s[j] as u32) <= 57 {
        number_tail_at(s, digits_end_at(s, j))
    } else {
        None
    }
}

/// Skips any value starting at `i`; gives the position after it.
pub fn skip_value(s: &Vec<char>, i: usize) -> (r: Option<usize>)
    requires
        i <= s.len(),
    ensures
        end_result(r, any_value(s@, i as int)),
        r matches Some(k) ==> k <= s.len(),
    decreases s.len() - i, 1int,
{
    if is_at(s, i, '"') {
        match read_str(s, i) {
            Some((_, e)) => Some(e),
            None => None,
        }
    } else if is_at(s, i, '[') {
        skip_list(s, i)
    } else if is_at(s, i, '{') {
        skip_object(s, i)
    } else if (is_at(s, i, 't') && is_at(s, i + 1, 'r') && is_at(s, i + 2, 'u') && is_at(s, i + 3, 'e'))
        || (is_at(s, i, 'n') && is_at(s, i + 1, 'u') && is_at(s, i + 2, 'l') && is_at(s, i + 3, 'l')) {
        Some(i + 4)
    } else if is_at(s, i, 'f') && is_at(s, i + 1, 'a') && is_at(s, i + 2, 'l') && is_at(s, i + 3, 's')
        && is_at(s, i + 4, 'e') {
        Some(i + 5)
    } else {
        number_at(s, i)
    }
}

fn skip_list(s: &Vec<char>, i: usize) -> (r: Option<usize>)
    requires
        i <= s.len(),
    ensures
        end_result(r, any_list(s@, i as int)),
        r matches Some(k) ==> k <= s.len(),
    decreases s.len() - i, 0int,
{
    if !is_at(s, i, '[') {
        return None;
    }
    let a = skip_ws_at(s, i + 1);
    if is_at(s, a, ']') {
        return Some(a + 1);
    }
    let mut j = a;
    loop
        invariant
            i < j <= s.len(),
            any_items(s@, j as int) == any_list(s@, i as int),
        decreases s.len() - j,
    {
        let e = match skip_value(s, j) {
            Some(e) => e,
            None => {
                return None;
            },
        };
        let m = skip_ws_at(s, e);
        if is_at(s, m, ',') {
            let n = skip_ws_at(s, m + 1);
            if j < n {
                j = n;
            } else {
                return None;
            }
        } else if is_at(s, m, ']') {
            return Some(m + 1);
        } else {
            return None;
        }
    }
}

fn skip_object(s: &Vec<char>, i: usize) -> (r: Option<usize>)
    requires
        i <= s.len(),
    ensures
        end_result(r, any_object(s@, i as int)),
        r matches Some(k) ==> k <= s.len(),
    decreases s.len() - i, 0int,
{
    if !is_at(s, i, '{') {
        return None;
    }
    let b = skip_ws_at(s, i + 1);
    if is_at(s, b, '}') {
        return Some(b + 1);
    }
    let mut j = b;
    loop
        invariant
            i < j <= s.len(),
            any_members(s@, j as int) == any_object(s@, i as int),
        decreases s.len() - j,
    {
        let e = match read_str(s, j) {
            Some((_, e)) => e,
            None => {
                return None;
            },
        };
        let c = skip_ws_at(s, e);
        if !is_at(s, c, ':') {
            return None;
        }
        let v = skip_ws_at(s, c + 1);
        if !(j < v) {
            return None;
        }
        let e2 = match skip_value(s, v) {
            Some(e2) => e2,
            None => {
                return None;
            },
        };
        let m = skip_ws_at(s, e2);
        if is_at(s, m, ',') {
            let n = skip_ws_at(s, m + 1);
            if j < n {
                j = n;
            } else {
                return None;
            }
        } else if is_at(s, m, '}') {
            return Some(m + 1);
        } else {
            return None;
        }
    }
}

/// Reads the object that makes up the whole of `s`: its members, in order.
pub fn read_object(s: &Vec<char>) -> (r: Option<Vec<(Vec<char>, Field)>>)
    ensures
        match (r, object(s@)) {
            (Some(v), Some(f)) => members_view(v@) == f,
            (None, None) => true,
            _ => false,
        },
{
    let a = skip_ws_at(s, 0);
    if !is_at(s, a, '{') {
        return None;
    }
    let b = skip_ws_at(s, a + 1);
    let mut acc: Vec<(Vec<char>, Field)> = Vec::new();
    assert(members_view(acc@) =~= seq![]);
    if is_at(s, b, '}') {
        if skip_ws_at(s, b + 1) == s.len() {
            return Some(acc);
        } else {
            return None;
        }
    }
    let mut j = b;
    loop
        invariant
            j <= s.len(),
            !at(s@, b as int, '}'),
            b == skip_ws(s@, a + 1),
            a == skip_ws(s@, 0),
            at(s@, a as int, '{'),
            members(s@, j as int, members_view(acc@)) == members(s@, b as int, seq![]),
        decreases s.len() - j,
    {
        let (k, e) = match read_str(s, j) {
            Some(p) => p,
            None => {
                return None;
            },
        };
        let c = skip_ws_at(s, e);
        if !is_at(s, c, ':') {
            return None;
        }
        let d = skip_ws_at(s, c + 1);
        let (v, e2) = match read_value(s, d) {
            Some(p) => p,
            None => {
                return None;
            },
        };
        let m = skip_ws_at(s, e2);
        proof {
            let ghost kv = (k, v);
            assert(members_view(acc@.push(kv)) =~= members_view(acc@).push((k@, v@)));
        }
        if is_at(s, m, ',') {
            let n = skip_ws_at(s, m + 1);
            if j < n {
                acc.push((k, v));
                j = n;
            } else {
                return None;
            }
        } else if is_at(s, m, '}') {
            acc.push((k, v));
            if skip_ws_at(s, m + 1) == s.len() {
                return Some(acc);
            } else {
                return None;
            }
        } else {
            return None;
        }
    }
}

} // verus!
