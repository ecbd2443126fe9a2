use vstd::prelude::*;

verus! {

/// A value that an envelope field may hold on the wire.
pub enum FieldView {
    Null,
    Text(Seq<char>),
    List(Seq<Seq<char>>),
    /// Any other value: a number, `true`, `false`, an object, or a list that
    /// holds something other than strings.
    Other,
}

/// Insignificant whitespace between tokens.
pub open spec fn is_ws(c: char) -> bool {
    c == ' ' || c == '\t' || c == '\n' || c == '\r'
}

pub open spec fn at(s: Seq<char>, i: int, c: char) -> bool {
    0 <= i < s.len() && s[i] == c
}

/// The first position at or after `i` that holds no whitespace.
pub open spec fn skip_ws(s: Seq<char>, i: int) -> int
    decreases s.len() - i,
{
    if 0 <= i < s.len() && is_ws(s[i]) {
        skip_ws(s, i + 1)
    } else {
        i
    }
}

pub open spec fn hex_val(c: char) -> Option<u32> {
    let n = c as u32;
    if 48 <= n <= 57 {
        Some((n - 48) as u32)
    } else if 97 <= n <= 102 {
        Some((n - 87) as u32)
    } else if 65 <= n <= 70 {
        Some((n - 55) as u32)
    } else {
        None
    }
}

/// Four hexadecimal digits starting at `i`, as a number.
pub open spec fn hex4(s: Seq<char>, i: int) -> Option<u32> {
    if 0 <= i && i + 4 <= s.len() {
        match (hex_val(s[i]), hex_val(s[i + 1]), hex_val(s[i + 2]), hex_val(s[i + 3])) {
            (Some(a), Some(b), Some(c), Some(d)) => Some((a * 4096 + b * 256 + c * 16 + d) as u32),
            _ => None,
        }
    } else {
        None
    }
}

pub open spec fn is_scalar(n: u32) -> bool {
    n < 0xD800 || (0xE000 <= n && n <= 0x10FFFF)
}

pub open spec fn char_of(n: u32) -> char {
    choose|c: char| #[trigger] (c as u32) == n
}

/// The code that a surrogate pair stands for.
pub open spec fn pair_code(hi: u32, lo: u32) -> u32 {
    (0x10000 + (hi - 0xD800) * 1024 + (lo - 0xDC00)) as u32
}

/// The character that the escape sequence whose letter stands at `i` denotes,
/// and the position after the sequence.
pub open spec fn unescape(s: Seq<char>, i: int) -> Option<(char, int)> {
    if !(0 <= i < s.len()) {
        None
    } else {
        let c = s[i];
        if c == '"' || c == '\\' || c == '/' {
            Some((c, i + 1))
        } else if c == 'b' {
            Some(('\u{8}', i + 1))
        } else if c == 'f' {
            Some(('\u{c}', i + 1))
        } else if c == 'n' {
            Some(('\n', i + 1))
        } else if c == 'r' {
            Some(('\r', i + 1))
        } else if c == 't' {
            Some(('\t', i + 1))
        } else if c == 'u' {
            match hex4(s, i + 1) {
                Some(n) => if 0xD800 <= n && n < 0xDC00 {
                    if at(s, i + 5, '\\') && at(s, i + 6, 'u') {
                        match hex4(s, i + 7) {
                            Some(m) => if 0xDC00 <= m && m < 0xE000 {
                                Some((char_of(pair_code(n, m)), i + 11))
                            } else {
                                None
                            },
                            None => None,
                        }
                    } else {
                        None
                    }
                } else if is_scalar(n) {
                    Some((char_of(n), i + 5))
                } else {
                    None
                },
                None => None,
            }
        } else {
            None
        }
    }
}

/// The rest of a string literal from `i` on, after `acc` was read: its text and
/// the position after the closing quote.
pub open spec fn str_body(s: Seq<char>, i: int, acc: Seq<char>) -> Option<(Seq<char>, int)>
    decreases s.len() - i,
{
    if !(0 <= i < s.len()) {
        None
    } else if s[i] == '"' {
        Some((acc, i + 1))
    } else if s[i] == '\\' {
        match unescape(s, i + 1) {
            Some((c, j)) => if i < j <= s.len() {
                str_body(s, j, acc.push(c))
            } else {
                None
            },
            None => None,
        }
    } else if (s[i] as u32) < 0x20 {
        None
    } else {
        str_body(s, i + 1, acc.push(s[i]))
    }
}

/// A string literal starting at `i`.
pub open spec fn str_lit(s: Seq<char>, i: int) -> Option<(Seq<char>, int)> {
    if at(s, i, '"') {
        str_body(s, i + 1, seq![])
    } else {
        None
    }
}

/// The items of a list of strings from `i` on, after `acc` was read.
pub open spec fn str_items(s: Seq<char>, i: int, acc: Seq<Seq<char>>) -> Option<(Seq<Seq<char>>, int)>
    decreases s.len() - i,
{
    match str_lit(s, i) {
        Some((x, e)) => {
            let m = skip_ws(s, e);
            if at(s, m, ',') {
                let n = skip_ws(s, m + 1);
                if i < n <= s.len() {
                    str_items(s, n, acc.push(x))
                } else {
                    None
                }
            } else if at(s, m, ']') {
                Some((acc.push(x), m + 1))
            } else {
                None
            }
        },
        None => None,
    }
}

/// A list of strings starting at `i`.
pub open spec fn str_list(s: Seq<char>, i: int) -> Option<(Seq<Seq<char>>, int)> {
    if at(s, i, '[') {
        let a = skip_ws(s, i + 1);
        if at(s, a, ']') {
            Some((seq![], a + 1))
        } else {
            str_items(s, a, seq![])
        }
    } else {
        None
    }
}

pub open spec fn is_digit(c: char) -> bool {
    48 <= (c as u32) <= 57
}

/// The first position at or after `i` that holds no digit.
pub open spec fn digits_end(s: Seq<char>, i: int) -> int
    decreases s.len() - i,
{
    if 0 <= i < s.len() && is_digit(s[i]) {
        digits_end(s, i + 1)
    } else {
        i
    }
}

/// The end of the fraction and exponent parts of a number from `j` on.
pub open spec fn number_tail(s: Seq<char>, j: int) -> Option<int> {
    let f = if at(s, j, '.') {
        let k = digits_end(s, j + 1);
        if k == j + 1 {
            None
        } else {
            Some(k)
        }
    } else {
        Some(j)
    };
    match f {
        Some(j2) => if at(s, j2, 'e') || at(s, j2, 'E') {
            let j3 = if at(s, j2 + 1, '+') || at(s, j2 + 1, '-') {
                j2 + 2
            } else {
                j2 + 1
            };
            let k = digits_end(s, j3);
            if k == j3 {
                None
            } else {
                Some(k)
            }
        } else {
            Some(j2)
        },
        None => None,
    }
}

/// The end of a number starting at `i`.
pub open spec fn number_end(s: Seq<char>, i: int) -> Option<int> {
    let j = if at(s, i, '-') {
        i + 1
    } else {
        i
    };
    if at(s, j, '0') {
        number_tail(s, j + 1)
    } else if 0 <= j < s.len() && is_digit(s[j]) {
        number_tail(s, digits_end(s, j))
    } else {
        None
    }
}

/// The end of any value starting at `i`.
pub open spec fn any_value(s: Seq<char>, i: int) -> Option<int>
    decreases s.len() - i, 1int,
{
    if at(s, i, '"') {
        match str_lit(s, i) {
            Some((_, e)) => Some(e),
            None => None,
        }
    } else if at(s, i, '[') {
        any_list(s, i)
    } else if at(s, i, '{') {
        any_object(s, i)
    } else if (at(s, i, 't') && at(s, i + 1, 'r') && at(s, i + 2, 'u') && at(s, i + 3, 'e')) || (at(
        s,
        i,
        'n',
    ) && at(s, i + 1, 'u') && at(s, i + 2, 'l') && at(s, i + 3, 'l')) {
        Some(i + 4)
    } else if at(s, i, 'f') && at(s, i + 1, 'a') && at(s, i + 2, 'l') && at(s, i + 3, 's') && at(
        s,
        i + 4,
        'e',
    ) {
        Some(i + 5)
    } else {
        number_end(s, i)
    }
}

/// The end of any list starting at `i`.
pub open spec fn any_list(s: Seq<char>, i: int) -> Option<int>
    decreases s.len() - i, 0int,
{
    if at(s, i, '[') {
        let a = skip_ws(s, i + 1);
        if at(s, a, ']') {
            Some(a + 1)
        } else if i < a <= s.len() {
            any_items(s, a)
        } else {
            None
        }
    } else {
        None
    }
}

/// The end of the items of a list from `i` on.
pub open spec fn any_items(s: Seq<char>, i: int) -> Option<int>
    decreases s.len() - i, 2int,
{
    match any_value(s, i) {
        Some(e) => {
            let m = skip_ws(s, e);
            if at(s, m, ',') {
                let n = skip_ws(s, m + 1);
                if i < n <= s.len() {
                    any_items(s, n)
                } else {
                    None
                }
            } else if at(s, m, ']') {
                Some(m + 1)
            } else {
                None
            }
        },
        None => None,
    }
}

/// The end of any object starting at `i`.
pub open spec fn any_object(s: Seq<char>, i: int) -> Option<int>
    decreases s.len() - i, 0int,
{
    if at(s, i, '{') {
        let b = skip_ws(s, i + 1);
        if at(s, b, '}') {
            Some(b + 1)
        } else if i < b <= s.len() {
            any_members(s, b)
        } else {
            None
        }
    } else {
        None
    }
}

/// The end of the members of an object from `i` on.
pub open spec fn any_members(s: Seq<char>, i: int) -> Option<int>
    decreases s.len() - i, 2int,
{
    match str_lit(s, i) {
        Some((_, e)) => {
            let j = skip_ws(s, e);
            if at(s, j, ':') {
                let v = skip_ws(s, j + 1);
                if i < v <= s.len() {
                    match any_value(s, v) {
                        Some(e2) => {
                            let m = skip_ws(s, e2);
                            if at(s, m, ',') {
                                let n = skip_ws(s, m + 1);
                                if i < n <= s.len() {
                                    any_members(s, n)
                                } else {
                                    None
                                }
                            } else if at(s, m, '}') {
                                Some(m + 1)
                            } else {
                                None
                            }
                        },
                        None => None,
                    }
                } else {
                    None
                }
            } else {
                None
            }
        },
        None => None,
    }
}

/// A field value starting at `i`: `null`, a string and a list of strings are
/// told apart, any other value is `Other`.
pub open spec fn value_at(s: Seq<char>, i: int) -> Option<(FieldView, int)> {
    if at(s, i, 'n') && at(s, i + 1, 'u') && at(s, i + 2, 'l') && at(s, i + 3, 'l') {
        Some((FieldView::Null, i + 4))
    } else if at(s, i, '"') {
        match str_lit(s, i) {
            Some((x, e)) => Some((FieldView::Text(x), e)),
            None => None,
        }
    } else {
        match str_list(s, i) {
            Some((x, e)) => Some((FieldView::List(x), e)),
            None => match any_value(s, i) {
                Some(e) => Some((FieldView::Other, e)),
                None => None,
            },
        }
    }
}

/// The members of an object from `i` on, after `acc` was read.
pub open spec fn members(s: Seq<char>, i: int, acc: Seq<(Seq<char>, FieldView)>) -> Option<
    (Seq<(Seq<char>, FieldView)>, int),
>
    decreases s.len() - i,
{
    match str_lit(s, i) {
        Some((k, e)) => {
            let j = skip_ws(s, e);
            if at(s, j, ':') {
                match value_at(s, skip_ws(s, j + 1)) {
                    Some((v, e2)) => {
                        let m = skip_ws(s, e2);
                        if at(s, m, ',') {
                            let n = skip_ws(s, m + 1);
                            if i < n <= s.len() {
                                members(s, n, acc.push((k, v)))
                            } else {
                                None
                            }
                        } else if at(s, m, '}') {
                            Some((acc.push((k, v)), m + 1))
                        } else {
                            None
                        }
                    },
                    None => None,
                }
            } else {
                None
            }
        },
        None => None,
    }
}

/// The members of the object that makes up the whole of `s`, in order.
pub open spec fn object(s: Seq<char>) -> Option<Seq<(Seq<char>, FieldView)>> {
    let a = skip_ws(s, 0);
    if at(s, a, '{') {
        let b = skip_ws(s, a + 1);
        let r = if at(s, b, '}') {
            Some((seq![], b + 1))
        } else {
            members(s, b, seq![])
        };
        match r {
            Some((f, e)) => if skip_ws(s, e) == s.len() {
                Some(f)
            } else {
                None
            },
            None => None,
        }
    } else {
        None
    }
}

/// The value of the first member named `k`.
pub open spec fn lookup(f: Seq<(Seq<char>, FieldView)>, k: Seq<char>) -> Option<FieldView>
    decreases f.len(),
{
    if f.len() == 0 {
        None
    } else if f[0].0 == k {
        Some(f[0].1)
    } else {
        lookup(f.drop_first(), k)
    }
}

} // verus!
