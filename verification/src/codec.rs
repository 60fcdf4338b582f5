use vstd::prelude::*;
use vstd::string::*;

use crate::value::{
    Entry, PortValue, ValueModel, entries_wf, entry_models_of, lemma_entry_models_of_len,
    lemma_models_of_len, model_of, model_wf, models_of, models_wf,
};

verus! {

broadcast use vstd::std_specs::vec::group_vec_axioms;

// ===================================================================
// The wire format, as specification functions.
//
// A value crosses the boundary as compact untagged text: strings are
// quoted with backslash escapes, integers are decimal, booleans and
// null are keywords, lists are bracketed and comma-separated, objects
// are braced `"key":value` pairs. The decoder below inverts exactly
// this format; `lemma_round_trip` states the inversion law.
// ===================================================================

/// The decimal digit character for `n` in 0..=9.
pub open spec fn digit_of(n: int) -> char {
    ((48 + n) as u8) as char
}

/// The lowercase hexadecimal digit character for `n` in 0..=15.
pub open spec fn hex_digit_of(n: int) -> char {
    if n < 10 {
        digit_of(n)
    } else {
        ((87 + n) as u8) as char
    }
}

/// Decimal digits of `n`, most significant first.
pub open spec fn dec_digits(n: nat) -> Seq<char>
    decreases n,
{
    if n < 10 {
        seq![digit_of(n as int)]
    } else {
        dec_digits(n / 10) + seq![digit_of((n % 10) as int)]
    }
}

/// Decimal encoding of a signed integer.
pub open spec fn enc_int(i: int) -> Seq<char> {
    if i < 0 {
        seq!['-'] + dec_digits((-i) as nat)
    } else {
        dec_digits(i as nat)
    }
}

/// The escape sequence a character is written as inside a quoted string.
pub open spec fn esc_char(c: char) -> Seq<char> {
    if c == '"' {
        seq!['\\', '"']
    } else if c == '\\' {
        seq!['\\', '\\']
    } else if c == '\u{8}' {
        seq!['\\', 'b']
    } else if c == '\t' {
        seq!['\\', 't']
    } else if c == '\n' {
        seq!['\\', 'n']
    } else if c == '\u{c}' {
        seq!['\\', 'f']
    } else if c == '\r' {
        seq!['\\', 'r']
    } else if (c as u32) < 32 {
        seq!['\\', 'u', '0', '0', hex_digit_of((c as u32) as int / 16), hex_digit_of(
            (c as u32) as int % 16,
        )]
    } else {
        seq![c]
    }
}

/// The body of a quoted string: each character escaped, concatenated.
pub open spec fn enc_str_body(s: Seq<char>) -> Seq<char>
    decreases s,
{
    if s.len() == 0 {
        Seq::empty()
    } else {
        esc_char(s[0]) + enc_str_body(s.drop_first())
    }
}

/// Encoding of a whole value.
pub open spec fn enc(m: ValueModel) -> Seq<char>
    decreases m, 1int,
{
    match m {
        ValueModel::Null => seq!['n', 'u', 'l', 'l'],
        ValueModel::Bool(b) => if b {
            seq!['t', 'r', 'u', 'e']
        } else {
            seq!['f', 'a', 'l', 's', 'e']
        },
        ValueModel::Int(i) => enc_int(i),
        ValueModel::Str(s) => seq!['"'] + enc_str_body(s) + seq!['"'],
        ValueModel::List(items) => seq!['['] + enc_items(items) + seq![']'],
        ValueModel::Object(es) => seq!['{'] + enc_entries(es) + seq!['}'],
    }
}

/// Comma-separated encodings of list elements.
pub open spec fn enc_items(items: Seq<ValueModel>) -> Seq<char>
    decreases items, 0int,
{
    if items.len() == 0 {
        Seq::empty()
    } else if items.len() == 1 {
        enc(items[0])
    } else {
        enc(items[0]) + seq![','] + enc_items(items.drop_first())
    }
}

/// Encoding of one object entry: quoted key, colon, value.
pub open spec fn enc_entry(e: (Seq<char>, ValueModel)) -> Seq<char>
    decreases e, 0int,
{
    seq!['"'] + enc_str_body(e.0) + seq!['"', ':'] + enc(e.1)
}

/// Comma-separated encodings of object entries.
pub open spec fn enc_entries(es: Seq<(Seq<char>, ValueModel)>) -> Seq<char>
    decreases es, 1int,
{
    if es.len() == 0 {
        Seq::empty()
    } else if es.len() == 1 {
        enc_entry(es[0])
    } else {
        enc_entry(es[0]) + seq![','] + enc_entries(es.drop_first())
    }
}

// ===================================================================
// Helper lemmas about the encoding.
// ===================================================================

/// Escaping distributes over concatenation.
pub proof fn lemma_enc_str_body_concat(a: Seq<char>, b: Seq<char>)
    ensures
        enc_str_body(a + b) == enc_str_body(a) + enc_str_body(b),
    decreases a,
{
    if a.len() == 0 {
        assert(a + b =~= b);
        assert(enc_str_body(a) + enc_str_body(b) =~= enc_str_body(b));
    } else {
        lemma_enc_str_body_concat(a.drop_first(), b);
        assert((a + b).drop_first() =~= a.drop_first() + b);
        assert(esc_char(a[0]) + (enc_str_body(a.drop_first()) + enc_str_body(b)) =~= (esc_char(
            a[0],
        ) + enc_str_body(a.drop_first())) + enc_str_body(b));
    }
}

/// Peeling the first element off a non-empty list encoding.
pub proof fn lemma_enc_items_step(items: Seq<ValueModel>, k: int)
    requires
        0 <= k < items.len(),
    ensures
        k == items.len() - 1 ==> enc_items(items.skip(k)) == enc(items[k]),
        k < items.len() - 1 ==> enc_items(items.skip(k)) == enc(items[k]) + seq![','] + enc_items(
            items.skip(k + 1),
        ),
{
    let s = items.skip(k);
    assert(s.len() == items.len() - k);
    assert(s[0] == items[k]);
    if k < items.len() - 1 {
        assert(s.drop_first() =~= items.skip(k + 1));
    }
}

/// Peeling the first entry off a non-empty object encoding.
pub proof fn lemma_enc_entries_step(es: Seq<(Seq<char>, ValueModel)>, k: int)
    requires
        0 <= k < es.len(),
    ensures
        k == es.len() - 1 ==> enc_entries(es.skip(k)) == enc_entry(es[k]),
        k < es.len() - 1 ==> enc_entries(es.skip(k)) == enc_entry(es[k]) + seq![','] + enc_entries(
            es.skip(k + 1),
        ),
{
    let s = es.skip(k);
    assert(s.len() == es.len() - k);
    assert(s[0] == es[k]);
    if k < es.len() - 1 {
        assert(s.drop_first() =~= es.skip(k + 1));
    }
}

// ===================================================================
// The executable encoder.
// ===================================================================

/// Relies on `String: FromIterator<char>`: collecting characters yields the
/// string of exactly those characters, in order.
#[verifier::external_body]
pub fn chars_to_string(v: &Vec<char>) -> (r: String)
    ensures
        r@ == v@,
{
    v.iter().collect()
}

/// The characters of a string slice, as a vector.
pub fn str_chars(s: &str) -> (r: Vec<char>)
    ensures
        r@ == s@,
{
    let n = s.unicode_len();
    let mut r: Vec<char> = Vec::new();
    let mut j: usize = 0;
    while j < n
        invariant
            j <= n,
            n == s@.len(),
            r@ == s@.take(j as int),
        decreases n - j,
    {
        r.push(s.get_char(j));
        proof {
            assert(s@.take(j as int + 1) =~= s@.take(j as int) + seq![s@[j as int]]);
        }
        j += 1;
    }
    proof {
        assert(s@.take(n as int) =~= s@);
    }
    r
}

/// The decimal digit character for a small number.
fn digit_char(d: u64) -> (c: char)
    requires
        d < 10,
    ensures
        c == digit_of(d as int),
{
    (48u8 + (d as u8)) as char
}

/// The lowercase hexadecimal digit character for a small number.
fn hex_char(d: u32) -> (c: char)
    requires
        d < 16,
    ensures
        c == hex_digit_of(d as int),
{
    if d < 10 {
        (48u8 + (d as u8)) as char
    } else {
        (87u8 + (d as u8)) as char
    }
}

/// Appends the decimal digits of `n`.
pub fn push_u64(out: &mut Vec<char>, n: u64)
    ensures
        final(out)@ == old(out)@ + dec_digits(n as nat),
    decreases n,
{
    if n < 10 {
        out.push(digit_char(n));
    } else {
        push_u64(out, n / 10);
        out.push(digit_char(n % 10));
    }
}

/// Appends the decimal encoding of `n`, sign included.
pub fn push_i64(out: &mut Vec<char>, n: i64)
    ensures
        final(out)@ == old(out)@ + enc_int(n as int),
{
    if n >= 0 {
        push_u64(out, n as u64);
    } else {
        out.push('-');
        let mag: u64 = if n == i64::MIN {
            9223372036854775808u64
        } else {
            (-n) as u64
        };
        push_u64(out, mag);
    }
}

/// Appends the escape sequence for one character.
fn push_esc_char(out: &mut Vec<char>, c: char)
    ensures
        final(out)@ == old(out)@ + esc_char(c),
{
    if c == '"' {
        out.push('\\');
        out.push('"');
    } else if c == '\\' {
        out.push('\\');
        out.push('\\');
    } else if c == '\u{8}' {
        out.push('\\');
        out.push('b');
    } else if c == '\t' {
        out.push('\\');
        out.push('t');
    } else if c == '\n' {
        out.push('\\');
        out.push('n');
    } else if c == '\u{c}' {
        out.push('\\');
        out.push('f');
    } else if c == '\r' {
        out.push('\\');
        out.push('r');
    } else {
        let u = c as u32;
        if u < 32 {
            out.push('\\');
            out.push('u');
            out.push('0');
            out.push('0');
            out.push(hex_char(u / 16));
            out.push(hex_char(u % 16));
        } else {
            out.push(c);
        }
    }
}

/// Appends the escaped body of a string.
fn push_str_body(out: &mut Vec<char>, s: &str)
    ensures
        final(out)@ == old(out)@ + enc_str_body(s@),
{
    let n = s.unicode_len();
    let mut j: usize = 0;
    while j < n
        invariant
            j <= n,
            n == s@.len(),
            out@ == old(out)@ + enc_str_body(s@.take(j as int)),
        decreases n - j,
    {
        let c = s.get_char(j);
        proof {
            assert(s@.take(j as int + 1) =~= s@.take(j as int) + seq![s@[j as int]]);
            lemma_enc_str_body_concat(s@.take(j as int), seq![s@[j as int]]);
            assert(seq![s@[j as int]].drop_first() =~= Seq::<char>::empty());
            assert(enc_str_body(Seq::<char>::empty()) =~= Seq::<char>::empty());
            assert(enc_str_body(seq![s@[j as int]]) =~= esc_char(s@[j as int]) + enc_str_body(
                Seq::<char>::empty(),
            ));
            assert(enc_str_body(seq![s@[j as int]]) =~= esc_char(s@[j as int]));
        }
        push_esc_char(out, c);
        j += 1;
    }
    proof {
        assert(s@.take(n as int) =~= s@);
    }
}

/// Appends the encoding of a value.
pub fn encode_onto(v: &PortValue, out: &mut Vec<char>)
    ensures
        final(out)@ == old(out)@ + enc(v.model()),
    decreases v,
{
    match v {
        PortValue::Null => {
            out.push('n');
            out.push('u');
            out.push('l');
            out.push('l');
            proof {
                assert(out@ =~= old(out)@ + enc(v.model()));
            }
        },
        PortValue::Bool(b) => {
            if *b {
                out.push('t');
                out.push('r');
                out.push('u');
                out.push('e');
            } else {
                out.push('f');
                out.push('a');
                out.push('l');
                out.push('s');
                out.push('e');
            }
            proof {
                assert(out@ =~= old(out)@ + enc(v.model()));
            }
        },
        PortValue::Int(i) => {
            push_i64(out, *i);
        },
        PortValue::Str(s) => {
            out.push('"');
            push_str_body(out, s.as_str());
            out.push('"');
            proof {
                assert(out@ =~= old(out)@ + enc(v.model()));
            }
        },
        PortValue::List(items) => {
            let ghost m = models_of(items@);
            proof {
                lemma_models_of_len(items@);
            }
            out.push('[');
            let n = items.len();
            let mut j: usize = 0;
            while j < n
                invariant
                    j <= n,
                    n == items.len(),
                    *v == PortValue::List(*items),
                    m == models_of(items@),
                    m.len() == n,
                    forall|k: int| 0 <= k < n ==> m[k] == model_of(items@[k]),
                    j == 0 ==> out@ == old(out)@ + seq!['['],
                    0 < j < n ==> out@ + seq![','] + enc_items(m.skip(j as int)) == old(out)@
                        + seq!['['] + enc_items(m),
                    j == n && n > 0 ==> out@ == old(out)@ + seq!['['] + enc_items(m),
                decreases n - j,
            {
                if j > 0 {
                    out.push(',');
                }
                proof {
                    lemma_enc_items_step(m, j as int);
                    assert(decreases_to!(*v => v->List_0));
                    assert(decreases_to!(*items => items@));
                    assert(decreases_to!(items@ => items@[j as int]));
                    assert(decreases_to!(*v => items@[j as int]));
                }
                encode_onto(&items[j], out);
                j += 1;
            }
            out.push(']');
            proof {
                if n == 0 {
                    assert(enc_items(m) =~= Seq::<char>::empty());
                }
                assert(out@ =~= old(out)@ + enc(v.model()));
            }
        },
        PortValue::Object(entries) => {
            let ghost m = entry_models_of(entries@);
            proof {
                lemma_entry_models_of_len(entries@);
            }
            out.push('{');
            let n = entries.len();
            let mut j: usize = 0;
            while j < n
                invariant
                    j <= n,
                    n == entries.len(),
                    *v == PortValue::Object(*entries),
                    m == entry_models_of(entries@),
                    m.len() == n,
                    forall|k: int| 0 <= k < n ==> m[k] == (entries@[k].key@, model_of(
                        entries@[k].value,
                    )),
                    j == 0 ==> out@ == old(out)@ + seq!['{'],
                    0 < j < n ==> out@ + seq![','] + enc_entries(m.skip(j as int)) == old(out)@
                        + seq!['{'] + enc_entries(m),
                    j == n && n > 0 ==> out@ == old(out)@ + seq!['{'] + enc_entries(m),
                decreases n - j,
            {
                if j > 0 {
                    out.push(',');
                }
                proof {
                    lemma_enc_entries_step(m, j as int);
                }
                proof {
                    assert(decreases_to!(*v => v->Object_0));
                    assert(decreases_to!(*entries => entries@));
                    assert(decreases_to!(entries@ => entries@[j as int]));
                    assert(decreases_to!(entries@[j as int] => entries@[j as int].value));
                    assert(decreases_to!(*v => entries@[j as int].value));
                }
                let e = &entries[j];
                out.push('"');
                push_str_body(out, e.key.as_str());
                out.push('"');
                out.push(':');
                encode_onto(&e.value, out);
                proof {
                    assert(enc_entry(m[j as int]) =~= seq!['"'] + enc_str_body(entries@[
                        j as int].key@) + seq!['"', ':'] + enc(model_of(entries@[j as int].value)));
                }
                j += 1;
            }
            out.push('}');
            proof {
                if n == 0 {
                    assert(enc_entries(m) =~= Seq::<char>::empty());
                }
                assert(out@ =~= old(out)@ + enc(v.model()));
            }
        },
    }
}

/// Encodes a value as wire text.
pub fn encode_value(v: &PortValue) -> (r: String)
    ensures
        r@ == enc(v.model()),
{
    let mut out: Vec<char> = Vec::new();
    encode_onto(v, &mut out);
    chars_to_string(&out)
}

// ===================================================================
// The decoder, as specification functions: a recursive-descent parser
// over the exact format written by `enc`.
// ===================================================================

/// Is `c` a decimal digit?
pub open spec fn is_digit(c: char) -> bool {
    48 <= c as u32 <= 57
}

/// The value of a decimal digit character.
pub open spec fn digit_val(c: char) -> int {
    c as u32 - 48
}

/// Is `c` a hexadecimal digit?
pub open spec fn is_hex(c: char) -> bool {
    (48 <= c as u32 <= 57) || (97 <= c as u32 <= 102) || (65 <= c as u32 <= 70)
}

/// The value of a hexadecimal digit character.
pub open spec fn hex_val(c: char) -> int {
    if 48 <= c as u32 <= 57 {
        c as u32 - 48
    } else if 97 <= c as u32 <= 102 {
        c as u32 - 87
    } else {
        c as u32 - 55
    }
}

/// Length of the longest digit prefix of `s`.
pub open spec fn digit_prefix_len(s: Seq<char>) -> int
    decreases s,
{
    if s.len() > 0 && is_digit(s[0]) {
        1 + digit_prefix_len(s.drop_first())
    } else {
        0
    }
}

/// The number written by a sequence of digit characters.
pub open spec fn digits_val(d: Seq<char>) -> nat
    decreases d,
{
    if d.len() == 0 {
        0
    } else {
        digits_val(d.drop_last()) * 10 + (digit_val(d.last()) as nat)
    }
}

/// Parses a decimal integer at the head of `s`.
pub open spec fn p_int(s: Seq<char>) -> Option<(ValueModel, Seq<char>)> {
    if s.len() > 0 && s[0] == '-' {
        let t = s.drop_first();
        let k = digit_prefix_len(t);
        if k == 0 {
            None
        } else {
            let n = digits_val(t.take(k));
            if -(n as int) < i64::MIN {
                None
            } else {
                Some((ValueModel::Int(-(n as int)), t.skip(k)))
            }
        }
    } else {
        let k = digit_prefix_len(s);
        if k == 0 {
            None
        } else {
            let n = digits_val(s.take(k));
            if n > i64::MAX {
                None
            } else {
                Some((ValueModel::Int(n as int), s.skip(k)))
            }
        }
    }
}

/// The character written by a single-letter escape, if any.
pub open spec fn unesc_char(e: char) -> Option<char> {
    if e == '"' {
        Some('"')
    } else if e == '\\' {
        Some('\\')
    } else if e == '/' {
        Some('/')
    } else if e == 'b' {
        Some('\u{8}')
    } else if e == 'f' {
        Some('\u{c}')
    } else if e == 'n' {
        Some('\n')
    } else if e == 'r' {
        Some('\r')
    } else if e == 't' {
        Some('\t')
    } else {
        None
    }
}

/// Parses the body of a quoted string after the opening quote, up to and
/// including the closing quote. `\u` escapes are accepted for code points
/// below 128 only; larger characters cross the wire unescaped.
pub open spec fn p_str_body(s: Seq<char>) -> Option<(Seq<char>, Seq<char>)>
    decreases s.len(),
{
    if s.len() == 0 {
        None
    } else if s[0] == '"' {
        Some((Seq::empty(), s.drop_first()))
    } else if s[0] == '\\' {
        if s.len() < 2 {
            None
        } else if s[1] == 'u' {
            if s.len() >= 6 && is_hex(s[2]) && is_hex(s[3]) && is_hex(s[4]) && is_hex(s[5]) {
                let hv = hex_val(s[2]) * 4096 + hex_val(s[3]) * 256 + hex_val(s[4]) * 16 + hex_val(
                    s[5],
                );
                if hv < 128 {
                    match p_str_body(s.skip(6)) {
                        Some(r) => Some((seq![(hv as u32) as char] + r.0, r.1)),
                        None => None,
                    }
                } else {
                    None
                }
            } else {
                None
            }
        } else {
            match unesc_char(s[1]) {
                Some(c) => match p_str_body(s.skip(2)) {
                    Some(r) => Some((seq![c] + r.0, r.1)),
                    None => None,
                },
                None => None,
            }
        }
    } else {
        match p_str_body(s.drop_first()) {
            Some(r) => Some((seq![s[0]] + r.0, r.1)),
            None => None,
        }
    }
}

/// Parses one value at the head of `s`.
pub open spec fn p_val(s: Seq<char>) -> Option<(ValueModel, Seq<char>)>
    decreases s.len(), 0int,
{
    if s.len() == 0 {
        None
    } else if s[0] == 'n' {
        if s.len() >= 4 && s[1] == 'u' && s[2] == 'l' && s[3] == 'l' {
            Some((ValueModel::Null, s.skip(4)))
        } else {
            None
        }
    } else if s[0] == 't' {
        if s.len() >= 4 && s[1] == 'r' && s[2] == 'u' && s[3] == 'e' {
            Some((ValueModel::Bool(true), s.skip(4)))
        } else {
            None
        }
    } else if s[0] == 'f' {
        if s.len() >= 5 && s[1] == 'a' && s[2] == 'l' && s[3] == 's' && s[4] == 'e' {
            Some((ValueModel::Bool(false), s.skip(5)))
        } else {
            None
        }
    } else if s[0] == '"' {
        match p_str_body(s.drop_first()) {
            Some(r) => Some((ValueModel::Str(r.0), r.1)),
            None => None,
        }
    } else if s[0] == '[' {
        if s.len() >= 2 && s[1] == ']' {
            Some((ValueModel::List(Seq::empty()), s.skip(2)))
        } else {
            match p_items(s.drop_first()) {
                Some(r) => Some((ValueModel::List(r.0), r.1)),
                None => None,
            }
        }
    } else if s[0] == '{' {
        if s.len() >= 2 && s[1] == '}' {
            Some((ValueModel::Object(Seq::empty()), s.skip(2)))
        } else {
            match p_entries(s.drop_first()) {
                Some(r) => Some((ValueModel::Object(r.0), r.1)),
                None => None,
            }
        }
    } else if s[0] == '-' || is_digit(s[0]) {
        p_int(s)
    } else {
        None
    }
}

/// Parses the elements of a non-empty list, up to and including the
/// closing bracket.
pub open spec fn p_items(s: Seq<char>) -> Option<(Seq<ValueModel>, Seq<char>)>
    decreases s.len(), 1int,
{
    match p_val(s) {
        None => None,
        Some(r) => {
            let rest = r.1;
            if rest.len() < s.len() {
                if rest.len() > 0 && rest[0] == ',' {
                    match p_items(rest.drop_first()) {
                        Some(rr) => Some((seq![r.0] + rr.0, rr.1)),
                        None => None,
                    }
                } else if rest.len() > 0 && rest[0] == ']' {
                    Some((seq![r.0], rest.drop_first()))
                } else {
                    None
                }
            } else {
                None
            }
        },
    }
}

/// Parses the entries of a non-empty object, up to and including the
/// closing brace.
pub open spec fn p_entries(s: Seq<char>) -> Option<(Seq<(Seq<char>, ValueModel)>, Seq<char>)>
    decreases s.len(), 2int,
{
    if s.len() > 0 && s[0] == '"' {
        match p_str_body(s.drop_first()) {
            Some(kr) => {
                let after_key = kr.1;
                if after_key.len() < s.len() && after_key.len() > 0 && after_key[0] == ':' {
                    match p_val(after_key.drop_first()) {
                        Some(r) => {
                            let rest = r.1;
                            if rest.len() < s.len() {
                                if rest.len() > 0 && rest[0] == ',' {
                                    match p_entries(rest.drop_first()) {
                                        Some(rr) => Some((seq![(kr.0, r.0)] + rr.0, rr.1)),
                                        None => None,
                                    }
                                } else if rest.len() > 0 && rest[0] == '}' {
                                    Some((seq![(kr.0, r.0)], rest.drop_first()))
                                } else {
                                    None
                                }
                            } else {
                                None
                            }
                        },
                        None => None,
                    }
                } else {
                    None
                }
            },
            None => None,
        }
    } else {
        None
    }
}

/// Decodes a whole wire text: one value, nothing trailing.
pub open spec fn dec_spec(s: Seq<char>) -> Option<ValueModel> {
    match p_val(s) {
        Some(r) => if r.1.len() == 0 {
            Some(r.0)
        } else {
            None
        },
        None => None,
    }
}

// ===================================================================
// Round trip: the decoder inverts the encoder.
// ===================================================================

/// Decimal digits are digits, there is at least one, and they read back
/// to the number they were written from.
pub proof fn lemma_dec_digits_props(n: nat)
    ensures
        dec_digits(n).len() >= 1,
        forall|i: int| 0 <= i < dec_digits(n).len() ==> is_digit(#[trigger] dec_digits(n)[i]),
        digits_val(dec_digits(n)) == n,
    decreases n,
{
    if n < 10 {
        assert(digit_of(n as int) as u32 == 48 + n);
        assert(dec_digits(n) =~= seq![digit_of(n as int)]);
        assert(dec_digits(n).drop_last() =~= Seq::<char>::empty());
        assert(digits_val(dec_digits(n)) == digits_val(Seq::<char>::empty()) * 10 + digit_val(
            digit_of(n as int),
        ));
    } else {
        lemma_dec_digits_props(n / 10);
        let d = dec_digits(n);
        let a = dec_digits(n / 10);
        let last = digit_of((n % 10) as int);
        assert(last as u32 == 48 + n % 10);
        assert(d == a + seq![last]);
        assert(d.drop_last() =~= a);
        assert(d.last() == last);
        assert(digits_val(d) == digits_val(a) * 10 + digit_val(last));
        assert(digits_val(d) == (n / 10) * 10 + n % 10);
    }
}

/// A run of digits followed by a non-digit parses as exactly that run.
pub proof fn lemma_digit_prefix(d: Seq<char>, rest: Seq<char>)
    requires
        forall|i: int| 0 <= i < d.len() ==> is_digit(#[trigger] d[i]),
        rest.len() == 0 || !is_digit(rest[0]),
    ensures
        digit_prefix_len(d + rest) == d.len(),
        (d + rest).take(d.len() as int) == d,
        (d + rest).skip(d.len() as int) == rest,
    decreases d,
{
    if d.len() == 0 {
        assert(d + rest =~= rest);
    } else {
        lemma_digit_prefix(d.drop_first(), rest);
        assert((d + rest)[0] == d[0]);
        assert((d + rest).drop_first() =~= d.drop_first() + rest);
    }
    assert((d + rest).take(d.len() as int) =~= d);
    assert((d + rest).skip(d.len() as int) =~= rest);
}

/// An encoded integer in the machine range parses back to itself.
pub proof fn lemma_p_int_enc(i: int, rest: Seq<char>)
    requires
        i64::MIN <= i <= i64::MAX,
        rest.len() == 0 || !is_digit(rest[0]),
    ensures
        p_int(enc_int(i) + rest) == Some((ValueModel::Int(i), rest)),
{
    let s = enc_int(i) + rest;
    if i < 0 {
        let mag = (-i) as nat;
        lemma_dec_digits_props(mag);
        assert(s[0] == '-');
        assert(!is_digit('-')) by {
            assert('-' as u32 == 45);
        }
        let t = s.drop_first();
        assert(t =~= dec_digits(mag) + rest);
        lemma_digit_prefix(dec_digits(mag), rest);
        let k = digit_prefix_len(t);
        assert(k == dec_digits(mag).len());
        assert(t.take(k) == dec_digits(mag));
        assert(digits_val(t.take(k)) == mag);
        assert(t.skip(k) == rest);
    } else {
        let mag = i as nat;
        lemma_dec_digits_props(mag);
        assert(s =~= dec_digits(mag) + rest);
        lemma_digit_prefix(dec_digits(mag), rest);
        assert(s[0] == dec_digits(mag)[0]);
        assert(s[0] != '-') by {
            assert(is_digit(dec_digits(mag)[0]));
        }
        let k = digit_prefix_len(s);
        assert(s.take(k) == dec_digits(mag));
        assert(digits_val(s.take(k)) == mag);
        assert(s.skip(k) == rest);
    }
}

/// Hexadecimal digits written by the encoder read back to their value.
pub proof fn lemma_hex_digit(x: int)
    requires
        0 <= x < 16,
    ensures
        is_hex(hex_digit_of(x)),
        hex_val(hex_digit_of(x)) == x,
{
    if x < 10 {
        assert(hex_digit_of(x) as u32 == 48 + x);
    } else {
        assert(hex_digit_of(x) as u32 == 87 + x);
    }
}

/// An escaped string body followed by its closing quote parses back to
/// the original characters.
pub proof fn lemma_p_str_body_enc(sb: Seq<char>, rest: Seq<char>)
    ensures
        p_str_body(enc_str_body(sb) + seq!['"'] + rest) == Some((sb, rest)),
    decreases sb.len(),
{
    let s = enc_str_body(sb) + seq!['"'] + rest;
    if sb.len() == 0 {
        assert(s =~= seq!['"'] + rest);
        assert(s[0] == '"');
        assert(s.drop_first() =~= rest);
    } else {
        let c = sb[0];
        let sb1 = sb.drop_first();
        let tail = enc_str_body(sb1) + seq!['"'] + rest;
        assert(enc_str_body(sb) == esc_char(c) + enc_str_body(sb1));
        assert(s =~= esc_char(c) + tail);
        lemma_p_str_body_enc(sb1, rest);
        assert(tail.len() >= 1);
        if c == '"' {
            assert(s[0] == '\\' && s[1] == '"');
            assert(s.skip(2) =~= tail);
            assert(seq![c] + sb1 =~= sb);
        } else if c == '\\' {
            assert(s[0] == '\\' && s[1] == '\\');
            assert(s.skip(2) =~= tail);
            assert(seq![c] + sb1 =~= sb);
        } else if c == '\u{8}' {
            assert(s[0] == '\\' && s[1] == 'b');
            assert(s.skip(2) =~= tail);
            assert(seq![c] + sb1 =~= sb);
        } else if c == '\t' {
            assert(s[0] == '\\' && s[1] == 't');
            assert(s.skip(2) =~= tail);
            assert(seq![c] + sb1 =~= sb);
        } else if c == '\n' {
            assert(s[0] == '\\' && s[1] == 'n');
            assert(s.skip(2) =~= tail);
            assert(seq![c] + sb1 =~= sb);
        } else if c == '\u{c}' {
            assert(s[0] == '\\' && s[1] == 'f');
            assert(s.skip(2) =~= tail);
            assert(seq![c] + sb1 =~= sb);
        } else if c == '\r' {
            assert(s[0] == '\\' && s[1] == 'r');
            assert(s.skip(2) =~= tail);
            assert(seq![c] + sb1 =~= sb);
        } else if (c as u32) < 32 {
            let code = (c as u32) as int;
            lemma_hex_digit(code / 16);
            lemma_hex_digit(code % 16);
            assert(s[0] == '\\' && s[1] == 'u' && s[2] == '0' && s[3] == '0');
            assert(s[4] == hex_digit_of(code / 16));
            assert(s[5] == hex_digit_of(code % 16));
            assert(is_hex('0') && hex_val('0') == 0) by {
                assert('0' as u32 == 48);
            }
            let hv = hex_val(s[2]) * 4096 + hex_val(s[3]) * 256 + hex_val(s[4]) * 16 + hex_val(
                s[5],
            );
            assert(hv == (code / 16) * 16 + code % 16);
            assert(hv == code);
            vstd::utf8::char_u32_cast(c, c as u32);
            assert(((hv as u32) as char) == c);
            assert(s.skip(6) =~= tail);
            assert(seq![c] + sb1 =~= sb);
        } else {
            assert(esc_char(c) == seq![c]);
            assert(s[0] == c);
            assert(s.drop_first() =~= tail);
            assert(seq![c] + sb1 =~= sb);
        }
    }
}

/// Every encoding is non-empty and does not begin with a closing
/// bracket, closing brace, comma or colon.
pub proof fn lemma_enc_head(m: ValueModel)
    ensures
        enc(m).len() > 0,
        enc(m)[0] != ']',
        enc(m)[0] != '}',
        enc(m)[0] != ',',
        enc(m)[0] != ':',
{
    match m {
        ValueModel::Int(i) => {
            if i < 0 {
                assert(enc(m)[0] == '-');
            } else {
                lemma_dec_digits_props(i as nat);
                assert(enc(m) == dec_digits(i as nat));
                assert(is_digit(enc(m)[0]));
                assert(']' as u32 == 93 && '}' as u32 == 125 && ',' as u32 == 44 && ':' as u32
                    == 58);
            }
        },
        _ => {},
    }
}

/// An encoded value followed by text that does not begin with a digit
/// parses back to exactly that value, leaving the trailing text.
#[verifier::rlimit(100)]
pub proof fn lemma_p_val_enc(m: ValueModel, rest: Seq<char>)
    requires
        model_wf(m),
        rest.len() == 0 || !is_digit(rest[0]),
    ensures
        p_val(enc(m) + rest) == Some((m, rest)),
    decreases m, 1int,
{
    let s = enc(m) + rest;
    match m {
        ValueModel::Null => {
            assert(s[0] == 'n' && s[1] == 'u' && s[2] == 'l' && s[3] == 'l');
            assert(s.skip(4) =~= rest);
            assert(p_val(s) =~~= Some((m, rest)));
        },
        ValueModel::Bool(b) => {
            if b {
                assert(s[0] == 't' && s[1] == 'r' && s[2] == 'u' && s[3] == 'e');
                assert(s.skip(4) =~= rest);
            } else {
                assert(s[0] == 'f' && s[1] == 'a' && s[2] == 'l' && s[3] == 's' && s[4] == 'e');
                assert(s.skip(5) =~= rest);
            }
            assert(p_val(s) =~~= Some((m, rest)));
        },
        ValueModel::Int(i) => {
            lemma_p_int_enc(i, rest);
            if i < 0 {
                assert(s[0] == '-');
                assert('-' as u32 == 45);
            } else {
                lemma_dec_digits_props(i as nat);
                assert(s[0] == dec_digits(i as nat)[0]);
                assert(is_digit(s[0]));
                assert('n' as u32 == 110 && 't' as u32 == 116 && 'f' as u32 == 102 && '"' as u32
                    == 34 && '[' as u32 == 91 && '{' as u32 == 123);
            }
            assert(p_val(s) =~~= Some((m, rest)));
        },
        ValueModel::Str(sb) => {
            assert(s[0] == '"');
            assert(s.drop_first() =~= enc_str_body(sb) + seq!['"'] + rest);
            lemma_p_str_body_enc(sb, rest);
            assert(p_val(s) =~~= Some((m, rest)));
        },
        ValueModel::List(items) => {
            if items.len() == 0 {
                assert(enc_items(items) == Seq::<char>::empty());
                assert(s =~= seq!['[', ']'] + rest);
                assert(s[0] == '[' && s[1] == ']');
                assert(s.skip(2) =~= rest);
                assert(items =~= Seq::<ValueModel>::empty());
                assert(p_val(s) =~~= Some((ValueModel::List(items), rest)));
            } else {
                lemma_enc_head(items[0]);
                assert(s[0] == '[');
                if items.len() == 1 {
                    assert(enc_items(items) == enc(items[0]));
                } else {
                    assert(enc_items(items) == enc(items[0]) + seq![','] + enc_items(
                        items.drop_first(),
                    ));
                }
                assert(enc_items(items)[0] == enc(items[0])[0]);
                assert(s[1] == enc_items(items)[0]);
                assert(s[1] != ']');
                assert(s.drop_first() =~= enc_items(items) + seq![']'] + rest);
                lemma_p_items_enc(items, rest);
                assert(s.drop_first() == enc_items(items) + seq![']'] + rest);
                assert(p_items(s.drop_first()) == Some((items, rest)));
                assert(s.len() >= 2);
                assert(p_val(s) =~~= Some((ValueModel::List(items), rest)));
            }
            assert(p_val(s) =~~= Some((m, rest)));
        },
        ValueModel::Object(es) => {
            if es.len() == 0 {
                assert(enc_entries(es) == Seq::<char>::empty());
                assert(s =~= seq!['{', '}'] + rest);
                assert(s[0] == '{' && s[1] == '}');
                assert(s.skip(2) =~= rest);
                assert(es =~= Seq::<(Seq<char>, ValueModel)>::empty());
                assert(p_val(s) =~~= Some((ValueModel::Object(es), rest)));
            } else {
                assert(s[0] == '{');
                if es.len() == 1 {
                    assert(enc_entries(es) == enc_entry(es[0]));
                } else {
                    assert(enc_entries(es) == enc_entry(es[0]) + seq![','] + enc_entries(
                        es.drop_first(),
                    ));
                }
                assert(enc_entry(es[0])[0] == '"');
                assert(enc_entries(es)[0] == enc_entry(es[0])[0]);
                assert(s[1] == '"');
                assert('"' as u32 == 34 && '}' as u32 == 125);
                assert(s[1] != '}');
                assert(s.drop_first() =~= enc_entries(es) + seq!['}'] + rest);
                lemma_p_entries_enc(es, rest);
                assert(s.drop_first() == enc_entries(es) + seq!['}'] + rest);
                assert(p_entries(s.drop_first()) == Some((es, rest)));
                assert(s.len() >= 2);
                assert(p_val(s) =~~= Some((ValueModel::Object(es), rest)));
            }
            assert(p_val(s) =~~= Some((m, rest)));
        },
    }
}

/// Encoded list elements followed by the closing bracket parse back to
/// exactly those elements.
pub proof fn lemma_p_items_enc(items: Seq<ValueModel>, rest: Seq<char>)
    requires
        models_wf(items),
        items.len() > 0,
    ensures
        p_items(enc_items(items) + seq![']'] + rest) == Some((items, rest)),
    decreases items, 0int,
{
    let s = enc_items(items) + seq![']'] + rest;
    lemma_enc_head(items[0]);
    assert(']' as u32 == 93 && ',' as u32 == 44);
    if items.len() == 1 {
        let rest1 = seq![']'] + rest;
        assert(enc_items(items) == enc(items[0]));
        assert(s =~= enc(items[0]) + rest1);
        assert(!is_digit(']'));
        lemma_p_val_enc(items[0], rest1);
        assert(rest1.len() < s.len());
        assert(rest1[0] == ']');
        assert(rest1.drop_first() =~= rest);
        assert(seq![items[0]] =~= items);
    } else {
        let tail = enc_items(items.drop_first()) + seq![']'] + rest;
        let rest1 = seq![','] + tail;
        assert(enc_items(items) == enc(items[0]) + seq![','] + enc_items(items.drop_first()));
        assert(s =~= enc(items[0]) + rest1);
        assert(!is_digit(','));
        lemma_p_val_enc(items[0], rest1);
        assert(rest1.len() < s.len());
        assert(rest1[0] == ',');
        assert(rest1.drop_first() =~= tail);
        lemma_p_items_enc(items.drop_first(), rest);
        assert(seq![items[0]] + items.drop_first() =~= items);
    }
}

/// Encoded object entries followed by the closing brace parse back to
/// exactly those entries.
#[verifier::rlimit(100)]
pub proof fn lemma_p_entries_enc(es: Seq<(Seq<char>, ValueModel)>, rest: Seq<char>)
    requires
        entries_wf(es),
        es.len() > 0,
    ensures
        p_entries(enc_entries(es) + seq!['}'] + rest) == Some((es, rest)),
    decreases es, 0int,
{
    let s = enc_entries(es) + seq!['}'] + rest;
    let key = es[0].0;
    let val = es[0].1;
    lemma_enc_head(val);
    assert('}' as u32 == 125 && ',' as u32 == 44 && ':' as u32 == 58);
    let sep_tail: Seq<char> = if es.len() == 1 {
        seq!['}'] + rest
    } else {
        seq![','] + (enc_entries(es.drop_first()) + seq!['}'] + rest)
    };
    if es.len() == 1 {
        assert(enc_entries(es) == enc_entry(es[0]));
    } else {
        assert(enc_entries(es) == enc_entry(es[0]) + seq![','] + enc_entries(es.drop_first()));
    }
    let after_key = seq![':'] + enc(val) + sep_tail;
    assert(enc_entry(es[0]) == seq!['"'] + enc_str_body(key) + seq!['"', ':'] + enc(val));
    assert(s[0] == '"');
    assert(s.drop_first() =~= enc_str_body(key) + seq!['"'] + after_key);
    lemma_p_str_body_enc(key, after_key);
    assert(after_key.len() < s.len());
    assert(after_key[0] == ':');
    assert(after_key.drop_first() =~= enc(val) + sep_tail);
    assert(!is_digit(sep_tail[0]));
    lemma_p_val_enc(val, sep_tail);
    assert(sep_tail.len() < s.len());
    if es.len() == 1 {
        assert(sep_tail[0] == '}');
        assert(sep_tail.drop_first() =~= rest);
        assert((key, val) == es[0]);
        assert(seq![es[0]] =~= es);
    } else {
        assert(sep_tail[0] == ',');
        assert(sep_tail.drop_first() =~= enc_entries(es.drop_first()) + seq!['}'] + rest);
        lemma_p_entries_enc(es.drop_first(), rest);
        assert((key, val) == es[0]);
        assert(seq![es[0]] + es.drop_first() =~= es);
    }
}

/// The round-trip law: the wire text of any well-formed value decodes
/// back to exactly that value.
pub proof fn lemma_round_trip(m: ValueModel)
    requires
        model_wf(m),
    ensures
        dec_spec(enc(m)) == Some(m),
{
    lemma_p_val_enc(m, Seq::empty());
    assert(enc(m) + Seq::<char>::empty() =~= enc(m));
}

// ===================================================================
// The executable decoder.
// ===================================================================

/// Is this character a decimal digit?
fn is_digit_exec(c: char) -> (r: bool)
    ensures
        r == is_digit(c),
{
    let u = c as u32;
    48 <= u && u <= 57
}

/// The value of a hexadecimal digit character, if it is one.
fn hex_val_exec(c: char) -> (r: Option<u32>)
    ensures
        match r {
            Some(x) => is_hex(c) && x == hex_val(c) && x < 16,
            None => !is_hex(c),
        },
{
    let u = c as u32;
    if 48 <= u && u <= 57 {
        Some(u - 48)
    } else if 97 <= u && u <= 102 {
        Some(u - 87)
    } else if 65 <= u && u <= 70 {
        Some(u - 55)
    } else {
        None
    }
}

/// The character written by a single-letter escape, if any.
fn unesc_exec(e: char) -> (r: Option<char>)
    ensures
        r == unesc_char(e),
{
    if e == '"' {
        Some('"')
    } else if e == '\\' {
        Some('\\')
    } else if e == '/' {
        Some('/')
    } else if e == 'b' {
        Some('\u{8}')
    } else if e == 'f' {
        Some('\u{c}')
    } else if e == 'n' {
        Some('\n')
    } else if e == 'r' {
        Some('\r')
    } else if e == 't' {
        Some('\t')
    } else {
        None
    }
}

/// Parses a quoted string body starting at `i` (just after the opening
/// quote); returns the characters and the position after the closing quote.
fn p_str_exec(s: &Vec<char>, i: usize) -> (r: Option<(Vec<char>, usize)>)
    requires
        i <= s@.len(),
    ensures
        match r {
            Some(p) => i < p.1 <= s@.len() && p_str_body(s@.skip(i as int)) == Some((p.0@, s@.skip(
                p.1 as int,
            ))),
            None => p_str_body(s@.skip(i as int)) == None::<(Seq<char>, Seq<char>)>,
        },
    decreases s@.len() - i,
{
    let ghost t = s@.skip(i as int);
    if i >= s.len() {
        return None;
    }
    let c = s[i];
    proof {
        assert(t[0] == s@[i as int]);
    }
    if c == '"' {
        proof {
            assert(t.drop_first() =~= s@.skip(i as int + 1));
        }
        return Some((Vec::new(), i + 1));
    }
    if c == '\\' {
        if s.len() - i < 2 {
            return None;
        }
        let e = s[i + 1];
        proof {
            assert(t[1] == s@[i as int + 1]);
        }
        if e == 'u' {
            if s.len() - i < 6 {
                proof {
                    assert(t.len() < 6);
                }
                return None;
            }
            proof {
                assert(t[2] == s@[i as int + 2]);
                assert(t[3] == s@[i as int + 3]);
                assert(t[4] == s@[i as int + 4]);
                assert(t[5] == s@[i as int + 5]);
            }
            let h2 = hex_val_exec(s[i + 2]);
            let h3 = hex_val_exec(s[i + 3]);
            let h4 = hex_val_exec(s[i + 4]);
            let h5 = hex_val_exec(s[i + 5]);
            match (h2, h3, h4, h5) {
                (Some(x2), Some(x3), Some(x4), Some(x5)) => {
                    let hv: u32 = x2 * 4096 + x3 * 256 + x4 * 16 + x5;
                    if hv >= 128 {
                        return None;
                    }
                    let ch: char = (hv as u8) as char;
                    proof {
                        assert(ch as u32 == hv);
                        vstd::utf8::char_u32_cast(ch, hv);
                        assert(((hv as u32) as char) == ch);
                        assert(t.skip(6) =~= s@.skip(i as int + 6));
                    }
                    match p_str_exec(s, i + 6) {
                        Some((mut b, j)) => {
                            b.insert(0, ch);
                            proof {
                                assert(b@ =~= seq![ch] + b@.drop_first());
                            }
                            Some((b, j))
                        },
                        None => None,
                    }
                },
                _ => {
                    return None;
                },
            }
        } else {
            match unesc_exec(e) {
                Some(c2) => {
                    proof {
                        assert(t.skip(2) =~= s@.skip(i as int + 2));
                    }
                    match p_str_exec(s, i + 2) {
                        Some((mut b, j)) => {
                            b.insert(0, c2);
                            proof {
                                assert(b@ =~= seq![c2] + b@.drop_first());
                            }
                            Some((b, j))
                        },
                        None => None,
                    }
                },
                None => None,
            }
        }
    } else {
        proof {
            assert(t.drop_first() =~= s@.skip(i as int + 1));
        }
        match p_str_exec(s, i + 1) {
            Some((mut b, j)) => {
                b.insert(0, c);
                proof {
                    assert(b@ =~= seq![c] + b@.drop_first());
                }
                Some((b, j))
            },
            None => None,
        }
    }
}

/// Parses a decimal integer starting at `i`.
fn p_int_exec(s: &Vec<char>, i: usize) -> (r: Option<(i64, usize)>)
    requires
        i <= s@.len(),
    ensures
        match r {
            Some(p) => i < p.1 <= s@.len() && p_int(s@.skip(i as int)) == Some((ValueModel::Int(
                p.0 as int,
            ), s@.skip(p.1 as int))),
            None => p_int(s@.skip(i as int)) == None::<(ValueModel, Seq<char>)>,
        },
{
    let ghost t = s@.skip(i as int);
    let neg = i < s.len() && s[i] == '-';
    let start: usize = if neg {
        i + 1
    } else {
        i
    };
    let ghost d = if neg {
        t.drop_first()
    } else {
        t
    };
    proof {
        if neg {
            assert(t[0] == s@[i as int]);
            assert(d =~= s@.skip(start as int));
        } else {
            if t.len() > 0 {
                assert(t[0] == s@[i as int]);
            }
        }
    }
    // scan the digit run
    let mut j: usize = start;
    let mut acc: u128 = 0;
    let ghost limit: int = 9223372036854775808int;
    while j < s.len() && is_digit_exec(s[j])
        invariant
            start <= j <= s@.len(),
            i <= start <= i + 1,
            limit == 9223372036854775808int,
            start == if neg {
                i + 1
            } else {
                i as int
            },
            d == s@.skip(start as int),
            forall|k: int| start <= k < j ==> is_digit(#[trigger] s@[k]),
            digits_val(s@.subrange(start as int, j as int)) <= limit ==> acc as nat == digits_val(
                s@.subrange(start as int, j as int),
            ),
            digits_val(s@.subrange(start as int, j as int)) > limit ==> acc as nat > limit,
        decreases s@.len() - j,
    {
        let c = s[j];
        let dv: u32 = (c as u32) - 48;
        proof {
            assert(is_digit(s@[j as int]));
            assert(s@.subrange(start as int, j as int + 1).drop_last() =~= s@.subrange(
                start as int,
                j as int,
            ));
            assert(s@.subrange(start as int, j as int + 1).last() == s@[j as int]);
        }
        proof {
            assert(digits_val(s@.subrange(start as int, j as int + 1)) == digits_val(s@.subrange(
                start as int,
                j as int,
            )) * 10 + digit_val(s@[j as int]));
        }
        if acc > 9223372036854775808u128 {
            // already over any representable magnitude: keep only the bound
            acc = 18446744073709551616u128;
        } else {
            acc = acc * 10 + (dv as u128);
        }
        j += 1;
    }
    let ghost k = j - start;
    proof {
        // the scanned run is the longest digit prefix of d
        let digits = s@.subrange(start as int, j as int);
        let after = s@.skip(j as int);
        assert(d =~= digits + after);
        if j < s@.len() {
            assert(after[0] == s@[j as int]);
            assert(!is_digit(after[0]));
        } else {
            assert(after.len() == 0);
        }
        lemma_digit_prefix(digits, after);
        assert(digit_prefix_len(d) == k);
        assert(d.take(k as int) == digits);
        assert(d.skip(k as int) == after);
    }
    if j == start {
        // no digits at all
        proof {
            if neg {
                assert(p_int(t) == None::<(ValueModel, Seq<char>)>);
            } else {
                if t.len() > 0 && t[0] == '-' {
                    assert(false);
                }
                assert(p_int(t) == None::<(ValueModel, Seq<char>)>);
            }
        }
        return None;
    }
    if neg {
        if acc > 9223372036854775808u128 {
            return None;
        }
        let mag: u128 = acc;
        let v: i64 = if mag == 9223372036854775808u128 {
            i64::MIN
        } else {
            -((mag as u64) as i64)
        };
        proof {
            assert(v as int == -(digits_val(d.take(k as int)) as int));
        }
        Some((v, j))
    } else {
        if acc > 9223372036854775807u128 {
            return None;
        }
        let v: i64 = (acc as u64) as i64;
        proof {
            assert(v as int == digits_val(t.take(k as int)) as int);
        }
        Some((v, j))
    }
}

/// Parses one value starting at `i`.
fn p_val_exec(s: &Vec<char>, i: usize) -> (r: Option<(PortValue, usize)>)
    requires
        i <= s@.len(),
    ensures
        match r {
            Some(p) => i < p.1 <= s@.len() && p_val(s@.skip(i as int)) == Some((p.0.model(),
            s@.skip(p.1 as int))),
            None => p_val(s@.skip(i as int)) == None::<(ValueModel, Seq<char>)>,
        },
    decreases s@.len() - i, 0int,
{
    let ghost t = s@.skip(i as int);
    if i >= s.len() {
        return None;
    }
    let c = s[i];
    proof {
        assert(t[0] == s@[i as int]);
    }
    if c == 'n' {
        if s.len() - i >= 4 && s[i + 1] == 'u' && s[i + 2] == 'l' && s[i + 3] == 'l' {
            proof {
                assert(t[1] == s@[i as int + 1]);
                assert(t[2] == s@[i as int + 2]);
                assert(t[3] == s@[i as int + 3]);
                assert(t.skip(4) =~= s@.skip(i as int + 4));
            }
            Some((PortValue::Null, i + 4))
        } else {
            proof {
                if t.len() >= 4 {
                    assert(t[1] == s@[i as int + 1]);
                    assert(t[2] == s@[i as int + 2]);
                    assert(t[3] == s@[i as int + 3]);
                }
            }
            None
        }
    } else if c == 't' {
        if s.len() - i >= 4 && s[i + 1] == 'r' && s[i + 2] == 'u' && s[i + 3] == 'e' {
            proof {
                assert(t[1] == s@[i as int + 1]);
                assert(t[2] == s@[i as int + 2]);
                assert(t[3] == s@[i as int + 3]);
                assert(t.skip(4) =~= s@.skip(i as int + 4));
            }
            Some((PortValue::Bool(true), i + 4))
        } else {
            proof {
                if t.len() >= 4 {
                    assert(t[1] == s@[i as int + 1]);
                    assert(t[2] == s@[i as int + 2]);
                    assert(t[3] == s@[i as int + 3]);
                }
            }
            None
        }
    } else if c == 'f' {
        if s.len() - i >= 5 && s[i + 1] == 'a' && s[i + 2] == 'l' && s[i + 3] == 's' && s[i + 4]
            == 'e' {
            proof {
                assert(t[1] == s@[i as int + 1]);
                assert(t[2] == s@[i as int + 2]);
                assert(t[3] == s@[i as int + 3]);
                assert(t[4] == s@[i as int + 4]);
                assert(t.skip(5) =~= s@.skip(i as int + 5));
            }
            Some((PortValue::Bool(false), i + 5))
        } else {
            proof {
                if t.len() >= 5 {
                    assert(t[1] == s@[i as int + 1]);
                    assert(t[2] == s@[i as int + 2]);
                    assert(t[3] == s@[i as int + 3]);
                    assert(t[4] == s@[i as int + 4]);
                }
            }
            None
        }
    } else if c == '"' {
        proof {
            assert(t.drop_first() =~= s@.skip(i as int + 1));
        }
        match p_str_exec(s, i + 1) {
            Some((b, j)) => {
                let st = chars_to_string(&b);
                Some((PortValue::Str(st), j))
            },
            None => None,
        }
    } else if c == '[' {
        if s.len() - i >= 2 && s[i + 1] == ']' {
            proof {
                assert(t[1] == s@[i as int + 1]);
                assert(t.skip(2) =~= s@.skip(i as int + 2));
                assert(models_of(Seq::<PortValue>::empty()) =~= Seq::<ValueModel>::empty());
            }
            let items: Vec<PortValue> = Vec::new();
            Some((PortValue::List(items), i + 2))
        } else {
            proof {
                if t.len() >= 2 {
                    assert(t[1] == s@[i as int + 1]);
                }
                assert(t.drop_first() =~= s@.skip(i as int + 1));
            }
            match p_items_exec(s, i + 1) {
                Some((items, j)) => Some((PortValue::List(items), j)),
                None => None,
            }
        }
    } else if c == '{' {
        if s.len() - i >= 2 && s[i + 1] == '}' {
            proof {
                assert(t[1] == s@[i as int + 1]);
                assert(t.skip(2) =~= s@.skip(i as int + 2));
                assert(entry_models_of(Seq::<Entry>::empty()) =~= Seq::<(
                    Seq<char>,
                    ValueModel,
                )>::empty());
            }
            let entries: Vec<Entry> = Vec::new();
            Some((PortValue::Object(entries), i + 2))
        } else {
            proof {
                if t.len() >= 2 {
                    assert(t[1] == s@[i as int + 1]);
                }
                assert(t.drop_first() =~= s@.skip(i as int + 1));
            }
            match p_entries_exec(s, i + 1) {
                Some((entries, j)) => Some((PortValue::Object(entries), j)),
                None => None,
            }
        }
    } else if c == '-' || is_digit_exec(c) {
        match p_int_exec(s, i) {
            Some((v, j)) => Some((PortValue::Int(v), j)),
            None => None,
        }
    } else {
        None
    }
}

/// Parses the elements of a non-empty list starting at `i` (just after the
/// opening bracket), up to and including the closing bracket.
fn p_items_exec(s: &Vec<char>, i: usize) -> (r: Option<(Vec<PortValue>, usize)>)
    requires
        i <= s@.len(),
    ensures
        match r {
            Some(p) => i < p.1 <= s@.len() && p_items(s@.skip(i as int)) == Some((models_of(p.0@),
            s@.skip(p.1 as int))),
            None => p_items(s@.skip(i as int)) == None::<(Seq<ValueModel>, Seq<char>)>,
        },
    decreases s@.len() - i, 1int,
{
    let ghost t = s@.skip(i as int);
    match p_val_exec(s, i) {
        None => None,
        Some((v, j)) => {
            proof {
                assert(s@.skip(j as int).len() < t.len());
            }
            if j < s.len() && s[j] == ',' {
                proof {
                    assert(s@.skip(j as int)[0] == s@[j as int]);
                    assert(s@.skip(j as int).drop_first() =~= s@.skip(j as int + 1));
                }
                match p_items_exec(s, j + 1) {
                    Some((mut items, k2)) => {
                        let ghost oi = items@;
                        items.insert(0, v);
                        proof {
                            assert(items@ =~= seq![v] + oi);
                            assert((seq![v] + oi).drop_first() =~= oi);
                            assert((seq![v] + oi)[0] == v);
                            assert(models_of(items@) =~= seq![v.model()] + models_of(oi));
                        }
                        Some((items, k2))
                    },
                    None => None,
                }
            } else if j < s.len() && s[j] == ']' {
                proof {
                    assert(s@.skip(j as int)[0] == s@[j as int]);
                    assert(s@.skip(j as int).drop_first() =~= s@.skip(j as int + 1));
                }
                let mut items: Vec<PortValue> = Vec::new();
                items.push(v);
                proof {
                    assert(items@ =~= seq![v]);
                    assert(seq![v].drop_first() =~= Seq::<PortValue>::empty());
                    assert(models_of(Seq::<PortValue>::empty()) =~= Seq::<ValueModel>::empty());
                    assert(models_of(items@) =~= seq![v.model()]);
                }
                Some((items, j + 1))
            } else {
                proof {
                    if j < s.len() {
                        assert(s@.skip(j as int)[0] == s@[j as int]);
                    }
                }
                None
            }
        },
    }
}

/// Parses the entries of a non-empty object starting at `i` (just after the
/// opening brace), up to and including the closing brace.
#[verifier::rlimit(50)]
fn p_entries_exec(s: &Vec<char>, i: usize) -> (r: Option<(Vec<Entry>, usize)>)
    requires
        i <= s@.len(),
    ensures
        match r {
            Some(p) => i < p.1 <= s@.len() && p_entries(s@.skip(i as int)) == Some((
                entry_models_of(p.0@),
                s@.skip(p.1 as int),
            )),
            None => p_entries(s@.skip(i as int)) == None::<(
                Seq<(Seq<char>, ValueModel)>,
                Seq<char>,
            )>,
        },
    decreases s@.len() - i, 2int,
{
    let ghost t = s@.skip(i as int);
    if i >= s.len() {
        return None;
    }
    let c = s[i];
    proof {
        assert(t[0] == s@[i as int]);
    }
    if c != '"' {
        return None;
    }
    proof {
        assert(t.drop_first() =~= s@.skip(i as int + 1));
    }
    match p_str_exec(s, i + 1) {
        None => None,
        Some((kb, j1)) => {
            let ghost after_key = s@.skip(j1 as int);
            proof {
                assert(after_key.len() < t.len());
            }
            if j1 < s.len() && s[j1] == ':' {
                proof {
                    assert(after_key[0] == s@[j1 as int]);
                    assert(after_key.drop_first() =~= s@.skip(j1 as int + 1));
                }
                match p_val_exec(s, j1 + 1) {
                    None => None,
                    Some((v, j2)) => {
                        proof {
                            assert(s@.skip(j2 as int).len() < t.len());
                        }
                        let key = chars_to_string(&kb);
                        if j2 < s.len() && s[j2] == ',' {
                            proof {
                                assert(s@.skip(j2 as int)[0] == s@[j2 as int]);
                                assert(s@.skip(j2 as int).drop_first() =~= s@.skip(j2 as int + 1));
                            }
                            match p_entries_exec(s, j2 + 1) {
                                Some((mut entries, k3)) => {
                                    let ghost oe = entries@;
                                    let e = Entry { key, value: v };
                                    entries.insert(0, e);
                                    proof {
                                        assert(entries@ =~= seq![e] + oe);
                                        assert((seq![e] + oe).drop_first() =~= oe);
                                        assert((seq![e] + oe)[0] == e);
                                        assert(entry_models_of(entries@) =~= seq![
                                            (e.key@, model_of(e.value)),
                                        ] + entry_models_of(oe));
                                    }
                                    Some((entries, k3))
                                },
                                None => None,
                            }
                        } else if j2 < s.len() && s[j2] == '}' {
                            proof {
                                assert(s@.skip(j2 as int)[0] == s@[j2 as int]);
                                assert(s@.skip(j2 as int).drop_first() =~= s@.skip(j2 as int + 1));
                            }
                            let e = Entry { key, value: v };
                            let mut entries: Vec<Entry> = Vec::new();
                            entries.push(e);
                            proof {
                                assert(entries@ =~= seq![e]);
                                assert(seq![e].drop_first() =~= Seq::<Entry>::empty());
                                assert(entry_models_of(Seq::<Entry>::empty()) =~= Seq::<(
                                    Seq<char>,
                                    ValueModel,
                                )>::empty());
                                assert(entry_models_of(entries@) =~= seq![
                                    (e.key@, model_of(e.value)),
                                ]);
                            }
                            Some((entries, j2 + 1))
                        } else {
                            proof {
                                if j2 < s.len() {
                                    assert(s@.skip(j2 as int)[0] == s@[j2 as int]);
                                }
                            }
                            None
                        }
                    },
                }
            } else {
                proof {
                    if j1 < s.len() {
                        assert(after_key[0] == s@[j1 as int]);
                    }
                }
                None
            }
        },
    }
}

/// Decodes a whole wire text: one value with nothing trailing, or `None`
/// where the text is not a well-formed encoding.
pub fn decode_value(s: &str) -> (r: Option<PortValue>)
    ensures
        match r {
            Some(v) => dec_spec(s@) == Some(v.model()),
            None => dec_spec(s@) == None::<ValueModel>,
        },
{
    let cs = str_chars(s);
    proof {
        assert(cs@.skip(0) =~= s@);
    }
    match p_val_exec(&cs, 0) {
        Some((v, j)) => {
            if j == cs.len() {
                proof {
                    assert(cs@.skip(j as int).len() == 0);
                }
                Some(v)
            } else {
                proof {
                    assert(cs@.skip(j as int).len() > 0);
                }
                None
            }
        },
        None => None,
    }
}

} // verus!
