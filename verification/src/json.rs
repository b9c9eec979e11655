use vstd::prelude::*;

verus! {

/// Mathematical JSON value: the model of `Json`.
///
/// Numbers come in two forms, mirroring what the wire carries: non-negative
/// integers, and signed decimal fractions held in thousandths.
pub enum JsonV {
    Null,
    Bool(bool),
    Int(nat),
    Dec(int),
    Str(Seq<char>),
    Arr(Seq<JsonV>),
    Obj(Seq<(Seq<char>, JsonV)>),
}

/// Executable JSON value.
pub enum Json {
    Null,
    Bool(bool),
    Int(u64),
    /// A decimal fraction, in thousandths.
    Dec(i64),
    Str(String),
    Arr(Vec<Json>),
    Obj(Vec<(String, Json)>),
}

/// Model of one executable JSON value.
pub open spec fn json_view(j: Json) -> JsonV
    decreases j, 0nat,
{
    match j {
        Json::Null => JsonV::Null,
        Json::Bool(b) => JsonV::Bool(b),
        Json::Int(n) => JsonV::Int(n as nat),
        Json::Dec(t) => JsonV::Dec(t as int),
        Json::Str(s) => JsonV::Str(s@),
        Json::Arr(v) => JsonV::Arr(jsons_view(v@)),
        Json::Obj(v) => JsonV::Obj(jfields_view(v@)),
    }
}

/// Models of a sequence of executable JSON values.
pub open spec fn jsons_view(s: Seq<Json>) -> Seq<JsonV>
    decreases s, 1nat,
{
    if s.len() == 0 {
        Seq::empty()
    } else {
        seq![json_view(s[0])] + jsons_view(s.drop_first())
    }
}

/// Models of a sequence of executable JSON object fields.
pub open spec fn jfields_view(s: Seq<(String, Json)>) -> Seq<(Seq<char>, JsonV)>
    decreases s, 1nat,
{
    if s.len() == 0 {
        Seq::empty()
    } else {
        seq![(s[0].0@, json_view(s[0].1))] + jfields_view(s.drop_first())
    }
}

/// `jsons_view` maps the element model over the sequence.
pub broadcast proof fn lemma_jsons_view(s: Seq<Json>)
    ensures
        (#[trigger] jsons_view(s)).len() == s.len(),
        forall|i: int| 0 <= i < s.len() ==> jsons_view(s)[i] == json_view(s[i]),
    decreases s.len(),
{
    if s.len() > 0 {
        lemma_jsons_view(s.drop_first());
        assert forall|i: int| 0 <= i < s.len() implies jsons_view(s)[i] == json_view(s[i]) by {
            if i > 0 {
                assert(jsons_view(s)[i] == jsons_view(s.drop_first())[i - 1]);
                assert(s.drop_first()[i - 1] == s[i]);
            }
        }
    }
}

/// `jfields_view` maps the field model over the sequence.
pub broadcast proof fn lemma_jfields_view(s: Seq<(String, Json)>)
    ensures
        (#[trigger] jfields_view(s)).len() == s.len(),
        forall|i: int|
            0 <= i < s.len() ==> jfields_view(s)[i] == (s[i].0@, json_view(s[i].1)),
    decreases s.len(),
{
    if s.len() > 0 {
        lemma_jfields_view(s.drop_first());
        assert forall|i: int|
            0 <= i < s.len() implies jfields_view(s)[i] == (s[i].0@, json_view(s[i].1)) by {
            if i > 0 {
                assert(jfields_view(s)[i] == jfields_view(s.drop_first())[i - 1]);
                assert(s.drop_first()[i - 1] == s[i]);
            }
        }
    }
}

impl View for Json {
    type V = JsonV;

    open spec fn view(&self) -> JsonV {
        json_view(*self)
    }
}

/// View of an optional JSON value.
pub open spec fn json_opt_view(o: Option<Json>) -> Option<JsonV> {
    match o {
        Some(j) => Some(j@),
        None => None,
    }
}

/// First value bound to `key`, walking the fields in order; `None` when the
/// key is absent.
pub open spec fn jv_get(fields: Seq<(Seq<char>, JsonV)>, key: Seq<char>) -> Option<JsonV>
    decreases fields.len(),
{
    if fields.len() == 0 {
        None
    } else if fields[0].0 == key {
        Some(fields[0].1)
    } else {
        jv_get(fields.drop_first(), key)
    }
}

/// Two character sequences that differ at one position differ.
pub proof fn lemma_seq_ne(a: Seq<char>, b: Seq<char>, i: int)
    requires
        0 <= i < a.len(),
        0 <= i < b.len(),
        a[i] != b[i],
    ensures
        a != b,
{
}

// ---------------------------------------------------------------------------
// The canonical text of a JSON value.
// ---------------------------------------------------------------------------

/// The decimal digit character for `d` (digits ten and above never arise).
pub open spec fn digit_char(d: nat) -> char {
    if d == 0 {
        '0'
    } else if d == 1 {
        '1'
    } else if d == 2 {
        '2'
    } else if d == 3 {
        '3'
    } else if d == 4 {
        '4'
    } else if d == 5 {
        '5'
    } else if d == 6 {
        '6'
    } else if d == 7 {
        '7'
    } else if d == 8 {
        '8'
    } else {
        '9'
    }
}

/// Decimal digits of `n`, most significant first; empty for zero.
pub open spec fn spec_digits(n: nat) -> Seq<char>
    decreases n,
{
    if n == 0 {
        Seq::empty()
    } else {
        spec_digits(n / 10).push(digit_char(n % 10))
    }
}

/// Decimal text of a non-negative integer.
pub open spec fn spec_nat_text(n: nat) -> Seq<char> {
    if n == 0 {
        seq!['0']
    } else {
        spec_digits(n)
    }
}

/// Fractional digits for `f` thousandths (`f < 1000`): one to three digits,
/// trailing zeros trimmed, at least one digit.
pub open spec fn spec_frac_text(f: nat) -> Seq<char> {
    if f % 10 != 0 {
        seq![digit_char(f / 100), digit_char((f / 10) % 10), digit_char(f % 10)]
    } else if f % 100 != 0 {
        seq![digit_char(f / 100), digit_char((f / 10) % 10)]
    } else {
        seq![digit_char(f / 100)]
    }
}

/// Decimal text of a fraction held in thousandths; always carries a decimal
/// point, so that it is never mistaken for an integer.
pub open spec fn spec_dec_text(t: int) -> Seq<char> {
    let a = (if t < 0 {
        -t
    } else {
        t
    }) as nat;
    let sign: Seq<char> = if t < 0 {
        seq!['-']
    } else {
        Seq::empty()
    };
    sign + spec_nat_text(a / 1000) + seq!['.'] + spec_frac_text(a % 1000)
}

/// Escaped form of one character inside a JSON string literal.
pub open spec fn spec_escape_char(c: char) -> Seq<char> {
    if c == '"' {
        seq!['\\', '"']
    } else if c == '\\' {
        seq!['\\', '\\']
    } else if c == '\n' {
        seq!['\\', 'n']
    } else if c == '\t' {
        seq!['\\', 't']
    } else if c == '\r' {
        seq!['\\', 'r']
    } else {
        seq![c]
    }
}

/// Escaped form of a whole string body.
pub open spec fn spec_escape(s: Seq<char>) -> Seq<char>
    decreases s.len(),
{
    if s.len() == 0 {
        Seq::empty()
    } else {
        spec_escape_char(s[0]) + spec_escape(s.drop_first())
    }
}

/// The canonical text of a JSON value: compact, no whitespace, fields in
/// order.
pub open spec fn spec_json_text(j: JsonV) -> Seq<char>
    decreases j,
{
    match j {
        JsonV::Null => seq!['n', 'u', 'l', 'l'],
        JsonV::Bool(b) => if b {
            seq!['t', 'r', 'u', 'e']
        } else {
            seq!['f', 'a', 'l', 's', 'e']
        },
        JsonV::Int(n) => spec_nat_text(n),
        JsonV::Dec(t) => spec_dec_text(t),
        JsonV::Str(s) => seq!['"'] + spec_escape(s) + seq!['"'],
        JsonV::Arr(elems) => seq!['['] + spec_arr_text(elems) + seq![']'],
        JsonV::Obj(fields) => seq!['{'] + spec_obj_text(fields) + seq!['}'],
    }
}

/// Comma-separated texts of array elements.
pub open spec fn spec_arr_text(elems: Seq<JsonV>) -> Seq<char>
    decreases elems,
{
    if elems.len() == 0 {
        Seq::empty()
    } else if elems.len() == 1 {
        spec_json_text(elems[0])
    } else {
        spec_json_text(elems[0]) + seq![','] + spec_arr_text(elems.drop_first())
    }
}

/// Comma-separated `"key":value` texts of object fields.
pub open spec fn spec_obj_text(fields: Seq<(Seq<char>, JsonV)>) -> Seq<char>
    decreases fields,
{
    if fields.len() == 0 {
        Seq::empty()
    } else {
        let head = seq!['"'] + spec_escape(fields[0].0) + seq!['"', ':'] + spec_json_text(
            fields[0].1,
        );
        if fields.len() == 1 {
            head
        } else {
            head + seq![','] + spec_obj_text(fields.drop_first())
        }
    }
}

// ---------------------------------------------------------------------------
// The grammar accepted on the wire, as a recursive-descent specification.
// Compact form only: no whitespace between tokens.
// ---------------------------------------------------------------------------

pub open spec fn is_digit(c: char) -> bool {
    '0' <= c && c <= '9'
}

/// Numeric value of a digit character.
pub open spec fn digit_val(c: char) -> nat {
    (c as nat - '0' as nat) as nat
}

/// Whether `s` carries the word `w` starting at `i`.
pub open spec fn sp_has(s: Seq<char>, i: int, w: Seq<char>) -> bool {
    i + w.len() <= s.len() && s.subrange(i, i + w.len()) == w
}

/// End of the digit run starting at `i`.
pub open spec fn sp_digits_end(s: Seq<char>, i: int) -> int
    decreases s.len() - i when 0 <= i <= s.len()
{
    if i < s.len() && is_digit(s[i]) {
        sp_digits_end(s, i + 1)
    } else {
        i
    }
}

/// Value of the digits `s[i..j)`.
pub open spec fn sp_digits_val(s: Seq<char>, i: int, j: int) -> nat
    decreases j - i,
{
    if i >= j {
        0
    } else {
        sp_digits_val(s, i, j - 1) * 10 + digit_val(s[j - 1])
    }
}

pub open spec fn pow10(k: nat) -> nat
    decreases k,
{
    if k == 0 {
        1
    } else {
        10 * pow10((k - 1) as nat)
    }
}

/// Parse a number at `i` (first character a digit or a minus sign).
///
/// A plain digit run is an integer; a minus sign or a fractional part makes
/// it a decimal read in thousandths, with one to three fractional digits.
/// Leading zeros and values out of machine range are refused.
pub open spec fn sp_number(s: Seq<char>, i: int) -> Option<(JsonV, int)> {
    let neg = s[i] == '-';
    let d0 = if neg {
        i + 1
    } else {
        i
    };
    let d1 = sp_digits_end(s, d0);
    if d1 == d0 {
        None
    } else if s[d0] == '0' && d1 > d0 + 1 {
        None
    } else {
        let units = sp_digits_val(s, d0, d1);
        if d1 < s.len() && s[d1] == '.' {
            let f0 = d1 + 1;
            let f1 = sp_digits_end(s, f0);
            if f1 == f0 || f1 - f0 > 3 {
                None
            } else if units > (i64::MAX - 999) / 1000 {
                None
            } else {
                let frac = sp_digits_val(s, f0, f1) * pow10((3 - (f1 - f0)) as nat);
                let t = (units * 1000 + frac) as int;
                Some((JsonV::Dec(if neg { -t } else { t }), f1))
            }
        } else if neg {
            if units > (i64::MAX - 999) / 1000 {
                None
            } else {
                Some((JsonV::Dec(-(units as int * 1000)), d1))
            }
        } else if units > u64::MAX {
            None
        } else {
            Some((JsonV::Int(units), d1))
        }
    }
}

/// The character named by an escape, if the escape is accepted.
pub open spec fn sp_unescape(c: char) -> Option<char> {
    if c == '"' {
        Some('"')
    } else if c == '\\' {
        Some('\\')
    } else if c == 'n' {
        Some('\n')
    } else if c == 't' {
        Some('\t')
    } else if c == 'r' {
        Some('\r')
    } else {
        None
    }
}

/// Parse a string body from `i` (just past the opening quote) to its closing
/// quote; yields the unescaped characters and the index just past the quote.
pub open spec fn sp_string_body(s: Seq<char>, i: int) -> Option<(Seq<char>, int)>
    decreases s.len() - i when 0 <= i <= s.len()
{
    if i >= s.len() {
        None
    } else if s[i] == '"' {
        Some((Seq::empty(), i + 1))
    } else if s[i] == '\\' {
        if i + 1 < s.len() {
            match sp_unescape(s[i + 1]) {
                None => None,
                Some(c) => match sp_string_body(s, i + 2) {
                    None => None,
                    Some((rest, j)) => Some((seq![c] + rest, j)),
                },
            }
        } else {
            None
        }
    } else {
        match sp_string_body(s, i + 1) {
            None => None,
            Some((rest, j)) => Some((seq![s[i]] + rest, j)),
        }
    }
}

/// Parse one JSON value at `i`; yields the value and the index just past it.
pub open spec fn sp_value(s: Seq<char>, i: int) -> Option<(JsonV, int)>
    decreases s.len() - i, 1int when 0 <= i <= s.len()
{
    if i >= s.len() {
        None
    } else {
        let c = s[i];
        if c == 'n' {
            if sp_has(s, i, seq!['n', 'u', 'l', 'l']) {
                Some((JsonV::Null, i + 4))
            } else {
                None
            }
        } else if c == 't' {
            if sp_has(s, i, seq!['t', 'r', 'u', 'e']) {
                Some((JsonV::Bool(true), i + 4))
            } else {
                None
            }
        } else if c == 'f' {
            if sp_has(s, i, seq!['f', 'a', 'l', 's', 'e']) {
                Some((JsonV::Bool(false), i + 5))
            } else {
                None
            }
        } else if c == '"' {
            match sp_string_body(s, i + 1) {
                None => None,
                Some((cs, j)) => Some((JsonV::Str(cs), j)),
            }
        } else if c == '[' {
            if i + 1 < s.len() && s[i + 1] == ']' {
                Some((JsonV::Arr(Seq::empty()), i + 2))
            } else {
                match sp_elems(s, i + 1) {
                    None => None,
                    Some((es, j)) => if j < s.len() && s[j] == ']' {
                        Some((JsonV::Arr(es), j + 1))
                    } else {
                        None
                    },
                }
            }
        } else if c == '{' {
            if i + 1 < s.len() && s[i + 1] == '}' {
                Some((JsonV::Obj(Seq::empty()), i + 2))
            } else {
                match sp_members(s, i + 1) {
                    None => None,
                    Some((fs, j)) => if j < s.len() && s[j] == '}' {
                        Some((JsonV::Obj(fs), j + 1))
                    } else {
                        None
                    },
                }
            }
        } else if c == '-' || is_digit(c) {
            sp_number(s, i)
        } else {
            None
        }
    }
}

/// Parse one or more comma-separated values.
pub open spec fn sp_elems(s: Seq<char>, i: int) -> Option<(Seq<JsonV>, int)>
    decreases s.len() - i, 2int when 0 <= i <= s.len()
{
    match sp_value(s, i) {
        None => None,
        Some((v, j)) => if !(i < j <= s.len()) {
            None
        } else if j < s.len() && s[j] == ',' {
            match sp_elems(s, j + 1) {
                None => None,
                Some((rest, k)) => Some((seq![v] + rest, k)),
            }
        } else {
            Some((seq![v], j))
        },
    }
}

/// Parse one or more comma-separated `"key":value` members.
pub open spec fn sp_members(s: Seq<char>, i: int) -> Option<(Seq<(Seq<char>, JsonV)>, int)>
    decreases s.len() - i, 2int when 0 <= i <= s.len()
{
    if i >= s.len() || s[i] != '"' {
        None
    } else {
        match sp_string_body(s, i + 1) {
            None => None,
            Some((key, j)) => if !(i < j < s.len()) || s[j] != ':' {
                None
            } else {
                match sp_value(s, j + 1) {
                    None => None,
                    Some((v, k)) => if !(j < k <= s.len()) {
                        None
                    } else if k < s.len() && s[k] == ',' {
                        match sp_members(s, k + 1) {
                            None => None,
                            Some((rest, m)) => Some((seq![(key, v)] + rest, m)),
                        }
                    } else {
                        Some((seq![(key, v)], k))
                    },
                }
            },
        }
    }
}

/// Parse a whole message: one value covering the entire text.
pub open spec fn sp_json(s: Seq<char>) -> Option<JsonV> {
    match sp_value(s, 0) {
        None => None,
        Some((v, j)) => if j == s.len() {
            Some(v)
        } else {
            None
        },
    }
}

// ---------------------------------------------------------------------------
// Conversions between text and character vectors.
// ---------------------------------------------------------------------------

/// Relies on `String`'s `FromIterator<char>`: collecting characters yields a
/// string of exactly those characters, in order.
#[verifier::external_body]
pub fn string_from_chars(v: &Vec<char>) -> (r: String)
    ensures
        r@ == v@,
{
    v.iter().collect()
}

/// Relies on `str::chars`: iterating a string slice yields its characters in
/// order.
#[verifier::external_body]
pub fn chars_of_str(s: &str) -> (r: Vec<char>)
    ensures
        r@ == s@,
{
    s.chars().collect()
}

// ---------------------------------------------------------------------------
// Printing: the canonical text, built character by character.
// ---------------------------------------------------------------------------

/// The decimal digit character for `d`.
fn dchar(d: u64) -> (c: char)
    requires
        d < 10,
    ensures
        c == digit_char(d as nat),
{
    if d == 0 {
        '0'
    } else if d == 1 {
        '1'
    } else if d == 2 {
        '2'
    } else if d == 3 {
        '3'
    } else if d == 4 {
        '4'
    } else if d == 5 {
        '5'
    } else if d == 6 {
        '6'
    } else if d == 7 {
        '7'
    } else if d == 8 {
        '8'
    } else {
        '9'
    }
}

/// Append the digits of `n` (nothing for zero).
fn enc_digits(n: u64, out: &mut Vec<char>)
    ensures
        final(out)@ == old(out)@ + spec_digits(n as nat),
    decreases n,
{
    if n == 0 {
        assert(final(out)@ =~= old(out)@ + spec_digits(0));
    } else {
        enc_digits(n / 10, out);
        out.push(dchar(n % 10));
    }
}

/// Append the decimal text of `n`.
fn enc_u64(n: u64, out: &mut Vec<char>)
    ensures
        final(out)@ == old(out)@ + spec_nat_text(n as nat),
{
    if n == 0 {
        out.push('0');
        assert(final(out)@ =~= old(out)@ + spec_nat_text(0));
    } else {
        enc_digits(n, out);
    }
}

/// Append the fractional digits for `f` thousandths.
fn enc_frac(f: u64, out: &mut Vec<char>)
    requires
        f < 1000,
    ensures
        final(out)@ == old(out)@ + spec_frac_text(f as nat),
{
    if f % 10 != 0 {
        out.push(dchar(f / 100));
        out.push(dchar((f / 10) % 10));
        out.push(dchar(f % 10));
        assert(final(out)@ =~= old(out)@ + spec_frac_text(f as nat));
    } else if f % 100 != 0 {
        out.push(dchar(f / 100));
        out.push(dchar((f / 10) % 10));
        assert(final(out)@ =~= old(out)@ + spec_frac_text(f as nat));
    } else {
        out.push(dchar(f / 100));
        assert(final(out)@ =~= old(out)@ + spec_frac_text(f as nat));
    }
}

/// Append the decimal text of `t` thousandths.
fn enc_dec(t: i64, out: &mut Vec<char>)
    ensures
        final(out)@ == old(out)@ + spec_dec_text(t as int),
{
    if t < 0 {
        out.push('-');
    }
    let a: u64 = if t >= 0 {
        t as u64
    } else {
        ((-(t + 1)) as u64) + 1
    };
    assert(a == (if t < 0 { -(t as int) } else { t as int }));
    enc_u64(a / 1000, out);
    out.push('.');
    enc_frac(a % 1000, out);
    assert(final(out)@ =~= old(out)@ + spec_dec_text(t as int));
}

/// Append the escaped form of the characters of `cs` from `k` on.
fn enc_escaped(cs: &Vec<char>, k: usize, out: &mut Vec<char>)
    requires
        k <= cs@.len(),
    ensures
        final(out)@ == old(out)@ + spec_escape(cs@.skip(k as int)),
    decreases cs@.len() - k,
{
    if k == cs.len() {
        assert(final(out)@ =~= old(out)@ + spec_escape(cs@.skip(k as int)));
    } else {
        let c = cs[k];
        if c == '"' {
            out.push('\\');
            out.push('"');
        } else if c == '\\' {
            out.push('\\');
            out.push('\\');
        } else if c == '\n' {
            out.push('\\');
            out.push('n');
        } else if c == '\t' {
            out.push('\\');
            out.push('t');
        } else if c == '\r' {
            out.push('\\');
            out.push('r');
        } else {
            out.push(c);
        }
        let ghost mid = out@;
        assert(mid =~= old(out)@ + spec_escape_char(cs@[k as int]));
        enc_escaped(cs, k + 1, out);
        proof {
            assert(cs@.skip(k as int)[0] == cs@[k as int]);
            assert(cs@.skip(k as int).drop_first() =~= cs@.skip(k as int + 1));
            assert(final(out)@ =~= old(out)@ + spec_escape(cs@.skip(k as int)));
        }
    }
}

/// Append a whole string literal, quotes and escapes included.
fn enc_string(s: &String, out: &mut Vec<char>)
    ensures
        final(out)@ == old(out)@ + seq!['"'] + spec_escape(s@) + seq!['"'],
{
    out.push('"');
    let cs = chars_of_str(s.as_str());
    proof {
        assert(cs@.skip(0) =~= s@);
    }
    enc_escaped(&cs, 0, out);
    out.push('"');
}

/// Append the canonical text of `j`.
fn enc_value(j: &Json, out: &mut Vec<char>)
    ensures
        final(out)@ == old(out)@ + spec_json_text(j@),
    decreases j, 0nat, 0nat,
{
    match j {
        Json::Null => {
            out.push('n');
            out.push('u');
            out.push('l');
            out.push('l');
            assert(final(out)@ =~= old(out)@ + spec_json_text(j@));
        },
        Json::Bool(b) => {
            if *b {
                out.push('t');
                out.push('r');
                out.push('u');
                out.push('e');
            } else {
                out.push('f');
                out.push('a');
                out.push('l');
                out.push('s');
                out.push('e');
            }
            assert(final(out)@ =~= old(out)@ + spec_json_text(j@));
        },
        Json::Int(n) => {
            enc_u64(*n, out);
        },
        Json::Dec(t) => {
            enc_dec(*t, out);
        },
        Json::Str(s) => {
            enc_string(s, out);
            assert(final(out)@ =~= old(out)@ + spec_json_text(j@));
        },
        Json::Arr(v) => {
            out.push('[');
            enc_items(v, 0, out);
            out.push(']');
            proof {
                let elems = j@->Arr_0;
                assert(elems.skip(0) =~= elems);
                assert(final(out)@ =~= old(out)@ + spec_json_text(j@));
            }
        },
        Json::Obj(f) => {
            out.push('{');
            enc_members(f, 0, out);
            out.push('}');
            proof {
                let fields = j@->Obj_0;
                assert(fields.skip(0) =~= fields);
                assert(final(out)@ =~= old(out)@ + spec_json_text(j@));
            }
        },
    }
}

/// Append the comma-separated texts of the elements of `v` from `k` on.
fn enc_items(v: &Vec<Json>, k: usize, out: &mut Vec<char>)
    requires
        k <= v@.len(),
    ensures
        final(out)@ == old(out)@ + spec_arr_text(jsons_view(v@).skip(k as int)),
    decreases v@, v@.len() - k, 1nat,
{
    proof {
        lemma_jsons_view(v@);
    }
    let ghost elems = jsons_view(v@).skip(k as int);
    if k == v.len() {
        assert(final(out)@ =~= old(out)@ + spec_arr_text(elems));
    } else {
        proof {
            assert(decreases_to!(v@ => v@[k as int]));
        }
        enc_value(&v[k], out);
        if k + 1 < v.len() {
            out.push(',');
        }
        enc_items(v, k + 1, out);
        proof {
            assert(elems[0] == v@[k as int]@);
            assert(elems.drop_first() =~= jsons_view(v@).skip(k as int + 1));
            if k + 1 == v.len() {
                assert(elems.len() == 1);
                assert(final(out)@ =~= old(out)@ + spec_arr_text(elems));
            } else {
                assert(final(out)@ =~= old(out)@ + spec_arr_text(elems));
            }
        }
    }
}

/// Append the comma-separated `"key":value` texts of the fields of `f` from
/// `k` on.
fn enc_members(f: &Vec<(String, Json)>, k: usize, out: &mut Vec<char>)
    requires
        k <= f@.len(),
    ensures
        final(out)@ == old(out)@ + spec_obj_text(jfields_view(f@).skip(k as int)),
    decreases f@, f@.len() - k, 1nat,
{
    proof {
        lemma_jfields_view(f@);
    }
    let ghost fields = jfields_view(f@).skip(k as int);
    if k == f.len() {
        assert(final(out)@ =~= old(out)@ + spec_obj_text(fields));
    } else {
        enc_string(&f[k].0, out);
        out.push(':');
        proof {
            assert(decreases_to!(f@ => f@[k as int]));
            assert(decreases_to!(f@[k as int] => f@[k as int].1));
        }
        enc_value(&f[k].1, out);
        if k + 1 < f.len() {
            out.push(',');
        }
        enc_members(f, k + 1, out);
        proof {
            assert(fields[0] == (f@[k as int].0@, f@[k as int].1@));
            assert(fields.drop_first() =~= jfields_view(f@).skip(k as int + 1));
            if k + 1 == f.len() {
                assert(fields.len() == 1);
                assert(final(out)@ =~= old(out)@ + spec_obj_text(fields));
            } else {
                assert(final(out)@ =~= old(out)@ + spec_obj_text(fields));
            }
        }
    }
}

/// The canonical text of `j`: compact JSON, fields in order.
pub fn json_to_string(j: &Json) -> (r: String)
    ensures
        r@ == spec_json_text(j@),
{
    let mut out: Vec<char> = Vec::new();
    enc_value(j, &mut out);
    string_from_chars(&out)
}

// ---------------------------------------------------------------------------
// Reading: a recursive-descent parser, the exact image of the grammar above.
// ---------------------------------------------------------------------------

/// Whether `c` is a decimal digit, executably.
fn is_digit_x(c: char) -> (r: bool)
    ensures
        r == is_digit(c),
{
    let u = c as u32;
    48 <= u && u <= 57
}

/// End of the digit run starting at `from`.
fn digits_end(s: &Vec<char>, from: usize) -> (e: usize)
    requires
        from <= s@.len(),
    ensures
        e == sp_digits_end(s@, from as int),
        from <= e <= s@.len(),
        forall|k: int| from <= k < e ==> is_digit(s@[k]),
    decreases s@.len() - from,
{
    if from < s.len() && is_digit_x(s[from]) {
        digits_end(s, from + 1)
    } else {
        from
    }
}

/// The value of a digit run never shrinks as the run grows.
proof fn lemma_digits_val_mono(s: Seq<char>, i: int, j: int, k: int)
    requires
        i <= j <= k,
    ensures
        sp_digits_val(s, i, j) <= sp_digits_val(s, i, k),
    decreases k - j,
{
    if j < k {
        lemma_digits_val_mono(s, i, j, k - 1);
    }
}

/// A run of `j - i` digits has value below `pow10(j - i)`.
proof fn lemma_digits_val_bound(s: Seq<char>, i: int, j: int)
    requires
        i <= j,
        forall|k: int| i <= k < j ==> is_digit(s[k]),
    ensures
        sp_digits_val(s, i, j) < pow10((j - i) as nat),
    decreases j - i,
{
    if i < j {
        lemma_digits_val_bound(s, i, j - 1);
    }
}

/// Value of the digit run `s[from..to)` when it fits a `u64`.
fn digits_val_u64(s: &Vec<char>, from: usize, to: usize) -> (r: Option<u64>)
    requires
        from <= to <= s@.len(),
        forall|k: int| from <= k < to ==> is_digit(s@[k]),
    ensures
        match r {
            Some(u) => u == sp_digits_val(s@, from as int, to as int),
            None => sp_digits_val(s@, from as int, to as int) > u64::MAX,
        },
    decreases to - from,
{
    digits_val_u64_acc(s, from, from, to, 0)
}

/// Accumulating reading of a digit run: `acc` is the value of `s[from..cur)`.
fn digits_val_u64_acc(s: &Vec<char>, from: usize, cur: usize, to: usize, acc: u64) -> (r: Option<
    u64,
>)
    requires
        from <= cur <= to <= s@.len(),
        forall|k: int| from <= k < to ==> is_digit(s@[k]),
        acc == sp_digits_val(s@, from as int, cur as int),
    ensures
        match r {
            Some(u) => u == sp_digits_val(s@, from as int, to as int),
            None => sp_digits_val(s@, from as int, to as int) > u64::MAX,
        },
    decreases to - cur,
{
    if cur == to {
        Some(acc)
    } else {
        let d: u64 = (s[cur] as u32 - 48) as u64;
        assert(d == digit_val(s@[cur as int]));
        match acc.checked_mul(10) {
            None => {
                proof {
                    assert(sp_digits_val(s@, from as int, cur as int + 1) == acc * 10 + d);
                    lemma_digits_val_mono(s@, from as int, cur as int + 1, to as int);
                }
                None
            },
            Some(m) => match m.checked_add(d) {
                None => {
                    proof {
                        assert(sp_digits_val(s@, from as int, cur as int + 1) == acc * 10 + d);
                        lemma_digits_val_mono(s@, from as int, cur as int + 1, to as int);
                    }
                    None
                },
                Some(v) => {
                    assert(v == sp_digits_val(s@, from as int, cur as int + 1));
                    digits_val_u64_acc(s, from, cur + 1, to, v)
                },
            },
        }
    }
}

/// Scale a fractional digit value of `flen` digits to thousandths.
fn scale_frac(frac: u64, flen: usize) -> (r: u64)
    requires
        1 <= flen <= 3,
        frac < pow10(flen as nat),
    ensures
        r == frac * pow10((3 - flen) as nat),
        r < 1000,
{
    proof {
        assert(pow10(0) == 1 && pow10(1) == 10 && pow10(2) == 100 && pow10(3) == 1000) by {
            reveal_with_fuel(pow10, 5);
        }
    }
    if flen == 1 {
        proof {
            assert(pow10((3 - flen) as nat) == 100);
            assert(frac * pow10((3 - flen) as nat) == frac * 100) by (nonlinear_arith)
                requires
                    pow10((3 - flen) as nat) == 100,
            ;
        }
        frac * 100
    } else if flen == 2 {
        proof {
            assert(pow10((3 - flen) as nat) == 10);
            assert(frac * pow10((3 - flen) as nat) == frac * 10) by (nonlinear_arith)
                requires
                    pow10((3 - flen) as nat) == 10,
            ;
        }
        frac * 10
    } else {
        proof {
            assert(pow10((3 - flen) as nat) == 1);
            assert(frac * pow10((3 - flen) as nat) == frac) by (nonlinear_arith)
                requires
                    pow10((3 - flen) as nat) == 1,
            ;
        }
        frac
    }
}

/// Parse a number at `i`.
fn p_number(s: &Vec<char>, i: usize) -> (r: Option<(Json, usize)>)
    requires
        i < s@.len(),
        s@[i as int] == '-' || is_digit(s@[i as int]),
    ensures
        match sp_number(s@, i as int) {
            None => r is None,
            Some((jv, j)) => {
                &&& r matches Some(p)
                &&& p.0@ == jv
                &&& p.1 == j
                &&& i < j <= s@.len()
            },
        },
{
    let n = s.len();
    let neg = s[i] == '-';
    let d0: usize = if neg {
        i + 1
    } else {
        i
    };
    let e = digits_end(s, d0);
    if e == d0 {
        return None;
    }
    if s[d0] == '0' && e > d0 + 1 {
        return None;
    }
    let limit: u64 = ((i64::MAX - 999) / 1000) as u64;
    let units_opt = digits_val_u64(s, d0, e);
    match units_opt {
        None => {
            assert(sp_digits_val(s@, d0 as int, e as int) > u64::MAX);
            None
        },
        Some(units) => {
            if e < s.len() && s[e] == '.' {
                let f0: usize = e + 1;
                let f1 = digits_end(s, f0);
                let flen: usize = f1 - f0;
                if flen == 0 || flen > 3 {
                    return None;
                }
                if units > limit {
                    return None;
                }
                proof {
                    lemma_digits_val_bound(s@, f0 as int, f1 as int);
                    assert(pow10(0) == 1 && pow10(1) == 10 && pow10(2) == 100 && pow10(3)
                        == 1000) by {
                        reveal_with_fuel(pow10, 5);
                    }
                }
                let frac = match digits_val_u64(s, f0, f1) {
                    Some(fr) => fr,
                    None => {
                        proof {
                            assert(false);
                        }
                        0
                    },
                };
                assert(frac < pow10(flen as nat));
                let scaled: u64 = scale_frac(frac, flen);
                let t: u64 = units * 1000 + scaled;
                let tv: i64 = t as i64;
                if neg {
                    Some((Json::Dec(-tv), f1))
                } else {
                    Some((Json::Dec(tv), f1))
                }
            } else if neg {
                if units > limit {
                    return None;
                }
                let t: u64 = units * 1000;
                Some((Json::Dec(-(t as i64)), e))
            } else {
                Some((Json::Int(units), e))
            }
        },
    }
}

/// Parse a string body from `i` (just past the opening quote).
fn p_string_body(s: &Vec<char>, i: usize) -> (r: Option<(Vec<char>, usize)>)
    requires
        i <= s@.len(),
    ensures
        match sp_string_body(s@, i as int) {
            None => r is None,
            Some((cs, j)) => {
                &&& r matches Some(p)
                &&& p.0@ == cs
                &&& p.1 == j
                &&& i < j <= s@.len()
            },
        },
    decreases s@.len() - i,
{
    if i >= s.len() {
        return None;
    }
    let c = s[i];
    if c == '"' {
        let empty: Vec<char> = Vec::new();
        proof {
            assert(empty@ =~= Seq::<char>::empty());
        }
        Some((empty, i + 1))
    } else if c == '\\' {
        if i + 1 < s.len() {
            let esc = s[i + 1];
            let unescaped: Option<char> = if esc == '"' {
                Some('"')
            } else if esc == '\\' {
                Some('\\')
            } else if esc == 'n' {
                Some('\n')
            } else if esc == 't' {
                Some('\t')
            } else if esc == 'r' {
                Some('\r')
            } else {
                None
            };
            assert(unescaped == sp_unescape(s@[i as int + 1]));
            match unescaped {
                None => None,
                Some(u) => match p_string_body(s, i + 2) {
                    None => None,
                    Some((mut rest, j)) => {
                        rest.insert(0, u);
                        proof {
                            let spec_r = sp_string_body(s@, i as int)->Some_0;
                            assert(rest@ =~= spec_r.0);
                        }
                        Some((rest, j))
                    },
                },
            }
        } else {
            None
        }
    } else {
        match p_string_body(s, i + 1) {
            None => None,
            Some((mut rest, j)) => {
                rest.insert(0, c);
                proof {
                    let spec_r = sp_string_body(s@, i as int)->Some_0;
                    assert(rest@ =~= spec_r.0);
                }
                Some((rest, j))
            },
        }
    }
}

/// Parse one JSON value at `i`.
fn p_value(s: &Vec<char>, i: usize) -> (r: Option<(Json, usize)>)
    requires
        i <= s@.len(),
    ensures
        match sp_value(s@, i as int) {
            None => r is None,
            Some((jv, j)) => {
                &&& r matches Some(p)
                &&& p.0@ == jv
                &&& p.1 == j
                &&& i < j <= s@.len()
            },
        },
    decreases s@.len() - i, 1nat,
{
    if i >= s.len() {
        return None;
    }
    let n = s.len();
    let c = s[i];
    if c == 'n' {
        if n - i >= 4 && s[i + 1] == 'u' && s[i + 2] == 'l' && s[i + 3] == 'l' {
            proof {
                assert(s@.subrange(i as int, i as int + 4) =~= seq!['n', 'u', 'l', 'l']);
            }
            Some((Json::Null, i + 4))
        } else {
            proof {
                if sp_has(s@, i as int, seq!['n', 'u', 'l', 'l']) {
                    assert(s@.subrange(i as int, i as int + 4)[1] == s@[i as int + 1]);
                    assert(s@.subrange(i as int, i as int + 4)[2] == s@[i as int + 2]);
                    assert(s@.subrange(i as int, i as int + 4)[3] == s@[i as int + 3]);
                }
            }
            None
        }
    } else if c == 't' {
        if n - i >= 4 && s[i + 1] == 'r' && s[i + 2] == 'u' && s[i + 3] == 'e' {
            proof {
                assert(s@.subrange(i as int, i as int + 4) =~= seq!['t', 'r', 'u', 'e']);
            }
            Some((Json::Bool(true), i + 4))
        } else {
            proof {
                if sp_has(s@, i as int, seq!['t', 'r', 'u', 'e']) {
                    assert(s@.subrange(i as int, i as int + 4)[1] == s@[i as int + 1]);
                    assert(s@.subrange(i as int, i as int + 4)[2] == s@[i as int + 2]);
                    assert(s@.subrange(i as int, i as int + 4)[3] == s@[i as int + 3]);
                }
            }
            None
        }
    } else if c == 'f' {
        if n - i >= 5 && s[i + 1] == 'a' && s[i + 2] == 'l' && s[i + 3] == 's' && s[i + 4]
            == 'e' {
            proof {
                assert(s@.subrange(i as int, i as int + 5) =~= seq!['f', 'a', 'l', 's', 'e']);
            }
            Some((Json::Bool(false), i + 5))
        } else {
            proof {
                if sp_has(s@, i as int, seq!['f', 'a', 'l', 's', 'e']) {
                    assert(s@.subrange(i as int, i as int + 5)[1] == s@[i as int + 1]);
                    assert(s@.subrange(i as int, i as int + 5)[2] == s@[i as int + 2]);
                    assert(s@.subrange(i as int, i as int + 5)[3] == s@[i as int + 3]);
                    assert(s@.subrange(i as int, i as int + 5)[4] == s@[i as int + 4]);
                }
            }
            None
        }
    } else if c == '"' {
        match p_string_body(s, i + 1) {
            None => None,
            Some((cs, j)) => Some((Json::Str(string_from_chars(&cs)), j)),
        }
    } else if c == '[' {
        if i + 1 < s.len() && s[i + 1] == ']' {
            let v: Vec<Json> = Vec::new();
            proof {
                assert(jsons_view(v@) == Seq::<JsonV>::empty());
            }
            Some((Json::Arr(v), i + 2))
        } else {
            match p_elems(s, i + 1) {
                None => None,
                Some((es, j)) => {
                    if j < s.len() && s[j] == ']' {
                        Some((Json::Arr(es), j + 1))
                    } else {
                        None
                    }
                },
            }
        }
    } else if c == '{' {
        if i + 1 < s.len() && s[i + 1] == '}' {
            let v: Vec<(String, Json)> = Vec::new();
            proof {
                assert(jfields_view(v@) == Seq::<(Seq<char>, JsonV)>::empty());
            }
            Some((Json::Obj(v), i + 2))
        } else {
            match p_members(s, i + 1) {
                None => None,
                Some((fs, j)) => {
                    if j < s.len() && s[j] == '}' {
                        Some((Json::Obj(fs), j + 1))
                    } else {
                        None
                    }
                },
            }
        }
    } else if c == '-' || is_digit_x(c) {
        p_number(s, i)
    } else {
        None
    }
}

/// Parse one or more comma-separated values.
fn p_elems(s: &Vec<char>, i: usize) -> (r: Option<(Vec<Json>, usize)>)
    requires
        i <= s@.len(),
    ensures
        match sp_elems(s@, i as int) {
            None => r is None,
            Some((jvs, j)) => {
                &&& r matches Some(p)
                &&& jsons_view(p.0@) == jvs
                &&& p.1 == j
                &&& i < j <= s@.len()
            },
        },
    decreases s@.len() - i, 2nat,
{
    match p_value(s, i) {
        None => None,
        Some((v, j)) => {
            if j < s.len() && s[j] == ',' {
                match p_elems(s, j + 1) {
                    None => None,
                    Some((mut rest, k)) => {
                        let ghost rest0 = rest@;
                        rest.insert(0, v);
                        proof {
                            let spec_r = sp_elems(s@, i as int)->Some_0;
                            lemma_jsons_view(rest@);
                            lemma_jsons_view(rest0);
                            assert(rest@[0] == v);
                            assert(jsons_view(rest@) =~= spec_r.0);
                        }
                        Some((rest, k))
                    },
                }
            } else {
                let mut one: Vec<Json> = Vec::new();
                one.push(v);
                proof {
                    let spec_r = sp_elems(s@, i as int)->Some_0;
                    lemma_jsons_view(one@);
                    assert(one@[0] == v);
                    assert(jsons_view(one@) =~= spec_r.0);
                }
                Some((one, j))
            }
        },
    }
}

/// Parse one or more comma-separated `"key":value` members.
fn p_members(s: &Vec<char>, i: usize) -> (r: Option<(Vec<(String, Json)>, usize)>)
    requires
        i <= s@.len(),
    ensures
        match sp_members(s@, i as int) {
            None => r is None,
            Some((jfs, j)) => {
                &&& r matches Some(p)
                &&& jfields_view(p.0@) == jfs
                &&& p.1 == j
                &&& i < j <= s@.len()
            },
        },
    decreases s@.len() - i, 2nat,
{
    if i >= s.len() || s[i] != '"' {
        return None;
    }
    match p_string_body(s, i + 1) {
        None => None,
        Some((kcs, j)) => {
            if !(j < s.len()) || s[j] != ':' {
                return None;
            }
            match p_value(s, j + 1) {
                None => None,
                Some((v, k)) => {
                    let key = string_from_chars(&kcs);
                    if k < s.len() && s[k] == ',' {
                        match p_members(s, k + 1) {
                            None => None,
                            Some((mut rest, m)) => {
                                let ghost rest0 = rest@;
                                rest.insert(0, (key, v));
                                proof {
                                    let spec_r = sp_members(s@, i as int)->Some_0;
                                    lemma_jfields_view(rest@);
                                    lemma_jfields_view(rest0);
                                    assert(rest@[0] == (key, v));
                                    assert(jfields_view(rest@) =~= spec_r.0);
                                }
                                Some((rest, m))
                            },
                        }
                    } else {
                        let mut one: Vec<(String, Json)> = Vec::new();
                        one.push((key, v));
                        proof {
                            let spec_r = sp_members(s@, i as int)->Some_0;
                            lemma_jfields_view(one@);
                            assert(one@[0] == (key, v));
                            assert(jfields_view(one@) =~= spec_r.0);
                        }
                        Some((one, k))
                    }
                },
            }
        },
    }
}

// ---------------------------------------------------------------------------
// The canonical text reads back: printing and parsing are inverse.
// ---------------------------------------------------------------------------

/// The largest magnitude of thousandths the number grammar reads back.
pub open spec fn dec_max() -> int {
    ((i64::MAX - 999) / 1000) * 1000 + 999
}

/// Values whose canonical text stays within what the grammar reads back:
/// integers within machine range and decimals within `dec_max`.
pub open spec fn jv_bounded(j: JsonV) -> bool
    decreases j,
{
    match j {
        JsonV::Null => true,
        JsonV::Bool(b) => true,
        JsonV::Int(n) => n <= u64::MAX,
        JsonV::Dec(t) => -dec_max() <= t <= dec_max(),
        JsonV::Str(s) => true,
        JsonV::Arr(elems) => forall|i: int|
            0 <= i < elems.len() ==> jv_bounded(#[trigger] elems[i]),
        JsonV::Obj(fields) => forall|i: int|
            0 <= i < fields.len() ==> jv_bounded(#[trigger] fields[i].1),
    }
}

/// A digit character is a digit and names its value.
proof fn lemma_digit_char(d: nat)
    requires
        d < 10,
    ensures
        is_digit(digit_char(d)),
        digit_val(digit_char(d)) == d,
{
}

/// The digits of `n` are digits, and never start with zero.
proof fn lemma_digits_shape(n: nat)
    ensures
        forall|i: int| 0 <= i < spec_digits(n).len() ==> is_digit(#[trigger] spec_digits(n)[i]),
        n > 0 ==> spec_digits(n).len() >= 1 && spec_digits(n)[0] != '0',
    decreases n,
{
    if n > 0 {
        lemma_digits_shape(n / 10);
        lemma_digit_char(n % 10);
        assert forall|i: int| 0 <= i < spec_digits(n).len() implies is_digit(
            #[trigger] spec_digits(n)[i],
        ) by {
            if i < spec_digits(n / 10).len() {
                assert(spec_digits(n)[i] == spec_digits(n / 10)[i]);
            } else {
                assert(spec_digits(n)[i] == digit_char(n % 10));
            }
        }
        if n / 10 > 0 {
            assert(spec_digits(n)[0] == spec_digits(n / 10)[0]);
        } else {
            assert(spec_digits(n / 10) =~= Seq::<char>::empty());
            assert(spec_digits(n) =~= seq![digit_char(n % 10)]);
            assert(n % 10 == n);
        }
    }
}

/// The text of a non-negative integer is all digits and starts with zero
/// only when it is exactly "0".
proof fn lemma_nat_text_shape(n: nat)
    ensures
        spec_nat_text(n).len() >= 1,
        forall|i: int|
            0 <= i < spec_nat_text(n).len() ==> is_digit(#[trigger] spec_nat_text(n)[i]),
        spec_nat_text(n)[0] == '0' ==> spec_nat_text(n).len() == 1,
{
    lemma_digits_shape(n);
}

/// Reading the digits of `n` back gives `n`, wherever the digits stand.
proof fn lemma_digits_val_inverse(s: Seq<char>, i: int, n: nat)
    requires
        0 <= i,
        i + spec_digits(n).len() <= s.len(),
        s.subrange(i, i + spec_digits(n).len() as int) == spec_digits(n),
    ensures
        sp_digits_val(s, i, i + spec_digits(n).len() as int) == n,
    decreases n,
{
    let w = spec_digits(n);
    if n == 0 {
        assert(w.len() == 0);
    } else {
        let wp = spec_digits(n / 10);
        lemma_digit_char(n % 10);
        assert(s.subrange(i, i + wp.len() as int) =~= wp) by {
            assert forall|k: int| 0 <= k < wp.len() implies s.subrange(
                i,
                i + wp.len() as int,
            )[k] == wp[k] by {
                assert(s[i + k] == s.subrange(i, i + w.len() as int)[k]);
                assert(w[k] == wp[k]);
            }
        }
        lemma_digits_val_inverse(s, i, n / 10);
        assert(s[i + w.len() - 1] == w[w.len() - 1]);
        assert(s[i + w.len() - 1] == digit_char(n % 10));
        assert(sp_digits_val(s, i, i + w.len() as int) == sp_digits_val(
            s,
            i,
            i + w.len() - 1,
        ) * 10 + digit_val(s[i + w.len() - 1]));
    }
}

/// A run of digits bounded on the right stops exactly there.
proof fn lemma_digits_end_exact(s: Seq<char>, i: int, j: int)
    requires
        0 <= i <= j <= s.len(),
        forall|k: int| i <= k < j ==> is_digit(s[k]),
        j == s.len() || !is_digit(s[j]),
    ensures
        sp_digits_end(s, i) == j,
    decreases j - i,
{
    if i < j {
        lemma_digits_end_exact(s, i + 1, j);
    }
}

/// Reading an escaped string body back, up to its closing quote, yields the
/// original characters.
proof fn lemma_parse_escaped(content: Seq<char>, s: Seq<char>, i: int)
    requires
        0 <= i,
        i + spec_escape(content).len() < s.len(),
        s.subrange(i, i + spec_escape(content).len() as int) == spec_escape(content),
        s[i + spec_escape(content).len() as int] == '"',
    ensures
        sp_string_body(s, i) == Some((content, i + spec_escape(content).len() + 1)),
    decreases content.len(),
{
    let e = spec_escape(content);
    if content.len() == 0 {
        assert(e.len() == 0);
        assert(s[i] == '"');
    } else {
        let c = content[0];
        let ec = spec_escape_char(c);
        let rest = spec_escape(content.drop_first());
        assert(e =~= ec + rest);
        assert forall|k: int| 0 <= k < ec.len() implies s[i + k] == ec[k] by {
            assert(s.subrange(i, i + e.len() as int)[k] == e[k]);
        }
        let i2 = i + ec.len();
        assert(s.subrange(i2, i2 + rest.len() as int) =~= rest) by {
            assert forall|k: int| 0 <= k < rest.len() implies s.subrange(
                i2,
                i2 + rest.len() as int,
            )[k] == rest[k] by {
                assert(s.subrange(i, i + e.len() as int)[ec.len() + k] == e[ec.len() + k]);
                assert(e[ec.len() + k] == rest[k]);
            }
        }
        lemma_parse_escaped(content.drop_first(), s, i2);
        if c == '"' || c == '\\' || c == '\n' || c == '\t' || c == '\r' {
            assert(s[i + 0] == ec[0] && s[i + 1] == ec[1]);
            assert(s[i] == '\\');
            assert(sp_unescape(s[i + 1]) == Some(c));
            assert(sp_string_body(s, i) == Some(
                (seq![c] + content.drop_first(), i + e.len() + 1),
            ));
            assert(seq![c] + content.drop_first() =~= content);
        } else {
            assert(s[i + 0] == ec[0]);
            assert(ec[0] == c);
            assert(s[i] == c);
            assert(sp_string_body(s, i) == Some(
                (seq![c] + content.drop_first(), i + e.len() + 1),
            ));
            assert(seq![c] + content.drop_first() =~= content);
        }
    }
}

/// What may follow a complete value: a separator, a closing bracket, or the
/// end of the text.
pub open spec fn sp_boundary(s: Seq<char>, j: int) -> bool {
    j == s.len() || (s[j] == ',' || s[j] == ']' || s[j] == '}')
}

/// Reading the text of an integer back gives that integer.
proof fn lemma_parse_nat(s: Seq<char>, i: int, n: nat)
    requires
        n <= u64::MAX,
        0 <= i,
        i + spec_nat_text(n).len() <= s.len(),
        s.subrange(i, i + spec_nat_text(n).len() as int) == spec_nat_text(n),
        sp_boundary(s, i + spec_nat_text(n).len() as int),
    ensures
        sp_number(s, i) == Some((JsonV::Int(n), i + spec_nat_text(n).len())),
{
    let w = spec_nat_text(n);
    let j = i + w.len();
    lemma_nat_text_shape(n);
    assert forall|k: int| i <= k < j implies is_digit(s[k]) by {
        assert(s.subrange(i, j)[k - i] == w[k - i]);
    }
    assert(s[i] == w[0]);
    lemma_digits_end_exact(s, i, j);
    if n == 0 {
        assert(w =~= seq!['0']);
        assert(sp_digits_val(s, i, i + 1) == sp_digits_val(s, i, i) * 10 + digit_val(s[i]));
        assert(digit_val('0') == 0);
    } else {
        assert(w == spec_digits(n));
        lemma_digits_val_inverse(s, i, n);
        if w.len() > 1 {
            assert(w[0] != '0');
        }
    }
}

/// Reading the fractional digits back and rescaling them gives the
/// fractional thousandths.
proof fn lemma_parse_frac(s: Seq<char>, f0: int, ff: nat)
    requires
        ff < 1000,
        0 <= f0,
        f0 + spec_frac_text(ff).len() <= s.len(),
        forall|k: int| 0 <= k < spec_frac_text(ff).len() ==> s[f0 + k] == spec_frac_text(ff)[k],
    ensures
        sp_digits_val(s, f0, f0 + spec_frac_text(ff).len()) * pow10(
            (3 - spec_frac_text(ff).len()) as nat,
        ) == ff,
{
    reveal_with_fuel(sp_digits_val, 5);
    let ft = spec_frac_text(ff);
    lemma_digit_char(ff / 100);
    lemma_digit_char((ff / 10) % 10);
    lemma_digit_char(ff % 10);
    assert(pow10(0) == 1 && pow10(1) == 10 && pow10(2) == 100 && pow10(3) == 1000) by {
        reveal_with_fuel(pow10, 5);
    }
    let fv = sp_digits_val(s, f0, f0 + ft.len());
    if ff % 10 != 0 {
        assert(ft.len() == 3);
        assert(s[f0 + 0] == ft[0] && s[f0 + 1] == ft[1] && s[f0 + 2] == ft[2]);
        assert(fv == (ff / 100) * 100 + ((ff / 10) % 10) * 10 + ff % 10);
        assert((ff / 100) * 100 + ((ff / 10) % 10) * 10 + ff % 10 == ff) by (nonlinear_arith)
            requires
                ff < 1000,
        ;
        assert(pow10((3 - ft.len()) as nat) == 1);
        assert(fv * pow10((3 - ft.len()) as nat) == ff) by (nonlinear_arith)
            requires
                fv == ff && pow10((3 - ft.len()) as nat) == 1,
        ;
    } else if ff % 100 != 0 {
        assert(ft.len() == 2);
        assert(s[f0 + 0] == ft[0] && s[f0 + 1] == ft[1]);
        assert(fv == (ff / 100) * 10 + (ff / 10) % 10);
        assert(((ff / 100) * 10 + (ff / 10) % 10) * 10 == ff) by (nonlinear_arith)
            requires
                ff < 1000 && ff % 10 == 0,
        ;
        assert(pow10((3 - ft.len()) as nat) == 10);
        assert(fv * pow10((3 - ft.len()) as nat) == ff) by (nonlinear_arith)
            requires
                fv * 10 == ff && pow10((3 - ft.len()) as nat) == 10,
        ;
    } else {
        assert(ft.len() == 1);
        assert(s[f0 + 0] == ft[0]);
        assert(fv == ff / 100);
        assert((ff / 100) * 100 == ff) by (nonlinear_arith)
            requires
                ff < 1000 && ff % 100 == 0,
        ;
        assert(pow10((3 - ft.len()) as nat) == 100);
        assert(fv * pow10((3 - ft.len()) as nat) == ff) by (nonlinear_arith)
            requires
                fv * 100 == ff && pow10((3 - ft.len()) as nat) == 100,
        ;
    }
}

/// Reading the text of a decimal back gives that decimal.
proof fn lemma_parse_dec(s: Seq<char>, i: int, t: int)
    requires
        -dec_max() <= t <= dec_max(),
        0 <= i,
        i + spec_dec_text(t).len() <= s.len(),
        s.subrange(i, i + spec_dec_text(t).len() as int) == spec_dec_text(t),
        sp_boundary(s, i + spec_dec_text(t).len() as int),
    ensures
        sp_number(s, i) == Some((JsonV::Dec(t), i + spec_dec_text(t).len())),
{
    let w = spec_dec_text(t);
    let jend = i + w.len();
    let a = (if t < 0 {
        -t
    } else {
        t
    }) as nat;
    let units = a / 1000;
    let ff = a % 1000;
    let ut = spec_nat_text(units);
    let ft = spec_frac_text(ff);
    let sign: Seq<char> = if t < 0 {
        seq!['-']
    } else {
        Seq::empty()
    };
    assert(w == sign + ut + seq!['.'] + ft);
    let d0 = i + sign.len();
    let d1 = d0 + ut.len();
    let f0 = d1 + 1;
    let f1 = f0 + ft.len();
    assert(f1 == jend);
    assert forall|k: int| 0 <= k < w.len() implies s[i + k] == w[k] by {
        assert(s.subrange(i, jend)[k] == w[k]);
    }
    lemma_nat_text_shape(units);
    // The units digits.
    assert forall|k: int| d0 <= k < d1 implies is_digit(s[k]) by {
        assert(s[k] == w[k - i]);
        assert(w[k - i] == ut[k - d0]);
    }
    assert(s[d1] == w[d1 - i]);
    assert(w[d1 - i] == '.');
    lemma_digits_end_exact(s, d0, d1);
    assert(s.subrange(d0, d1) =~= ut) by {
        assert forall|k: int| 0 <= k < ut.len() implies s.subrange(d0, d1)[k] == ut[k] by {
            assert(s[d0 + k] == w[d0 + k - i]);
            assert(w[d0 + k - i] == ut[k]);
        }
    }
    if units == 0 {
        assert(ut =~= seq!['0']);
        assert(s[d0 + 0] == w[d0 - i]);
        assert(w[d0 - i] == ut[0]);
        assert(s[d0] == '0');
        assert(sp_digits_val(s, d0, d0 + 1) == sp_digits_val(s, d0, d0) * 10 + digit_val(s[d0]));
        assert(digit_val('0') == 0);
        assert(sp_digits_val(s, d0, d1) == units);
    } else {
        assert(ut == spec_digits(units));
        lemma_digits_val_inverse(s, d0, units);
        if ut.len() > 1 {
            assert(ut[0] != '0');
            assert(s[d0] == ut[0]);
        }
    }
    // The fractional digits.
    assert(1 <= ft.len() <= 3);
    assert forall|k: int| f0 <= k < f1 implies is_digit(s[k]) by {
        assert(s[k] == w[k - i]);
        assert(w[k - i] == ft[k - f0]);
        lemma_digit_char(ff / 100);
        lemma_digit_char((ff / 10) % 10);
        lemma_digit_char(ff % 10);
    }
    lemma_digits_end_exact(s, f0, f1);
    assert forall|k: int| 0 <= k < ft.len() implies s[f0 + k] == ft[k] by {
        assert(s[f0 + k] == w[f0 + k - i]);
    }
    lemma_parse_frac(s, f0, ff);
    // Units stay within the range the grammar admits.
    assert(units <= (i64::MAX - 999) / 1000) by {
        assert(a <= dec_max());
        assert(units == a / 1000);
        assert(a / 1000 <= (i64::MAX - 999) / 1000) by (nonlinear_arith)
            requires
                a <= ((i64::MAX - 999) / 1000) * 1000 + 999,
        ;
    }
    assert(units * 1000 + ff == a) by (nonlinear_arith)
        requires
            units == a / 1000 && ff == a % 1000,
    ;
    if t < 0 {
        assert(s[i + 0] == w[0]);
        assert(w[0] == '-');
        assert(s[i] == '-');
    } else {
        assert(s[i + 0] == w[0]);
        assert(w[0] == ut[0]);
        assert(is_digit(s[i]));
        assert(s[i] != '-');
    }
}

/// Characters that can open the text of a value.
pub open spec fn is_value_start(c: char) -> bool {
    c == 'n' || c == 't' || c == 'f' || c == '"' || c == '[' || c == '{' || c == '-' || is_digit(
        c,
    )
}

/// The text of a value is never empty, and opens with a value-start
/// character — never with a separator or a closing bracket.
proof fn lemma_text_first_char(j: JsonV)
    ensures
        spec_json_text(j).len() >= 1,
        is_value_start(spec_json_text(j)[0]),
{
    match j {
        JsonV::Int(n) => {
            lemma_nat_text_shape(n);
        },
        JsonV::Dec(t) => {
            let a = (if t < 0 {
                -t
            } else {
                t
            }) as nat;
            lemma_nat_text_shape(a / 1000);
            if t < 0 {
                assert(spec_json_text(j)[0] == '-');
            } else {
                assert(spec_json_text(j)[0] == spec_nat_text(a / 1000)[0]);
            }
        },
        _ => {},
    }
}

/// Reading the text of any bounded value back, up to a boundary, gives that
/// value and stops exactly at its end.
proof fn lemma_parse_value(j: JsonV, s: Seq<char>, i: int)
    requires
        jv_bounded(j),
        0 <= i,
        i + spec_json_text(j).len() <= s.len(),
        s.subrange(i, i + spec_json_text(j).len() as int) == spec_json_text(j),
        sp_boundary(s, i + spec_json_text(j).len() as int),
    ensures
        sp_value(s, i) == Some((j, i + spec_json_text(j).len())),
    decreases j, 0nat,
{
    let w = spec_json_text(j);
    let jend = i + w.len();
    lemma_text_first_char(j);
    assert forall|k: int| 0 <= k < w.len() implies s[i + k] == w[k] by {
        assert(s.subrange(i, jend)[k] == w[k]);
    }
    assert(s[i + 0] == w[0]);
    match j {
        JsonV::Null => {
            assert(w =~= seq!['n', 'u', 'l', 'l']);
            assert(s[i + 1] == w[1] && s[i + 2] == w[2] && s[i + 3] == w[3]);
            assert(sp_has(s, i, seq!['n', 'u', 'l', 'l']));
            assert(sp_value(s, i) == Some((j, jend)));
        },
        JsonV::Bool(b) => {
            if b {
                assert(w =~= seq!['t', 'r', 'u', 'e']);
                assert(sp_has(s, i, seq!['t', 'r', 'u', 'e']));
            } else {
                assert(w =~= seq!['f', 'a', 'l', 's', 'e']);
                assert(sp_has(s, i, seq!['f', 'a', 'l', 's', 'e']));
            }
            assert(sp_value(s, i) == Some((j, jend)));
        },
        JsonV::Int(n) => {
            lemma_parse_nat(s, i, n);
            assert(sp_value(s, i) == Some((j, jend)));
        },
        JsonV::Dec(t) => {
            lemma_parse_dec(s, i, t);
            assert(sp_value(s, i) == Some((j, jend)));
        },
        JsonV::Str(content) => {
            let e = spec_escape(content);
            assert(w == seq!['"'] + e + seq!['"']);
            assert(s[i] == '"');
            assert(s.subrange(i + 1, i + 1 + e.len() as int) =~= e) by {
                assert forall|k: int| 0 <= k < e.len() implies s.subrange(
                    i + 1,
                    i + 1 + e.len() as int,
                )[k] == e[k] by {
                    assert(s[i + (1 + k)] == w[1 + k]);
                    assert(w[1 + k] == e[k]);
                }
            }
            assert(s[i + (w.len() - 1)] == w[w.len() - 1]);
            assert(w[w.len() - 1] == '"');
            lemma_parse_escaped(content, s, i + 1);
            assert(sp_value(s, i) == Some((j, jend)));
        },
        JsonV::Arr(elems) => {
            assert(s[i] == '[');
            let body = spec_arr_text(elems);
            assert(w == seq!['['] + body + seq![']']);
            assert(s[i + (w.len() - 1)] == w[w.len() - 1]);
            assert(w[w.len() - 1] == ']');
            if elems.len() == 0 {
                assert(body.len() == 0);
                assert(s[i + 1] == ']');
                assert(elems =~= Seq::<JsonV>::empty());
            } else {
                lemma_text_first_char(elems[0]);
                assert(body[0] == spec_json_text(elems[0])[0]) by {
                    if elems.len() == 1 {
                    } else {
                        assert(body[0] == (spec_json_text(elems[0]) + seq![','] + spec_arr_text(
                            elems.drop_first(),
                        ))[0]);
                    }
                }
                assert(s[i + 1] == w[1]);
                assert(w[1] == body[0]);
                assert(s[i + 1] != ']');
                assert(s.subrange(i + 1, i + 1 + body.len() as int) =~= body) by {
                    assert forall|k: int| 0 <= k < body.len() implies s.subrange(
                        i + 1,
                        i + 1 + body.len() as int,
                    )[k] == body[k] by {
                        assert(s[i + (1 + k)] == w[1 + k]);
                        assert(w[1 + k] == body[k]);
                    }
                }
                lemma_parse_elems(elems, s, i + 1);
                assert(s[i + 1 + body.len()] == ']');
            }
            assert(sp_value(s, i) == Some((j, jend)));
        },
        JsonV::Obj(fields) => {
            assert(s[i] == '{');
            let body = spec_obj_text(fields);
            assert(w == seq!['{'] + body + seq!['}']);
            assert(s[i + (w.len() - 1)] == w[w.len() - 1]);
            assert(w[w.len() - 1] == '}');
            if fields.len() == 0 {
                assert(body.len() == 0);
                assert(s[i + 1] == '}');
                assert(fields =~= Seq::<(Seq<char>, JsonV)>::empty());
            } else {
                assert(body[0] == '"') by {
                    let head = seq!['"'] + spec_escape(fields[0].0) + seq!['"', ':']
                        + spec_json_text(fields[0].1);
                    if fields.len() == 1 {
                        assert(body == head);
                    } else {
                        assert(body[0] == (head + seq![','] + spec_obj_text(
                            fields.drop_first(),
                        ))[0]);
                    }
                }
                assert(s[i + 1] == w[1]);
                assert(w[1] == body[0]);
                assert(s[i + 1] != '}');
                assert(s.subrange(i + 1, i + 1 + body.len() as int) =~= body) by {
                    assert forall|k: int| 0 <= k < body.len() implies s.subrange(
                        i + 1,
                        i + 1 + body.len() as int,
                    )[k] == body[k] by {
                        assert(s[i + (1 + k)] == w[1 + k]);
                        assert(w[1 + k] == body[k]);
                    }
                }
                lemma_parse_members(fields, s, i + 1);
                assert(s[i + 1 + body.len()] == '}');
            }
            assert(sp_value(s, i) == Some((j, jend)));
        },
    }
}

/// Reading the comma-separated texts of one or more values back, up to the
/// closing bracket, gives those values in order.
proof fn lemma_parse_elems(elems: Seq<JsonV>, s: Seq<char>, i: int)
    requires
        elems.len() >= 1,
        forall|k: int| 0 <= k < elems.len() ==> jv_bounded(#[trigger] elems[k]),
        0 <= i,
        i + spec_arr_text(elems).len() < s.len(),
        s.subrange(i, i + spec_arr_text(elems).len() as int) == spec_arr_text(elems),
        s[i + spec_arr_text(elems).len() as int] == ']',
    ensures
        sp_elems(s, i) == Some((elems, i + spec_arr_text(elems).len())),
    decreases elems, 1nat,
{
    let body = spec_arr_text(elems);
    let t0 = spec_json_text(elems[0]);
    assert forall|k: int| 0 <= k < body.len() implies s[i + k] == body[k] by {
        assert(s.subrange(i, i + body.len() as int)[k] == body[k]);
    }
    if elems.len() == 1 {
        assert(body == t0);
        assert(s.subrange(i, i + t0.len() as int) =~= t0);
        lemma_parse_value(elems[0], s, i);
        assert(s[i + t0.len()] == ']');
        assert(seq![elems[0]] =~= elems);
    } else {
        let rest = spec_arr_text(elems.drop_first());
        assert(body == t0 + seq![','] + rest);
        assert(s.subrange(i, i + t0.len() as int) =~= t0) by {
            assert forall|k: int| 0 <= k < t0.len() implies s.subrange(
                i,
                i + t0.len() as int,
            )[k] == t0[k] by {
                assert(s[i + k] == body[k]);
                assert(body[k] == t0[k]);
            }
        }
        assert(s[i + t0.len()] == body[t0.len() as int]);
        assert(body[t0.len() as int] == ',');
        lemma_parse_value(elems[0], s, i);
        let i2 = i + t0.len() + 1;
        assert(s.subrange(i2, i2 + rest.len() as int) =~= rest) by {
            assert forall|k: int| 0 <= k < rest.len() implies s.subrange(
                i2,
                i2 + rest.len() as int,
            )[k] == rest[k] by {
                assert(s[i + (t0.len() + 1 + k)] == body[t0.len() + 1 + k]);
                assert(body[t0.len() + 1 + k] == rest[k]);
            }
        }
        assert(i2 + rest.len() == i + body.len());
        lemma_parse_elems(elems.drop_first(), s, i2);
        assert(seq![elems[0]] + elems.drop_first() =~= elems);
    }
}

/// Reading the comma-separated `"key":value` texts of one or more fields
/// back, up to the closing brace, gives those fields in order.
proof fn lemma_parse_members(fields: Seq<(Seq<char>, JsonV)>, s: Seq<char>, i: int)
    requires
        fields.len() >= 1,
        forall|k: int| 0 <= k < fields.len() ==> jv_bounded(#[trigger] fields[k].1),
        0 <= i,
        i + spec_obj_text(fields).len() < s.len(),
        s.subrange(i, i + spec_obj_text(fields).len() as int) == spec_obj_text(fields),
        s[i + spec_obj_text(fields).len() as int] == '}',
    ensures
        sp_members(s, i) == Some((fields, i + spec_obj_text(fields).len())),
    decreases fields, 1nat,
{
    let body = spec_obj_text(fields);
    let key = fields[0].0;
    let e = spec_escape(key);
    let t0 = spec_json_text(fields[0].1);
    let head = seq!['"'] + e + seq!['"', ':'] + t0;
    assert forall|k: int| 0 <= k < body.len() implies s[i + k] == body[k] by {
        assert(s.subrange(i, i + body.len() as int)[k] == body[k]);
    }
    assert forall|k: int| 0 <= k < head.len() implies body[k] == head[k] by {
        if fields.len() == 1 {
        } else {
            assert(body[k] == (head + seq![','] + spec_obj_text(fields.drop_first()))[k]);
        }
    }
    assert(s[i + 0] == body[0]);
    assert(body[0] == head[0]);
    assert(head[0] == '"');
    // The key string.
    assert(s.subrange(i + 1, i + 1 + e.len() as int) =~= e) by {
        assert forall|k: int| 0 <= k < e.len() implies s.subrange(
            i + 1,
            i + 1 + e.len() as int,
        )[k] == e[k] by {
            assert(s[i + (1 + k)] == body[1 + k]);
            assert(body[1 + k] == head[1 + k]);
            assert(head[1 + k] == e[k]);
        }
    }
    let q = i + 1 + e.len();
    assert(s[i + (q - i)] == body[q - i]);
    assert(body[q - i] == head[q - i]);
    assert(head[q - i] == '"');
    lemma_parse_escaped(key, s, i + 1);
    let colon = q + 1;
    assert(s[i + (colon - i)] == body[colon - i]);
    assert(body[colon - i] == head[colon - i]);
    assert(head[colon - i] == ':');
    // The value.
    let v0 = colon + 1;
    assert(s.subrange(v0, v0 + t0.len() as int) =~= t0) by {
        assert forall|k: int| 0 <= k < t0.len() implies s.subrange(
            v0,
            v0 + t0.len() as int,
        )[k] == t0[k] by {
            assert(s[i + (v0 - i + k)] == body[v0 - i + k]);
            assert(body[v0 - i + k] == head[v0 - i + k]);
            assert(head[v0 - i + k] == t0[k]);
        }
    }
    assert(v0 + t0.len() == i + head.len());
    if fields.len() == 1 {
        assert(body == head);
        lemma_parse_value(fields[0].1, s, v0);
        assert(s[i + body.len()] == '}');
        assert(seq![(key, fields[0].1)] =~= fields);
        assert((key, fields[0].1) == fields[0]);
    } else {
        let rest = spec_obj_text(fields.drop_first());
        assert(body == head + seq![','] + rest);
        assert(s[i + head.len()] == body[head.len() as int]);
        assert(body[head.len() as int] == ',');
        lemma_parse_value(fields[0].1, s, v0);
        let i2 = i + head.len() + 1;
        assert(s.subrange(i2, i2 + rest.len() as int) =~= rest) by {
            assert forall|k: int| 0 <= k < rest.len() implies s.subrange(
                i2,
                i2 + rest.len() as int,
            )[k] == rest[k] by {
                assert(s[i + (head.len() + 1 + k)] == body[head.len() + 1 + k]);
                assert(body[head.len() + 1 + k] == rest[k]);
            }
        }
        assert(i2 + rest.len() == i + body.len());
        lemma_parse_members(fields.drop_first(), s, i2);
        assert(seq![(key, fields[0].1)] + fields.drop_first() =~= fields);
        assert((key, fields[0].1) == fields[0]);
    }
}

/// The whole canonical text of any bounded value reads back as exactly that
/// value: printing and parsing are inverse on the wire.
pub proof fn lemma_text_round_trip(j: JsonV)
    requires
        jv_bounded(j),
    ensures
        sp_json(spec_json_text(j)) == Some(j),
{
    let w = spec_json_text(j);
    assert(w.subrange(0, w.len() as int) =~= w);
    lemma_parse_value(j, w, 0);
}

/// Parse a whole message: one JSON value covering the entire text.
pub fn json_from_str(s: &str) -> (r: Option<Json>)
    ensures
        json_opt_view(r) == sp_json(s@),
{
    let cs = chars_of_str(s);
    match p_value(&cs, 0) {
        None => None,
        Some((j, n)) => {
            if n == cs.len() {
                Some(j)
            } else {
                None
            }
        },
    }
}

} // verus!
