//! The JSON wire format the service speaks.
//!
//! The parser reads any well-formed JSON object. It models the shapes
//! the service's records use — null, booleans, unsigned integers,
//! strings, and one level of nested objects — and carries every other
//! well-formed member value (arrays, floats, negative or oversized
//! numbers, deeper objects) as an unread `Other` value, so unknown
//! members never make a body malformed. Only text that is not JSON at
//! all is rejected.

use vstd::prelude::*;

verus! {

// ------------------------------------------------------------------
// Characters and decimal numerals
// ------------------------------------------------------------------

pub open spec fn is_ws_char(c: char) -> bool {
    c == ' ' || c == '\n' || c == '\t' || c == '\r'
}

pub open spec fn is_digit_char(c: char) -> bool {
    '0' <= c && c <= '9'
}

pub open spec fn digit_val(c: char) -> nat {
    (c as nat - '0' as nat) as nat
}

pub open spec fn digit_char(d: nat) -> char {
    if d == 0 { '0' }
    else if d == 1 { '1' }
    else if d == 2 { '2' }
    else if d == 3 { '3' }
    else if d == 4 { '4' }
    else if d == 5 { '5' }
    else if d == 6 { '6' }
    else if d == 7 { '7' }
    else if d == 8 { '8' }
    else { '9' }
}

/// The decimal numeral of `n`, most significant digit first.
pub open spec fn dec_str(n: nat) -> Seq<char>
    decreases n,
{
    if n < 10 {
        seq![digit_char(n)]
    } else {
        dec_str(n / 10).push(digit_char(n % 10))
    }
}

/// The value of a run of decimal digits.
pub open spec fn dec_value(digits: Seq<char>) -> nat
    decreases digits.len(),
{
    if digits.len() == 0 {
        0
    } else {
        dec_value(digits.drop_last()) * 10 + digit_val(digits.last())
    }
}

fn digit_str(d: u64) -> (s: &'static str)
    requires
        d < 10,
    ensures
        s@ == seq![digit_char(d as nat)],
        s@.len() == 1,
{
    proof {
        reveal_strlit("0");
        reveal_strlit("1");
        reveal_strlit("2");
        reveal_strlit("3");
        reveal_strlit("4");
        reveal_strlit("5");
        reveal_strlit("6");
        reveal_strlit("7");
        reveal_strlit("8");
        reveal_strlit("9");
    }
    let s: &'static str = if d == 0 { "0" }
    else if d == 1 { "1" }
    else if d == 2 { "2" }
    else if d == 3 { "3" }
    else if d == 4 { "4" }
    else if d == 5 { "5" }
    else if d == 6 { "6" }
    else if d == 7 { "7" }
    else if d == 8 { "8" }
    else { "9" };
    proof {
        assert(s@ =~= seq![digit_char(d as nat)]);
    }
    s
}

/// Renders `n` as its decimal numeral.
pub fn u64_to_string(n: u64) -> (r: String)
    ensures
        r@ == dec_str(n as nat),
    decreases n,
{
    let d: u64 = n % 10;
    let ds: &'static str = digit_str(d);
    if n < 10 {
        ds.to_owned()
    } else {
        let mut s = u64_to_string(n / 10);
        s.append(ds);
        proof {
            assert(s@ =~= dec_str((n / 10) as nat).push(digit_char((n % 10) as nat)));
        }
        s
    }
}

/// The numeral of `n` reads back as `n`.
pub proof fn lemma_dec_str_value(n: nat)
    ensures
        dec_value(dec_str(n)) == n,
    decreases n,
{
    if n < 10 {
        assert(dec_str(n).drop_last() =~= Seq::<char>::empty());
        assert(dec_value(Seq::<char>::empty()) == 0);
        assert(dec_str(n).last() == digit_char(n));
        assert(dec_str(n).len() == 1);
        assert(dec_value(dec_str(n)) == dec_value(dec_str(n).drop_last()) * 10 + digit_val(
            dec_str(n).last(),
        ));
        assert(digit_val(digit_char(n)) == n);
    } else {
        lemma_dec_str_value(n / 10);
        assert(dec_str(n).drop_last() =~= dec_str(n / 10));
        assert(dec_str(n).last() == digit_char(n % 10));
        assert(dec_str(n).len() == dec_str(n / 10).len() + 1);
        assert(dec_value(dec_str(n)) == dec_value(dec_str(n).drop_last()) * 10 + digit_val(
            dec_str(n).last(),
        ));
        assert(digit_val(digit_char(n % 10)) == n % 10);
        assert(n / 10 * 10 + n % 10 == n) by (nonlinear_arith);
    }
}

/// Distinct numbers have distinct numerals.
pub proof fn lemma_dec_str_injective(a: nat, b: nat)
    ensures
        dec_str(a) == dec_str(b) ==> a == b,
{
    if dec_str(a) == dec_str(b) {
        lemma_dec_str_value(a);
        lemma_dec_str_value(b);
    }
}

// ------------------------------------------------------------------
// Rendering
// ------------------------------------------------------------------

pub open spec fn hex_char(d: nat) -> char {
    if d < 10 {
        digit_char(d)
    } else if d == 10 { 'a' }
    else if d == 11 { 'b' }
    else if d == 12 { 'c' }
    else if d == 13 { 'd' }
    else if d == 14 { 'e' }
    else { 'f' }
}

/// How one character appears inside a rendered string literal.
pub open spec fn escape_char(c: char) -> Seq<char> {
    if c == '"' { seq!['\\', '"'] }
    else if c == '\\' { seq!['\\', '\\'] }
    else if c == '\n' { seq!['\\', 'n'] }
    else if c == '\t' { seq!['\\', 't'] }
    else if c == '\r' { seq!['\\', 'r'] }
    else if is_control_char(c) {
        seq!['\\', 'u', '0', '0', hex_char((c as nat) / 16), hex_char((c as nat) % 16)]
    } else {
        seq![c]
    }
}

pub open spec fn escape_str(s: Seq<char>) -> Seq<char>
    decreases s.len(),
{
    if s.len() == 0 {
        Seq::empty()
    } else {
        escape_char(s[0]) + escape_str(s.drop_first())
    }
}

/// A rendered string literal: quotes around the escaped characters.
pub open spec fn json_string_lit(s: Seq<char>) -> Seq<char> {
    seq!['"'] + escape_str(s) + seq!['"']
}

proof fn lemma_escape_str_push(s: Seq<char>, c: char)
    ensures
        escape_str(s.push(c)) == escape_str(s) + escape_char(c),
    decreases s.len(),
{
    if s.len() == 0 {
        assert(s.push(c).drop_first() =~= Seq::<char>::empty());
        assert(s.push(c)[0] == c);
        assert(s.push(c).len() == 1);
        assert(escape_str(s.push(c)) == escape_char(c) + escape_str(s.push(c).drop_first()));
        assert(escape_str(s.push(c)) =~= escape_str(s) + escape_char(c));
    } else {
        assert(s.push(c).drop_first() =~= s.drop_first().push(c));
        lemma_escape_str_push(s.drop_first(), c);
        assert(s.push(c)[0] == s[0]);
        assert(escape_str(s.push(c)) == escape_char(s[0]) + escape_str(s.drop_first().push(c)));
        assert(escape_str(s.push(c)) =~= escape_str(s) + escape_char(c));
    }
}

fn hex_str(d: u32) -> (s: &'static str)
    requires
        d < 16,
    ensures
        s@ == seq![hex_char(d as nat)],
{
    if d < 10 {
        digit_str(d as u64)
    } else {
        proof {
            reveal_strlit("a");
            reveal_strlit("b");
            reveal_strlit("c");
            reveal_strlit("d");
            reveal_strlit("e");
            reveal_strlit("f");
        }
        let s: &'static str = if d == 10 { "a" }
        else if d == 11 { "b" }
        else if d == 12 { "c" }
        else if d == 13 { "d" }
        else if d == 14 { "e" }
        else { "f" };
        proof {
            assert(s@ =~= seq![hex_char(d as nat)]);
        }
        s
    }
}

/// Appends `s`, escaped as a string-literal body, to `out`.
fn append_escaped(out: &mut String, s: &str)
    ensures
        final(out)@ == old(out)@ + escape_str(s@),
{
    let n = s.unicode_len();
    let mut k: usize = 0;
    proof {
        assert(s@.subrange(0, 0) =~= Seq::<char>::empty());
        assert(old(out)@ + escape_str(s@.subrange(0, 0)) =~= old(out)@);
    }
    while k < n
        invariant
            0 <= k <= n,
            n == s@.len(),
            out@ == old(out)@ + escape_str(s@.subrange(0, k as int)),
        decreases n - k,
    {
        let c = s.get_char(k);
        if c == '"' {
            proof {
                reveal_strlit("\\\"");
            }
            out.append("\\\"");
            proof {
                assert("\\\""@ =~= escape_char(s@[k as int]));
            }
        } else if c == '\\' {
            proof {
                reveal_strlit("\\\\");
            }
            out.append("\\\\");
            proof {
                assert("\\\\"@ =~= escape_char(s@[k as int]));
            }
        } else if c == '\n' {
            proof {
                reveal_strlit("\\n");
            }
            out.append("\\n");
            proof {
                assert("\\n"@ =~= escape_char(s@[k as int]));
            }
        } else if c == '\t' {
            proof {
                reveal_strlit("\\t");
            }
            out.append("\\t");
            proof {
                assert("\\t"@ =~= escape_char(s@[k as int]));
            }
        } else if c == '\r' {
            proof {
                reveal_strlit("\\r");
            }
            out.append("\\r");
            proof {
                assert("\\r"@ =~= escape_char(s@[k as int]));
            }
        } else if (c as u32) < 32 {
            proof {
                reveal_strlit("\\u00");
            }
            out.append("\\u00");
            out.append(hex_str((c as u32) / 16));
            out.append(hex_str((c as u32) % 16));
            proof {
                assert("\\u00"@ + seq![hex_char(((c as nat) / 16) as nat)]
                    + seq![hex_char(((c as nat) % 16) as nat)] =~= escape_char(s@[k as int]));
            }
        } else {
            out.append(s.substring_char(k, k + 1));
            proof {
                assert(s@.subrange(k as int, k as int + 1) =~= seq![s@[k as int]]);
                assert(seq![s@[k as int]] =~= escape_char(s@[k as int]));
            }
        }
        proof {
            lemma_escape_str_push(s@.subrange(0, k as int), s@[k as int]);
            assert(s@.subrange(0, k as int).push(s@[k as int]) =~= s@.subrange(0, k as int + 1));
            assert(out@ =~= old(out)@ + escape_str(s@.subrange(0, k as int + 1)));
        }
        k += 1;
    }
    proof {
        assert(s@.subrange(0, n as int) =~= s@);
    }
}

/// Appends the rendered string literal of `s` to `out`.
pub fn append_string_lit(out: &mut String, s: &str)
    ensures
        final(out)@ == old(out)@ + json_string_lit(s@),
{
    proof {
        reveal_strlit("\"");
    }
    out.append("\"");
    append_escaped(out, s);
    out.append("\"");
    proof {
        assert(out@ =~= old(out)@ + json_string_lit(s@));
    }
}

// ------------------------------------------------------------------
// Data model
// ------------------------------------------------------------------

/// A scalar JSON value. `Other` is a well-formed value the service
/// never reads: a float, a negative or oversized number, an array, or
/// an object nested deeper than the service's record shapes.
#[derive(Clone, Debug)]
pub enum Scalar {
    Null,
    Bool(bool),
    Int(u64),
    Str(String),
    Other,
}

/// The mathematical model of a scalar.
pub enum ScalarV {
    Null,
    Bool(bool),
    Int(u64),
    Str(Seq<char>),
    Other,
}

impl View for Scalar {
    type V = ScalarV;

    open spec fn view(&self) -> ScalarV {
        match self {
            Scalar::Null => ScalarV::Null,
            Scalar::Bool(b) => ScalarV::Bool(*b),
            Scalar::Int(n) => ScalarV::Int(*n),
            Scalar::Str(s) => ScalarV::Str(s@),
            Scalar::Other => ScalarV::Other,
        }
    }
}

/// A member value: a scalar, or one nested object of scalars.
#[derive(Clone, Debug)]
pub enum Value {
    Scalar(Scalar),
    Obj(Vec<(String, Scalar)>),
}

/// The mathematical model of a member value.
pub enum ValueV {
    Scalar(ScalarV),
    Obj(Seq<(Seq<char>, ScalarV)>),
}

pub open spec fn scalar_members_view(m: Seq<(String, Scalar)>) -> Seq<(Seq<char>, ScalarV)> {
    m.map_values(|p: (String, Scalar)| (p.0@, p.1@))
}

pub open spec fn top_members_view(m: Seq<(String, Value)>) -> Seq<(Seq<char>, ValueV)> {
    m.map_values(|p: (String, Value)| (p.0@, p.1@))
}

impl View for Value {
    type V = ValueV;

    open spec fn view(&self) -> ValueV {
        match self {
            Value::Scalar(s) => ValueV::Scalar(s@),
            Value::Obj(m) => ValueV::Obj(scalar_members_view(m@)),
        }
    }
}

/// A whole document: the top-level object's members, in order.
#[derive(Clone, Debug)]
pub struct Doc {
    pub members: Vec<(String, Value)>,
}

impl View for Doc {
    type V = Seq<(Seq<char>, ValueV)>;

    open spec fn view(&self) -> Seq<(Seq<char>, ValueV)> {
        top_members_view(self.members@)
    }
}

/// Malformed input: the bytes are not a document of the grammar.
#[derive(Clone, Copy, Debug, PartialEq, Eq, Structural)]
pub struct JsonError;

// ------------------------------------------------------------------
// The grammar
// ------------------------------------------------------------------

pub open spec fn is_control_char(c: char) -> bool {
    (c as nat) < 32
}

pub open spec fn unescape_char(c: char) -> Option<char> {
    if c == '"' { Some('"') }
    else if c == '\\' { Some('\\') }
    else if c == '/' { Some('/') }
    else if c == 'b' { Some('\u{0008}') }
    else if c == 'f' { Some('\u{000C}') }
    else if c == 'n' { Some('\n') }
    else if c == 't' { Some('\t') }
    else if c == 'r' { Some('\r') }
    else { None }
}

pub open spec fn is_hex_char(c: char) -> bool {
    is_digit_char(c) || ('a' <= c && c <= 'f') || ('A' <= c && c <= 'F')
}

pub open spec fn hex_val(c: char) -> nat {
    if is_digit_char(c) {
        digit_val(c)
    } else if 'a' <= c && c <= 'f' {
        (c as nat - 'a' as nat + 10) as nat
    } else {
        (c as nat - 'A' as nat + 10) as nat
    }
}

/// Whether four hexadecimal digits stand at `i`.
pub open spec fn hex4_at(s: Seq<char>, i: int) -> bool {
    0 <= i && i + 4 <= s.len() && is_hex_char(s[i]) && is_hex_char(s[i + 1])
        && is_hex_char(s[i + 2]) && is_hex_char(s[i + 3])
}

/// The value of the four hexadecimal digits at `i`.
pub open spec fn hex4_val(s: Seq<char>, i: int) -> nat {
    ((hex_val(s[i]) * 4096) + (hex_val(s[i + 1]) * 256) + (hex_val(s[i + 2]) * 16) + hex_val(
        s[i + 3],
    )) as nat
}

pub open spec fn is_high_surrogate(v: nat) -> bool {
    0xD800 <= v && v < 0xDC00
}

pub open spec fn is_low_surrogate(v: nat) -> bool {
    0xDC00 <= v && v < 0xE000
}

/// The code point of a surrogate pair.
pub open spec fn surrogate_pair_val(hi: nat, lo: nat) -> nat {
    (0x10000 + (hi - 0xD800) * 0x400 + (lo - 0xDC00)) as nat
}

/// The first position at or after `i` that holds no whitespace.
pub open spec fn skip_ws(s: Seq<char>, i: int) -> int
    decreases s.len() - i,
{
    if 0 <= i < s.len() && is_ws_char(s[i]) {
        skip_ws(s, i + 1)
    } else {
        i
    }
}

pub open spec fn has_prefix_at(s: Seq<char>, i: int, kw: Seq<char>) -> bool {
    0 <= i && i + kw.len() <= s.len() && s.subrange(i, i + kw.len()) == kw
}

/// The body of a string literal, read from just after its opening quote
/// to just after its closing quote. A `\uXXXX` escape names a code unit;
/// a high surrogate must be followed by a low one, and a lone surrogate
/// is malformed.
pub open spec fn scan_string(s: Seq<char>, i: int) -> Option<(Seq<char>, int)>
    decreases s.len() - i,
{
    if !(0 <= i < s.len()) {
        None
    } else if s[i] == '"' {
        Some((Seq::empty(), i + 1))
    } else if s[i] == '\\' {
        if i + 1 < s.len() {
            if s[i + 1] == 'u' {
                if hex4_at(s, i + 2) {
                    let u1 = hex4_val(s, i + 2);
                    if is_high_surrogate(u1) {
                        if i + 12 <= s.len() && s[i + 6] == '\\' && s[i + 7] == 'u' && hex4_at(
                            s,
                            i + 8,
                        ) && is_low_surrogate(hex4_val(s, i + 8)) {
                            let cp = surrogate_pair_val(u1, hex4_val(s, i + 8));
                            match scan_string(s, i + 12) {
                                Some((t, j)) => Some((seq![(cp as u32) as char] + t, j)),
                                None => None,
                            }
                        } else {
                            None
                        }
                    } else if is_low_surrogate(u1) {
                        None
                    } else {
                        match scan_string(s, i + 6) {
                            Some((t, j)) => Some((seq![(u1 as u32) as char] + t, j)),
                            None => None,
                        }
                    }
                } else {
                    None
                }
            } else {
                match unescape_char(s[i + 1]) {
                    Some(c) => match scan_string(s, i + 2) {
                        Some((t, j)) => Some((seq![c] + t, j)),
                        None => None,
                    },
                    None => None,
                }
            }
        } else {
            None
        }
    } else if is_control_char(s[i]) {
        None
    } else {
        match scan_string(s, i + 1) {
            Some((t, j)) => Some((seq![s[i]] + t, j)),
            None => None,
        }
    }
}

/// A string literal at `i`.
pub open spec fn parse_string(s: Seq<char>, i: int) -> Option<(Seq<char>, int)> {
    if 0 <= i < s.len() && s[i] == '"' {
        scan_string(s, i + 1)
    } else {
        None
    }
}

/// The end of the run of digits that starts at `i`.
pub open spec fn scan_digits(s: Seq<char>, i: int) -> int
    decreases s.len() - i,
{
    if 0 <= i < s.len() && is_digit_char(s[i]) {
        scan_digits(s, i + 1)
    } else {
        i
    }
}

/// The end of a fraction part at `i`, if the text there is well-formed.
pub open spec fn scan_frac(s: Seq<char>, i: int) -> Option<int> {
    if 0 <= i < s.len() && s[i] == '.' {
        if i + 1 < s.len() && is_digit_char(s[i + 1]) {
            Some(scan_digits(s, i + 1))
        } else {
            None
        }
    } else {
        Some(i)
    }
}

/// The end of an exponent part at `i`, if the text there is well-formed.
pub open spec fn scan_exp(s: Seq<char>, i: int) -> Option<int> {
    if 0 <= i < s.len() && (s[i] == 'e' || s[i] == 'E') {
        let i1 = if i + 1 < s.len() && (s[i + 1] == '+' || s[i + 1] == '-') {
            i + 2
        } else {
            i + 1
        };
        if 0 <= i1 < s.len() && is_digit_char(s[i1]) {
            Some(scan_digits(s, i1))
        } else {
            None
        }
    } else {
        Some(i)
    }
}

/// The end of a number lexeme at `i`: an optional minus, an integer
/// part without a leading zero, an optional fraction and exponent.
pub open spec fn scan_number(s: Seq<char>, i: int) -> Option<int> {
    let i1 = if 0 <= i < s.len() && s[i] == '-' {
        i + 1
    } else {
        i
    };
    if !(0 <= i1 < s.len() && is_digit_char(s[i1])) {
        None
    } else if s[i1] == '0' && i1 + 1 < s.len() && is_digit_char(s[i1 + 1]) {
        None
    } else {
        let i2 = if s[i1] == '0' {
            i1 + 1
        } else {
            scan_digits(s, i1)
        };
        match scan_frac(s, i2) {
            Some(i3) => scan_exp(s, i3),
            None => None,
        }
    }
}

/// A number at `i`. Only a plain unsigned integer that fits the numeric
/// type is read as a value the service can use; any other well-formed
/// number is carried as an unread value.
pub open spec fn parse_number(s: Seq<char>, i: int) -> Option<(ScalarV, int)> {
    match scan_number(s, i) {
        Some(j) => if 0 <= i && scan_digits(s, i) == j && dec_value(s.subrange(i, j))
            <= u64::MAX {
            Some((ScalarV::Int(dec_value(s.subrange(i, j)) as u64), j))
        } else {
            Some((ScalarV::Other, j))
        },
        None => None,
    }
}

// ------------------------------------------------------------------
// Skipping members the service does not read
// ------------------------------------------------------------------

/// The end of any well-formed JSON value at `i`.
pub open spec fn skip_value(s: Seq<char>, i: int) -> Option<int>
    decreases s.len() - i, 0int,
{
    if !(0 <= i < s.len()) {
        None
    } else if s[i] == '"' {
        match scan_string(s, i + 1) {
            Some((t, j)) => Some(j),
            None => None,
        }
    } else if s[i] == '-' || is_digit_char(s[i]) {
        scan_number(s, i)
    } else if s[i] == '{' {
        let j = skip_ws(s, i + 1);
        if 0 <= j < s.len() && s[j] == '}' {
            Some(j + 1)
        } else if i < j && j <= s.len() {
            skip_members(s, j)
        } else {
            None
        }
    } else if s[i] == '[' {
        let j = skip_ws(s, i + 1);
        if 0 <= j < s.len() && s[j] == ']' {
            Some(j + 1)
        } else if i < j && j <= s.len() {
            skip_items(s, j)
        } else {
            None
        }
    } else if has_prefix_at(s, i, "null"@) {
        Some(i + 4)
    } else if has_prefix_at(s, i, "true"@) {
        Some(i + 4)
    } else if has_prefix_at(s, i, "false"@) {
        Some(i + 5)
    } else {
        None
    }
}

/// The end of an object's members at `i` (the start of a key), up to
/// and past the closing brace.
pub open spec fn skip_members(s: Seq<char>, i: int) -> Option<int>
    decreases s.len() - i, 1int,
{
    match parse_string(s, i) {
        Some((k, j)) => {
            let j1 = skip_ws(s, j);
            if 0 <= j1 < s.len() && s[j1] == ':' {
                let j2 = skip_ws(s, j1 + 1);
                if i < j2 && j2 <= s.len() {
                    match skip_value(s, j2) {
                        Some(j3) => {
                            let j4 = skip_ws(s, j3);
                            if 0 <= j4 < s.len() && s[j4] == ',' {
                                let j5 = skip_ws(s, j4 + 1);
                                if i < j5 && j5 <= s.len() {
                                    skip_members(s, j5)
                                } else {
                                    None
                                }
                            } else if 0 <= j4 < s.len() && s[j4] == '}' {
                                Some(j4 + 1)
                            } else {
                                None
                            }
                        }
                        None => None,
                    }
                } else {
                    None
                }
            } else {
                None
            }
        }
        None => None,
    }
}

/// The end of an array's items at `i` (the start of a value), up to and
/// past the closing bracket.
pub open spec fn skip_items(s: Seq<char>, i: int) -> Option<int>
    decreases s.len() - i, 1int,
{
    match skip_value(s, i) {
        Some(j) => {
            let j1 = skip_ws(s, j);
            if 0 <= j1 < s.len() && s[j1] == ',' {
                let j2 = skip_ws(s, j1 + 1);
                if i < j2 && j2 <= s.len() {
                    skip_items(s, j2)
                } else {
                    None
                }
            } else if 0 <= j1 < s.len() && s[j1] == ']' {
                Some(j1 + 1)
            } else {
                None
            }
        }
        None => None,
    }
}

/// A scalar at `i`. A nested object or array here is well-formed input
/// that the service does not read: it is skipped and carried as an
/// unread value.
pub open spec fn parse_scalar(s: Seq<char>, i: int) -> Option<(ScalarV, int)> {
    if !(0 <= i < s.len()) {
        None
    } else if s[i] == '"' {
        match parse_string(s, i) {
            Some((t, j)) => Some((ScalarV::Str(t), j)),
            None => None,
        }
    } else if s[i] == '-' || is_digit_char(s[i]) {
        parse_number(s, i)
    } else if s[i] == '{' || s[i] == '[' {
        match skip_value(s, i) {
            Some(j) => Some((ScalarV::Other, j)),
            None => None,
        }
    } else if has_prefix_at(s, i, "null"@) {
        Some((ScalarV::Null, i + 4))
    } else if has_prefix_at(s, i, "true"@) {
        Some((ScalarV::Bool(true), i + 4))
    } else if has_prefix_at(s, i, "false"@) {
        Some((ScalarV::Bool(false), i + 5))
    } else {
        None
    }
}

/// Members of an object of scalars, read from the start of a key up to
/// and past the closing brace.
pub open spec fn parse_scalar_pairs(s: Seq<char>, i: int) -> Option<(Seq<(Seq<char>, ScalarV)>, int)>
    decreases s.len() - i,
{
    match parse_string(s, i) {
        Some((k, j)) => {
            let j1 = skip_ws(s, j);
            if 0 <= j1 < s.len() && s[j1] == ':' {
                let j2 = skip_ws(s, j1 + 1);
                match parse_scalar(s, j2) {
                    Some((v, j3)) => {
                        let j4 = skip_ws(s, j3);
                        if 0 <= j4 < s.len() && s[j4] == ',' {
                            let j5 = skip_ws(s, j4 + 1);
                            if i < j5 <= s.len() {
                                match parse_scalar_pairs(s, j5) {
                                    Some((rest, j6)) => Some((seq![(k, v)] + rest, j6)),
                                    None => None,
                                }
                            } else {
                                None
                            }
                        } else if 0 <= j4 < s.len() && s[j4] == '}' {
                            Some((seq![(k, v)], j4 + 1))
                        } else {
                            None
                        }
                    }
                    None => None,
                }
            } else {
                None
            }
        }
        None => None,
    }
}

/// An object of scalars at `i`.
pub open spec fn parse_scalar_obj(s: Seq<char>, i: int) -> Option<(Seq<(Seq<char>, ScalarV)>, int)> {
    if 0 <= i < s.len() && s[i] == '{' {
        let j = skip_ws(s, i + 1);
        if 0 <= j < s.len() && s[j] == '}' {
            Some((Seq::empty(), j + 1))
        } else {
            parse_scalar_pairs(s, j)
        }
    } else {
        None
    }
}

/// A member value at `i`: an object of scalars, or a scalar.
pub open spec fn parse_value(s: Seq<char>, i: int) -> Option<(ValueV, int)> {
    if 0 <= i < s.len() && s[i] == '{' {
        match parse_scalar_obj(s, i) {
            Some((m, j)) => Some((ValueV::Obj(m), j)),
            None => None,
        }
    } else {
        match parse_scalar(s, i) {
            Some((v, j)) => Some((ValueV::Scalar(v), j)),
            None => None,
        }
    }
}

/// Members of the top-level object, read as `parse_scalar_pairs` is.
pub open spec fn parse_top_pairs(s: Seq<char>, i: int) -> Option<(Seq<(Seq<char>, ValueV)>, int)>
    decreases s.len() - i,
{
    match parse_string(s, i) {
        Some((k, j)) => {
            let j1 = skip_ws(s, j);
            if 0 <= j1 < s.len() && s[j1] == ':' {
                let j2 = skip_ws(s, j1 + 1);
                match parse_value(s, j2) {
                    Some((v, j3)) => {
                        let j4 = skip_ws(s, j3);
                        if 0 <= j4 < s.len() && s[j4] == ',' {
                            let j5 = skip_ws(s, j4 + 1);
                            if i < j5 <= s.len() {
                                match parse_top_pairs(s, j5) {
                                    Some((rest, j6)) => Some((seq![(k, v)] + rest, j6)),
                                    None => None,
                                }
                            } else {
                                None
                            }
                        } else if 0 <= j4 < s.len() && s[j4] == '}' {
                            Some((seq![(k, v)], j4 + 1))
                        } else {
                            None
                        }
                    }
                    None => None,
                }
            } else {
                None
            }
        }
        None => None,
    }
}

/// The top-level object at `i`.
pub open spec fn parse_top_obj(s: Seq<char>, i: int) -> Option<(Seq<(Seq<char>, ValueV)>, int)> {
    if 0 <= i < s.len() && s[i] == '{' {
        let j = skip_ws(s, i + 1);
        if 0 <= j < s.len() && s[j] == '}' {
            Some((Seq::empty(), j + 1))
        } else {
            parse_top_pairs(s, j)
        }
    } else {
        None
    }
}

/// The whole input as one document: whitespace, the top-level object,
/// whitespace, end of input.
pub open spec fn doc_of(s: Seq<char>) -> Option<Seq<(Seq<char>, ValueV)>> {
    match parse_top_obj(s, skip_ws(s, 0)) {
        Some((m, j)) => {
            if skip_ws(s, j) == s.len() {
                Some(m)
            } else {
                None
            }
        }
        None => None,
    }
}

// ------------------------------------------------------------------
// The parser
// ------------------------------------------------------------------

fn exec_skip_ws(s: &str, i: usize) -> (r: usize)
    requires
        i <= s@.len(),
    ensures
        r == skip_ws(s@, i as int),
        i <= r <= s@.len(),
    decreases s@.len() - i,
{
    let n = s.unicode_len();
    if i < n {
        let c = s.get_char(i);
        if c == ' ' || c == '\n' || c == '\t' || c == '\r' {
            return exec_skip_ws(s, i + 1);
        }
    }
    i
}

fn exec_has_prefix(s: &str, i: usize, kw: &str) -> (r: bool)
    requires
        i <= s@.len(),
    ensures
        r == has_prefix_at(s@, i as int, kw@),
{
    let n = s.unicode_len();
    let m = kw.unicode_len();
    if m > n - i || i > n {
        return false;
    }
    let mut k: usize = 0;
    while k < m
        invariant
            0 <= k <= m,
            i + m <= n,
            n == s@.len(),
            m == kw@.len(),
            forall|t: int| 0 <= t < k ==> s@[i + t] == kw@[t],
        decreases m - k,
    {
        if s.get_char(i + k) != kw.get_char(k) {
            return false;
        }
        k += 1;
    }
    proof {
        assert(s@.subrange(i as int, i + kw@.len()) =~= kw@);
    }
    true
}

/// Relies on String::push: it appends exactly the one character.
#[verifier::external_body]
fn push_char(s: &mut String, c: char)
    ensures
        final(s)@ == old(s)@.push(c),
{
    s.push(c);
}

/// Relies on char::from_u32: every code point outside the surrogate
/// range and at most 0x10FFFF names exactly one character.
#[verifier::external_body]
fn char_from_code(v: u32) -> (c: char)
    requires
        v < 0xD800 || (0xE000 <= v && v <= 0x10FFFF),
    ensures
        c == v as char,
{
    char::from_u32(v).unwrap()
}

fn exec_hex_val(c: char) -> (v: u32)
    requires
        is_hex_char(c),
    ensures
        v == hex_val(c),
        v < 16,
{
    if c >= '0' && c <= '9' {
        c as u32 - '0' as u32
    } else if c >= 'a' && c <= 'f' {
        c as u32 - 'a' as u32 + 10
    } else {
        c as u32 - 'A' as u32 + 10
    }
}

fn exec_is_hex(c: char) -> (b: bool)
    ensures
        b == is_hex_char(c),
{
    (c >= '0' && c <= '9') || (c >= 'a' && c <= 'f') || (c >= 'A' && c <= 'F')
}

fn exec_hex4(s: &str, i: usize) -> (r: Option<u32>)
    requires
        i <= s@.len(),
    ensures
        match r {
            Some(v) => hex4_at(s@, i as int) && v == hex4_val(s@, i as int) && v < 0x10000,
            None => !hex4_at(s@, i as int),
        },
{
    let n = s.unicode_len();
    if n - i < 4 {
        return None;
    }
    let c0 = s.get_char(i);
    let c1 = s.get_char(i + 1);
    let c2 = s.get_char(i + 2);
    let c3 = s.get_char(i + 3);
    if exec_is_hex(c0) && exec_is_hex(c1) && exec_is_hex(c2) && exec_is_hex(c3) {
        let v = exec_hex_val(c0) * 4096 + exec_hex_val(c1) * 256 + exec_hex_val(c2) * 16
            + exec_hex_val(c3);
        Some(v)
    } else {
        None
    }
}

fn exec_scan_string(s: &str, i: usize) -> (r: Option<(String, usize)>)
    requires
        i <= s@.len(),
    ensures
        match r {
            Some((t, j)) => scan_string(s@, i as int) == Some((t@, j as int)) && i <= j <= s@.len(),
            None => scan_string(s@, i as int) is None,
        },
    decreases s@.len() - i,
{
    let n = s.unicode_len();
    if i >= n {
        return None;
    }
    let c = s.get_char(i);
    if c == '"' {
        let empty = String::new();
        proof {
            assert(empty@ =~= Seq::<char>::empty());
        }
        Some((empty, i + 1))
    } else if c == '\\' {
        if i + 1 < n {
            let e = s.get_char(i + 1);
            if e == 'u' {
                match exec_hex4(s, i + 2) {
                    Some(u1) => {
                        if u1 >= 0xD800 && u1 < 0xDC00 {
                            if n - i >= 12 && s.get_char(i + 6) == '\\' && s.get_char(i + 7) == 'u'
                            {
                                match exec_hex4(s, i + 8) {
                                    Some(u2) => {
                                        if u2 >= 0xDC00 && u2 < 0xE000 {
                                            let cp: u32 = 0x10000 + (u1 - 0xD800) * 0x400 + (u2
                                                - 0xDC00);
                                            let ch = char_from_code(cp);
                                            match exec_scan_string(s, i + 12) {
                                                Some((t, j)) => {
                                                    let mut out = String::new();
                                                    push_char(&mut out, ch);
                                                    out.append(t.as_str());
                                                    proof {
                                                        assert(cp == surrogate_pair_val(
                                                            hex4_val(s@, i as int + 2),
                                                            hex4_val(s@, i as int + 8),
                                                        ) as u32);
                                                        assert(out@ =~= seq![ch] + t@);
                                                    }
                                                    Some((out, j))
                                                }
                                                None => None,
                                            }
                                        } else {
                                            None
                                        }
                                    }
                                    None => None,
                                }
                            } else {
                                None
                            }
                        } else if u1 >= 0xDC00 && u1 < 0xE000 {
                            None
                        } else {
                            let ch = char_from_code(u1);
                            match exec_scan_string(s, i + 6) {
                                Some((t, j)) => {
                                    let mut out = String::new();
                                    push_char(&mut out, ch);
                                    out.append(t.as_str());
                                    proof {
                                        assert(u1 == hex4_val(s@, i as int + 2) as u32);
                                        assert(out@ =~= seq![ch] + t@);
                                    }
                                    Some((out, j))
                                }
                                None => None,
                            }
                        }
                    }
                    None => None,
                }
            } else {
                let ec: Option<char> = if e == '"' { Some('"') }
                    else if e == '\\' { Some('\\') }
                    else if e == '/' { Some('/') }
                    else if e == 'b' { Some('\u{0008}') }
                    else if e == 'f' { Some('\u{000C}') }
                    else if e == 'n' { Some('\n') }
                    else if e == 't' { Some('\t') }
                    else if e == 'r' { Some('\r') }
                    else { None };
                match ec {
                    Some(ch) => {
                        proof {
                            assert(Some(ch) == unescape_char(s@[i as int + 1]));
                        }
                        match exec_scan_string(s, i + 2) {
                            Some((t, j)) => {
                                let mut out = String::new();
                                push_char(&mut out, ch);
                                out.append(t.as_str());
                                proof {
                                    assert(out@ =~= seq![ch] + t@);
                                }
                                Some((out, j))
                            }
                            None => None,
                        }
                    }
                    None => None,
                }
            }
        } else {
            None
        }
    } else if (c as u32) < 32 {
        None
    } else {
        match exec_scan_string(s, i + 1) {
            Some((t, j)) => {
                let mut out = String::new();
                push_char(&mut out, c);
                out.append(t.as_str());
                proof {
                    assert(out@ =~= seq![s@[i as int]] + t@);
                }
                Some((out, j))
            }
            None => None,
        }
    }
}

fn exec_parse_string(s: &str, i: usize) -> (r: Option<(String, usize)>)
    requires
        i <= s@.len(),
    ensures
        match r {
            Some((t, j)) => parse_string(s@, i as int) == Some((t@, j as int)) && i <= j <= s@.len(),
            None => parse_string(s@, i as int) is None,
        },
{
    let n = s.unicode_len();
    if i < n && s.get_char(i) == '"' {
        exec_scan_string(s, i + 1)
    } else {
        None
    }
}

fn exec_scan_digits(s: &str, i: usize) -> (r: usize)
    requires
        i <= s@.len(),
    ensures
        r == scan_digits(s@, i as int),
        i <= r <= s@.len(),
    decreases s@.len() - i,
{
    let n = s.unicode_len();
    if i < n {
        let c = s.get_char(i);
        if c >= '0' && c <= '9' {
            return exec_scan_digits(s, i + 1);
        }
    }
    i
}

proof fn lemma_dec_value_prefix(digits: Seq<char>, m: int)
    requires
        0 <= m <= digits.len(),
    ensures
        dec_value(digits) >= dec_value(digits.subrange(0, m)),
    decreases digits.len() - m,
{
    if m == digits.len() {
        assert(digits.subrange(0, m) =~= digits);
    } else {
        assert(digits.subrange(0, m + 1).drop_last() =~= digits.subrange(0, m));
        assert(dec_value(digits.subrange(0, m + 1))
            == dec_value(digits.subrange(0, m)) * 10 + digit_val(digits[m]));
        lemma_dec_value_prefix(digits, m + 1);
    }
}

fn exec_scan_frac(s: &str, i: usize) -> (r: Option<usize>)
    requires
        i <= s@.len(),
    ensures
        match r {
            Some(j) => scan_frac(s@, i as int) == Some(j as int) && i <= j <= s@.len(),
            None => scan_frac(s@, i as int) is None,
        },
{
    let n = s.unicode_len();
    if i < n && s.get_char(i) == '.' {
        if i + 1 < n {
            let c = s.get_char(i + 1);
            if c >= '0' && c <= '9' {
                Some(exec_scan_digits(s, i + 1))
            } else {
                None
            }
        } else {
            None
        }
    } else {
        Some(i)
    }
}

fn exec_scan_exp(s: &str, i: usize) -> (r: Option<usize>)
    requires
        i <= s@.len(),
    ensures
        match r {
            Some(j) => scan_exp(s@, i as int) == Some(j as int) && i <= j <= s@.len(),
            None => scan_exp(s@, i as int) is None,
        },
{
    let n = s.unicode_len();
    if i < n && (s.get_char(i) == 'e' || s.get_char(i) == 'E') {
        let i1 = if i + 1 < n && (s.get_char(i + 1) == '+' || s.get_char(i + 1) == '-') {
            i + 2
        } else {
            i + 1
        };
        if i1 < n {
            let c = s.get_char(i1);
            if c >= '0' && c <= '9' {
                Some(exec_scan_digits(s, i1))
            } else {
                None
            }
        } else {
            None
        }
    } else {
        Some(i)
    }
}

fn exec_scan_number(s: &str, i: usize) -> (r: Option<usize>)
    requires
        i <= s@.len(),
    ensures
        match r {
            Some(j) => scan_number(s@, i as int) == Some(j as int) && i <= j <= s@.len(),
            None => scan_number(s@, i as int) is None,
        },
{
    let n = s.unicode_len();
    let i1 = if i < n && s.get_char(i) == '-' {
        i + 1
    } else {
        i
    };
    if i1 >= n {
        return None;
    }
    let c = s.get_char(i1);
    if !(c >= '0' && c <= '9') {
        return None;
    }
    if c == '0' && i1 + 1 < n {
        let c2 = s.get_char(i1 + 1);
        if c2 >= '0' && c2 <= '9' {
            return None;
        }
    }
    let i2 = if c == '0' {
        i1 + 1
    } else {
        exec_scan_digits(s, i1)
    };
    match exec_scan_frac(s, i2) {
        Some(i3) => exec_scan_exp(s, i3),
        None => None,
    }
}

fn exec_parse_number(s: &str, i: usize) -> (r: Option<(Scalar, usize)>)
    requires
        i <= s@.len(),
    ensures
        match r {
            Some((v, j)) => parse_number(s@, i as int) == Some((v@, j as int)) && i <= j
                <= s@.len(),
            None => parse_number(s@, i as int) is None,
        },
{
    let j = match exec_scan_number(s, i) {
        Some(j) => j,
        None => {
            return None;
        }
    };
    let dend = exec_scan_digits(s, i);
    if dend != j {
        return Some((Scalar::Other, j));
    }
    let ghost digits = s@.subrange(i as int, j as int);
    let mut acc: u64 = 0;
    let mut k: usize = i;
    proof {
        assert(s@.subrange(i as int, i as int) =~= Seq::<char>::empty());
        lemma_scan_digits_range(s@, i as int);
    }
    while k < j
        invariant
            i <= k <= j <= s@.len(),
            digits == s@.subrange(i as int, j as int),
            j == scan_digits(s@, i as int),
            scan_number(s@, i as int) == Some(j as int),
            acc == dec_value(s@.subrange(i as int, k as int)),
            forall|t: int| i <= t < j ==> is_digit_char(s@[t]),
        decreases j - k,
    {
        let c = s.get_char(k);
        proof {
            assert(is_digit_char(s@[k as int]));
        }
        let d: u64 = (c as u32 - '0' as u32) as u64;
        proof {
            assert(d == digit_val(s@[k as int]));
            assert(s@.subrange(i as int, k as int + 1).drop_last() =~= s@.subrange(
                i as int,
                k as int,
            ));
            assert(s@.subrange(i as int, k as int + 1).last() == s@[k as int]);
        }
        if acc > 1844674407370955161 || (acc == 1844674407370955161 && d > 5) {
            proof {
                assert(dec_value(s@.subrange(i as int, k as int + 1)) > u64::MAX);
                assert(digits.subrange(0, k + 1 - i) =~= s@.subrange(i as int, k as int + 1));
                lemma_dec_value_prefix(digits, k + 1 - i);
                assert(dec_value(s@.subrange(i as int, j as int)) > u64::MAX);
            }
            return Some((Scalar::Other, j));
        }
        acc = acc * 10 + d;
        k += 1;
    }
    Some((Scalar::Int(acc), j))
}

fn exec_skip_value(s: &str, i: usize) -> (r: Option<usize>)
    requires
        i <= s@.len(),
    ensures
        match r {
            Some(j) => skip_value(s@, i as int) == Some(j as int) && i <= j <= s@.len(),
            None => skip_value(s@, i as int) is None,
        },
    decreases s@.len() - i, 0int,
{
    let n = s.unicode_len();
    if i >= n {
        return None;
    }
    let c = s.get_char(i);
    if c == '"' {
        match exec_scan_string(s, i + 1) {
            Some((t, j)) => Some(j),
            None => None,
        }
    } else if c == '-' || (c >= '0' && c <= '9') {
        exec_scan_number(s, i)
    } else if c == '{' {
        let j = exec_skip_ws(s, i + 1);
        if j < n && s.get_char(j) == '}' {
            Some(j + 1)
        } else {
            exec_skip_members(s, j)
        }
    } else if c == '[' {
        let j = exec_skip_ws(s, i + 1);
        if j < n && s.get_char(j) == ']' {
            Some(j + 1)
        } else {
            exec_skip_items(s, j)
        }
    } else {
        proof {
            reveal_strlit("null");
            reveal_strlit("true");
            reveal_strlit("false");
        }
        if exec_has_prefix(s, i, "null") {
            Some(i + 4)
        } else if exec_has_prefix(s, i, "true") {
            Some(i + 4)
        } else if exec_has_prefix(s, i, "false") {
            Some(i + 5)
        } else {
            None
        }
    }
}

fn exec_skip_members(s: &str, i: usize) -> (r: Option<usize>)
    requires
        i <= s@.len(),
    ensures
        match r {
            Some(j) => skip_members(s@, i as int) == Some(j as int) && i <= j <= s@.len(),
            None => skip_members(s@, i as int) is None,
        },
    decreases s@.len() - i, 1int,
{
    let n = s.unicode_len();
    match exec_parse_string(s, i) {
        Some((k, j)) => {
            let j1 = exec_skip_ws(s, j);
            if j1 < n && s.get_char(j1) == ':' {
                let j2 = exec_skip_ws(s, j1 + 1);
                match exec_skip_value(s, j2) {
                    Some(j3) => {
                        let j4 = exec_skip_ws(s, j3);
                        if j4 < n && s.get_char(j4) == ',' {
                            let j5 = exec_skip_ws(s, j4 + 1);
                            exec_skip_members(s, j5)
                        } else if j4 < n && s.get_char(j4) == '}' {
                            Some(j4 + 1)
                        } else {
                            None
                        }
                    }
                    None => None,
                }
            } else {
                None
            }
        }
        None => None,
    }
}

fn exec_skip_items(s: &str, i: usize) -> (r: Option<usize>)
    requires
        i <= s@.len(),
    ensures
        match r {
            Some(j) => skip_items(s@, i as int) == Some(j as int) && i <= j <= s@.len(),
            None => skip_items(s@, i as int) is None,
        },
    decreases s@.len() - i, 1int,
{
    let n = s.unicode_len();
    match exec_skip_value(s, i) {
        Some(j) => {
            let j1 = exec_skip_ws(s, j);
            if j1 < n && s.get_char(j1) == ',' {
                let j2 = exec_skip_ws(s, j1 + 1);
                exec_skip_items(s, j2)
            } else if j1 < n && s.get_char(j1) == ']' {
                Some(j1 + 1)
            } else {
                None
            }
        }
        None => None,
    }
}

/// Whether `forall t in [i, j): is_digit_char(s[t])` follows from scan_digits.
proof fn lemma_scan_digits_range(s: Seq<char>, i: int)
    requires
        0 <= i <= s.len(),
    ensures
        i <= scan_digits(s, i) <= s.len(),
        forall|t: int| i <= t < scan_digits(s, i) ==> is_digit_char(s[t]),
    decreases s.len() - i,
{
    if 0 <= i < s.len() && is_digit_char(s[i]) {
        lemma_scan_digits_range(s, i + 1);
    }
}

fn exec_parse_scalar(s: &str, i: usize) -> (r: Option<(Scalar, usize)>)
    requires
        i <= s@.len(),
    ensures
        match r {
            Some((v, j)) => parse_scalar(s@, i as int) == Some((v@, j as int)) && i <= j <= s@.len(),
            None => parse_scalar(s@, i as int) is None,
        },
{
    let n = s.unicode_len();
    if i >= n {
        return None;
    }
    let c = s.get_char(i);
    if c == '"' {
        match exec_parse_string(s, i) {
            Some((t, j)) => Some((Scalar::Str(t), j)),
            None => None,
        }
    } else if c == '-' || (c >= '0' && c <= '9') {
        exec_parse_number(s, i)
    } else if c == '{' || c == '[' {
        match exec_skip_value(s, i) {
            Some(j) => Some((Scalar::Other, j)),
            None => None,
        }
    } else {
        proof {
            reveal_strlit("null");
            reveal_strlit("true");
            reveal_strlit("false");
        }
        if exec_has_prefix(s, i, "null") {
            Some((Scalar::Null, i + 4))
        } else if exec_has_prefix(s, i, "true") {
            Some((Scalar::Bool(true), i + 4))
        } else if exec_has_prefix(s, i, "false") {
            Some((Scalar::Bool(false), i + 5))
        } else {
            None
        }
    }
}

fn exec_parse_scalar_pairs(s: &str, i: usize) -> (r: Option<(Vec<(String, Scalar)>, usize)>)
    requires
        i <= s@.len(),
    ensures
        match r {
            Some((m, j)) => parse_scalar_pairs(s@, i as int)
                == Some((scalar_members_view(m@), j as int)) && i <= j <= s@.len(),
            None => parse_scalar_pairs(s@, i as int) is None,
        },
    decreases s@.len() - i,
{
    let n = s.unicode_len();
    let kj = exec_parse_string(s, i);
    match kj {
        Some((k, j)) => {
            let j1 = exec_skip_ws(s, j);
            if j1 < n && s.get_char(j1) == ':' {
                let j2 = exec_skip_ws(s, j1 + 1);
                match exec_parse_scalar(s, j2) {
                    Some((v, j3)) => {
                        let j4 = exec_skip_ws(s, j3);
                        if j4 < n && s.get_char(j4) == ',' {
                            let j5 = exec_skip_ws(s, j4 + 1);
                            if i < j5 && j5 <= n {
                                match exec_parse_scalar_pairs(s, j5) {
                                    Some((rest, j6)) => {
                                        let mut out: Vec<(String, Scalar)> = Vec::new();
                                        out.push((k, v));
                                        let mut rest = rest;
                                        let ghost rest_snap = rest@;
                                        out.append(&mut rest);
                                        proof {
                                            assert(scalar_members_view(out@)
                                                =~= seq![(out@[0].0@, out@[0].1@)]
                                                    + scalar_members_view(rest_snap));
                                        }
                                        Some((out, j6))
                                    }
                                    None => None,
                                }
                            } else {
                                None
                            }
                        } else if j4 < n && s.get_char(j4) == '}' {
                            let mut out: Vec<(String, Scalar)> = Vec::new();
                            out.push((k, v));
                            proof {
                                assert(scalar_members_view(out@) =~= seq![(out@[0].0@, out@[0].1@)]);
                            }
                            Some((out, j4 + 1))
                        } else {
                            None
                        }
                    }
                    None => None,
                }
            } else {
                None
            }
        }
        None => None,
    }
}

fn exec_parse_scalar_obj(s: &str, i: usize) -> (r: Option<(Vec<(String, Scalar)>, usize)>)
    requires
        i <= s@.len(),
    ensures
        match r {
            Some((m, j)) => parse_scalar_obj(s@, i as int)
                == Some((scalar_members_view(m@), j as int)) && i <= j <= s@.len(),
            None => parse_scalar_obj(s@, i as int) is None,
        },
{
    let n = s.unicode_len();
    if i < n && s.get_char(i) == '{' {
        let j = exec_skip_ws(s, i + 1);
        if j < n && s.get_char(j) == '}' {
            let out: Vec<(String, Scalar)> = Vec::new();
            proof {
                assert(scalar_members_view(out@) =~= Seq::<(Seq<char>, ScalarV)>::empty());
            }
            Some((out, j + 1))
        } else {
            exec_parse_scalar_pairs(s, j)
        }
    } else {
        None
    }
}

fn exec_parse_value(s: &str, i: usize) -> (r: Option<(Value, usize)>)
    requires
        i <= s@.len(),
    ensures
        match r {
            Some((v, j)) => parse_value(s@, i as int) == Some((v@, j as int)) && i <= j <= s@.len(),
            None => parse_value(s@, i as int) is None,
        },
{
    let n = s.unicode_len();
    if i < n && s.get_char(i) == '{' {
        match exec_parse_scalar_obj(s, i) {
            Some((m, j)) => Some((Value::Obj(m), j)),
            None => None,
        }
    } else {
        match exec_parse_scalar(s, i) {
            Some((v, j)) => Some((Value::Scalar(v), j)),
            None => None,
        }
    }
}

fn exec_parse_top_pairs(s: &str, i: usize) -> (r: Option<(Vec<(String, Value)>, usize)>)
    requires
        i <= s@.len(),
    ensures
        match r {
            Some((m, j)) => parse_top_pairs(s@, i as int)
                == Some((top_members_view(m@), j as int)) && i <= j <= s@.len(),
            None => parse_top_pairs(s@, i as int) is None,
        },
    decreases s@.len() - i,
{
    let n = s.unicode_len();
    let kj = exec_parse_string(s, i);
    match kj {
        Some((k, j)) => {
            let j1 = exec_skip_ws(s, j);
            if j1 < n && s.get_char(j1) == ':' {
                let j2 = exec_skip_ws(s, j1 + 1);
                match exec_parse_value(s, j2) {
                    Some((v, j3)) => {
                        let j4 = exec_skip_ws(s, j3);
                        if j4 < n && s.get_char(j4) == ',' {
                            let j5 = exec_skip_ws(s, j4 + 1);
                            if i < j5 && j5 <= n {
                                match exec_parse_top_pairs(s, j5) {
                                    Some((rest, j6)) => {
                                        let mut out: Vec<(String, Value)> = Vec::new();
                                        out.push((k, v));
                                        let mut rest = rest;
                                        let ghost rest_snap = rest@;
                                        out.append(&mut rest);
                                        proof {
                                            assert(top_members_view(out@)
                                                =~= seq![(out@[0].0@, out@[0].1@)]
                                                    + top_members_view(rest_snap));
                                        }
                                        Some((out, j6))
                                    }
                                    None => None,
                                }
                            } else {
                                None
                            }
                        } else if j4 < n && s.get_char(j4) == '}' {
                            let mut out: Vec<(String, Value)> = Vec::new();
                            out.push((k, v));
                            proof {
                                assert(top_members_view(out@) =~= seq![(out@[0].0@, out@[0].1@)]);
                            }
                            Some((out, j4 + 1))
                        } else {
                            None
                        }
                    }
                    None => None,
                }
            } else {
                None
            }
        }
        None => None,
    }
}

fn exec_parse_top_obj(s: &str, i: usize) -> (r: Option<(Vec<(String, Value)>, usize)>)
    requires
        i <= s@.len(),
    ensures
        match r {
            Some((m, j)) => parse_top_obj(s@, i as int)
                == Some((top_members_view(m@), j as int)) && i <= j <= s@.len(),
            None => parse_top_obj(s@, i as int) is None,
        },
{
    let n = s.unicode_len();
    if i < n && s.get_char(i) == '{' {
        let j = exec_skip_ws(s, i + 1);
        if j < n && s.get_char(j) == '}' {
            let out: Vec<(String, Value)> = Vec::new();
            proof {
                assert(top_members_view(out@) =~= Seq::<(Seq<char>, ValueV)>::empty());
            }
            Some((out, j + 1))
        } else {
            exec_parse_top_pairs(s, j)
        }
    } else {
        None
    }
}

/// Decodes the whole input as one document of the grammar.
pub fn parse_document(s: &str) -> (r: Result<Doc, JsonError>)
    ensures
        match r {
            Ok(d) => doc_of(s@) == Some(d@),
            Err(_) => doc_of(s@) is None,
        },
{
    let i = exec_skip_ws(s, 0);
    match exec_parse_top_obj(s, i) {
        Some((m, j)) => {
            let e = exec_skip_ws(s, j);
            if e == s.unicode_len() {
                Ok(Doc { members: m })
            } else {
                Err(JsonError)
            }
        }
        None => Err(JsonError),
    }
}

// ------------------------------------------------------------------
// Member lookup
// ------------------------------------------------------------------

/// The value under the first member named `k`, if any.
pub open spec fn lookup(m: Seq<(Seq<char>, ValueV)>, k: Seq<char>) -> Option<ValueV>
    decreases m.len(),
{
    if m.len() == 0 {
        None
    } else if m[0].0 == k {
        Some(m[0].1)
    } else {
        lookup(m.drop_first(), k)
    }
}

/// The scalar under the first member named `k`, if any.
pub open spec fn lookup_scalar(m: Seq<(Seq<char>, ScalarV)>, k: Seq<char>) -> Option<ScalarV>
    decreases m.len(),
{
    if m.len() == 0 {
        None
    } else if m[0].0 == k {
        Some(m[0].1)
    } else {
        lookup_scalar(m.drop_first(), k)
    }
}

/// How many members are named `k`.
pub open spec fn key_count(m: Seq<(Seq<char>, ValueV)>, k: Seq<char>) -> nat
    decreases m.len(),
{
    if m.len() == 0 {
        0
    } else {
        (if m[0].0 == k { 1nat } else { 0nat }) + key_count(m.drop_first(), k)
    }
}

/// How many scalar members are named `k`.
pub open spec fn key_count_scalar(m: Seq<(Seq<char>, ScalarV)>, k: Seq<char>) -> nat
    decreases m.len(),
{
    if m.len() == 0 {
        0
    } else {
        (if m[0].0 == k { 1nat } else { 0nat }) + key_count_scalar(m.drop_first(), k)
    }
}

/// The value under `k` when exactly one member bears that name: a field
/// the service reads must not be duplicated.
pub open spec fn lookup_unique(m: Seq<(Seq<char>, ValueV)>, k: Seq<char>) -> Option<ValueV> {
    if key_count(m, k) == 1 {
        lookup(m, k)
    } else {
        None
    }
}

/// The scalar under `k` when exactly one member bears that name.
pub open spec fn lookup_scalar_unique(m: Seq<(Seq<char>, ScalarV)>, k: Seq<char>) -> Option<
    ScalarV,
> {
    if key_count_scalar(m, k) == 1 {
        lookup_scalar(m, k)
    } else {
        None
    }
}

/// Character-wise string comparison.
pub fn str_eq(a: &str, b: &str) -> (r: bool)
    ensures
        r == (a@ == b@),
{
    let na = a.unicode_len();
    let nb = b.unicode_len();
    if na != nb {
        return false;
    }
    let mut k: usize = 0;
    while k < na
        invariant
            0 <= k <= na,
            na == a@.len(),
            na == b@.len(),
            forall|m: int| 0 <= m < k ==> a@[m] == b@[m],
        decreases na - k,
    {
        if a.get_char(k) != b.get_char(k) {
            return false;
        }
        k += 1;
    }
    proof {
        assert(a@ =~= b@);
    }
    true
}

impl Doc {
    /// The value of the first member named `k`, if any.
    pub fn get<'a>(&'a self, k: &str) -> (r: Option<&'a Value>)
        ensures
            match r {
                Some(v) => lookup(self@, k@) == Some(v@),
                None => lookup(self@, k@) is None,
            },
    {
        let n = self.members.len();
        let mut idx: usize = 0;
        proof {
            assert(self.members@.skip(0) =~= self.members@);
        }
        while idx < n
            invariant
                0 <= idx <= n,
                n == self.members@.len(),
                lookup(self@, k@) == lookup(top_members_view(self.members@.skip(idx as int)), k@),
        decreases n - idx,
        {
            proof {
                assert(top_members_view(self.members@.skip(idx as int))[0]
                    == (self.members@[idx as int].0@, self.members@[idx as int].1@));
            }
            if str_eq(self.members[idx].0.as_str(), k) {
                return Some(&self.members[idx].1);
            }
            proof {
                assert(top_members_view(self.members@.skip(idx as int)).drop_first()
                    =~= top_members_view(self.members@.skip(idx as int + 1)));
            }
            idx += 1;
        }
        proof {
            assert(top_members_view(self.members@.skip(idx as int)).len() == 0);
        }
        None
    }

    /// The value of the member named `k`, if exactly one member bears
    /// that name.
    pub fn get_unique<'a>(&'a self, k: &str) -> (r: Option<&'a Value>)
        ensures
            match r {
                Some(v) => lookup_unique(self@, k@) == Some(v@),
                None => lookup_unique(self@, k@) is None,
            },
    {
        let n = self.members.len();
        let mut idx: usize = 0;
        let mut found: Option<usize> = None;
        let mut cnt: usize = 0;
        proof {
            assert(self.members@.skip(0) =~= self.members@);
        }
        while idx < n
            invariant
                0 <= idx <= n,
                n == self.members@.len(),
                cnt <= idx,
                key_count(self@, k@) == cnt + key_count(
                    top_members_view(self.members@.skip(idx as int)),
                    k@,
                ),
                match found {
                    Some(f) => cnt >= 1 && f < idx && lookup(self@, k@) == Some(
                        self.members@[f as int].1@,
                    ),
                    None => cnt == 0 && lookup(self@, k@) == lookup(
                        top_members_view(self.members@.skip(idx as int)),
                        k@,
                    ),
                },
            decreases n - idx,
        {
            proof {
                assert(top_members_view(self.members@.skip(idx as int))[0]
                    == (self.members@[idx as int].0@, self.members@[idx as int].1@));
                assert(top_members_view(self.members@.skip(idx as int)).drop_first()
                    =~= top_members_view(self.members@.skip(idx as int + 1)));
            }
            if str_eq(self.members[idx].0.as_str(), k) {
                if found.is_none() {
                    found = Some(idx);
                }
                cnt = cnt + 1;
            }
            idx += 1;
        }
        proof {
            assert(top_members_view(self.members@.skip(idx as int)).len() == 0);
        }
        match found {
            Some(f) => {
                if cnt == 1 {
                    Some(&self.members[f].1)
                } else {
                    None
                }
            }
            None => None,
        }
    }
}

impl Value {
    /// The scalar under `k` in a nested object, if any.
    pub fn get_scalar<'a>(&'a self, k: &str) -> (r: Option<&'a Scalar>)
        ensures
            match r {
                Some(v) => self@ matches ValueV::Obj(m) && lookup_scalar(m, k@) == Some(v@),
                None => !(self@ matches ValueV::Obj(m) && lookup_scalar(m, k@) is Some),
            },
    {
        match self {
            Value::Scalar(_) => None,
            Value::Obj(members) => {
                let n = members.len();
                let mut idx: usize = 0;
                proof {
                    assert(members@.skip(0) =~= members@);
                    assert(self@ == ValueV::Obj(scalar_members_view(members@)));
                }
                while idx < n
                    invariant
                        0 <= idx <= n,
                        n == members@.len(),
                        self@ == ValueV::Obj(scalar_members_view(members@)),
                        lookup_scalar(scalar_members_view(members@), k@)
                            == lookup_scalar(scalar_members_view(members@.skip(idx as int)), k@),
                    decreases n - idx,
                {
                    proof {
                        assert(scalar_members_view(members@.skip(idx as int))[0]
                            == (members@[idx as int].0@, members@[idx as int].1@));
                    }
                    if str_eq(members[idx].0.as_str(), k) {
                        return Some(&members[idx].1);
                    }
                    proof {
                        assert(scalar_members_view(members@.skip(idx as int)).drop_first()
                            =~= scalar_members_view(members@.skip(idx as int + 1)));
                    }
                    idx += 1;
                }
                proof {
                    assert(scalar_members_view(members@.skip(idx as int)).len() == 0);
                }
                None
            }
        }
    }

    /// The scalar under `k` in a nested object, if exactly one member
    /// bears that name.
    pub fn get_scalar_unique<'a>(&'a self, k: &str) -> (r: Option<&'a Scalar>)
        ensures
            match r {
                Some(v) => self@ matches ValueV::Obj(m) && lookup_scalar_unique(m, k@) == Some(v@),
                None => !(self@ matches ValueV::Obj(m) && lookup_scalar_unique(m, k@) is Some),
            },
    {
        match self {
            Value::Scalar(_) => None,
            Value::Obj(members) => {
                let n = members.len();
                let mut idx: usize = 0;
                let mut found: Option<usize> = None;
                let mut cnt: usize = 0;
                proof {
                    assert(members@.skip(0) =~= members@);
                    assert(self@ == ValueV::Obj(scalar_members_view(members@)));
                }
                while idx < n
                    invariant
                        0 <= idx <= n,
                        n == members@.len(),
                        cnt <= idx,
                        self@ == ValueV::Obj(scalar_members_view(members@)),
                        key_count_scalar(scalar_members_view(members@), k@) == cnt
                            + key_count_scalar(
                            scalar_members_view(members@.skip(idx as int)),
                            k@,
                        ),
                        match found {
                            Some(f) => cnt >= 1 && f < idx && lookup_scalar(
                                scalar_members_view(members@),
                                k@,
                            ) == Some(members@[f as int].1@),
                            None => cnt == 0 && lookup_scalar(scalar_members_view(members@), k@)
                                == lookup_scalar(
                                scalar_members_view(members@.skip(idx as int)),
                                k@,
                            ),
                        },
                    decreases n - idx,
                {
                    proof {
                        assert(scalar_members_view(members@.skip(idx as int))[0]
                            == (members@[idx as int].0@, members@[idx as int].1@));
                        assert(scalar_members_view(members@.skip(idx as int)).drop_first()
                            =~= scalar_members_view(members@.skip(idx as int + 1)));
                    }
                    if str_eq(members[idx].0.as_str(), k) {
                        if found.is_none() {
                            found = Some(idx);
                        }
                        cnt = cnt + 1;
                    }
                    idx += 1;
                }
                proof {
                    assert(scalar_members_view(members@.skip(idx as int)).len() == 0);
                }
                match found {
                    Some(f) => {
                        if cnt == 1 {
                            Some(&members[f].1)
                        } else {
                            None
                        }
                    }
                    None => None,
                }
            }
        }
    }
}

} // verus!
