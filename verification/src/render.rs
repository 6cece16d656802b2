//! Rendering of an error code as human-readable text.
//!
//! The system message facility hands back a message as UTF-16 code units (or
//! nothing, when the lookup fails). Rendering decodes those units one by one,
//! substituting U+FFFD for any unit that is no Unicode scalar value by
//! itself, strips leading and trailing whitespace, and falls back to a fixed
//! hexadecimal form of the code when the facility produced nothing.

use vstd::prelude::*;

use crate::W32Error;

verus! {

/// Upper bound on the UTF-16 code units the renderer takes at once: the size
/// of the fixed buffer handed to the system message facility.
pub const MAX_MESSAGE_UNITS: usize = 1024;

// ---------------------------------------------------------------------------
// Whitespace classification
// ---------------------------------------------------------------------------

/// Whether the host classifies a character as whitespace (the Unicode
/// `White_Space` property); the result of `char::is_whitespace`.
pub uninterp spec fn is_whitespace_char(c: char) -> bool;

/// Relies on `char::is_whitespace`: whether the character has the Unicode
/// `White_Space` property, a function of the character alone.
pub assume_specification[ char::is_whitespace ](c: char) -> (r: bool)
    ensures
        r == is_whitespace_char(c),
;

// ---------------------------------------------------------------------------
// UTF-16 decoding, one character per unit
// ---------------------------------------------------------------------------

/// Whether a UTF-16 code unit is by itself a Unicode scalar value (that is,
/// not a surrogate half).
pub open spec fn is_scalar_unit(u: u16) -> bool {
    u < 0xD800 || u >= 0xE000
}

/// The character a single UTF-16 code unit decodes to: the unit's own scalar
/// value, or U+FFFD where the unit alone is no scalar value.
pub open spec fn decode_unit(u: u16) -> char {
    if is_scalar_unit(u) {
        u as char
    } else {
        '\u{FFFD}'
    }
}

/// The characters a sequence of UTF-16 code units decodes to, exactly one
/// character per unit.
pub open spec fn decoded_units(units: Seq<u16>) -> Seq<char> {
    Seq::new(units.len(), |i: int| decode_unit(units[i]))
}

/// Relies on `char::from_u32`: returns the character with the given scalar
/// value, and `None` exactly on surrogate values and values above U+10FFFF.
pub assume_specification[ char::from_u32 ](v: u32) -> (r: Option<char>)
    ensures
        r is Some <==> (v < 0xD800 || (0xE000 <= v && v <= 0x10FFFF)),
        r is Some ==> r.unwrap() as u32 == v,
;

/// Decodes one UTF-16 code unit, substituting U+FFFD where the unit alone is
/// no scalar value.
fn decode_unit_exec(u: u16) -> (c: char)
    ensures
        c == decode_unit(u),
{
    if u < 0xD800 || u >= 0xE000 {
        let c = char::from_u32(u as u32).unwrap();
        proof {
            vstd::utf8::char_u32_cast(c, u as u32);
        }
        c
    } else {
        '\u{FFFD}'
    }
}

/// Decodes UTF-16 code units into characters, one character per unit, with
/// U+FFFD substituted for every unit that is no scalar value by itself.
pub fn decode_message(units: &Vec<u16>) -> (r: Vec<char>)
    ensures
        r@ == decoded_units(units@),
{
    let mut out: Vec<char> = Vec::new();
    let mut i: usize = 0;
    while i < units.len()
        invariant
            i <= units@.len(),
            out@.len() == i,
            forall|j: int| 0 <= j < i ==> out@[j] == decode_unit(units@[j]),
        decreases units@.len() - i,
    {
        out.push(decode_unit_exec(units[i]));
        i += 1;
    }
    proof {
        assert(out@ =~= decoded_units(units@));
    }
    out
}

// ---------------------------------------------------------------------------
// Whitespace trimming
// ---------------------------------------------------------------------------

/// Whether every character of a sequence is whitespace (vacuously true of the
/// empty sequence).
pub open spec fn all_whitespace(s: Seq<char>) -> bool {
    forall|i: int| 0 <= i < s.len() ==> is_whitespace_char(#[trigger] s[i])
}

/// Whether `i` is the position of the first non-whitespace character of `s`.
pub open spec fn is_first_non_ws(s: Seq<char>, i: int) -> bool {
    &&& 0 <= i < s.len()
    &&& !is_whitespace_char(s[i])
    &&& forall|j: int| 0 <= j < i ==> is_whitespace_char(#[trigger] s[j])
}

/// Whether `i` is the position of the last non-whitespace character of `s`.
pub open spec fn is_last_non_ws(s: Seq<char>, i: int) -> bool {
    &&& 0 <= i < s.len()
    &&& !is_whitespace_char(s[i])
    &&& forall|j: int| i < j < s.len() ==> is_whitespace_char(#[trigger] s[j])
}

/// The position of the first non-whitespace character of `s`.
pub open spec fn first_non_ws(s: Seq<char>) -> int {
    choose|i: int| is_first_non_ws(s, i)
}

/// The position of the last non-whitespace character of `s`.
pub open spec fn last_non_ws(s: Seq<char>) -> int {
    choose|i: int| is_last_non_ws(s, i)
}

/// The inclusive range of `s` from its first to its last non-whitespace
/// character; empty where no such character exists.
pub open spec fn trimmed(s: Seq<char>) -> Seq<char> {
    if all_whitespace(s) {
        Seq::<char>::empty()
    } else {
        s.subrange(first_non_ws(s), last_non_ws(s) + 1)
    }
}

proof fn lemma_first_non_ws_unique(s: Seq<char>, i1: int, i2: int)
    requires
        is_first_non_ws(s, i1),
        is_first_non_ws(s, i2),
    ensures
        i1 == i2,
{
    if i1 < i2 {
        assert(is_whitespace_char(s[i1]));
    }
    if i2 < i1 {
        assert(is_whitespace_char(s[i2]));
    }
}

proof fn lemma_last_non_ws_unique(s: Seq<char>, i1: int, i2: int)
    requires
        is_last_non_ws(s, i1),
        is_last_non_ws(s, i2),
    ensures
        i1 == i2,
{
    if i1 < i2 {
        assert(is_whitespace_char(s[i2]));
    }
    if i2 < i1 {
        assert(is_whitespace_char(s[i1]));
    }
}

proof fn lemma_first_non_ws_exists(s: Seq<char>)
    requires
        !all_whitespace(s),
    ensures
        is_first_non_ws(s, first_non_ws(s)),
    decreases s.len(),
{
    let k = choose|k: int| 0 <= k < s.len() && !is_whitespace_char(s[k]);
    if !is_whitespace_char(s[0]) {
        assert(is_first_non_ws(s, 0));
    } else {
        let sub = s.subrange(1, s.len() as int);
        assert(k >= 1);
        assert(sub[k - 1] == s[k]);
        assert(!all_whitespace(sub));
        lemma_first_non_ws_exists(sub);
        let i = first_non_ws(sub);
        assert(s[i + 1] == sub[i]);
        assert forall|j: int| 0 <= j < i + 1 implies is_whitespace_char(#[trigger] s[j]) by {
            if j >= 1 {
                assert(sub[j - 1] == s[j]);
                assert(is_whitespace_char(sub[j - 1]));
            }
        }
        assert(is_first_non_ws(s, i + 1));
    }
}

proof fn lemma_last_non_ws_exists(s: Seq<char>)
    requires
        !all_whitespace(s),
    ensures
        is_last_non_ws(s, last_non_ws(s)),
    decreases s.len(),
{
    let k = choose|k: int| 0 <= k < s.len() && !is_whitespace_char(s[k]);
    let n = s.len() as int;
    if !is_whitespace_char(s[n - 1]) {
        assert(is_last_non_ws(s, n - 1));
    } else {
        let sub = s.subrange(0, n - 1);
        assert(k < n - 1);
        assert(sub[k] == s[k]);
        assert(!all_whitespace(sub));
        lemma_last_non_ws_exists(sub);
        let i = last_non_ws(sub);
        assert(s[i] == sub[i]);
        assert forall|j: int| i < j < n implies is_whitespace_char(#[trigger] s[j]) by {
            if j < n - 1 {
                assert(sub[j] == s[j]);
                assert(is_whitespace_char(sub[j]));
            }
        }
        assert(is_last_non_ws(s, i));
    }
}

fn first_non_ws_index(chars: &Vec<char>) -> (r: Option<usize>)
    ensures
        r matches Some(a) ==> is_first_non_ws(chars@, a as int),
        r is None ==> all_whitespace(chars@),
{
    let mut i: usize = 0;
    while i < chars.len()
        invariant
            i <= chars@.len(),
            forall|j: int| 0 <= j < i ==> is_whitespace_char(#[trigger] chars@[j]),
        decreases chars@.len() - i,
    {
        if !chars[i].is_whitespace() {
            return Some(i);
        }
        i += 1;
    }
    None
}

fn last_non_ws_index(chars: &Vec<char>) -> (r: Option<usize>)
    ensures
        r matches Some(b) ==> is_last_non_ws(chars@, b as int),
        r is None ==> all_whitespace(chars@),
{
    let mut i: usize = chars.len();
    while i > 0
        invariant
            i <= chars@.len(),
            forall|j: int| i <= j < chars@.len() ==> is_whitespace_char(#[trigger] chars@[j]),
        decreases i,
    {
        if !chars[i - 1].is_whitespace() {
            return Some(i - 1);
        }
        i -= 1;
    }
    None
}

/// Strips leading and trailing whitespace: returns the inclusive range of
/// `chars` from its first to its last non-whitespace character, or an empty
/// vector when every character is whitespace.
pub fn trim_whitespace(chars: &Vec<char>) -> (r: Vec<char>)
    ensures
        r@ == trimmed(chars@),
{
    match first_non_ws_index(chars) {
        None => {
            let r: Vec<char> = Vec::new();
            proof {
                assert(r@ =~= trimmed(chars@));
            }
            r
        },
        Some(a) => {
            let b = match last_non_ws_index(chars) {
                Some(b) => b,
                None => {
                    proof {
                        assert(is_whitespace_char(chars@[a as int]));
                    }
                    vstd::pervasive::unreached()
                },
            };
            proof {
                if (a as int) > (b as int) {
                    assert(is_whitespace_char(chars@[a as int]));
                }
            }
            let n = chars.len();
            let mut out: Vec<char> = Vec::new();
            let mut i: usize = a;
            while i <= b
                invariant
                    a <= i <= b + 1,
                    b < n,
                    n == chars@.len(),
                    out@ == chars@.subrange(a as int, i as int),
                decreases b + 1 - i,
            {
                out.push(chars[i]);
                proof {
                    assert(chars@.subrange(a as int, i as int + 1) =~= chars@.subrange(
                        a as int,
                        i as int,
                    ).push(chars@[i as int]));
                }
                i += 1;
            }
            proof {
                assert(!all_whitespace(chars@)) by {
                    assert(!is_whitespace_char(chars@[a as int]));
                }
                lemma_first_non_ws_exists(chars@);
                lemma_last_non_ws_exists(chars@);
                lemma_first_non_ws_unique(chars@, a as int, first_non_ws(chars@));
                lemma_last_non_ws_unique(chars@, b as int, last_non_ws(chars@));
                assert(out@ == trimmed(chars@));
            }
            out
        },
    }
}

/// Trimming law: the trimmed text never starts or ends with a whitespace
/// character; it is empty exactly when every character of the original is
/// whitespace.
pub proof fn lemma_trimmed_no_edge_whitespace(s: Seq<char>)
    ensures
        all_whitespace(s) ==> trimmed(s).len() == 0,
        !all_whitespace(s) ==> trimmed(s).len() > 0,
        trimmed(s).len() > 0 ==> !is_whitespace_char(trimmed(s)[0]),
        trimmed(s).len() > 0 ==> !is_whitespace_char(trimmed(s)[trimmed(s).len() - 1]),
{
    if !all_whitespace(s) {
        lemma_first_non_ws_exists(s);
        lemma_last_non_ws_exists(s);
        let a = first_non_ws(s);
        let b = last_non_ws(s);
        if a > b {
            assert(is_whitespace_char(s[a]));
        }
        assert(trimmed(s)[0] == s[a]);
        assert(trimmed(s)[trimmed(s).len() - 1] == s[b]);
    }
}

// ---------------------------------------------------------------------------
// Hexadecimal fallback
// ---------------------------------------------------------------------------

/// The character for one hexadecimal digit value, upper case.
pub open spec fn hex_digit_char(d: u32) -> char {
    if d == 0 {
        '0'
    } else if d == 1 {
        '1'
    } else if d == 2 {
        '2'
    } else if d == 3 {
        '3'
    } else if d == 4 {
        '4'
    } else if d == 5 {
        '5'
    } else if d == 6 {
        '6'
    } else if d == 7 {
        '7'
    } else if d == 8 {
        '8'
    } else if d == 9 {
        '9'
    } else if d == 10 {
        'A'
    } else if d == 11 {
        'B'
    } else if d == 12 {
        'C'
    } else if d == 13 {
        'D'
    } else if d == 14 {
        'E'
    } else {
        'F'
    }
}

/// The upper-case hexadecimal digits of `v`, most significant first, without
/// leading zeros (a single `'0'` for zero).
pub open spec fn hex_digits(v: u32) -> Seq<char>
    decreases v,
{
    if v < 16 {
        seq![hex_digit_char(v)]
    } else {
        hex_digits(v / 16).push(hex_digit_char(v % 16))
    }
}

/// `n` copies of the character `'0'`.
pub open spec fn zero_run(n: nat) -> Seq<char> {
    Seq::new(n, |i: int| '0')
}

/// The fixed textual fallback for a code whose message lookup failed: `0x`,
/// then the code's upper-case hexadecimal digits, zero-padded on the left so
/// that the whole text is at least eight characters long.
pub open spec fn hex_fallback(code: u32) -> Seq<char> {
    let ds = hex_digits(code);
    let pad: nat = if ds.len() < 6 {
        (6 - ds.len()) as nat
    } else {
        0
    };
    seq!['0', 'x'] + zero_run(pad) + ds
}

/// Whether `c` is one of the sixteen upper-case hexadecimal digit characters.
pub open spec fn is_hex_digit_char(c: char) -> bool {
    ('0' as u32 <= c as u32 && c as u32 <= '9' as u32) || ('A' as u32 <= c as u32 && c as u32
        <= 'F' as u32)
}

proof fn lemma_hex_digits_len(v: u32)
    ensures
        1 <= hex_digits(v).len(),
        v < 0x10 ==> hex_digits(v).len() <= 1,
        v < 0x100 ==> hex_digits(v).len() <= 2,
        v < 0x1000 ==> hex_digits(v).len() <= 3,
        v < 0x10000 ==> hex_digits(v).len() <= 4,
        v < 0x100000 ==> hex_digits(v).len() <= 5,
        v < 0x1000000 ==> hex_digits(v).len() <= 6,
        v < 0x10000000 ==> hex_digits(v).len() <= 7,
        hex_digits(v).len() <= 8,
    decreases v,
{
    if v >= 16 {
        lemma_hex_digits_len(v / 16);
    }
}

proof fn lemma_hex_digits_are_hex(v: u32)
    ensures
        forall|i: int|
            0 <= i < hex_digits(v).len() ==> is_hex_digit_char(#[trigger] hex_digits(v)[i]),
    decreases v,
{
    if v >= 16 {
        lemma_hex_digits_are_hex(v / 16);
        assert(is_hex_digit_char(hex_digit_char(v % 16)));
        let prefix = hex_digits(v / 16);
        assert forall|i: int| 0 <= i < hex_digits(v).len() implies is_hex_digit_char(
            #[trigger] hex_digits(v)[i],
        ) by {
            if i < prefix.len() {
                assert(hex_digits(v)[i] == prefix[i]);
            } else {
                assert(hex_digits(v)[i] == hex_digit_char(v % 16));
            }
        }
    } else {
        assert(is_hex_digit_char(hex_digit_char(v)));
    }
}

/// The character for one hexadecimal digit value, upper case.
fn hex_digit_char_exec(d: u32) -> (c: char)
    requires
        d < 16,
    ensures
        c == hex_digit_char(d),
{
    if d == 0 {
        '0'
    } else if d == 1 {
        '1'
    } else if d == 2 {
        '2'
    } else if d == 3 {
        '3'
    } else if d == 4 {
        '4'
    } else if d == 5 {
        '5'
    } else if d == 6 {
        '6'
    } else if d == 7 {
        '7'
    } else if d == 8 {
        '8'
    } else if d == 9 {
        '9'
    } else if d == 10 {
        'A'
    } else if d == 11 {
        'B'
    } else if d == 12 {
        'C'
    } else if d == 13 {
        'D'
    } else if d == 14 {
        'E'
    } else {
        'F'
    }
}

/// How many hexadecimal digits `v` has.
fn hex_digit_count(v: u32) -> (n: usize)
    ensures
        n == hex_digits(v).len(),
        1 <= n <= 8,
    decreases v,
{
    proof {
        lemma_hex_digits_len(v);
    }
    if v < 16 {
        1
    } else {
        1 + hex_digit_count(v / 16)
    }
}

/// Appends the upper-case hexadecimal digits of `v`, most significant first.
fn push_hex_digits(v: u32, out: &mut Vec<char>)
    ensures
        final(out)@ == old(out)@ + hex_digits(v),
    decreases v,
{
    if v < 16 {
        out.push(hex_digit_char_exec(v));
        proof {
            assert(out@ =~= old(out)@ + hex_digits(v));
        }
    } else {
        push_hex_digits(v / 16, out);
        out.push(hex_digit_char_exec(v % 16));
        proof {
            assert(out@ =~= old(out)@ + hex_digits(v));
        }
    }
}

/// Builds the fallback text for a code: `0x` followed by the code's
/// upper-case hexadecimal digits, zero-padded to at least eight characters in
/// all.
pub fn fallback_text(code: u32) -> (r: Vec<char>)
    ensures
        r@ == hex_fallback(code),
{
    let mut out: Vec<char> = Vec::new();
    out.push('0');
    out.push('x');
    let cnt = hex_digit_count(code);
    let pad: usize = if cnt < 6 {
        6 - cnt
    } else {
        0
    };
    let ghost pad0: int = pad as int;
    proof {
        assert(out@ =~= seq!['0', 'x'] + zero_run(0));
    }
    let mut left: usize = pad;
    while left > 0
        invariant
            0 <= left <= pad0,
            out@ == seq!['0', 'x'] + zero_run((pad0 - left) as nat),
        decreases left,
    {
        out.push('0');
        left -= 1;
        proof {
            assert(out@ =~= seq!['0', 'x'] + zero_run((pad0 - left) as nat));
        }
    }
    push_hex_digits(code, &mut out);
    proof {
        assert(out@ =~= hex_fallback(code));
    }
    out
}

// ---------------------------------------------------------------------------
// The renderer
// ---------------------------------------------------------------------------

/// How an error code renders, given the UTF-16 code units the system message
/// facility produced for it: the trimmed decoded message, or, where the
/// facility produced nothing, the hexadecimal fallback.
pub open spec fn rendered(code: u32, units: Seq<u16>) -> Seq<char> {
    if units.len() == 0 {
        hex_fallback(code)
    } else {
        trimmed(decoded_units(units))
    }
}

/// Relies on `String`'s `FromIterator<char>`: collecting characters yields
/// the string of exactly those characters in order.
#[verifier::external_body]
fn chars_to_string(chars: &Vec<char>) -> (r: String)
    ensures
        r@ == chars@,
{
    chars.iter().collect()
}

impl W32Error {
    /// Renders the error as human-readable text, given the UTF-16 code units
    /// the system message facility wrote for this code (empty when the
    /// facility failed). The units are decoded one by one with U+FFFD
    /// substituted for invalid ones, then stripped of leading and trailing
    /// whitespace; a failed lookup yields the fixed hexadecimal form instead.
    pub fn render_message(&self, units: &Vec<u16>) -> (r: String)
        requires
            units@.len() <= MAX_MESSAGE_UNITS,
        ensures
            r@ == rendered(self.code_spec(), units@),
    {
        // The facility documents a 64 KiB ceiling for the buffer it writes
        // into; the unit cap stays within it.
        assert(MAX_MESSAGE_UNITS * 2 <= 65536);
        let chars = if units.len() == 0 {
            fallback_text(self.into_inner())
        } else {
            let decoded = decode_message(units);
            trim_whitespace(&decoded)
        };
        chars_to_string(&chars)
    }
}

/// Totality law: rendering is defined for every code. With no units from the
/// facility it is exactly the hexadecimal fallback, which starts with `0x`,
/// is at least eight characters long, and continues with nothing but
/// upper-case hexadecimal digits; with units it is exactly the trimmed
/// decoded message.
pub proof fn lemma_render_total(code: u32, units: Seq<u16>)
    ensures
        units.len() == 0 ==> rendered(code, units) == hex_fallback(code),
        units.len() > 0 ==> rendered(code, units) == trimmed(decoded_units(units)),
        hex_fallback(code).len() >= 8,
        hex_fallback(code)[0] == '0',
        hex_fallback(code)[1] == 'x',
        forall|i: int|
            2 <= i < hex_fallback(code).len() ==> is_hex_digit_char(
                #[trigger] hex_fallback(code)[i],
            ),
{
    lemma_hex_digits_len(code);
    lemma_hex_digits_are_hex(code);
    let ds = hex_digits(code);
    let pad: nat = if ds.len() < 6 {
        (6 - ds.len()) as nat
    } else {
        0
    };
    assert forall|i: int| 2 <= i < hex_fallback(code).len() implies is_hex_digit_char(
        #[trigger] hex_fallback(code)[i],
    ) by {
        if i < 2 + pad {
            assert(hex_fallback(code)[i] == '0');
        } else {
            assert(hex_fallback(code)[i] == ds[i - 2 - pad]);
        }
    }
}

/// Replacement law: decoding yields exactly one character per UTF-16 unit, at
/// the unit's own position; a unit that is no scalar value by itself becomes
/// exactly one U+FFFD, and every other unit keeps its own scalar value.
pub proof fn lemma_decode_replacement(units: Seq<u16>)
    ensures
        decoded_units(units).len() == units.len(),
        forall|i: int|
            0 <= i < units.len() && !is_scalar_unit(units[i]) ==> decoded_units(units)[i]
                == '\u{FFFD}',
        forall|i: int|
            0 <= i < units.len() && is_scalar_unit(units[i]) ==> decoded_units(units)[i]
                == units[i] as char,
{
}

} // verus!
