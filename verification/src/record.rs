//! The persisted record and its on-disk plaintext format.
//!
//! The plaintext inside the encrypted blob is a small JSON record with
//! exactly the fields of [`AppConfig`]:
//!
//! ```text
//! {"together_ai_api_key":"...","preferred_model":"..."}
//! ```
//!
//! (`preferred_model` may also be `null`.) String values escape `"` and `\`
//! with a backslash and control bytes as `\u00XX`; all other bytes, including
//! multi-byte UTF-8 sequences, pass through unchanged. The codec is defined
//! at the byte level — escaping only ever touches ASCII bytes, so it commutes
//! with UTF-8 encoding of the field values.

use vstd::prelude::*;
use vstd::utf8::{decode_utf8, encode_utf8, valid_utf8};

verus! {

/// The configuration record: the persisted credential and, optionally, the
/// preferred model identifier. An empty credential is what a blank record
/// holds before the first save; readers treat it as "absent".
pub struct AppConfig {
    pub together_ai_api_key: String,
    pub preferred_model: Option<String>,
}

/// Mathematical view of [`AppConfig`]: the two fields as character sequences.
pub struct AppConfigView {
    pub credential: Seq<char>,
    pub model: Option<Seq<char>>,
}

impl View for AppConfig {
    type V = AppConfigView;

    open spec fn view(&self) -> AppConfigView {
        AppConfigView {
            credential: self.together_ai_api_key@,
            model: match self.preferred_model {
                Some(m) => Some(m@),
                None => None,
            },
        }
    }
}

/// The model used when the record holds none.
pub open spec fn default_model() -> Seq<char> {
    "meta-llama/Meta-Llama-3.1-8B-Instruct-Turbo"@
}

/// A blank record: empty credential, default model.
pub open spec fn default_config() -> AppConfigView {
    AppConfigView { credential: Seq::empty(), model: Some(default_model()) }
}

impl Default for AppConfig {
    fn default() -> (r: AppConfig)
        ensures
            r@ == default_config(),
    {
        let r = AppConfig {
            together_ai_api_key: String::new(),
            preferred_model: Some("meta-llama/Meta-Llama-3.1-8B-Instruct-Turbo".to_owned()),
        };
        assert(r@.credential =~= default_config().credential);
        r
    }
}

/// The default model identifier as an owned string.
pub fn default_model_string() -> (r: String)
    ensures
        r@ == default_model(),
{
    "meta-llama/Meta-Llama-3.1-8B-Instruct-Turbo".to_owned()
}

// ---------------------------------------------------------------------------
// The byte-level format, as spec functions.
// ---------------------------------------------------------------------------

/// ASCII `"`.
pub const QUOTE: u8 = 34;

/// ASCII backslash.
pub const BACKSLASH: u8 = 92;

/// ASCII `u`.
pub const LOWER_U: u8 = 117;

/// ASCII `0`.
pub const DIGIT_0: u8 = 48;

/// ASCII `}`.
pub const RBRACE: u8 = 125;

/// The bytes that open the record, up to the opening quote of the credential:
/// `{"together_ai_api_key":"` in ASCII.
pub open spec fn head_bytes() -> Seq<u8> {
    seq![
        123u8, 34, 116, 111, 103, 101, 116, 104, 101, 114, 95, 97, 105, 95, 97, 112, 105, 95,
        107, 101, 121, 34, 58, 34,
    ]
}

/// The bytes between the credential's closing quote and the model value:
/// `,"preferred_model":` in ASCII.
pub open spec fn sep_bytes() -> Seq<u8> {
    seq![44u8, 34, 112, 114, 101, 102, 101, 114, 114, 101, 100, 95, 109, 111, 100, 101, 108, 34, 58]
}

/// The bytes that end a record whose model field is absent: `null}` in ASCII.
pub open spec fn null_end_bytes() -> Seq<u8> {
    seq![110u8, 117, 108, 108, 125]
}

/// Lower-case hex digit of a value below 16.
pub open spec fn hex_digit(x: u8) -> u8
    recommends
        x < 16,
{
    if x < 10 {
        (DIGIT_0 + x) as u8
    } else {
        (97 + (x - 10)) as u8
    }
}

/// Numeric value of a hex digit byte, if it is one.
pub open spec fn hex_val(b: u8) -> Option<u8> {
    if 48 <= b && b <= 57 {
        Some((b - 48) as u8)
    } else if 97 <= b && b <= 102 {
        Some((b - 97 + 10) as u8)
    } else if 65 <= b && b <= 70 {
        Some((b - 65 + 10) as u8)
    } else {
        None
    }
}

/// How one byte of a string value is written.
pub open spec fn escape_byte(x: u8) -> Seq<u8> {
    if x == QUOTE {
        seq![BACKSLASH, QUOTE]
    } else if x == BACKSLASH {
        seq![BACKSLASH, BACKSLASH]
    } else if x < 0x20 {
        seq![BACKSLASH, LOWER_U, DIGIT_0, DIGIT_0, hex_digit(x / 16), hex_digit(x % 16)]
    } else {
        seq![x]
    }
}

/// How a whole string value is written, byte by byte.
pub open spec fn escape(s: Seq<u8>) -> Seq<u8>
    decreases s.len(),
{
    if s.len() == 0 {
        Seq::empty()
    } else {
        escape_byte(s[0]) + escape(s.skip(1))
    }
}

/// Reads an escaped string value up to and including its closing quote.
/// Returns the decoded bytes and the input that follows the quote, or `None`
/// if the input ends first, holds a bare control byte, or holds an escape
/// this format never writes.
pub open spec fn parse_string_body(s: Seq<u8>) -> Option<(Seq<u8>, Seq<u8>)>
    decreases s.len(),
{
    if s.len() == 0 {
        None
    } else if s[0] == QUOTE {
        Some((Seq::empty(), s.skip(1)))
    } else if s[0] == BACKSLASH {
        if s.len() < 2 {
            None
        } else if s[1] == QUOTE || s[1] == BACKSLASH {
            match parse_string_body(s.skip(2)) {
                Some((v, rest)) => Some((seq![s[1]] + v, rest)),
                None => None,
            }
        } else if s[1] == LOWER_U {
            if s.len() < 6 {
                None
            } else if s[2] == DIGIT_0 && s[3] == DIGIT_0 && hex_val(s[4]) is Some && hex_val(
                s[5],
            ) is Some {
                match parse_string_body(s.skip(6)) {
                    Some(
                        (v, rest),
                    ) => Some(
                        (
                            seq![(hex_val(s[4])->Some_0 * 16 + hex_val(s[5])->Some_0) as u8] + v,
                            rest,
                        ),
                    ),
                    None => None,
                }
            } else {
                None
            }
        } else {
            None
        }
    } else if s[0] < 0x20 {
        None
    } else {
        match parse_string_body(s.skip(1)) {
            Some((v, rest)) => Some((seq![s[0]] + v, rest)),
            None => None,
        }
    }
}

/// The encoded record for field values already in bytes.
pub open spec fn encode_record_bytes(cred: Seq<u8>, model: Option<Seq<u8>>) -> Seq<u8> {
    head_bytes() + escape(cred) + seq![QUOTE] + sep_bytes() + (match model {
        Some(m) => seq![QUOTE] + escape(m) + seq![QUOTE, RBRACE],
        None => null_end_bytes(),
    })
}

/// Reads a whole record back into byte-level field values. `None` on any
/// deviation from the format.
pub open spec fn parse_record_bytes(b: Seq<u8>) -> Option<(Seq<u8>, Option<Seq<u8>>)> {
    if b.len() >= 24 && b.take(24) == head_bytes() {
        match parse_string_body(b.skip(24)) {
            Some((cred, r1)) => if r1.len() >= 19 && r1.take(19) == sep_bytes() {
                let r2 = r1.skip(19);
                if r2 == null_end_bytes() {
                    Some((cred, None))
                } else if r2.len() > 0 && r2[0] == QUOTE {
                    match parse_string_body(r2.skip(1)) {
                        Some((m, r3)) => if r3 == seq![RBRACE] {
                            Some((cred, Some(m)))
                        } else {
                            None
                        },
                        None => None,
                    }
                } else {
                    None
                }
            } else {
                None
            },
            None => None,
        }
    } else {
        None
    }
}

/// The encoded record of a configuration value.
pub open spec fn encode_config_bytes(c: AppConfigView) -> Seq<u8> {
    encode_record_bytes(
        encode_utf8(c.credential),
        match c.model {
            Some(m) => Some(encode_utf8(m)),
            None => None,
        },
    )
}

/// Parses record bytes all the way back to a configuration value: the byte
/// format first, then UTF-8 decoding of each field.
pub open spec fn parse_config_bytes(b: Seq<u8>) -> Option<AppConfigView> {
    match parse_record_bytes(b) {
        Some((cred, model)) => if valid_utf8(cred) && (match model {
            Some(m) => valid_utf8(m),
            None => true,
        }) {
            Some(
                AppConfigView {
                    credential: decode_utf8(cred),
                    model: match model {
                        Some(m) => Some(decode_utf8(m)),
                        None => None,
                    },
                },
            )
        } else {
            None
        },
        None => None,
    }
}

} // verus!

verus! {

// ---------------------------------------------------------------------------
// Round-trip: parsing reads back exactly what encoding wrote.
// ---------------------------------------------------------------------------

/// Reading a hex digit back yields the value it was written from.
proof fn lemma_hex_digit_val(x: u8)
    requires
        x < 16,
    ensures
        hex_val(hex_digit(x)) == Some(x),
{
}

/// Escaping distributes over concatenation.
proof fn lemma_escape_append(a: Seq<u8>, b: Seq<u8>)
    ensures
        escape(a + b) == escape(a) + escape(b),
    decreases a.len(),
{
    if a.len() == 0 {
        assert(a + b =~= b);
        assert(escape(a) + escape(b) =~= escape(b));
    } else {
        assert((a + b).skip(1) =~= a.skip(1) + b);
        lemma_escape_append(a.skip(1), b);
        assert(escape(a + b) =~= escape(a) + escape(b));
    }
}

/// Reading an escaped string value back yields the bytes it was written
/// from, and leaves exactly what followed the closing quote.
proof fn lemma_parse_escape(s: Seq<u8>, rest: Seq<u8>)
    ensures
        parse_string_body(escape(s) + seq![QUOTE] + rest) == Some((s, rest)),
    decreases s.len(),
{
    let t = escape(s) + seq![QUOTE] + rest;
    if s.len() == 0 {
        assert(t[0] == QUOTE);
        assert(t.skip(1) =~= rest);
        assert(s =~= Seq::<u8>::empty());
    } else {
        let x = s[0];
        let e = escape_byte(x);
        assert(escape(s) == e + escape(s.skip(1)));
        lemma_parse_escape(s.skip(1), rest);
        assert(seq![x] + s.skip(1) =~= s);
        if x == QUOTE || x == BACKSLASH {
            assert(t[0] == BACKSLASH && t[1] == x);
            assert(t.skip(2) =~= escape(s.skip(1)) + seq![QUOTE] + rest);
            assert(parse_string_body(t) == Some((seq![x] + s.skip(1), rest)));
        } else if x < 0x20 {
            assert(t[0] == BACKSLASH && t[1] == LOWER_U && t[2] == DIGIT_0 && t[3] == DIGIT_0);
            assert(t[4] == hex_digit(x / 16) && t[5] == hex_digit(x % 16));
            lemma_hex_digit_val(x / 16);
            lemma_hex_digit_val(x % 16);
            assert(x / 16 * 16 + x % 16 == x) by (nonlinear_arith);
            assert(t.skip(6) =~= escape(s.skip(1)) + seq![QUOTE] + rest);
            assert(parse_string_body(t) == Some((seq![x] + s.skip(1), rest)));
        } else {
            assert(t[0] == x);
            assert(t.skip(1) =~= escape(s.skip(1)) + seq![QUOTE] + rest);
            assert(parse_string_body(t) == Some((seq![x] + s.skip(1), rest)));
        }
    }
}

/// Byte-level round trip of the whole record.
proof fn lemma_parse_encode_record(cred: Seq<u8>, model: Option<Seq<u8>>)
    ensures
        parse_record_bytes(encode_record_bytes(cred, model)) == Some((cred, model)),
{
    let e = encode_record_bytes(cred, model);
    let tail = match model {
        Some(m) => seq![QUOTE] + escape(m) + seq![QUOTE, RBRACE],
        None => null_end_bytes(),
    };
    assert(e.take(24) =~= head_bytes());
    assert(e.skip(24) =~= escape(cred) + seq![QUOTE] + (sep_bytes() + tail));
    lemma_parse_escape(cred, sep_bytes() + tail);
    let r1 = sep_bytes() + tail;
    assert(r1.take(19) =~= sep_bytes());
    assert(r1.skip(19) =~= tail);
    match model {
        None => {
        },
        Some(m) => {
            assert(tail[0] == QUOTE);
            assert(tail != null_end_bytes()) by {
                assert(null_end_bytes()[0] == 110);
            }
            assert(tail.skip(1) =~= escape(m) + seq![QUOTE] + seq![RBRACE]);
            lemma_parse_escape(m, seq![RBRACE]);
        },
    }
}

/// Round trip of a configuration value: what `encode_config_bytes` writes,
/// `parse_config_bytes` reads back unchanged, for every record — this is the
/// serialization half of the save/load round-trip guarantee.
pub proof fn lemma_config_round_trip(c: AppConfigView)
    ensures
        parse_config_bytes(encode_config_bytes(c)) == Some(c),
{
    broadcast use vstd::utf8::encode_utf8_valid_utf8;
    broadcast use vstd::utf8::encode_utf8_decode_utf8;

    let cred = encode_utf8(c.credential);
    let model = match c.model {
        Some(m) => Some(encode_utf8(m)),
        None => None,
    };
    lemma_parse_encode_record(cred, model);
}

} // verus!

verus! {

// ---------------------------------------------------------------------------
// Executable codec.
// ---------------------------------------------------------------------------

/// Relies on `String::from_utf8`: it succeeds exactly on UTF-8 input and
/// decodes it. vstd's `valid_utf8` / `decode_utf8` model that documented
/// behaviour.
#[verifier::external_body]
fn string_from_utf8(bytes: Vec<u8>) -> (r: Option<String>)
    ensures
        r matches Some(s) ==> valid_utf8(bytes@) && s@ == decode_utf8(bytes@),
        r is None ==> !valid_utf8(bytes@),
{
    String::from_utf8(bytes).ok()
}

/// [`head_bytes`] as an owned vector.
fn head_vec() -> (r: Vec<u8>)
    ensures
        r@ == head_bytes(),
{
    let mut v: Vec<u8> = Vec::new();
    v.push(123);
    v.push(34);
    v.push(116);
    v.push(111);
    v.push(103);
    v.push(101);
    v.push(116);
    v.push(104);
    v.push(101);
    v.push(114);
    v.push(95);
    v.push(97);
    v.push(105);
    v.push(95);
    v.push(97);
    v.push(112);
    v.push(105);
    v.push(95);
    v.push(107);
    v.push(101);
    v.push(121);
    v.push(34);
    v.push(58);
    v.push(34);
    assert(v@ =~= head_bytes());
    v
}

/// [`sep_bytes`] as an owned vector.
fn sep_vec() -> (r: Vec<u8>)
    ensures
        r@ == sep_bytes(),
{
    let mut v: Vec<u8> = Vec::new();
    v.push(44);
    v.push(34);
    v.push(112);
    v.push(114);
    v.push(101);
    v.push(102);
    v.push(101);
    v.push(114);
    v.push(114);
    v.push(101);
    v.push(100);
    v.push(95);
    v.push(109);
    v.push(111);
    v.push(100);
    v.push(101);
    v.push(108);
    v.push(34);
    v.push(58);
    assert(v@ =~= sep_bytes());
    v
}

/// [`null_end_bytes`] as an owned vector.
fn null_end_vec() -> (r: Vec<u8>)
    ensures
        r@ == null_end_bytes(),
{
    let mut v: Vec<u8> = Vec::new();
    v.push(110);
    v.push(117);
    v.push(108);
    v.push(108);
    v.push(125);
    assert(v@ =~= null_end_bytes());
    v
}

/// Executable counterpart of [`hex_digit`].
fn hex_digit_byte(x: u8) -> (r: u8)
    requires
        x < 16,
    ensures
        r == hex_digit(x),
{
    if x < 10 {
        DIGIT_0 + x
    } else {
        97 + (x - 10)
    }
}

/// Executable counterpart of [`hex_val`].
fn hex_val_byte(b: u8) -> (r: Option<u8>)
    ensures
        r == hex_val(b),
        r matches Some(v) ==> v < 16,
{
    if 48 <= b && b <= 57 {
        Some(b - 48)
    } else if 97 <= b && b <= 102 {
        Some(b - 97 + 10)
    } else if 65 <= b && b <= 70 {
        Some(b - 65 + 10)
    } else {
        None
    }
}

/// Appends the escaped form of `s` to `out`.
fn escape_into(out: &mut Vec<u8>, s: &[u8])
    ensures
        final(out)@ == old(out)@ + escape(s@),
{
    let ghost orig = out@;
    let mut i: usize = 0;
    assert(s@.take(0) =~= Seq::<u8>::empty());
    assert(out@ =~= orig + escape(s@.take(0)));
    while i < s.len()
        invariant
            i <= s@.len(),
            out@ == orig + escape(s@.take(i as int)),
        decreases s@.len() - i,
    {
        let x = s[i];
        if x == QUOTE || x == BACKSLASH {
            out.push(BACKSLASH);
            out.push(x);
        } else if x < 0x20 {
            out.push(BACKSLASH);
            out.push(LOWER_U);
            out.push(DIGIT_0);
            out.push(DIGIT_0);
            out.push(hex_digit_byte(x / 16));
            out.push(hex_digit_byte(x % 16));
        } else {
            out.push(x);
        }
        proof {
            lemma_escape_append(s@.take(i as int), seq![s@[i as int]]);
            assert(seq![s@[i as int]].skip(1) =~= Seq::<u8>::empty());
            assert(escape(Seq::<u8>::empty()) =~= Seq::<u8>::empty());
            assert(escape(seq![s@[i as int]]) =~= escape_byte(s@[i as int]));
            assert(s@.take(i as int) + seq![s@[i as int]] =~= s@.take(i as int + 1));
            assert(out@ =~= orig + escape(s@.take(i as int + 1)));
        }
        i = i + 1;
    }
    assert(s@.take(s@.len() as int) =~= s@);
}

/// Writes the record for `c`, exactly as [`encode_config_bytes`] states.
pub fn encode_config(c: &AppConfig) -> (r: Vec<u8>)
    ensures
        r@ == encode_config_bytes(c@),
{
    let mut out: Vec<u8> = Vec::new();
    let head = head_vec();
    out.extend_from_slice(head.as_slice());
    escape_into(&mut out, c.together_ai_api_key.as_str().as_bytes());
    out.push(QUOTE);
    let sep = sep_vec();
    out.extend_from_slice(sep.as_slice());
    match &c.preferred_model {
        Some(m) => {
            out.push(QUOTE);
            escape_into(&mut out, m.as_str().as_bytes());
            out.push(QUOTE);
            out.push(RBRACE);
        },
        None => {
            let tail = null_end_vec();
            out.extend_from_slice(tail.as_slice());
        },
    }
    assert(out@ =~= encode_config_bytes(c@));
    out
}

} // verus!

verus! {

/// True exactly when `pat` occurs in `b` starting at `at`.
fn bytes_match_at(b: &[u8], at: usize, pat: &Vec<u8>) -> (r: bool)
    requires
        at <= b@.len(),
    ensures
        r == (at + pat@.len() <= b@.len() && b@.subrange(
            at as int,
            at as int + pat@.len() as int,
        ) == pat@),
{
    let n = b.len();
    if pat.len() > n - at {
        proof {
            assert(at + pat@.len() > b@.len());
        }
        return false;
    }
    let mut i: usize = 0;
    while i < pat.len()
        invariant
            i <= pat@.len(),
            n == b@.len(),
            at + pat@.len() <= b@.len(),
            forall|k: int| 0 <= k < i ==> b@[at + k] == pat@[k],
        decreases pat@.len() - i,
    {
        if b[at + i] != pat[i] {
            proof {
                let sub = b@.subrange(at as int, at as int + pat@.len() as int);
                assert(sub[i as int] != pat@[i as int]);
            }
            return false;
        }
        i = i + 1;
    }
    proof {
        assert(b@.subrange(at as int, at as int + pat@.len() as int) =~= pat@);
    }
    true
}

/// Reads an escaped string value from `b` starting at `start`, as
/// [`parse_string_body`] states on the remaining input. On success the
/// returned index is just past the closing quote.
fn parse_string_exec(b: &[u8], start: usize) -> (r: Option<(Vec<u8>, usize)>)
    requires
        start <= b@.len(),
    ensures
        r matches Some(p) ==> start <= p.1 <= b@.len() && parse_string_body(
            b@.skip(start as int),
        ) == Some((p.0@, b@.skip(p.1 as int))),
        r is None ==> parse_string_body(b@.skip(start as int)) is None,
{
    let mut i: usize = start;
    let mut acc: Vec<u8> = Vec::new();
    loop
        invariant
            start <= i <= b@.len(),
            parse_string_body(b@.skip(start as int)) == (match parse_string_body(
                b@.skip(i as int),
            ) {
                Some((v, rest)) => Some((acc@ + v, rest)),
                None => None::<(Seq<u8>, Seq<u8>)>,
            }),
        decreases b@.len() - i,
    {
        let ghost cur = b@.skip(i as int);
        proof {
            assert(cur.len() == b@.len() - i);
            assert forall|k: int| 0 <= k < cur.len() implies cur[k] == b@[i + k] by {}
        }
        if i == b.len() {
            return None;
        }
        let x = b[i];
        if x == QUOTE {
            proof {
                assert(cur[0] == QUOTE);
                assert(cur.skip(1) =~= b@.skip(i as int + 1));
                assert(acc@ + Seq::<u8>::empty() =~= acc@);
            }
            return Some((acc, i + 1));
        } else if x == BACKSLASH {
            if b.len() - i < 2 {
                proof {
                    assert(cur.len() < 2);
                }
                return None;
            }
            let y = b[i + 1];
            if y == QUOTE || y == BACKSLASH {
                let ghost acc0 = acc@;
                acc.push(y);
                proof {
                    assert(cur.skip(2) =~= b@.skip(i as int + 2));
                    if parse_string_body(b@.skip(i as int + 2)) is Some {
                        let (v, rest) = parse_string_body(b@.skip(i as int + 2))->Some_0;
                        assert(acc0 + (seq![cur[1]] + v) =~= acc@ + v);
                    }
                }
                i = i + 2;
            } else if y == LOWER_U {
                if b.len() - i < 6 {
                    proof {
                        assert(cur.len() < 6);
                    }
                    return None;
                }
                if b[i + 2] != DIGIT_0 || b[i + 3] != DIGIT_0 {
                    return None;
                }
                let hv4 = match hex_val_byte(b[i + 4]) {
                    Some(v) => v,
                    None => {
                        return None;
                    },
                };
                let hv5 = match hex_val_byte(b[i + 5]) {
                    Some(v) => v,
                    None => {
                        return None;
                    },
                };
                let ghost acc0 = acc@;
                acc.push(hv4 * 16 + hv5);
                proof {
                    assert(cur.skip(6) =~= b@.skip(i as int + 6));
                    if parse_string_body(b@.skip(i as int + 6)) is Some {
                        let (v, rest) = parse_string_body(b@.skip(i as int + 6))->Some_0;
                        assert(acc0 + (seq![(hex_val(cur[4])->Some_0 * 16 + hex_val(
                            cur[5],
                        )->Some_0) as u8] + v) =~= acc@ + v);
                    }
                }
                i = i + 6;
            } else {
                return None;
            }
        } else if x < 0x20 {
            return None;
        } else {
            let ghost acc0 = acc@;
            acc.push(x);
            proof {
                assert(cur.skip(1) =~= b@.skip(i as int + 1));
                if parse_string_body(b@.skip(i as int + 1)) is Some {
                    let (v, rest) = parse_string_body(b@.skip(i as int + 1))->Some_0;
                    assert(acc0 + (seq![cur[0]] + v) =~= acc@ + v);
                }
            }
            i = i + 1;
        }
    }
}

} // verus!

verus! {

/// Reads a record back, exactly as [`parse_config_bytes`] states: `Some`
/// on precisely the byte strings the encoder can produce (with UTF-8 field
/// values), `None` on everything else.
pub fn parse_config(b: &[u8]) -> (r: Option<AppConfig>)
    ensures
        r matches Some(c) ==> parse_config_bytes(b@) == Some(c@),
        r is None ==> parse_config_bytes(b@) is None,
{
    let n = b.len();
    let head = head_vec();
    if !bytes_match_at(b, 0, &head) {
        proof {
            assert(b@.len() >= 24 ==> b@.take(24) =~= b@.subrange(0, 24));
        }
        return None;
    }
    proof {
        assert(b@.take(24) =~= b@.subrange(0, 24));
    }
    let (cred_bytes, j) = match parse_string_exec(b, 24) {
        Some(p) => p,
        None => {
            return None;
        },
    };
    let ghost r1 = b@.skip(j as int);
    let sep = sep_vec();
    if !bytes_match_at(b, j, &sep) {
        proof {
            assert(r1.len() >= 19 ==> r1.take(19) =~= b@.subrange(j as int, j as int + 19));
        }
        return None;
    }
    proof {
        assert(r1.take(19) =~= b@.subrange(j as int, j as int + 19));
        assert(r1.skip(19) =~= b@.skip(j as int + 19));
    }
    assert(j + 19 <= n);
    let j2 = j + 19;
    let ghost r2 = b@.skip(j2 as int);
    let null_end = null_end_vec();
    let null_matches = bytes_match_at(b, j2, &null_end);
    if null_matches && j2 + 5 == n {
        proof {
            assert(r2 =~= b@.subrange(j2 as int, j2 as int + 5));
        }
        let cred = match string_from_utf8(cred_bytes) {
            Some(s) => s,
            None => {
                return None;
            },
        };
        let c = AppConfig { together_ai_api_key: cred, preferred_model: None };
        return Some(c);
    }
    proof {
        // Either lengths differ or some byte differs from `null}`.
        if r2 == null_end_bytes() {
            assert(b@.subrange(j2 as int, j2 as int + 5) =~= r2);
            assert(j2 + 5 == n);
        }
    }
    if j2 == n {
        return None;
    }
    if b[j2] != QUOTE {
        return None;
    }
    let (model_bytes, j3) = match parse_string_exec(b, j2 + 1) {
        Some(p) => p,
        None => {
            proof {
                assert(r2.skip(1) =~= b@.skip(j2 as int + 1));
            }
            return None;
        },
    };
    proof {
        assert(r2.skip(1) =~= b@.skip(j2 as int + 1));
    }
    let ghost r3 = b@.skip(j3 as int);
    let brace_ok = if j3 < n { b[j3] == RBRACE } else { false };
    if !(brace_ok && j3 + 1 == n) {
        proof {
            if r3 == seq![RBRACE] {
                assert(r3.len() == 1);
                assert(r3[0] == RBRACE);
            }
        }
        return None;
    }
    proof {
        assert(r3 =~= seq![RBRACE]);
    }
    let cred = match string_from_utf8(cred_bytes) {
        Some(s) => s,
        None => {
            return None;
        },
    };
    let model = match string_from_utf8(model_bytes) {
        Some(s) => s,
        None => {
            return None;
        },
    };
    let c = AppConfig { together_ai_api_key: cred, preferred_model: Some(model) };
    Some(c)
}

} // verus!
