//! Codec of the persisted transcript record.
//!
//! A message is stored as one JSON object, `{"role":"<name>","content":"<text>"}`,
//! with the content escaped as JSON requires: quote and backslash by their
//! short escapes, the five named control characters by `\b \t \n \f \r`, and
//! every other control character as `\u00xx` with lower-case hex digits. The
//! encoder emits exactly this canonical form; the decoder accepts exactly the
//! canonical image and inverts the encoder, and answers `None` on everything
//! else. Round trip and injectivity are proved below.

use vstd::prelude::*;
use vstd::string::*;
use crate::messages::{ChatMessage, MessageView, Role};

verus! {

/// The short escape letter a character is written with, if it has one.
pub open spec fn short_escape_of(c: char) -> Option<char> {
    if c == '"' {
        Some('"')
    } else if c == '\\' {
        Some('\\')
    } else if c == '\u{8}' {
        Some('b')
    } else if c == '\u{9}' {
        Some('t')
    } else if c == '\u{A}' {
        Some('n')
    } else if c == '\u{C}' {
        Some('f')
    } else if c == '\u{D}' {
        Some('r')
    } else {
        None
    }
}

/// The character a short escape letter stands for, if it is one.
pub open spec fn unescape_short(e: char) -> Option<char> {
    if e == '"' {
        Some('"')
    } else if e == '\\' {
        Some('\\')
    } else if e == 'b' {
        Some('\u{8}')
    } else if e == 't' {
        Some('\u{9}')
    } else if e == 'n' {
        Some('\u{A}')
    } else if e == 'f' {
        Some('\u{C}')
    } else if e == 'r' {
        Some('\u{D}')
    } else {
        None
    }
}

/// Lower-case hex digit of a value below 16.
pub open spec fn hex_digit(v: u32) -> char {
    if v == 0 {
        '0'
    } else if v == 1 {
        '1'
    } else if v == 2 {
        '2'
    } else if v == 3 {
        '3'
    } else if v == 4 {
        '4'
    } else if v == 5 {
        '5'
    } else if v == 6 {
        '6'
    } else if v == 7 {
        '7'
    } else if v == 8 {
        '8'
    } else if v == 9 {
        '9'
    } else if v == 10 {
        'a'
    } else if v == 11 {
        'b'
    } else if v == 12 {
        'c'
    } else if v == 13 {
        'd'
    } else if v == 14 {
        'e'
    } else {
        'f'
    }
}

/// Value of a canonical (lower-case) hex digit.
pub open spec fn hex_val(h: char) -> Option<u32> {
    let u = h as u32;
    if 0x30 <= u && u <= 0x39 {
        Some((u - 0x30) as u32)
    } else if 0x61 <= u && u <= 0x66 {
        Some((u - 0x57) as u32)
    } else {
        None
    }
}

/// How one character of content is written in the stored record.
pub open spec fn escape_char(c: char) -> Seq<char> {
    if short_escape_of(c) is Some {
        seq!['\\', short_escape_of(c).unwrap()]
    } else if (c as u32) < 0x20 {
        seq!['\\', 'u', '0', '0', hex_digit((c as u32) as u32 / 16), hex_digit((c as u32) as u32 % 16)]
    } else {
        seq![c]
    }
}

/// How a whole content is written: each character escaped, in order.
pub open spec fn escape_string(s: Seq<char>) -> Seq<char>
    decreases s.len(),
{
    if s.len() == 0 {
        Seq::empty()
    } else {
        escape_char(s[0]) + escape_string(s.skip(1))
    }
}

/// The serialized name of a role.
pub open spec fn role_name(r: Role) -> Seq<char> {
    match r {
        Role::User => "User"@,
        Role::System => "System"@,
        Role::Assistant => "Assistant"@,
    }
}

/// Everything of a record before the content text.
pub open spec fn msg_prefix(r: Role) -> Seq<char> {
    "{\"role\":\""@ + role_name(r) + "\",\"content\":\""@
}

/// The full stored form of a message.
pub open spec fn encode_message_view(m: MessageView) -> Seq<char> {
    msg_prefix(m.role) + escape_string(m.content) + "\"}"@
}

/// Whether a control value must be written as `\u00xx` (below 0x20 and
/// without a short escape).
pub open spec fn control_ok(v: int) -> bool {
    v < 0x20 && v != 8 && v != 9 && v != 0xA && v != 0xC && v != 0xD
}

/// Parse of the tail of a record: the escaped content followed by the
/// closing quote and brace, and nothing after them.
pub open spec fn parse_body(s: Seq<char>) -> Option<Seq<char>>
    decreases s.len(),
{
    if s.len() == 0 {
        None
    } else if s[0] == '"' {
        if s.len() == 2 && s[1] == '}' {
            Some(Seq::empty())
        } else {
            None
        }
    } else if s[0] == '\\' {
        if s.len() < 2 {
            None
        } else if unescape_short(s[1]) is Some {
            match parse_body(s.skip(2)) {
                Some(t) => Some(seq![unescape_short(s[1]).unwrap()] + t),
                None => None,
            }
        } else if s[1] == 'u' {
            if s.len() < 6 {
                None
            } else if s[2] == '0' && s[3] == '0' && hex_val(s[4]) is Some && hex_val(s[5]) is Some
                && control_ok(16 * hex_val(s[4]).unwrap() + hex_val(s[5]).unwrap()) {
                match parse_body(s.skip(6)) {
                    Some(t) => Some(
                        seq![((16 * hex_val(s[4]).unwrap() + hex_val(s[5]).unwrap()) as u32) as char]
                            + t,
                    ),
                    None => None,
                }
            } else {
                None
            }
        } else {
            None
        }
    } else if (s[0] as u32) >= 0x20 {
        match parse_body(s.skip(1)) {
            Some(t) => Some(seq![s[0]] + t),
            None => None,
        }
    } else {
        None
    }
}

/// Whether `p` is an initial segment of `s`.
pub open spec fn starts_with(s: Seq<char>, p: Seq<char>) -> bool {
    p.len() <= s.len() && s.subrange(0, p.len() as int) == p
}

/// Parse of a whole stored record. The role prefixes are tried in a fixed
/// order; at most one can match, since the three differ at the first role
/// character.
pub open spec fn decode_message_view(s: Seq<char>) -> Option<MessageView> {
    if starts_with(s, msg_prefix(Role::User)) {
        match parse_body(s.skip(msg_prefix(Role::User).len() as int)) {
            Some(t) => Some(MessageView { role: Role::User, content: t }),
            None => None,
        }
    } else if starts_with(s, msg_prefix(Role::System)) {
        match parse_body(s.skip(msg_prefix(Role::System).len() as int)) {
            Some(t) => Some(MessageView { role: Role::System, content: t }),
            None => None,
        }
    } else if starts_with(s, msg_prefix(Role::Assistant)) {
        match parse_body(s.skip(msg_prefix(Role::Assistant).len() as int)) {
            Some(t) => Some(MessageView { role: Role::Assistant, content: t }),
            None => None,
        }
    } else {
        None
    }
}

/// Casting a character to its scalar value and back is the identity.
proof fn lemma_char_roundtrip(c: char)
    ensures
        ((c as u32) as char) == c,
        (c as u32) < 0x110000,
{
}

/// Escaping one more character appends its escape at the end.
pub proof fn lemma_escape_string_push(s: Seq<char>, c: char)
    ensures
        escape_string(s.push(c)) == escape_string(s) + escape_char(c),
    decreases s.len(),
{
    if s.len() == 0 {
        assert(s.push(c).len() == 1);
        assert(s.push(c)[0] == c);
        assert(s.push(c).skip(1) =~= Seq::<char>::empty());
        assert(escape_string(s.push(c)) == escape_char(c) + escape_string(Seq::<char>::empty()));
        assert(escape_char(c) + Seq::<char>::empty() =~= escape_char(c));
        assert(escape_string(s) + escape_char(c) =~= escape_char(c));
    } else {
        lemma_escape_string_push(s.skip(1), c);
        assert(s.push(c).skip(1) =~= s.skip(1).push(c));
        assert(escape_char(s[0]) + (escape_string(s.skip(1)) + escape_char(c)) =~= (escape_char(
            s[0],
        ) + escape_string(s.skip(1))) + escape_char(c));
    }
}

/// The escaped form of the content followed by the closing `"}` parses
/// back to exactly that content: the decoder is complete.
pub proof fn lemma_parse_body_complete(t: Seq<char>)
    ensures
        parse_body(escape_string(t) + "\"}"@) == Some(t),
    decreases t.len(),
{
    reveal_strlit("\"}");
    let end = "\"}"@;
    if t.len() == 0 {
        let s = escape_string(t) + end;
        assert(s =~= end);
        assert(parse_body(s) == Some(Seq::<char>::empty()));
        assert(Some(Seq::<char>::empty()) == Some(t));
    } else {
        let c = t[0];
        let rest = t.skip(1);
        lemma_parse_body_complete(rest);
        let tailp = escape_string(rest) + end;
        let s = escape_string(t) + end;
        assert(s =~= escape_char(c) + tailp);
        if short_escape_of(c) is Some {
            let e = short_escape_of(c).unwrap();
            assert(s[0] == '\\');
            assert(s[1] == e);
            assert(unescape_short(e) == Some(c));
            assert(s.skip(2) =~= tailp);
            assert(parse_body(s) == Some(seq![c] + rest));
            assert(seq![c] + rest =~= t);
        } else if (c as u32) < 0x20 {
            let v = (c as u32) as int;
            let h1 = hex_digit((v / 16) as u32);
            let h2 = hex_digit((v % 16) as u32);
            assert(escape_char(c) =~= seq!['\\', 'u', '0', '0', h1, h2]);
            assert(s[0] == '\\' && s[1] == 'u' && s[2] == '0' && s[3] == '0' && s[4] == h1 && s[5]
                == h2);
            assert(unescape_short('u') is None);
            assert(hex_val(h1) == Some((v / 16) as u32)) by {
                lemma_hex_digit_val((v / 16) as u32);
            }
            assert(hex_val(h2) == Some((v % 16) as u32)) by {
                lemma_hex_digit_val((v % 16) as u32);
            }
            assert(16 * (v / 16) + v % 16 == v);
            assert(c != '\u{8}' && c != '\u{9}' && c != '\u{A}' && c != '\u{C}' && c != '\u{D}');
            lemma_char_roundtrip(c);
            lemma_char_roundtrip('\u{8}');
            lemma_char_roundtrip('\u{9}');
            lemma_char_roundtrip('\u{A}');
            lemma_char_roundtrip('\u{C}');
            lemma_char_roundtrip('\u{D}');
            assert(('\u{8}' as u32) == 8 && ('\u{9}' as u32) == 9 && ('\u{A}' as u32) == 0xA && (
            '\u{C}' as u32) == 0xC && ('\u{D}' as u32) == 0xD);
            assert(control_ok(v));
            assert(s.skip(6) =~= tailp);
            assert(((v as u32) as char) == c);
            assert(parse_body(s) == Some(seq![c] + rest));
            assert(seq![c] + rest =~= t);
        } else {
            assert(escape_char(c) =~= seq![c]);
            assert(s[0] == c);
            assert(c != '"' && c != '\\');
            assert(s.skip(1) =~= tailp);
            assert(parse_body(s) == Some(seq![c] + rest));
            assert(seq![c] + rest =~= t);
        }
    }
}

/// A value below 16 written as a hex digit reads back as itself.
proof fn lemma_hex_digit_val(v: u32)
    requires
        v < 16,
    ensures
        hex_val(hex_digit(v)) == Some(v),
{
    assert(('0' as u32) == 0x30 && ('1' as u32) == 0x31 && ('2' as u32) == 0x32 && ('3' as u32)
        == 0x33 && ('4' as u32) == 0x34 && ('5' as u32) == 0x35 && ('6' as u32) == 0x36 && (
    '7' as u32) == 0x37 && ('8' as u32) == 0x38 && ('9' as u32) == 0x39 && ('a' as u32) == 0x61 && (
    'b' as u32) == 0x62 && ('c' as u32) == 0x63 && ('d' as u32) == 0x64 && ('e' as u32) == 0x65 && (
    'f' as u32) == 0x66);
}

/// A canonical hex digit read back and written again is unchanged.
proof fn lemma_hex_val_digit(h: char)
    requires
        hex_val(h) is Some,
    ensures
        hex_val(h).unwrap() < 16,
        hex_digit(hex_val(h).unwrap()) == h,
{
    let u = h as u32;
    assert(((h as u32) as char) == h);
    assert(('0' as u32) == 0x30 && ('1' as u32) == 0x31 && ('2' as u32) == 0x32 && ('3' as u32)
        == 0x33 && ('4' as u32) == 0x34 && ('5' as u32) == 0x35 && ('6' as u32) == 0x36 && (
    '7' as u32) == 0x37 && ('8' as u32) == 0x38 && ('9' as u32) == 0x39 && ('a' as u32) == 0x61 && (
    'b' as u32) == 0x62 && ('c' as u32) == 0x63 && ('d' as u32) == 0x64 && ('e' as u32) == 0x65 && (
    'f' as u32) == 0x66);
    if 0x30 <= u && u <= 0x39 {
        assert(hex_digit((u - 0x30) as u32) as u32 == u);
        assert(hex_digit((u - 0x30) as u32) == h) by {
            assert(((hex_digit((u - 0x30) as u32) as u32) as char) == hex_digit((u - 0x30) as u32));
        }
    } else {
        assert(hex_digit((u - 0x57) as u32) as u32 == u);
        assert(hex_digit((u - 0x57) as u32) == h) by {
            assert(((hex_digit((u - 0x57) as u32) as u32) as char) == hex_digit((u - 0x57) as u32));
        }
    }
}

/// Whatever the decoder accepts is the canonical escaped form of what it
/// returns: the decoder is sound.
pub proof fn lemma_parse_body_sound(s: Seq<char>)
    requires
        parse_body(s) is Some,
    ensures
        s == escape_string(parse_body(s).unwrap()) + "\"}"@,
    decreases s.len(),
{
    reveal_strlit("\"}");
    let end = "\"}"@;
    let t = parse_body(s).unwrap();
    if s[0] == '"' {
        assert(s.len() == 2 && s[1] == '}');
        assert(t =~= Seq::<char>::empty());
        assert(s =~= escape_string(t) + end);
    } else if s[0] == '\\' {
        if unescape_short(s[1]) is Some {
            let c = unescape_short(s[1]).unwrap();
            lemma_parse_body_sound(s.skip(2));
            let t2 = parse_body(s.skip(2)).unwrap();
            assert(t == seq![c] + t2);
            assert(short_escape_of(c) == Some(s[1]));
            assert(t.skip(1) =~= t2);
            assert(t[0] == c);
            assert(escape_string(t) == escape_char(c) + escape_string(t2));
            assert(escape_char(c) =~= seq!['\\', s[1]]);
            assert(s =~= escape_char(c) + (escape_string(t2) + end));
        } else {
            let v = 16 * hex_val(s[4]).unwrap() + hex_val(s[5]).unwrap();
            let c = ((v as u32) as char);
            lemma_parse_body_sound(s.skip(6));
            let t2 = parse_body(s.skip(6)).unwrap();
            assert(t == seq![c] + t2);
            assert(t.skip(1) =~= t2);
            assert(t[0] == c);
            lemma_hex_val_digit(s[4]);
            lemma_hex_val_digit(s[5]);
            assert(0 <= v < 0x20);
            assert((c as u32) == v as u32);
            assert(short_escape_of(c) is None) by {
                assert(('"' as u32) == 0x22 && ('\\' as u32) == 0x5C);
                assert(('\u{8}' as u32) == 8 && ('\u{9}' as u32) == 9 && ('\u{A}' as u32) == 0xA
                    && ('\u{C}' as u32) == 0xC && ('\u{D}' as u32) == 0xD);
                assert(c != '"' && c != '\\' && c != '\u{8}' && c != '\u{9}' && c != '\u{A}' && c
                    != '\u{C}' && c != '\u{D}');
            }
            assert((c as u32) as int / 16 == v / 16 && (c as u32) as int % 16 == v % 16);
            assert(hex_digit(((c as u32) as u32) / 16) == s[4]) by {
                assert(v / 16 == hex_val(s[4]).unwrap());
            }
            assert(hex_digit(((c as u32) as u32) % 16) == s[5]) by {
                assert(v % 16 == hex_val(s[5]).unwrap());
            }
            assert(escape_char(c) =~= seq!['\\', 'u', '0', '0', s[4], s[5]]);
            assert(escape_string(t) == escape_char(c) + escape_string(t2));
            assert(s =~= escape_char(c) + (escape_string(t2) + end));
        }
    } else {
        let c = s[0];
        lemma_parse_body_sound(s.skip(1));
        let t2 = parse_body(s.skip(1)).unwrap();
        assert(t == seq![c] + t2);
        assert(t.skip(1) =~= t2);
        assert(t[0] == c);
        assert(short_escape_of(c) is None) by {
            assert(('"' as u32) == 0x22 && ('\\' as u32) == 0x5C);
            assert(('\u{8}' as u32) == 8 && ('\u{9}' as u32) == 9 && ('\u{A}' as u32) == 0xA && (
            '\u{C}' as u32) == 0xC && ('\u{D}' as u32) == 0xD);
        }
        assert(escape_char(c) =~= seq![c]);
        assert(escape_string(t) == escape_char(c) + escape_string(t2));
        assert(s =~= escape_char(c) + (escape_string(t2) + end));
    }
}

/// Round trip: every message decodes back from its stored form.
pub proof fn lemma_codec_round_trip(m: MessageView)
    ensures
        decode_message_view(encode_message_view(m)) == Some(m),
{
    reveal_strlit("{\"role\":\"");
    reveal_strlit("\",\"content\":\"");
    reveal_strlit("User");
    reveal_strlit("System");
    reveal_strlit("Assistant");
    let s = encode_message_view(m);
    let p = msg_prefix(m.role);
    lemma_parse_body_complete(m.content);
    assert(s.subrange(0, p.len() as int) =~= p);
    assert(starts_with(s, p));
    assert(s.skip(p.len() as int) =~= escape_string(m.content) + "\"}"@);
    assert(p[9] == role_name(m.role)[0]);
    match m.role {
        Role::User => {
            assert(s[9] == 'U');
        },
        Role::System => {
            assert(s[9] == 'S');
            assert(!starts_with(s, msg_prefix(Role::User))) by {
                if starts_with(s, msg_prefix(Role::User)) {
                    assert(s.subrange(0, msg_prefix(Role::User).len() as int)[9] == s[9]);
                    assert(msg_prefix(Role::User)[9] == 'U');
                }
            }
        },
        Role::Assistant => {
            assert(s[9] == 'A');
            assert(!starts_with(s, msg_prefix(Role::User))) by {
                if starts_with(s, msg_prefix(Role::User)) {
                    assert(s.subrange(0, msg_prefix(Role::User).len() as int)[9] == s[9]);
                    assert(msg_prefix(Role::User)[9] == 'U');
                }
            }
            assert(!starts_with(s, msg_prefix(Role::System))) by {
                if starts_with(s, msg_prefix(Role::System)) {
                    assert(s.subrange(0, msg_prefix(Role::System).len() as int)[9] == s[9]);
                    assert(msg_prefix(Role::System)[9] == 'S');
                }
            }
        },
    }
    assert(decode_message_view(s) == Some(MessageView { role: m.role, content: m.content }));
    assert(MessageView { role: m.role, content: m.content } =~= m);
}

/// Soundness at the record level: whatever decodes is the canonical
/// stored form of exactly the message it decodes to, so the decoder
/// accepts nothing outside the encoder's image.
pub proof fn lemma_decode_sound(s: Seq<char>)
    requires
        decode_message_view(s) is Some,
    ensures
        s == encode_message_view(decode_message_view(s).unwrap()),
{
    let m = decode_message_view(s).unwrap();
    let p = msg_prefix(m.role);
    if starts_with(s, msg_prefix(Role::User)) {
        lemma_parse_body_sound(s.skip(msg_prefix(Role::User).len() as int));
    } else if starts_with(s, msg_prefix(Role::System)) {
        lemma_parse_body_sound(s.skip(msg_prefix(Role::System).len() as int));
    } else {
        lemma_parse_body_sound(s.skip(msg_prefix(Role::Assistant).len() as int));
    }
    assert(s.skip(p.len() as int) == escape_string(m.content) + "\"}"@);
    assert(s =~= s.subrange(0, p.len() as int) + s.skip(p.len() as int));
    assert(s =~= p + (escape_string(m.content) + "\"}"@));
    assert(encode_message_view(m) =~= p + (escape_string(m.content) + "\"}"@));
}

/// No two distinct messages share a stored form.
pub proof fn lemma_encode_injective(m1: MessageView, m2: MessageView)
    requires
        encode_message_view(m1) == encode_message_view(m2),
    ensures
        m1 == m2,
{
    lemma_codec_round_trip(m1);
    lemma_codec_round_trip(m2);
}

/// Relies on String::push: appends exactly one character at the end.
#[verifier::external_body]
pub(crate) fn push_char(s: &mut String, c: char)
    ensures
        final(s)@ == old(s)@.push(c),
{
    s.push(c)
}

/// Lower-case hex digit of a value below 16.
fn hex_digit_exec(v: u32) -> (r: char)
    requires
        v < 16,
    ensures
        r == hex_digit(v),
{
    if v == 0 {
        '0'
    } else if v == 1 {
        '1'
    } else if v == 2 {
        '2'
    } else if v == 3 {
        '3'
    } else if v == 4 {
        '4'
    } else if v == 5 {
        '5'
    } else if v == 6 {
        '6'
    } else if v == 7 {
        '7'
    } else if v == 8 {
        '8'
    } else if v == 9 {
        '9'
    } else if v == 10 {
        'a'
    } else if v == 11 {
        'b'
    } else if v == 12 {
        'c'
    } else if v == 13 {
        'd'
    } else if v == 14 {
        'e'
    } else {
        'f'
    }
}

/// Value of a canonical hex digit, if the character is one.
fn hex_val_exec(h: char) -> (r: Option<u32>)
    ensures
        r == hex_val(h),
{
    let u = h as u32;
    if 0x30 <= u && u <= 0x39 {
        Some(u - 0x30)
    } else if 0x61 <= u && u <= 0x66 {
        Some(u - 0x57)
    } else {
        None
    }
}

/// The character a short escape letter stands for, if it is one.
fn unescape_short_exec(e: char) -> (r: Option<char>)
    ensures
        r == unescape_short(e),
{
    if e == '"' {
        Some('"')
    } else if e == '\\' {
        Some('\\')
    } else if e == 'b' {
        Some('\u{8}')
    } else if e == 't' {
        Some('\u{9}')
    } else if e == 'n' {
        Some('\u{A}')
    } else if e == 'f' {
        Some('\u{C}')
    } else if e == 'r' {
        Some('\u{D}')
    } else {
        None
    }
}

/// Write one content character into the output in its escaped form.
fn append_escaped(out: &mut String, c: char)
    ensures
        final(out)@ == old(out)@ + escape_char(c),
{
    if c == '"' {
        out.append("\\\"");
        proof {
            reveal_strlit("\\\"");
            assert("\\\""@ =~= escape_char('"'));
        }
    } else if c == '\\' {
        out.append("\\\\");
        proof {
            reveal_strlit("\\\\");
            assert("\\\\"@ =~= escape_char('\\'));
        }
    } else if c == '\u{8}' {
        out.append("\\b");
        proof {
            reveal_strlit("\\b");
            assert("\\b"@ =~= escape_char('\u{8}'));
        }
    } else if c == '\u{9}' {
        out.append("\\t");
        proof {
            reveal_strlit("\\t");
            assert("\\t"@ =~= escape_char('\u{9}'));
        }
    } else if c == '\u{A}' {
        out.append("\\n");
        proof {
            reveal_strlit("\\n");
            assert("\\n"@ =~= escape_char('\u{A}'));
        }
    } else if c == '\u{C}' {
        out.append("\\f");
        proof {
            reveal_strlit("\\f");
            assert("\\f"@ =~= escape_char('\u{C}'));
        }
    } else if c == '\u{D}' {
        out.append("\\r");
        proof {
            reveal_strlit("\\r");
            assert("\\r"@ =~= escape_char('\u{D}'));
        }
    } else {
        let u = c as u32;
        if u < 0x20 {
            out.append("\\u00");
            let h1 = hex_digit_exec(u / 16);
            let h2 = hex_digit_exec(u % 16);
            push_char(out, h1);
            push_char(out, h2);
            proof {
                reveal_strlit("\\u00");
                assert(old(out)@ + "\\u00"@ + seq![h1] + seq![h2] =~= old(out)@ + escape_char(c));
            }
        } else {
            push_char(out, c);
            proof {
                assert(old(out)@ + seq![c] =~= old(out)@ + escape_char(c));
            }
        }
    }
}

/// Serialize a message into its canonical stored record.
pub fn encode_message(m: &ChatMessage) -> (r: String)
    ensures
        r@ == encode_message_view(m@),
{
    let mut out = String::from_str("{\"role\":\"");
    match m.role {
        Role::User => out.append("User"),
        Role::System => out.append("System"),
        Role::Assistant => out.append("Assistant"),
    }
    out.append("\",\"content\":\"");
    proof {
        assert(out@ =~= msg_prefix(m.role));
    }
    let s = m.content.as_str();
    let n = s.unicode_len();
    let mut i: usize = 0;
    proof {
        assert(s@.subrange(0, 0) =~= Seq::<char>::empty());
    }
    while i < n
        invariant
            n == s@.len(),
            i <= n,
            out@ == msg_prefix(m.role) + escape_string(s@.subrange(0, i as int)),
        decreases n - i,
    {
        let c = s.get_char(i);
        append_escaped(&mut out, c);
        proof {
            lemma_escape_string_push(s@.subrange(0, i as int), c);
            assert(s@.subrange(0, i as int).push(c) =~= s@.subrange(0, i as int + 1));
            assert(out@ =~= msg_prefix(m.role) + escape_string(s@.subrange(0, i as int + 1)));
        }
        i += 1;
    }
    out.append("\"}");
    proof {
        assert(s@.subrange(0, n as int) =~= s@);
        assert(out@ =~= encode_message_view(m@));
    }
    out
}

/// Whether the text begins with the given pattern.
pub(crate) fn match_prefix(s: &str, pat: &str) -> (r: bool)
    ensures
        r == starts_with(s@, pat@),
{
    let n = pat.unicode_len();
    if s.unicode_len() < n {
        return false;
    }
    let mut i: usize = 0;
    while i < n
        invariant
            i <= n,
            n == pat@.len(),
            n <= s@.len(),
            forall|j: int| 0 <= j < i ==> s@[j] == pat@[j],
        decreases n - i,
    {
        if s.get_char(i) != pat.get_char(i) {
            proof {
                if starts_with(s@, pat@) {
                    assert(s@.subrange(0, n as int)[i as int] == s@[i as int]);
                }
            }
            return false;
        }
        i += 1;
    }
    proof {
        assert(s@.subrange(0, n as int) =~= pat@);
    }
    true
}

/// Parse a stored record. Answers the message exactly when the input is
/// the canonical stored form of one, and nothing otherwise.
pub fn decode_message(s: &str) -> (r: Option<ChatMessage>)
    ensures
        r is Some <==> decode_message_view(s@) is Some,
        r is Some ==> r.unwrap()@ == decode_message_view(s@).unwrap(),
{
    proof {
        reveal_strlit("{\"role\":\"");
        reveal_strlit("\",\"content\":\"");
        reveal_strlit("User");
        reveal_strlit("System");
        reveal_strlit("Assistant");
        reveal_strlit("{\"role\":\"User\",\"content\":\"");
        reveal_strlit("{\"role\":\"System\",\"content\":\"");
        reveal_strlit("{\"role\":\"Assistant\",\"content\":\"");
        assert("{\"role\":\"User\",\"content\":\""@ =~= msg_prefix(Role::User));
        assert("{\"role\":\"System\",\"content\":\""@ =~= msg_prefix(Role::System));
        assert("{\"role\":\"Assistant\",\"content\":\""@ =~= msg_prefix(Role::Assistant));
    }
    let role: Role;
    let k: usize;
    if match_prefix(s, "{\"role\":\"User\",\"content\":\"") {
        role = Role::User;
        k = 26;
    } else if match_prefix(s, "{\"role\":\"System\",\"content\":\"") {
        role = Role::System;
        k = 28;
    } else if match_prefix(s, "{\"role\":\"Assistant\",\"content\":\"") {
        role = Role::Assistant;
        k = 31;
    } else {
        return None;
    }
    proof {
        assert(k as int == msg_prefix(role).len());
        assert(decode_message_view(s@) == (match parse_body(s@.skip(k as int)) {
            Some(t) => Some(MessageView { role, content: t }),
            None => None,
        }));
    }
    match parse_tail(s, k) {
        Some(content) => Some(ChatMessage { role, content }),
        None => None,
    }
}

/// Parse the tail of canonical object text from position `k`: escaped
/// string content closed by `"}` at the very end. Succeeds exactly when
/// `parse_body` accepts the tail, and answers the unescaped content.
pub(crate) fn parse_tail(s: &str, k: usize) -> (r: Option<String>)
    requires
        k <= s@.len(),
    ensures
        r is Some <==> parse_body(s@.skip(k as int)) is Some,
        r is Some ==> r.unwrap()@ == parse_body(s@.skip(k as int)).unwrap(),
{
    let n = s.unicode_len();
    let mut out = String::new();
    let mut pos: usize = k;
    loop
        invariant
            n == s@.len(),
            k <= pos <= n,
            parse_body(s@.skip(k as int)) == (match parse_body(s@.skip(pos as int)) {
                Some(t) => Some(out@ + t),
                None => None::<Seq<char>>,
            }),
        decreases n - pos,
    {
        let ghost tail = s@.skip(pos as int);
        if pos >= n {
            proof {
                assert(tail =~= Seq::<char>::empty());
            }
            return None;
        }
        proof {
            assert(tail.len() == n - pos);
            assert(tail[0] == s@[pos as int]);
        }
        let c = s.get_char(pos);
        if c == '"' {
            if n - pos == 2 {
                let c2 = s.get_char(pos + 1);
                proof {
                    assert(tail[1] == s@[pos as int + 1]);
                }
                if c2 == '}' {
                    proof {
                        assert(parse_body(tail) == Some(Seq::<char>::empty()));
                        assert(out@ + Seq::<char>::empty() =~= out@);
                    }
                    return Some(out);
                } else {
                    return None;
                }
            } else {
                proof {
                    if tail.len() == 2 {
                        assert(pos + 2 == n);
                    }
                }
                return None;
            }
        } else if c == '\\' {
            if pos + 1 >= n {
                proof {
                    assert(tail.len() < 2);
                }
                return None;
            }
            let e = s.get_char(pos + 1);
            proof {
                assert(tail[1] == s@[pos as int + 1]);
            }
            match unescape_short_exec(e) {
                Some(d) => {
                    push_char(&mut out, d);
                    proof {
                        assert(s@.skip(pos as int + 2) =~= tail.skip(2));
                        if parse_body(tail.skip(2)) is Some {
                            let t = parse_body(tail.skip(2)).unwrap();
                            assert(parse_body(tail) == Some(seq![d] + t));
                            assert(out@ + t =~= (out@.drop_last() + seq![d]) + t);
                            assert(out@.drop_last() + (seq![d] + t) =~= (out@.drop_last() + seq![d])
                                + t);
                        }
                    }
                    pos = pos + 2;
                },
                None => {
                    if e == 'u' {
                        if n - pos < 6 {
                            proof {
                                assert(tail.len() < 6);
                            }
                            return None;
                        }
                        let z1 = s.get_char(pos + 2);
                        let z2 = s.get_char(pos + 3);
                        let h1 = s.get_char(pos + 4);
                        let h2 = s.get_char(pos + 5);
                        proof {
                            assert(tail[2] == s@[pos as int + 2]);
                            assert(tail[3] == s@[pos as int + 3]);
                            assert(tail[4] == s@[pos as int + 4]);
                            assert(tail[5] == s@[pos as int + 5]);
                        }
                        if z1 != '0' || z2 != '0' {
                            return None;
                        }
                        let v1 = match hex_val_exec(h1) {
                            Some(v) => v,
                            None => {
                                return None;
                            },
                        };
                        let v2 = match hex_val_exec(h2) {
                            Some(v) => v,
                            None => {
                                return None;
                            },
                        };
                        let v = 16 * v1 + v2;
                        if v < 0x20 && v != 8 && v != 9 && v != 0xA && v != 0xC && v != 0xD {
                            let d = (v as u8) as char;
                            proof {
                                assert(d == ((16 * hex_val(tail[4]).unwrap() + hex_val(
                                    tail[5],
                                ).unwrap()) as u32) as char);
                            }
                            push_char(&mut out, d);
                            proof {
                                assert(s@.skip(pos as int + 6) =~= tail.skip(6));
                                if parse_body(tail.skip(6)) is Some {
                                    let t = parse_body(tail.skip(6)).unwrap();
                                    assert(parse_body(tail) == Some(seq![d] + t));
                                    assert(out@.drop_last() + (seq![d] + t) =~= (out@.drop_last()
                                        + seq![d]) + t);
                                }
                            }
                            pos = pos + 6;
                        } else {
                            return None;
                        }
                    } else {
                        return None;
                    }
                },
            }
        } else {
            let u = c as u32;
            if u >= 0x20 {
                push_char(&mut out, c);
                proof {
                    assert(s@.skip(pos as int + 1) =~= tail.skip(1));
                    if parse_body(tail.skip(1)) is Some {
                        let t = parse_body(tail.skip(1)).unwrap();
                        assert(parse_body(tail) == Some(seq![c] + t));
                        assert(out@.drop_last() + (seq![c] + t) =~= (out@.drop_last() + seq![c])
                            + t);
                    }
                }
                pos = pos + 1;
            } else {
                return None;
            }
        }
    }
}

} // verus!
