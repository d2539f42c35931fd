use vstd::prelude::*;

use crate::text::{chars_of, push_char};

verus! {

/// The uppercase hexadecimal digit for `n` (which is below 16).
pub open spec fn hex_digit(n: u8) -> char {
    if n < 10 {
        (48 + n) as char
    } else {
        (55 + n) as char
    }
}

/// The characters that would end or split a query parameter, or be read as an
/// escape, and so are written as `%XX` escapes.
pub open spec fn is_reserved(c: char) -> bool {
    c == '&' || c == '=' || c == '?' || c == '#' || c == '+' || c == '%'
}

/// How one character is written in a query parameter: a space as `+`, a
/// reserved character as `%` and the two uppercase hex digits of its byte,
/// anything else as itself.
pub open spec fn encode_char(c: char) -> Seq<char> {
    if c == ' ' {
        seq!['+']
    } else if is_reserved(c) {
        seq!['%', hex_digit(((c as u32) / 16) as u8), hex_digit(((c as u32) % 16) as u8)]
    } else {
        seq![c]
    }
}

/// The query-parameter form of a text: each character encoded in turn.
pub open spec fn url_encoding(s: Seq<char>) -> Seq<char>
    decreases s.len(),
{
    if s.len() == 0 {
        Seq::empty()
    } else {
        encode_char(s[0]) + url_encoding(s.drop_first())
    }
}

/// Encoding a text followed by one more character.
pub proof fn lemma_url_encoding_push(s: Seq<char>, c: char)
    ensures
        url_encoding(s.push(c)) == url_encoding(s) + encode_char(c),
    decreases s.len(),
{
    if s.len() == 0 {
        assert(s.push(c).drop_first() =~= Seq::<char>::empty());
        assert(s.push(c)[0] == c);
        assert(url_encoding(s.push(c).drop_first()) == Seq::<char>::empty());
        assert(url_encoding(s) == Seq::<char>::empty());
        assert(url_encoding(s.push(c)) =~= encode_char(c));
    } else {
        assert(s.push(c).drop_first() =~= s.drop_first().push(c));
        lemma_url_encoding_push(s.drop_first(), c);
        assert(url_encoding(s.push(c)) =~= url_encoding(s) + encode_char(c));
    }
}

fn hex_digit_exec(n: u8) -> (c: char)
    requires
        n < 16,
    ensures
        c == hex_digit(n),
{
    if n < 10 {
        (48 + n) as char
    } else {
        (55 + n) as char
    }
}

/// Minimal URL encoding for query parameters.
pub fn urlencoded(s: &str) -> (out: String)
    ensures
        out@ == url_encoding(s@),
{
    let cs = chars_of(s);
    let mut out = String::new();
    let mut i: usize = 0;
    assert(cs@.take(0) =~= Seq::<char>::empty());
    assert(url_encoding(cs@.take(0)) =~= out@);
    while i < cs.len()
        invariant
            i <= cs@.len(),
            cs@ == s@,
            out@ == url_encoding(cs@.take(i as int)),
        decreases cs@.len() - i,
    {
        let c = cs[i];
        let ghost before = out@;
        if c == ' ' {
            push_char(&mut out, '+');
        } else if c == '&' || c == '=' || c == '?' || c == '#' || c == '+' || c == '%' {
            let b = c as u32;
            push_char(&mut out, '%');
            push_char(&mut out, hex_digit_exec((b / 16) as u8));
            push_char(&mut out, hex_digit_exec((b % 16) as u8));
        } else {
            push_char(&mut out, c);
        }
        assert(out@ =~= before + encode_char(c));
        assert(cs@.take(i + 1) =~= cs@.take(i as int).push(c));
        proof {
            lemma_url_encoding_push(cs@.take(i as int), c);
        }
        i = i + 1;
    }
    assert(cs@.take(cs@.len() as int) =~= cs@);
    out
}


/// A character that would end or split a query parameter if it stood unencoded.
pub open spec fn is_delimiter(c: char) -> bool {
    c == ' ' || c == '&' || c == '=' || c == '?' || c == '#'
}

/// Law: an encoded query holds no character that ends or splits a query
/// parameter, so it stays one parameter whatever the user typed.
pub proof fn lemma_url_encoding_has_no_delimiters(s: Seq<char>)
    ensures
        forall|i: int| 0 <= i < url_encoding(s).len() ==> !is_delimiter(#[trigger] url_encoding(s)[i]),
    decreases s.len(),
{
    if s.len() > 0 {
        lemma_url_encoding_has_no_delimiters(s.drop_first());
        let head = encode_char(s[0]);
        let tail = url_encoding(s.drop_first());
        assert(url_encoding(s) == head + tail);
        assert forall|i: int| 0 <= i < url_encoding(s).len() implies !is_delimiter(#[trigger] url_encoding(s)[i]) by {
            if i < head.len() {
                assert(url_encoding(s)[i] == head[i]);
            } else {
                assert(url_encoding(s)[i] == tail[i - head.len()]);
            }
        }
    }
}

proof fn lemma_hex_digit_injective(n: u8, m: u8)
    requires
        n < 16,
        m < 16,
        hex_digit(n) == hex_digit(m),
    ensures
        n == m,
{
}

/// Law: the encoding loses nothing: two texts with the same encoding are the
/// same text.
pub proof fn lemma_url_encoding_injective(a: Seq<char>, b: Seq<char>)
    requires
        url_encoding(a) == url_encoding(b),
    ensures
        a == b,
    decreases a.len(),
{
    if a.len() == 0 {
        if b.len() > 0 {
            assert(url_encoding(b).len() >= encode_char(b[0]).len());
        }
        assert(a =~= b);
    } else if b.len() == 0 {
        assert(url_encoding(a).len() >= encode_char(a[0]).len());
    } else {
        let ea = encode_char(a[0]);
        let eb = encode_char(b[0]);
        let ta = url_encoding(a.drop_first());
        let tb = url_encoding(b.drop_first());
        assert(url_encoding(a) == ea + ta);
        assert(url_encoding(b) == eb + tb);
        assert((ea + ta)[0] == ea[0]);
        assert((eb + tb)[0] == eb[0]);
        if ea[0] == '%' {
            assert(is_reserved(a[0]) && is_reserved(b[0]));
            assert((ea + ta)[1] == ea[1] && (eb + tb)[1] == eb[1]);
            assert((ea + ta)[2] == ea[2] && (eb + tb)[2] == eb[2]);
            let ca = a[0] as u32;
            let cb = b[0] as u32;
            lemma_hex_digit_injective((ca / 16) as u8, (cb / 16) as u8);
            lemma_hex_digit_injective((ca % 16) as u8, (cb % 16) as u8);
            assert(ca == cb);
            assert(a[0] == b[0]);
        } else if ea[0] == '+' {
            assert(a[0] == ' ' && b[0] == ' ');
        } else {
            assert(a[0] == b[0]);
        }
        assert(ea == eb);
        assert(ta =~= (ea + ta).skip(ea.len() as int));
        assert(tb =~= (eb + tb).skip(eb.len() as int));
        lemma_url_encoding_injective(a.drop_first(), b.drop_first());
        assert(a =~= seq![a[0]] + a.drop_first());
        assert(b =~= seq![b[0]] + b.drop_first());
    }
}

/// The value of a hexadecimal digit (either case), if it is one.
pub open spec fn hex_value(c: char) -> Option<int> {
    if '0' <= c && c <= '9' {
        Some(c as int - '0' as int)
    } else if 'A' <= c && c <= 'F' {
        Some(c as int - 'A' as int + 10)
    } else if 'a' <= c && c <= 'f' {
        Some(c as int - 'a' as int + 10)
    } else {
        None
    }
}

/// The ASCII character a `%` escape with digits `h` and `l` stands for, when
/// both are hexadecimal digits and the byte they give is ASCII.
pub open spec fn escaped_char(h: char, l: char) -> Option<char> {
    match (hex_value(h), hex_value(l)) {
        (Some(a), Some(b)) => if a < 8 {
            Some((16 * a + b) as char)
        } else {
            None
        },
        _ => None,
    }
}

/// Reading a query parameter back: `+` is a space, a `%` escape of an ASCII
/// byte is that character, anything else stands for itself.
pub open spec fn url_decoding(t: Seq<char>) -> Seq<char>
    decreases t.len(),
{
    if t.len() == 0 {
        Seq::empty()
    } else if t[0] == '+' {
        seq![' '] + url_decoding(t.skip(1))
    } else if t[0] == '%' && t.len() >= 3 && escaped_char(t[1], t[2]) is Some {
        seq![escaped_char(t[1], t[2])->Some_0] + url_decoding(t.skip(3))
    } else {
        seq![t[0]] + url_decoding(t.skip(1))
    }
}

/// Decoding one encoded character ahead of the encoding of the rest.
proof fn lemma_decode_encoded_char(c: char, rest: Seq<char>)
    ensures
        url_decoding(encode_char(c) + rest) == seq![c] + url_decoding(rest),
{
    let t = encode_char(c) + rest;
    if c == ' ' {
        assert(t[0] == '+');
        assert(t.skip(1) =~= rest);
    } else if is_reserved(c) {
        assert(t[0] == '%' && t[1] == encode_char(c)[1] && t[2] == encode_char(c)[2]);
        assert(t.skip(3) =~= rest);
        assert(escaped_char(t[1], t[2]) == Some(c)) by {
            if c == '&' {
                assert(encode_char(c) == seq!['%', '2', '6']);
            } else if c == '=' {
                assert(encode_char(c) == seq!['%', '3', 'D']);
            } else if c == '?' {
                assert(encode_char(c) == seq!['%', '3', 'F']);
            } else if c == '#' {
                assert(encode_char(c) == seq!['%', '2', '3']);
            } else if c == '+' {
                assert(encode_char(c) == seq!['%', '2', 'B']);
            } else {
                assert(encode_char(c) == seq!['%', '2', '5']);
            }
        }
    } else {
        assert(t[0] == c);
        assert(t.skip(1) =~= rest);
    }
}

/// Law: decoding an encoded query gives back exactly the text that was
/// encoded.
pub proof fn lemma_url_decoding_round_trip(s: Seq<char>)
    ensures
        url_decoding(url_encoding(s)) == s,
    decreases s.len(),
{
    if s.len() > 0 {
        lemma_url_decoding_round_trip(s.drop_first());
        lemma_decode_encoded_char(s[0], url_encoding(s.drop_first()));
        assert(s =~= seq![s[0]] + s.drop_first());
    }
}

} // verus!
