//! Payload codec: converts typed values to and from the engine-neutral
//! serialized payload, a JSON text held as a sequence of characters.
//!
//! Every encoder is paired with a decoder whose contract says exactly which
//! payloads it accepts: a decoder returns `Ok` precisely on the canonical
//! encoding of some value, and then returns that value. Together with the
//! injectivity lemmas this gives the round trip: decoding an encoded value
//! yields the value back.
//!
//! A payload does not carry which type produced it: that producer and
//! consumer agree on the type is the caller's responsibility, and a
//! mismatch only surfaces as a `CodecError` when the shapes differ.

use vstd::prelude::*;
use crate::auth::LoginWithEmailInput;
use crate::auth::SignUpInput;

verus! {

/// An engine-neutral serialized payload: the character data of a JSON text.
#[derive(Debug, Clone)]
pub struct Payload {
    pub data: Vec<char>,
}

impl View for Payload {
    type V = Seq<char>;

    open spec fn view(&self) -> Seq<char> {
        self.data@
    }
}

/// Error returned when a payload's encoded shape does not match the
/// requested type.
#[derive(Clone, Copy, PartialEq, Eq, Structural, Debug)]
pub struct CodecError;

/// The escape sequence a single character produces inside a quoted string:
/// quotes and backslashes are preceded by a backslash, everything else is
/// carried through unchanged.
pub open spec fn esc_char(c: char) -> Seq<char> {
    if c == '"' || c == '\\' {
        seq!['\\', c]
    } else {
        seq![c]
    }
}

/// The escaped form of a whole string.
pub open spec fn esc(s: Seq<char>) -> Seq<char>
    decreases s.len(),
{
    if s.len() == 0 {
        Seq::empty()
    } else {
        esc_char(s[0]) + esc(s.skip(1))
    }
}

/// A JSON string literal: the escaped content between two quotes.
pub open spec fn quoted(s: Seq<char>) -> Seq<char> {
    seq!['"'] + esc(s) + seq!['"']
}

/// `p` is a prefix of `t`.
pub open spec fn is_prefix(p: Seq<char>, t: Seq<char>) -> bool {
    p.len() <= t.len() && t.take(p.len() as int) == p
}

/// `p` occurs in `t` starting at position `i`.
pub open spec fn matches_at(t: Seq<char>, i: int, p: Seq<char>) -> bool {
    0 <= i <= t.len() && is_prefix(p, t.skip(i))
}

/// Escaping distributes over appending one character.
pub proof fn lemma_esc_push(s: Seq<char>, c: char)
    ensures
        esc(s.push(c)) == esc(s) + esc_char(c),
    decreases s.len(),
{
    if s.len() == 0 {
        assert(s.push(c) =~= seq![c]);
        assert(s.push(c).skip(1) =~= Seq::<char>::empty());
        assert(esc(Seq::<char>::empty()) == Seq::<char>::empty());
        assert(esc(s.push(c)) == esc_char(c) + esc(Seq::<char>::empty()));
        assert(esc(s.push(c)) =~= esc(s) + esc_char(c));
    } else {
        assert(s.push(c).skip(1) =~= s.skip(1).push(c));
        lemma_esc_push(s.skip(1), c);
        assert(esc(s.push(c)) =~= esc(s) + esc_char(c));
    }
}

/// Escaping distributes over concatenation.
pub proof fn lemma_esc_concat(a: Seq<char>, b: Seq<char>)
    ensures
        esc(a + b) == esc(a) + esc(b),
    decreases a.len(),
{
    if a.len() == 0 {
        assert(a + b =~= b);
        assert(esc(a + b) =~= esc(a) + esc(b));
    } else {
        assert((a + b).skip(1) =~= a.skip(1) + b);
        lemma_esc_concat(a.skip(1), b);
        assert(esc(a + b) =~= esc(a) + esc(b));
    }
}

/// The escaped form is at least as long as the string itself.
pub proof fn lemma_esc_len(s: Seq<char>)
    ensures
        s.len() <= esc(s).len() <= 2 * s.len(),
    decreases s.len(),
{
    if s.len() > 0 {
        lemma_esc_len(s.skip(1));
    }
}

/// An escaped string followed by a closing quote is a prefix code: two such
/// prefixes of one text come from the same string. This is what makes the
/// decoders unambiguous.
pub proof fn lemma_esc_quote_prefix_free(t: Seq<char>, a: Seq<char>, b: Seq<char>)
    requires
        is_prefix(esc(a) + seq!['"'], t),
        is_prefix(esc(b) + seq!['"'], t),
    ensures
        a == b,
    decreases a.len(),
{
    let ea = esc(a) + seq!['"'];
    let eb = esc(b) + seq!['"'];
    assert(forall|j: int| 0 <= j < ea.len() ==> t[j] == ea[j]) by {
        assert(forall|j: int| 0 <= j < ea.len() ==> t.take(ea.len() as int)[j] == t[j]);
    }
    assert(forall|j: int| 0 <= j < eb.len() ==> t[j] == eb[j]) by {
        assert(forall|j: int| 0 <= j < eb.len() ==> t.take(eb.len() as int)[j] == t[j]);
    }
    if a.len() == 0 {
        assert(t[0] == '"');
        if b.len() > 0 {
            assert(eb[0] == esc_char(b[0])[0]);
            assert(false);
        }
        assert(a =~= b);
    } else if b.len() == 0 {
        assert(t[0] == '"');
        assert(ea[0] == esc_char(a[0])[0]);
        assert(false);
    } else {
        let a0 = a[0];
        let b0 = b[0];
        assert(ea[0] == esc_char(a0)[0]);
        assert(eb[0] == esc_char(b0)[0]);
        let aclass = a0 == '"' || a0 == '\\';
        let bclass = b0 == '"' || b0 == '\\';
        if aclass && bclass {
            assert(ea[1] == a0);
            assert(eb[1] == b0);
            assert(a0 == b0);
            let t2 = t.skip(2);
            assert(is_prefix(esc(a.skip(1)) + seq!['"'], t2)) by {
                assert(esc(a) =~= esc_char(a0) + esc(a.skip(1)));
                assert(t2.take((esc(a.skip(1)) + seq!['"']).len() as int) =~= esc(a.skip(1))
                    + seq!['"']);
            }
            assert(is_prefix(esc(b.skip(1)) + seq!['"'], t2)) by {
                assert(esc(b) =~= esc_char(b0) + esc(b.skip(1)));
                assert(t2.take((esc(b.skip(1)) + seq!['"']).len() as int) =~= esc(b.skip(1))
                    + seq!['"']);
            }
            lemma_esc_quote_prefix_free(t2, a.skip(1), b.skip(1));
            assert(a =~= seq![a0] + a.skip(1));
            assert(b =~= seq![b0] + b.skip(1));
        } else if aclass && !bclass {
            assert(t[0] == '\\');
            assert(t[0] == b0);
            assert(false);
        } else if !aclass && bclass {
            assert(t[0] == '\\');
            assert(t[0] == a0);
            assert(false);
        } else {
            assert(t[0] == a0);
            assert(t[0] == b0);
            let t1 = t.skip(1);
            assert(is_prefix(esc(a.skip(1)) + seq!['"'], t1)) by {
                assert(esc(a) =~= esc_char(a0) + esc(a.skip(1)));
                assert(t1.take((esc(a.skip(1)) + seq!['"']).len() as int) =~= esc(a.skip(1))
                    + seq!['"']);
            }
            assert(is_prefix(esc(b.skip(1)) + seq!['"'], t1)) by {
                assert(esc(b) =~= esc_char(b0) + esc(b.skip(1)));
                assert(t1.take((esc(b.skip(1)) + seq!['"']).len() as int) =~= esc(b.skip(1))
                    + seq!['"']);
            }
            lemma_esc_quote_prefix_free(t1, a.skip(1), b.skip(1));
            assert(a =~= seq![a0] + a.skip(1));
            assert(b =~= seq![b0] + b.skip(1));
        }
    }
}

/// Two quoted literals that both start one text come from the same string.
pub proof fn lemma_quoted_prefix_free(t: Seq<char>, a: Seq<char>, b: Seq<char>)
    requires
        is_prefix(quoted(a), t),
        is_prefix(quoted(b), t),
    ensures
        a == b,
{
    let t1 = t.skip(1);
    assert(is_prefix(esc(a) + seq!['"'], t1)) by {
        assert(forall|j: int| 0 <= j < quoted(a).len() ==> t[j] == quoted(a)[j]) by {
            assert(forall|j: int|
                0 <= j < quoted(a).len() ==> t.take(quoted(a).len() as int)[j] == t[j]);
        }
        assert(t1.take((esc(a) + seq!['"']).len() as int) =~= esc(a) + seq!['"']);
    }
    assert(is_prefix(esc(b) + seq!['"'], t1)) by {
        assert(forall|j: int| 0 <= j < quoted(b).len() ==> t[j] == quoted(b)[j]) by {
            assert(forall|j: int|
                0 <= j < quoted(b).len() ==> t.take(quoted(b).len() as int)[j] == t[j]);
        }
        assert(t1.take((esc(b) + seq!['"']).len() as int) =~= esc(b) + seq!['"']);
    }
    lemma_esc_quote_prefix_free(t1, a, b);
}

/// A position inside `t` where `p` occurs gives the characters of `p`.
pub proof fn lemma_matches_at_index(t: Seq<char>, i: int, p: Seq<char>, j: int)
    requires
        matches_at(t, i, p),
        0 <= j < p.len(),
    ensures
        t[i + j] == p[j],
{
    assert(t.skip(i).take(p.len() as int)[j] == p[j]);
    assert(t.skip(i)[j] == t[i + j]);
}

/// Relies on `String`'s `FromIterator` impl for `char`: collecting a
/// sequence of characters yields the string of exactly those characters.
#[verifier::external_body]
fn string_from_chars(v: &Vec<char>) -> (r: String)
    ensures
        r@ == v@,
{
    v.iter().collect()
}

/// Appends the quoted, escaped form of `s` to `out`.
pub fn push_quoted(out: &mut Vec<char>, s: &String)
    ensures
        final(out)@ == old(out)@ + quoted(s@),
{
    out.push('"');
    let n = s.as_str().unicode_len();
    let mut k: usize = 0;
    while k < n
        invariant
            n == s@.len(),
            k <= n,
            out@ == old(out)@ + seq!['"'] + esc(s@.take(k as int)),
        decreases n - k,
    {
        let c = s.as_str().get_char(k);
        proof {
            assert(s@.take(k as int + 1) =~= s@.take(k as int).push(s@[k as int]));
            lemma_esc_push(s@.take(k as int), s@[k as int]);
        }
        if c == '"' || c == '\\' {
            out.push('\\');
            out.push(c);
        } else {
            out.push(c);
        }
        assert(out@ =~= old(out)@ + seq!['"'] + esc(s@.take(k as int + 1)));
        k = k + 1;
    }
    assert(s@.take(n as int) =~= s@);
    out.push('"');
    assert(out@ =~= old(out)@ + quoted(s@));
}

/// Compares the characters of `data` starting at `i` with `lit`; returns the
/// position just past the match exactly when `lit` occurs there.
pub fn expect_lit(data: &Vec<char>, i: usize, lit: &Vec<char>) -> (r: Option<usize>)
    ensures
        r matches Some(j) ==> j == i + lit@.len() && matches_at(data@, i as int, lit@),
        matches_at(data@, i as int, lit@) ==> r is Some,
{
    let n = lit.len();
    let dn = data.len();
    if i > dn {
        return None;
    }
    if n > dn - i {
        return None;
    }
    let mut k: usize = 0;
    while k < n
        invariant
            n == lit@.len(),
            dn == data@.len(),
            k <= n,
            i + n <= dn,
            forall|j: int| 0 <= j < k ==> data@[i + j] == lit@[j],
        decreases n - k,
    {
        if data[i + k] != lit[k] {
            proof {
                if matches_at(data@, i as int, lit@) {
                    lemma_matches_at_index(data@, i as int, lit@, k as int);
                }
            }
            return None;
        }
        k = k + 1;
    }
    assert(data@.skip(i as int).take(n as int) =~= lit@);
    Some(i + n)
}

/// Parses a quoted string literal starting at `start`: succeeds exactly when
/// some quoted literal occurs there, and then returns its unescaped content
/// and the position just past its closing quote.
pub fn parse_quoted(data: &Vec<char>, start: usize) -> (r: Option<(String, usize)>)
    ensures
        r matches Some(p) ==> start < p.1 <= data@.len() && data@.subrange(
            start as int,
            p.1 as int,
        ) == quoted(p.0@),
        (exists|q: Seq<char>| matches_at(data@, start as int, quoted(q))) ==> r is Some,
{
    let ghost has_q = exists|q: Seq<char>| matches_at(data@, start as int, quoted(q));
    let ghost qx: Seq<char> = choose|q: Seq<char>| matches_at(data@, start as int, quoted(q));
    proof {
        if has_q {
            lemma_matches_at_index(data@, start as int, quoted(qx), 0);
        }
    }
    if start >= data.len() || data[start] != '"' {
        return None;
    }
    let mut out: Vec<char> = Vec::new();
    let mut pos: usize = start + 1;
    loop
        invariant
            start < data@.len(),
            data@[start as int] == '"',
            start + 1 <= pos <= data@.len(),
            data@.subrange(start as int + 1, pos as int) == esc(out@),
            has_q == exists|q: Seq<char>| matches_at(data@, start as int, quoted(q)),
            has_q ==> matches_at(data@, start as int, quoted(qx)),
            has_q ==> out@.len() <= qx.len() && out@ == qx.take(out@.len() as int),
        decreases data@.len() - pos,
    {
        let ghost k = out@.len() as int;
        let ghost m = pos - start - 1;
        proof {
            assert(data@.subrange(start as int + 1, pos as int).len() == esc(out@).len());
            if has_q {
                assert(qx.take(k) + qx.skip(k) =~= qx);
                lemma_esc_concat(qx.take(k), qx.skip(k));
                lemma_esc_len(qx.skip(k));
                assert(start + 2 + esc(qx).len() <= data@.len());
                if k < qx.len() {
                    assert(qx.skip(k)[0] == qx[k]);
                    assert(esc(qx.skip(k)) == esc_char(qx[k]) + esc(qx.skip(k).skip(1)));
                } else {
                    assert(qx.take(k) =~= qx);
                }
                // the character the parser is looking at, as the encoding shows it
                lemma_matches_at_index(data@, start as int, quoted(qx), 1 + m);
                assert(quoted(qx)[1 + m] == (esc(qx) + seq!['"'])[m]);
            }
        }
        if pos >= data.len() {
            proof {
                if has_q {
                    assert(false);
                }
            }
            return None;
        }
        let c = data[pos];
        if c == '"' {
            let s = string_from_chars(&out);
            assert(data@.subrange(start as int, pos as int + 1) =~= seq!['"'] + data@.subrange(
                start as int + 1,
                pos as int,
            ) + seq!['"']);
            return Some((s, pos + 1));
        } else if c == '\\' {
            proof {
                if has_q {
                    assert(k < qx.len());
                    assert(qx[k] == '"' || qx[k] == '\\');
                    lemma_matches_at_index(data@, start as int, quoted(qx), 2 + m);
                    assert(quoted(qx)[2 + m] == (esc(qx) + seq!['"'])[m + 1]);
                    assert((esc(qx) + seq!['"'])[m + 1] == qx[k]);
                }
            }
            if pos + 1 >= data.len() {
                proof {
                    if has_q {
                        assert(false);
                    }
                }
                return None;
            }
            let c2 = data[pos + 1];
            if c2 == '"' || c2 == '\\' {
                proof {
                    lemma_esc_push(out@, c2);
                    if has_q {
                        assert(c2 == qx[k]);
                        assert(qx.take(k + 1) =~= qx.take(k).push(qx[k]));
                    }
                }
                out.push(c2);
                pos = pos + 2;
                assert(data@.subrange(start as int + 1, pos as int) =~= esc(out@));
            } else {
                proof {
                    if has_q {
                        assert(false);
                    }
                }
                return None;
            }
        } else {
            proof {
                lemma_esc_push(out@, c);
                if has_q {
                    assert(k < qx.len());
                    assert(c == qx[k]);
                    assert(qx.take(k + 1) =~= qx.take(k).push(qx[k]));
                }
            }
            out.push(c);
            pos = pos + 1;
            assert(data@.subrange(start as int + 1, pos as int) =~= esc(out@));
        }
    }
}

/// The member key that opens the record and names the email field.
pub open spec fn key_email() -> Seq<char> {
    seq!['{', '"', 'e', 'm', 'a', 'i', 'l', '"', ':']
}

/// The member key of the password field.
pub open spec fn key_password() -> Seq<char> {
    seq![',', '"', 'p', 'a', 's', 's', 'w', 'o', 'r', 'd', '"', ':']
}

/// The member key of the first-name field.
pub open spec fn key_first_name() -> Seq<char> {
    seq![',', '"', 'f', 'i', 'r', 's', 't', '_', 'n', 'a', 'm', 'e', '"', ':']
}

/// The member key of the last-name field.
pub open spec fn key_last_name() -> Seq<char> {
    seq![',', '"', 'l', 'a', 's', 't', '_', 'n', 'a', 'm', 'e', '"', ':']
}

/// The character that closes a record.
pub open spec fn closing() -> Seq<char> {
    seq!['}']
}

fn push_key_email(out: &mut Vec<char>)
    ensures
        final(out)@ == old(out)@ + key_email(),
{
    out.push('{');
    out.push('"');
    out.push('e');
    out.push('m');
    out.push('a');
    out.push('i');
    out.push('l');
    out.push('"');
    out.push(':');
    assert(out@ =~= old(out)@ + key_email());
}

fn push_key_password(out: &mut Vec<char>)
    ensures
        final(out)@ == old(out)@ + key_password(),
{
    out.push(',');
    out.push('"');
    out.push('p');
    out.push('a');
    out.push('s');
    out.push('s');
    out.push('w');
    out.push('o');
    out.push('r');
    out.push('d');
    out.push('"');
    out.push(':');
    assert(out@ =~= old(out)@ + key_password());
}

fn push_key_first_name(out: &mut Vec<char>)
    ensures
        final(out)@ == old(out)@ + key_first_name(),
{
    out.push(',');
    out.push('"');
    out.push('f');
    out.push('i');
    out.push('r');
    out.push('s');
    out.push('t');
    out.push('_');
    out.push('n');
    out.push('a');
    out.push('m');
    out.push('e');
    out.push('"');
    out.push(':');
    assert(out@ =~= old(out)@ + key_first_name());
}

fn push_key_last_name(out: &mut Vec<char>)
    ensures
        final(out)@ == old(out)@ + key_last_name(),
{
    out.push(',');
    out.push('"');
    out.push('l');
    out.push('a');
    out.push('s');
    out.push('t');
    out.push('_');
    out.push('n');
    out.push('a');
    out.push('m');
    out.push('e');
    out.push('"');
    out.push(':');
    assert(out@ =~= old(out)@ + key_last_name());
}

fn push_closing(out: &mut Vec<char>)
    ensures
        final(out)@ == old(out)@ + closing(),
{
    out.push('}');
    assert(out@ =~= old(out)@ + closing());
}

/// A text that begins with `x` holds `x` at position `i` of the larger text.
pub proof fn lemma_prefix_matches(t: Seq<char>, i: int, x: Seq<char>, rest: Seq<char>)
    requires
        0 <= i <= t.len(),
        t.skip(i) == x + rest,
    ensures
        matches_at(t, i, x),
{
    assert(t.skip(i).take(x.len() as int) =~= x);
}

/// An occurrence of a concatenation splits into occurrences of its parts.
pub proof fn lemma_matches_at_split(t: Seq<char>, i: int, p: Seq<char>, q: Seq<char>)
    requires
        matches_at(t, i, p + q),
    ensures
        matches_at(t, i, p),
        matches_at(t, i + p.len(), q),
{
    assert forall|j: int| 0 <= j < (p + q).len() implies t[i + j] == (p + q)[j] by {
        assert(t.skip(i).take((p + q).len() as int)[j] == (p + q)[j]);
        assert(t.skip(i)[j] == t[i + j]);
    }
    assert(t.skip(i).take(p.len() as int) =~= p);
    assert forall|j: int| 0 <= j < q.len() implies t.skip(i + p.len()).take(q.len() as int)[j]
        == q[j] by {
        assert(t[i + (p.len() + j)] == (p + q)[p.len() + j]);
    }
    assert(t.skip(i + p.len()).take(q.len() as int) =~= q);
}

/// Aligns what a decoder consumed with the canonical decomposition of the
/// text: the consumed field equals the canonical one, and the rest lines up.
pub proof fn lemma_keyed_align(t: Seq<char>, i: int, key: Seq<char>, s: Seq<char>, e: Seq<char>, rest: Seq<char>)
    requires
        0 <= i,
        i + key.len() + quoted(s).len() <= t.len(),
        t.subrange(i, i + key.len() + quoted(s).len()) == key + quoted(s),
        t.skip(i) == key + quoted(e) + rest,
    ensures
        s == e,
        t.skip(i + key.len() + quoted(s).len()) == rest,
{
    let n = key.len() + quoted(s).len();
    let w = t.skip(i + key.len());
    assert forall|j: int| 0 <= j < n implies t[i + j] == (key + quoted(s))[j] by {
        assert(t.subrange(i, i + n)[j] == t[i + j]);
    }
    assert(is_prefix(quoted(s), w)) by {
        assert forall|j: int| 0 <= j < quoted(s).len() implies w.take(quoted(s).len() as int)[j]
            == quoted(s)[j] by {
            assert(t[i + (key.len() + j)] == (key + quoted(s))[key.len() + j]);
            assert(w[j] == t[i + key.len() + j]);
        }
        assert(w.take(quoted(s).len() as int) =~= quoted(s));
    }
    assert(is_prefix(quoted(e), w)) by {
        assert(t.skip(i).len() == key.len() + quoted(e).len() + rest.len());
        assert forall|j: int| 0 <= j < w.len() implies w[j] == (quoted(e) + rest)[j] by {
            assert(w[j] == t[i + key.len() + j]);
            assert(t.skip(i)[key.len() + j] == t[i + (key.len() + j)]);
            assert(t.skip(i)[key.len() + j] == (key + quoted(e) + rest)[key.len() + j]);
            if j < quoted(e).len() {
                assert((key + quoted(e) + rest)[key.len() + j] == (key + quoted(e))[key.len()
                    + j]);
                assert((key + quoted(e))[key.len() + j] == quoted(e)[j]);
                assert((quoted(e) + rest)[j] == quoted(e)[j]);
            } else {
                assert((key + quoted(e) + rest)[key.len() + j] == rest[key.len() + j - (key
                    + quoted(e)).len()]);
                assert((quoted(e) + rest)[j] == rest[j - quoted(e).len()]);
            }
        }
        assert(w =~= quoted(e) + rest);
        assert(w.take(quoted(e).len() as int) =~= quoted(e));
    }
    lemma_quoted_prefix_free(w, s, e);
    assert(t.skip(i).len() == t.len() - i);
    assert(t.len() - i == key.len() + quoted(e).len() + rest.len());
    assert forall|j: int| 0 <= j < rest.len() implies t.skip(i + key.len() + quoted(s).len())[j]
        == rest[j] by {
        let m = key.len() + quoted(e).len() + j;
        assert(t.skip(i + key.len() + quoted(s).len())[j] == t[i + key.len() + quoted(s).len()
            + j]);
        assert(t.skip(i)[m] == t[i + m]);
        assert(t.skip(i)[m] == (key + quoted(e) + rest)[m]);
        assert((key + quoted(e) + rest)[m] == rest[m - (key + quoted(e)).len()]);
    }
    assert(t.skip(i + key.len() + quoted(s).len()) =~= rest);
}

/// Cancels a shared key and quoted field from two equal decompositions.
pub proof fn lemma_keyed_cancel(key: Seq<char>, e1: Seq<char>, r1: Seq<char>, e2: Seq<char>, r2: Seq<char>)
    requires
        key + quoted(e1) + r1 == key + quoted(e2) + r2,
    ensures
        e1 == e2,
        r1 == r2,
{
    let u = key + quoted(e1) + r1;
    let w = u.skip(key.len() as int);
    assert(w =~= quoted(e1) + r1);
    assert(w =~= quoted(e2) + r2);
    assert(is_prefix(quoted(e1), w)) by {
        assert(w.take(quoted(e1).len() as int) =~= quoted(e1));
    }
    assert(is_prefix(quoted(e2), w)) by {
        assert(w.take(quoted(e2).len() as int) =~= quoted(e2));
    }
    lemma_quoted_prefix_free(w, e1, e2);
    assert(r1 =~= w.skip(quoted(e1).len() as int));
    assert(r2 =~= w.skip(quoted(e2).len() as int));
}

/// Parses one member key followed by a quoted field: succeeds exactly when
/// the key and some quoted literal occur at `i`.
pub fn parse_keyed(data: &Vec<char>, i: usize, key: &Vec<char>) -> (r: Option<(String, usize)>)
    ensures
        r matches Some(p) ==> i + key@.len() < p.1 <= data@.len() && p.1 == i + key@.len()
            + quoted(p.0@).len() && data@.subrange(i as int, p.1 as int) == key@ + quoted(p.0@),
        (exists|q: Seq<char>| matches_at(data@, i as int, key@ + quoted(q))) ==> r is Some,
{
    let ghost has = exists|q: Seq<char>| matches_at(data@, i as int, key@ + quoted(q));
    let ghost qx: Seq<char> = choose|q: Seq<char>| matches_at(data@, i as int, key@ + quoted(q));
    proof {
        if has {
            lemma_matches_at_split(data@, i as int, key@, quoted(qx));
        }
    }
    match expect_lit(data, i, key) {
        None => None,
        Some(j) => {
            match parse_quoted(data, j) {
                None => None,
                Some((s, end)) => {
                    proof {
                        assert(data@.subrange(i as int, j as int) =~= key@) by {
                            assert(forall|k: int|
                                0 <= k < key@.len() ==> data@[i + k] == #[trigger] data@.skip(
                                    i as int,
                                ).take(key@.len() as int)[k]);
                        }
                        assert(data@.subrange(i as int, end as int) =~= data@.subrange(
                            i as int,
                            j as int,
                        ) + data@.subrange(j as int, end as int));
                    }
                    Some((s, end))
                },
            }
        },
    }
}

/// The canonical payload text of a sign-up argument.
pub open spec fn sign_up_enc(e: Seq<char>, p: Seq<char>, f: Seq<char>, l: Seq<char>) -> Seq<char> {
    key_email() + quoted(e) + key_password() + quoted(p) + key_first_name() + quoted(f)
        + key_last_name() + quoted(l) + closing()
}

/// The canonical payload text of a login argument.
pub open spec fn login_enc(e: Seq<char>, p: Seq<char>) -> Seq<char> {
    key_email() + quoted(e) + key_password() + quoted(p) + closing()
}

/// The payload codec is injective on sign-up arguments: equal payload texts
/// come from equal field values. Together with the decoder's contract this
/// gives the round trip: decoding an encoded sign-up argument returns it.
pub proof fn lemma_sign_up_enc_injective(
    e1: Seq<char>, pw1: Seq<char>, f1: Seq<char>, l1: Seq<char>,
    e2: Seq<char>, pw2: Seq<char>, f2: Seq<char>, l2: Seq<char>,
)
    requires
        sign_up_enc(e1, pw1, f1, l1) == sign_up_enc(e2, pw2, f2, l2),
    ensures
        e1 == e2 && pw1 == pw2 && f1 == f2 && l1 == l2,
{
    let t14 = key_last_name() + quoted(l1) + closing();
    let t13 = key_first_name() + quoted(f1) + t14;
    let t12 = key_password() + quoted(pw1) + t13;
    let t24 = key_last_name() + quoted(l2) + closing();
    let t23 = key_first_name() + quoted(f2) + t24;
    let t22 = key_password() + quoted(pw2) + t23;
    assert(sign_up_enc(e1, pw1, f1, l1) =~= key_email() + quoted(e1) + t12);
    assert(sign_up_enc(e2, pw2, f2, l2) =~= key_email() + quoted(e2) + t22);
    lemma_keyed_cancel(key_email(), e1, t12, e2, t22);
    lemma_keyed_cancel(key_password(), pw1, t13, pw2, t23);
    lemma_keyed_cancel(key_first_name(), f1, t14, f2, t24);
    lemma_keyed_cancel(key_last_name(), l1, closing(), l2, closing());
}

/// The payload codec is injective on login arguments.
pub proof fn lemma_login_enc_injective(e1: Seq<char>, pw1: Seq<char>, e2: Seq<char>, pw2: Seq<char>)
    requires
        login_enc(e1, pw1) == login_enc(e2, pw2),
    ensures
        e1 == e2 && pw1 == pw2,
{
    let t12 = key_password() + quoted(pw1) + closing();
    let t22 = key_password() + quoted(pw2) + closing();
    assert(login_enc(e1, pw1) =~= key_email() + quoted(e1) + t12);
    assert(login_enc(e2, pw2) =~= key_email() + quoted(e2) + t22);
    lemma_keyed_cancel(key_email(), e1, t12, e2, t22);
    lemma_keyed_cancel(key_password(), pw1, closing(), pw2, closing());
}

/// The payload codec is injective on strings.
pub proof fn lemma_quoted_injective(s1: Seq<char>, s2: Seq<char>)
    requires
        quoted(s1) == quoted(s2),
    ensures
        s1 == s2,
{
    let t = quoted(s1);
    assert(is_prefix(quoted(s1), t)) by {
        assert(t.take(quoted(s1).len() as int) =~= quoted(s1));
    }
    assert(is_prefix(quoted(s2), t)) by {
        assert(t.take(quoted(s2).len() as int) =~= quoted(s2));
    }
    lemma_quoted_prefix_free(t, s1, s2);
}

/// Encodes a sign-up argument into its canonical payload.
pub fn encode_sign_up(v: &SignUpInput) -> (r: Payload)
    ensures
        r@ == sign_up_enc(v.email@, v.password@, v.first_name@, v.last_name@),
{
    let mut out: Vec<char> = Vec::new();
    push_key_email(&mut out);
    push_quoted(&mut out, &v.email);
    push_key_password(&mut out);
    push_quoted(&mut out, &v.password);
    push_key_first_name(&mut out);
    push_quoted(&mut out, &v.first_name);
    push_key_last_name(&mut out);
    push_quoted(&mut out, &v.last_name);
    push_closing(&mut out);
    assert(out@ =~= sign_up_enc(v.email@, v.password@, v.first_name@, v.last_name@));
    Payload { data: out }
}

/// Encodes a login argument into its canonical payload.
pub fn encode_login(v: &LoginWithEmailInput) -> (r: Payload)
    ensures
        r@ == login_enc(v.email@, v.password@),
{
    let mut out: Vec<char> = Vec::new();
    push_key_email(&mut out);
    push_quoted(&mut out, &v.email);
    push_key_password(&mut out);
    push_quoted(&mut out, &v.password);
    push_closing(&mut out);
    assert(out@ =~= login_enc(v.email@, v.password@));
    Payload { data: out }
}

/// Encodes a string result into its canonical payload.
pub fn encode_string_payload(s: &String) -> (r: Payload)
    ensures
        r@ == quoted(s@),
{
    let mut out: Vec<char> = Vec::new();
    push_quoted(&mut out, s);
    assert(out@ =~= quoted(s@));
    Payload { data: out }
}

/// Decodes a string payload: succeeds exactly on the canonical encoding of
/// some string, and then returns that string.
pub fn decode_string_payload(p: &Payload) -> (r: Result<String, CodecError>)
    ensures
        r matches Ok(s) ==> p@ == quoted(s@),
        forall|q: Seq<char>| p@ == quoted(q) ==> (r matches Ok(s) && s@ == q),
{
    let ghost has = exists|q: Seq<char>| p@ == quoted(q);
    let ghost qx: Seq<char> = choose|q: Seq<char>| p@ == quoted(q);
    proof {
        if has {
            assert(p@.skip(0) =~= quoted(qx) + Seq::<char>::empty());
            lemma_prefix_matches(p@, 0, quoted(qx), Seq::empty());
        }
    }
    match parse_quoted(&p.data, 0) {
        None => Err(CodecError),
        Some((s, end)) => {
            if end == p.data.len() {
                proof {
                    assert(p@ =~= p@.subrange(0, end as int));
                    assert forall|q: Seq<char>| p@ == quoted(q) implies s@ == q by {
                        lemma_quoted_injective(s@, q);
                    }
                }
                Ok(s)
            } else {
                proof {
                    if has {
                        assert(p@.subrange(0, end as int) == quoted(s@));
                        assert(is_prefix(quoted(s@), p@)) by {
                            assert(forall|j: int|
                                0 <= j < end ==> #[trigger] p@.subrange(0, end as int)[j] == p@[j]);
                            assert(p@.take(quoted(s@).len() as int) =~= quoted(s@));
                        }
                        assert(is_prefix(quoted(qx), p@)) by {
                            assert(p@.take(quoted(qx).len() as int) =~= quoted(qx));
                        }
                        lemma_quoted_prefix_free(p@, s@, qx);
                        assert(false);
                    }
                }
                Err(CodecError)
            }
        },
    }
}

/// Decodes a sign-up payload: succeeds exactly on the canonical encoding of
/// some argument, and then returns that argument.
pub fn decode_sign_up(p: &Payload) -> (r: Result<SignUpInput, CodecError>)
    ensures
        r matches Ok(v) ==> p@ == sign_up_enc(v.email@, v.password@, v.first_name@, v.last_name@),
        forall|e: Seq<char>, pw: Seq<char>, f: Seq<char>, l: Seq<char>|
            p@ == sign_up_enc(e, pw, f, l) ==> (r matches Ok(v) && v.email@ == e && v.password@
                == pw && v.first_name@ == f && v.last_name@ == l),
{
    let ghost has = exists|e: Seq<char>, pw: Seq<char>, f: Seq<char>, l: Seq<char>|
        p@ == sign_up_enc(e, pw, f, l);
    let ghost (e0, pw0, f0, l0) = choose|e: Seq<char>, pw: Seq<char>, f: Seq<char>, l: Seq<char>|
        p@ == sign_up_enc(e, pw, f, l);
    let ghost t4 = closing();
    let ghost t3 = key_last_name() + quoted(l0) + t4;
    let ghost t2 = key_first_name() + quoted(f0) + t3;
    let ghost t1 = key_password() + quoted(pw0) + t2;
    proof {
        if has {
            assert(p@.skip(0) =~= key_email() + quoted(e0) + t1);
            lemma_prefix_matches(p@, 0, key_email() + quoted(e0), t1);
        }
    }
    let mut k1: Vec<char> = Vec::new();
    push_key_email(&mut k1);
    assert(k1@ =~= key_email());
    let r1 = parse_keyed(&p.data, 0, &k1);
    let (s1, i1) = match r1 {
        None => {
            return Err(CodecError);
        },
        Some(x) => x,
    };
    proof {
        if has {
            lemma_keyed_align(p@, 0, key_email(), s1@, e0, t1);
            assert(t1 =~= key_password() + quoted(pw0) + t2);
            lemma_prefix_matches(p@, i1 as int, key_password() + quoted(pw0), t2);
        }
    }
    let mut k2: Vec<char> = Vec::new();
    push_key_password(&mut k2);
    assert(k2@ =~= key_password());
    let r2 = parse_keyed(&p.data, i1, &k2);
    let (s2, i2) = match r2 {
        None => {
            return Err(CodecError);
        },
        Some(x) => x,
    };
    proof {
        if has {
            lemma_keyed_align(p@, i1 as int, key_password(), s2@, pw0, t2);
            assert(t2 =~= key_first_name() + quoted(f0) + t3);
            lemma_prefix_matches(p@, i2 as int, key_first_name() + quoted(f0), t3);
        }
    }
    let mut k3: Vec<char> = Vec::new();
    push_key_first_name(&mut k3);
    assert(k3@ =~= key_first_name());
    let r3 = parse_keyed(&p.data, i2, &k3);
    let (s3, i3) = match r3 {
        None => {
            return Err(CodecError);
        },
        Some(x) => x,
    };
    proof {
        if has {
            lemma_keyed_align(p@, i2 as int, key_first_name(), s3@, f0, t3);
            assert(t3 =~= key_last_name() + quoted(l0) + t4);
            lemma_prefix_matches(p@, i3 as int, key_last_name() + quoted(l0), t4);
        }
    }
    let mut k4: Vec<char> = Vec::new();
    push_key_last_name(&mut k4);
    assert(k4@ =~= key_last_name());
    let r4 = parse_keyed(&p.data, i3, &k4);
    let (s4, i4) = match r4 {
        None => {
            return Err(CodecError);
        },
        Some(x) => x,
    };
    proof {
        if has {
            lemma_keyed_align(p@, i3 as int, key_last_name(), s4@, l0, t4);
            assert(p@.skip(i4 as int) =~= closing() + Seq::<char>::empty());
            lemma_prefix_matches(p@, i4 as int, closing(), Seq::empty());
        }
    }
    let mut k5: Vec<char> = Vec::new();
    push_closing(&mut k5);
    assert(k5@ =~= closing());
    let r5 = expect_lit(&p.data, i4, &k5);
    let end = match r5 {
        None => {
            return Err(CodecError);
        },
        Some(x) => x,
    };
    if end != p.data.len() {
        proof {
            if has {
                assert(p@.skip(i4 as int).len() == 1);
                assert(false);
            }
        }
        return Err(CodecError);
    }
    proof {
        assert(p@.subrange(i4 as int, end as int) =~= closing()) by {
            assert(forall|k: int|
                0 <= k < closing().len() ==> p@[i4 + k] == #[trigger] p@.skip(i4 as int).take(
                    closing().len() as int,
                )[k]);
        }
        assert(p@.subrange(0, i2 as int) =~= p@.subrange(0, i1 as int) + p@.subrange(
            i1 as int,
            i2 as int,
        ));
        assert(p@.subrange(0, i3 as int) =~= p@.subrange(0, i2 as int) + p@.subrange(
            i2 as int,
            i3 as int,
        ));
        assert(p@.subrange(0, i4 as int) =~= p@.subrange(0, i3 as int) + p@.subrange(
            i3 as int,
            i4 as int,
        ));
        assert(p@ =~= p@.subrange(0, i4 as int) + p@.subrange(i4 as int, end as int));
        assert(p@ =~= sign_up_enc(s1@, s2@, s3@, s4@));
        assert forall|e: Seq<char>, pw: Seq<char>, f: Seq<char>, l: Seq<char>|
            p@ == sign_up_enc(e, pw, f, l) implies s1@ == e && s2@ == pw && s3@ == f && s4@
            == l by {
            lemma_sign_up_enc_injective(s1@, s2@, s3@, s4@, e, pw, f, l);
        }
    }
    Ok(SignUpInput { email: s1, password: s2, first_name: s3, last_name: s4 })
}

/// Decodes a login payload: succeeds exactly on the canonical encoding of
/// some argument, and then returns that argument.
pub fn decode_login(p: &Payload) -> (r: Result<LoginWithEmailInput, CodecError>)
    ensures
        r matches Ok(v) ==> p@ == login_enc(v.email@, v.password@),
        forall|e: Seq<char>, pw: Seq<char>|
            p@ == login_enc(e, pw) ==> (r matches Ok(v) && v.email@ == e && v.password@ == pw),
{
    let ghost has = exists|e: Seq<char>, pw: Seq<char>| p@ == login_enc(e, pw);
    let ghost (e0, pw0) = choose|e: Seq<char>, pw: Seq<char>| p@ == login_enc(e, pw);
    let ghost t2 = closing();
    let ghost t1 = key_password() + quoted(pw0) + t2;
    proof {
        if has {
            assert(p@.skip(0) =~= key_email() + quoted(e0) + t1);
            lemma_prefix_matches(p@, 0, key_email() + quoted(e0), t1);
        }
    }
    let mut k1: Vec<char> = Vec::new();
    push_key_email(&mut k1);
    assert(k1@ =~= key_email());
    let r1 = parse_keyed(&p.data, 0, &k1);
    let (s1, i1) = match r1 {
        None => {
            return Err(CodecError);
        },
        Some(x) => x,
    };
    proof {
        if has {
            lemma_keyed_align(p@, 0, key_email(), s1@, e0, t1);
            assert(t1 =~= key_password() + quoted(pw0) + t2);
            lemma_prefix_matches(p@, i1 as int, key_password() + quoted(pw0), t2);
        }
    }
    let mut k2: Vec<char> = Vec::new();
    push_key_password(&mut k2);
    assert(k2@ =~= key_password());
    let r2 = parse_keyed(&p.data, i1, &k2);
    let (s2, i2) = match r2 {
        None => {
            return Err(CodecError);
        },
        Some(x) => x,
    };
    proof {
        if has {
            lemma_keyed_align(p@, i1 as int, key_password(), s2@, pw0, t2);
            assert(p@.skip(i2 as int) =~= closing() + Seq::<char>::empty());
            lemma_prefix_matches(p@, i2 as int, closing(), Seq::empty());
        }
    }
    let mut k3: Vec<char> = Vec::new();
    push_closing(&mut k3);
    assert(k3@ =~= closing());
    let r3 = expect_lit(&p.data, i2, &k3);
    let end = match r3 {
        None => {
            return Err(CodecError);
        },
        Some(x) => x,
    };
    if end != p.data.len() {
        proof {
            if has {
                assert(p@.skip(i2 as int).len() == 1);
                assert(false);
            }
        }
        return Err(CodecError);
    }
    proof {
        assert(p@.subrange(i2 as int, end as int) =~= closing()) by {
            assert(forall|k: int|
                0 <= k < closing().len() ==> p@[i2 + k] == #[trigger] p@.skip(i2 as int).take(
                    closing().len() as int,
                )[k]);
        }
        assert(p@.subrange(0, i2 as int) =~= p@.subrange(0, i1 as int) + p@.subrange(
            i1 as int,
            i2 as int,
        ));
        assert(p@ =~= p@.subrange(0, i2 as int) + p@.subrange(i2 as int, end as int));
        assert(p@ =~= login_enc(s1@, s2@));
        assert forall|e: Seq<char>, pw: Seq<char>| p@ == login_enc(e, pw) implies s1@ == e && s2@
            == pw by {
            lemma_login_enc_injective(s1@, s2@, e, pw);
        }
    }
    Ok(LoginWithEmailInput { email: s1, password: s2 })
}

} // verus!
