//! Small verified text utilities shared by the wire-format encoders and
//! decoders: splitting on a separator character, string equality, and
//! lexicographic comparison.

use vstd::prelude::*;

verus! {

/// Mathematical splitting of a character sequence on a separator.
/// Mirrors the behaviour of splitting a string: the empty sequence
/// splits into one empty field, and every occurrence of `sep` closes
/// the current field and opens a new one.
pub open spec fn split_on(s: Seq<char>, sep: char) -> Seq<Seq<char>>
    decreases s.len(),
{
    if s.len() == 0 {
        seq![Seq::<char>::empty()]
    } else {
        let rest = split_on(s.drop_first(), sep);
        if s[0] == sep {
            seq![Seq::<char>::empty()] + rest
        } else {
            seq![seq![s[0]] + rest[0]] + rest.drop_first()
        }
    }
}

/// Splitting always produces at least one field.
pub proof fn lemma_split_on_len(s: Seq<char>, sep: char)
    ensures
        split_on(s, sep).len() >= 1,
    decreases s.len(),
{
    if s.len() > 0 {
        lemma_split_on_len(s.drop_first(), sep);
    }
}

/// Appending one character to the input either extends the last field
/// (an ordinary character) or appends a fresh empty field (the separator).
proof fn lemma_split_on_push(s: Seq<char>, sep: char, c: char)
    ensures
        split_on(s, sep).len() >= 1,
        c == sep ==> split_on(s + seq![c], sep) =~~= split_on(s, sep) + seq![Seq::<char>::empty()],
        c != sep ==> split_on(s + seq![c], sep) =~~= split_on(s, sep).update(
            split_on(s, sep).len() - 1,
            split_on(s, sep).last() + seq![c],
        ),
    decreases s.len(),
{
    lemma_split_on_len(s, sep);
    let t = s + seq![c];
    if s.len() == 0 {
        assert(t.len() == 1);
        assert(t[0] == c);
        assert(t.drop_first() =~= Seq::<char>::empty());
        assert(split_on(t.drop_first(), sep) =~~= seq![Seq::<char>::empty()]);
        if c == sep {
            assert(split_on(t, sep) =~~= split_on(s, sep) + seq![Seq::<char>::empty()]);
        } else {
            assert(split_on(t, sep) =~~= seq![seq![c]]);
            assert(split_on(s, sep).update(0, Seq::<char>::empty() + seq![c]) =~~= seq![
                seq![c],
            ]);
        }
    } else {
        assert(t[0] == s[0]);
        assert(t.drop_first() =~= s.drop_first() + seq![c]);
        lemma_split_on_push(s.drop_first(), sep, c);
        lemma_split_on_len(s.drop_first(), sep);
        let rest = split_on(s.drop_first(), sep);
        let trest = split_on(t.drop_first(), sep);
        if c == sep {
            assert(trest =~~= rest + seq![Seq::<char>::empty()]);
            if s[0] == sep {
                assert(split_on(t, sep) =~~= (seq![Seq::<char>::empty()] + rest) + seq![
                    Seq::<char>::empty(),
                ]);
            } else {
                assert(trest[0] =~= rest[0]);
                assert(trest.drop_first() =~~= rest.drop_first() + seq![Seq::<char>::empty()]);
                assert(split_on(t, sep) =~~= split_on(s, sep) + seq![Seq::<char>::empty()]);
            }
        } else {
            assert(trest =~~= rest.update(rest.len() - 1, rest.last() + seq![c]));
            if s[0] == sep {
                assert(split_on(t, sep) =~~= seq![Seq::<char>::empty()] + trest);
                assert(split_on(s, sep).last() == rest.last());
                assert((seq![Seq::<char>::empty()] + rest).update(
                    rest.len() as int,
                    rest.last() + seq![c],
                ) =~~= seq![Seq::<char>::empty()] + trest);
            } else {
                if rest.len() == 1 {
                    assert(trest[0] =~= rest[0] + seq![c]);
                    assert(split_on(t, sep) =~~= seq![seq![s[0]] + rest[0] + seq![c]]);
                    assert(split_on(s, sep).last() == seq![s[0]] + rest[0]);
                    assert(split_on(s, sep).update(0, seq![s[0]] + rest[0] + seq![c]) =~~= seq![
                        seq![s[0]] + rest[0] + seq![c],
                    ]);
                } else {
                    assert(trest[0] =~= rest[0]);
                    assert(trest.drop_first() =~~= rest.drop_first().update(
                        rest.len() - 2,
                        rest.last() + seq![c],
                    ));
                    assert(split_on(t, sep) =~~= split_on(s, sep).update(
                        split_on(s, sep).len() - 1,
                        split_on(s, sep).last() + seq![c],
                    ));
                }
            }
        }
    }
}

/// The field of `row` at position `k` when `row` is split on `sep`;
/// positions past the last field read as the empty sequence.
pub open spec fn field_at(row: Seq<char>, sep: char, k: int) -> Seq<char> {
    if 0 <= k < split_on(row, sep).len() {
        split_on(row, sep)[k]
    } else {
        Seq::empty()
    }
}

/// Splits `s` on the separator `sep`, returning the fields in order.
pub fn split_str(s: &str, sep: char) -> (r: Vec<String>)
    ensures
        r@.map_values(|f: String| f@) =~~= split_on(s@, sep),
{
    let n = s.unicode_len();
    let mut fields: Vec<String> = Vec::new();
    let mut start: usize = 0;
    let mut i: usize = 0;
    proof {
        assert(s@.take(0) =~= Seq::<char>::empty());
        assert(fields@.map_values(|f: String| f@) + seq![s@.subrange(0, 0)] =~~= split_on(
            s@.take(0),
            sep,
        ));
    }
    while i < n
        invariant
            start <= i <= n,
            n == s@.len(),
            fields@.map_values(|f: String| f@) + seq![s@.subrange(start as int, i as int)]
                =~~= split_on(s@.take(i as int), sep),
        decreases n - i,
    {
        let c = s.get_char(i);
        proof {
            lemma_split_on_push(s@.take(i as int), sep, c);
            assert(s@.take(i as int) + seq![s@[i as int]] =~= s@.take(i + 1 as int));
        }
        if c == sep {
            let field = s.substring_char(start, i).to_owned();
            let ghost old_fields = fields@;
            fields.push(field);
            proof {
                assert(fields@.map_values(|f: String| f@) =~~= old_fields.map_values(
                    |f: String| f@,
                ) + seq![s@.subrange(start as int, i as int)]);
                assert(s@.subrange(i + 1 as int, i + 1 as int) =~= Seq::<char>::empty());
                assert(fields@.map_values(|f: String| f@) + seq![
                    s@.subrange(i + 1 as int, i + 1 as int),
                ] =~~= split_on(s@.take(i + 1 as int), sep));
            }
            start = i + 1;
        } else {
            proof {
                let parts = split_on(s@.take(i as int), sep);
                assert(parts.last() == s@.subrange(start as int, i as int));
                assert(s@.subrange(start as int, i as int) + seq![s@[i as int]] =~= s@.subrange(
                    start as int,
                    i + 1 as int,
                ));
                assert(fields@.map_values(|f: String| f@) + seq![
                    s@.subrange(start as int, i + 1 as int),
                ] =~~= parts.update(parts.len() - 1, parts.last() + seq![s@[i as int]]));
            }
        }
        i = i + 1;
    }
    let last = s.substring_char(start, n).to_owned();
    let ghost old_fields = fields@;
    fields.push(last);
    proof {
        assert(s@.take(n as int) =~= s@);
        assert(fields@.map_values(|f: String| f@) =~~= old_fields.map_values(|f: String| f@)
            + seq![s@.subrange(start as int, n as int)]);
    }
    fields
}

/// Lexicographic order on character sequences, comparing Unicode scalar
/// values position by position.  `lex_le(a, b)` holds when `a` sorts no
/// later than `b`; a proper prefix sorts before its extensions.
pub open spec fn lex_le(a: Seq<char>, b: Seq<char>) -> bool
    decreases a.len(),
{
    if a.len() == 0 {
        true
    } else if b.len() == 0 {
        false
    } else if (a[0] as u32) < (b[0] as u32) {
        true
    } else if (a[0] as u32) > (b[0] as u32) {
        false
    } else {
        lex_le(a.drop_first(), b.drop_first())
    }
}

/// The lexicographic order is total.
pub proof fn lemma_lex_le_total(a: Seq<char>, b: Seq<char>)
    ensures
        lex_le(a, b) || lex_le(b, a),
    decreases a.len(),
{
    if a.len() > 0 && b.len() > 0 && (a[0] as u32) == (b[0] as u32) {
        lemma_lex_le_total(a.drop_first(), b.drop_first());
    }
}

/// The lexicographic order is transitive.
pub proof fn lemma_lex_le_trans(a: Seq<char>, b: Seq<char>, c: Seq<char>)
    requires
        lex_le(a, b),
        lex_le(b, c),
    ensures
        lex_le(a, c),
    decreases a.len(),
{
    if a.len() > 0 && b.len() > 0 && c.len() > 0 && (a[0] as u32) == (b[0] as u32) && (b[0] as u32)
        == (c[0] as u32) {
        lemma_lex_le_trans(a.drop_first(), b.drop_first(), c.drop_first());
    }
}

/// Two sequences that sort no later than one another are equal.
pub proof fn lemma_lex_le_antisym(a: Seq<char>, b: Seq<char>)
    requires
        lex_le(a, b),
        lex_le(b, a),
    ensures
        a == b,
    decreases a.len(),
{
    if a.len() == 0 {
        assert(a =~= b);
    } else {
        vstd::utf8::char_u32_cast(a[0], a[0] as u32);
        vstd::utf8::char_u32_cast(b[0], b[0] as u32);
        lemma_lex_le_antisym(a.drop_first(), b.drop_first());
        assert(a =~= seq![a[0]] + a.drop_first());
        assert(b =~= seq![b[0]] + b.drop_first());
    }
}

/// Compares two strings in the lexicographic order of [`lex_le`].
pub fn str_le(a: &str, b: &str) -> (r: bool)
    ensures
        r == lex_le(a@, b@),
{
    let n = a.unicode_len();
    let m = b.unicode_len();
    let mut i: usize = 0;
    proof {
        assert(a@.skip(0) =~= a@);
        assert(b@.skip(0) =~= b@);
    }
    while i < n && i < m
        invariant
            i <= n,
            i <= m,
            n == a@.len(),
            m == b@.len(),
            lex_le(a@, b@) == lex_le(a@.skip(i as int), b@.skip(i as int)),
        decreases n - i,
    {
        let ca = a.get_char(i) as u32;
        let cb = b.get_char(i) as u32;
        proof {
            assert(a@.skip(i as int).drop_first() =~= a@.skip(i + 1 as int));
            assert(b@.skip(i as int).drop_first() =~= b@.skip(i + 1 as int));
        }
        if ca < cb {
            return true;
        }
        if ca > cb {
            return false;
        }
        i = i + 1;
    }
    proof {
        if i == n {
            assert(a@.skip(i as int) =~= Seq::<char>::empty());
        } else {
            assert(b@.skip(i as int) =~= Seq::<char>::empty());
            assert(a@.skip(i as int).len() > 0);
        }
    }
    i == n
}

/// The decimal digit character for a value below ten.
pub open spec fn dec_digit(d: int) -> char {
    if d == 0 {
        '0'
    } else if d == 1 {
        '1'
    } else if d == 2 {
        '2'
    } else if d == 3 {
        '3'
    } else if d == 4 {
        '4'
    } else if d == 5 {
        '5'
    } else if d == 6 {
        '6'
    } else if d == 7 {
        '7'
    } else if d == 8 {
        '8'
    } else {
        '9'
    }
}

/// The usual decimal rendering of a natural number, most significant
/// digit first and without leading zeros.
pub open spec fn dec_rep(n: nat) -> Seq<char>
    decreases n,
{
    if n < 10 {
        seq![dec_digit(n as int)]
    } else {
        dec_rep(n / 10).push(dec_digit((n % 10) as int))
    }
}

/// The decimal rendering of a signed value: a minus sign followed by
/// the rendering of the magnitude, or the bare magnitude.
pub open spec fn int_text(v: int) -> Seq<char> {
    if v < 0 {
        seq!['-'] + dec_rep((-v) as nat)
    } else {
        dec_rep(v as nat)
    }
}

/// Digits collected least significant first, read back in display order.
spec fn rev_digit_chars(ds: Seq<u8>) -> Seq<char>
    decreases ds.len(),
{
    if ds.len() == 0 {
        Seq::empty()
    } else {
        seq![dec_digit(ds.last() as int)] + rev_digit_chars(ds.drop_last())
    }
}

proof fn lemma_rev_digit_chars_index(ds: Seq<u8>)
    ensures
        rev_digit_chars(ds).len() == ds.len(),
        forall|i: int|
            0 <= i < ds.len() ==> rev_digit_chars(ds)[i] == dec_digit(ds[ds.len() - 1 - i] as int),
    decreases ds.len(),
{
    if ds.len() > 0 {
        lemma_rev_digit_chars_index(ds.drop_last());
    }
}

/// The single-character string for a decimal digit.
fn digit_str(d: u8) -> (r: &'static str)
    requires
        d < 10,
    ensures
        r@ =~= seq![dec_digit(d as int)],
{
    if d == 0 {
        let r = "0";
        proof {
            reveal_strlit("0");
        }
        r
    } else if d == 1 {
        let r = "1";
        proof {
            reveal_strlit("1");
        }
        r
    } else if d == 2 {
        let r = "2";
        proof {
            reveal_strlit("2");
        }
        r
    } else if d == 3 {
        let r = "3";
        proof {
            reveal_strlit("3");
        }
        r
    } else if d == 4 {
        let r = "4";
        proof {
            reveal_strlit("4");
        }
        r
    } else if d == 5 {
        let r = "5";
        proof {
            reveal_strlit("5");
        }
        r
    } else if d == 6 {
        let r = "6";
        proof {
            reveal_strlit("6");
        }
        r
    } else if d == 7 {
        let r = "7";
        proof {
            reveal_strlit("7");
        }
        r
    } else if d == 8 {
        let r = "8";
        proof {
            reveal_strlit("8");
        }
        r
    } else {
        let r = "9";
        proof {
            reveal_strlit("9");
        }
        r
    }
}

/// Renders an unsigned value in decimal.
fn u64_dec_string(n: u64) -> (r: String)
    ensures
        r@ =~= dec_rep(n as nat),
{
    let mut digits: Vec<u8> = Vec::new();
    let mut m: u64 = n;
    digits.push((m % 10) as u8);
    m = m / 10;
    proof {
        assert(digits@.drop_last() =~= Seq::<u8>::empty());
        assert(rev_digit_chars(Seq::<u8>::empty()) =~= Seq::<char>::empty());
        assert(rev_digit_chars(digits@) =~= seq![dec_digit((n % 10) as int)]);
        if n >= 10 {
            assert(dec_rep(n as nat) =~= dec_rep((n as nat) / 10) + seq![
                dec_digit(((n as nat) % 10) as int),
            ]);
        }
    }
    while m > 0
        invariant
            digits@.len() >= 1,
            forall|i: int| 0 <= i < digits@.len() ==> digits@[i] < 10,
            m > 0 ==> dec_rep(n as nat) =~= dec_rep(m as nat) + rev_digit_chars(digits@),
            m == 0 ==> dec_rep(n as nat) =~= rev_digit_chars(digits@),
        decreases m,
    {
        let ghost old_digits = digits@;
        let d = (m % 10) as u8;
        digits.push(d);
        proof {
            assert(digits@.drop_last() =~= old_digits);
            assert(rev_digit_chars(digits@) =~= seq![dec_digit(d as int)] + rev_digit_chars(
                old_digits,
            ));
            if m >= 10 {
                assert(dec_rep(m as nat) =~= dec_rep((m as nat) / 10) + seq![
                    dec_digit(((m as nat) % 10) as int),
                ]);
            }
        }
        m = m / 10;
    }
    let mut out = String::new();
    let mut j = digits.len();
    proof {
        lemma_rev_digit_chars_index(digits@);
    }
    while j > 0
        invariant
            j <= digits@.len(),
            forall|i: int| 0 <= i < digits@.len() ==> digits@[i] < 10,
            rev_digit_chars(digits@).len() == digits@.len(),
            forall|i: int|
                0 <= i < digits@.len() ==> rev_digit_chars(digits@)[i] == dec_digit(
                    digits@[digits@.len() - 1 - i] as int,
                ),
            out@.len() == digits@.len() - j,
            forall|i: int|
                0 <= i < out@.len() ==> out@[i] == dec_digit(digits@[digits@.len() - 1 - i] as int),
        decreases j,
    {
        j = j - 1;
        out.append(digit_str(digits[j]));
    }
    proof {
        assert(out@ =~= rev_digit_chars(digits@));
    }
    out
}

/// Renders a 32-bit signed value in decimal, as the wire format carries
/// interval bounds and status codes.
pub fn i32_to_string(v: i32) -> (r: String)
    ensures
        r@ =~= int_text(v as int),
{
    if v >= 0 {
        u64_dec_string(v as u64)
    } else {
        let wide: i64 = v as i64;
        let mag: u64 = (-wide) as u64;
        let digits = u64_dec_string(mag);
        let mut out = "-".to_owned();
        proof {
            reveal_strlit("-");
        }
        out.append(digits.as_str());
        out
    }
}

/// Character-for-character string equality, proved against the views.
pub fn str_eq(a: &str, b: &str) -> (r: bool)
    ensures
        r == (a@ == b@),
{
    let n = a.unicode_len();
    let m = b.unicode_len();
    if n != m {
        return false;
    }
    let mut i: usize = 0;
    while i < n
        invariant
            i <= n,
            n == a@.len() == b@.len(),
            forall|j: int| 0 <= j < i ==> a@[j] == b@[j],
        decreases n - i,
    {
        if a.get_char(i) != b.get_char(i) {
            return false;
        }
        i = i + 1;
    }
    proof {
        assert(a@ =~= b@);
    }
    true
}

} // verus!
