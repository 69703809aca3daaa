use vstd::prelude::*;

verus! {

/// The result of replacing, left to right, every non-overlapping occurrence
/// of `pat` in `s` by `rep`. An empty pattern never matches.
pub open spec fn replace_spec(s: Seq<char>, pat: Seq<char>, rep: Seq<char>) -> Seq<char>
    decreases s.len(),
{
    if pat.len() == 0 || s.len() < pat.len() {
        s
    } else if s.take(pat.len() as int) == pat {
        rep + replace_spec(s.skip(pat.len() as int), pat, rep)
    } else {
        seq![s[0]] + replace_spec(s.skip(1), pat, rep)
    }
}

/// The first position at or after `i` where `c` occurs in `s`.
pub open spec fn find_from(s: Seq<char>, c: char, i: int) -> Option<int>
    decreases s.len() - i,
{
    if i < 0 || i >= s.len() {
        None
    } else if s[i] == c {
        Some(i)
    } else {
        find_from(s, c, i + 1)
    }
}

/// The hexadecimal digit for a value below 16 (lower case).
pub open spec fn hex_char(n: u8) -> char {
    if n == 0 { '0' }
    else if n == 1 { '1' }
    else if n == 2 { '2' }
    else if n == 3 { '3' }
    else if n == 4 { '4' }
    else if n == 5 { '5' }
    else if n == 6 { '6' }
    else if n == 7 { '7' }
    else if n == 8 { '8' }
    else if n == 9 { '9' }
    else if n == 10 { 'a' }
    else if n == 11 { 'b' }
    else if n == 12 { 'c' }
    else if n == 13 { 'd' }
    else if n == 14 { 'e' }
    else { 'f' }
}

/// The two hexadecimal digits of one byte.
pub open spec fn hex_pair(b: u8) -> Seq<char> {
    seq![hex_char(b / 16), hex_char(b % 16)]
}

/// The lower-case hexadecimal rendering of a byte string.
pub open spec fn hex_of(bytes: Seq<u8>) -> Seq<char>
    decreases bytes.len(),
{
    if bytes.len() == 0 {
        Seq::empty()
    } else {
        hex_pair(bytes[0]) + hex_of(bytes.drop_first())
    }
}

/// The decimal rendering of a natural number, without leading zeros.
pub open spec fn dec_of(n: nat) -> Seq<char>
    decreases n,
{
    if n < 10 {
        seq![hex_char(n as u8)]
    } else {
        dec_of(n / 10) + seq![hex_char((n % 10) as u8)]
    }
}

/// Whether `s` matches `pat` at position `i`.
pub fn matches_at(s: &str, i: usize, pat: &str) -> (r: bool)
    requires
        i + pat@.len() <= s@.len(),
    ensures
        r == (s@.subrange(i as int, i + pat@.len()) == pat@),
{
    let n = s.unicode_len();
    let m = pat.unicode_len();
    let mut j: usize = 0;
    while j < m
        invariant
            j <= m,
            m == pat@.len(),
            n == s@.len(),
            i + m <= s@.len(),
            forall|k: int| 0 <= k < j ==> s@[i + k] == pat@[k],
        decreases m - j,
    {
        let a = s.get_char(i + j);
        let b = pat.get_char(j);
        if a != b {
            proof {
                assert(s@.subrange(i as int, i + pat@.len())[j as int] == s@[i + j]);
            }
            return false;
        }
        j = j + 1;
    }
    proof {
        assert(s@.subrange(i as int, i + pat@.len()) =~= pat@);
    }
    true
}

/// Whether `pat` is a prefix of `s`.
pub fn starts_with_str(s: &str, pat: &str) -> (r: bool)
    ensures
        r == pat@.is_prefix_of(s@),
{
    let n = s.unicode_len();
    let m = pat.unicode_len();
    if m > n {
        return false;
    }
    let r = matches_at(s, 0, pat);
    proof {
        assert(s@.subrange(0, pat@.len() as int) =~= s@.take(pat@.len() as int));
    }
    r
}

/// Replaces, left to right, every non-overlapping occurrence of `pat` in `s`
/// by `rep`.
pub fn replace_all(s: &str, pat: &str, rep: &str) -> (r: String)
    requires
        pat@.len() >= 1,
    ensures
        r@ == replace_spec(s@, pat@, rep@),
{
    let n = s.unicode_len();
    let m = pat.unicode_len();
    let mut out = String::new();
    let mut i: usize = 0;
    proof {
        assert(s@.skip(0) =~= s@);
        assert(out@ + replace_spec(s@, pat@, rep@) =~= replace_spec(s@, pat@, rep@));
    }
    while i < n
        invariant
            i <= n,
            n == s@.len(),
            m == pat@.len(),
            1 <= m,
            out@ + replace_spec(s@.skip(i as int), pat@, rep@) == replace_spec(s@, pat@, rep@),
        decreases n - i,
    {
        let ghost tail = s@.skip(i as int);
        if m <= n - i && matches_at(s, i, pat) {
            proof {
                assert(tail.take(m as int) =~= s@.subrange(i as int, i + m));
                assert(tail.skip(m as int) =~= s@.skip(i + m));
                assert(replace_spec(tail, pat@, rep@) == rep@ + replace_spec(
                    s@.skip(i + m),
                    pat@,
                    rep@,
                ));
                assert((out@ + rep@) + replace_spec(s@.skip(i + m), pat@, rep@) =~= out@ + (rep@
                    + replace_spec(s@.skip(i + m), pat@, rep@)));
            }
            out.append(rep);
            i = i + m;
        } else {
            proof {
                if m <= n - i {
                    assert(tail.take(m as int) =~= s@.subrange(i as int, i + m));
                }
                assert(seq![tail[0]] =~= s@.subrange(i as int, i + 1));
                assert(tail.skip(1) =~= s@.skip(i + 1));
                assert(replace_spec(tail, pat@, rep@) == seq![s@[i as int]] + replace_spec(
                    s@.skip(i + 1),
                    pat@,
                    rep@,
                ));
                assert((out@ + seq![s@[i as int]]) + replace_spec(s@.skip(i + 1), pat@, rep@) =~= out@
                    + (seq![s@[i as int]] + replace_spec(s@.skip(i + 1), pat@, rep@)));
            }
            let piece = s.substring_char(i, i + 1);
            out.append(piece);
            i = i + 1;
        }
    }
    proof {
        assert(s@.skip(n as int) =~= Seq::<char>::empty());
    }
    out
}

/// The first position at or after `start` where `c` occurs in `s`.
pub fn find_char_from(s: &str, c: char, start: usize) -> (r: Option<usize>)
    requires
        start <= s@.len(),
    ensures
        match r {
            Some(j) => start <= j < s@.len() && find_from(s@, c, start as int) == Some(j as int),
            None => find_from(s@, c, start as int) is None,
        },
{
    let n = s.unicode_len();
    let mut j: usize = start;
    while j < n
        invariant
            start <= j <= n,
            n == s@.len(),
            find_from(s@, c, start as int) == find_from(s@, c, j as int),
        decreases n - j,
    {
        if s.get_char(j) == c {
            return Some(j);
        }
        j = j + 1;
    }
    None
}

/// One lower-case hexadecimal digit as a string.
fn hex_digit_str(d: u8) -> (r: &'static str)
    requires
        d < 16,
    ensures
        r@ == seq![hex_char(d)],
{
    if d == 0 { proof { reveal_strlit("0"); assert("0"@ =~= seq![hex_char(d)]); } "0" }
    else if d == 1 { proof { reveal_strlit("1"); assert("1"@ =~= seq![hex_char(d)]); } "1" }
    else if d == 2 { proof { reveal_strlit("2"); assert("2"@ =~= seq![hex_char(d)]); } "2" }
    else if d == 3 { proof { reveal_strlit("3"); assert("3"@ =~= seq![hex_char(d)]); } "3" }
    else if d == 4 { proof { reveal_strlit("4"); assert("4"@ =~= seq![hex_char(d)]); } "4" }
    else if d == 5 { proof { reveal_strlit("5"); assert("5"@ =~= seq![hex_char(d)]); } "5" }
    else if d == 6 { proof { reveal_strlit("6"); assert("6"@ =~= seq![hex_char(d)]); } "6" }
    else if d == 7 { proof { reveal_strlit("7"); assert("7"@ =~= seq![hex_char(d)]); } "7" }
    else if d == 8 { proof { reveal_strlit("8"); assert("8"@ =~= seq![hex_char(d)]); } "8" }
    else if d == 9 { proof { reveal_strlit("9"); assert("9"@ =~= seq![hex_char(d)]); } "9" }
    else if d == 10 { proof { reveal_strlit("a"); assert("a"@ =~= seq![hex_char(d)]); } "a" }
    else if d == 11 { proof { reveal_strlit("b"); assert("b"@ =~= seq![hex_char(d)]); } "b" }
    else if d == 12 { proof { reveal_strlit("c"); assert("c"@ =~= seq![hex_char(d)]); } "c" }
    else if d == 13 { proof { reveal_strlit("d"); assert("d"@ =~= seq![hex_char(d)]); } "d" }
    else if d == 14 { proof { reveal_strlit("e"); assert("e"@ =~= seq![hex_char(d)]); } "e" }
    else { proof { reveal_strlit("f"); assert("f"@ =~= seq![hex_char(d)]); } "f" }
}

/// Renders a byte string in lower-case hexadecimal.
pub fn bytes_to_hex(bytes: &[u8]) -> (r: String)
    ensures
        r@ == hex_of(bytes@),
{
    let n = bytes.len();
    let mut out = String::new();
    let mut i: usize = 0;
    proof {
        assert(bytes@.skip(0) =~= bytes@);
        assert(out@ + hex_of(bytes@) =~= hex_of(bytes@));
    }
    while i < n
        invariant
            i <= n,
            n == bytes@.len(),
            out@ + hex_of(bytes@.skip(i as int)) == hex_of(bytes@),
        decreases n - i,
    {
        let b = bytes[i];
        let hi = b / 16;
        let lo = b % 16;
        out.append(hex_digit_str(hi));
        out.append(hex_digit_str(lo));
        proof {
            let tail = bytes@.skip(i as int);
            assert(tail[0] == bytes@[i as int]);
            assert(tail.drop_first() =~= bytes@.skip(i + 1));
            assert(hex_of(tail) == hex_pair(bytes@[i as int]) + hex_of(bytes@.skip(i + 1)));
            assert(((out@ + seq![hex_char(b / 16)]) + seq![hex_char(b % 16)]) + hex_of(
                bytes@.skip(i + 1),
            ) =~= out@ + (hex_pair(bytes@[i as int]) + hex_of(bytes@.skip(i + 1))));
        }
        i = i + 1;
    }
    proof {
        assert(bytes@.skip(n as int) =~= Seq::<u8>::empty());
    }
    out
}

/// Hexadecimal rendering yields two characters per byte.
pub proof fn lemma_hex_of_len(bytes: Seq<u8>)
    ensures
        hex_of(bytes).len() == 2 * bytes.len(),
    decreases bytes.len(),
{
    if bytes.len() > 0 {
        lemma_hex_of_len(bytes.drop_first());
    }
}

/// Renders a number in decimal.
pub fn u64_to_dec(n: u64) -> (r: String)
    ensures
        r@ == dec_of(n as nat),
{
    let mut acc = String::new();
    let mut m: u64 = n;
    loop
        invariant_except_break
            dec_of(n as nat) == dec_of(m as nat) + acc@,
        ensures
            acc@ == dec_of(n as nat),
        decreases m,
    {
        let d = (m % 10) as u8;
        let ds = hex_digit_str(d);
        let ghost old_acc = acc@;
        acc = String::from_str(ds).concat(acc.as_str());
        proof {
            if m >= 10 {
                assert(dec_of(m as nat) == dec_of((m as nat) / 10) + seq![hex_char(d)]);
                assert((dec_of((m as nat) / 10) + seq![hex_char(d)]) + old_acc =~= dec_of(
                    (m as nat) / 10,
                ) + (seq![hex_char(d)] + old_acc));
                assert((m / 10) as nat == (m as nat) / 10);
            } else {
                assert(dec_of(m as nat) == seq![hex_char(d)]);
            }
        }
        m = m / 10;
        if m == 0 {
            break;
        }
    }
    acc
}

/// The escape of one character inside a JSON string: a control character
/// becomes its `\u00..` form, a double quote and a backslash are preceded by
/// a backslash, and every other character stands for itself.
pub open spec fn esc_char(c: char) -> Seq<char> {
    if (c as u32) < 32 {
        seq![
            '\\',
            'u',
            '0',
            '0',
            hex_char(((c as u32) / 16) as u8),
            hex_char(((c as u32) % 16) as u8),
        ]
    } else if c == '"' {
        seq!['\\', '"']
    } else if c == '\\' {
        seq!['\\', '\\']
    } else {
        seq![c]
    }
}

/// A string with every character escaped as JSON demands, so that it can
/// stand between double quotes in rendered output.
pub open spec fn json_escaped(s: Seq<char>) -> Seq<char>
    decreases s.len(),
{
    if s.len() == 0 {
        Seq::empty()
    } else {
        esc_char(s[0]) + json_escaped(s.drop_first())
    }
}

/// The `\u00..` form of one control character.
fn control_escape(c: char) -> (r: &'static str)
    requires
        (c as u32) < 32,
    ensures
        r@ == esc_char(c),
{
    let code = c as u32;
    if code == 0 {
        proof {
            reveal_strlit("\\u0000");
            assert("\\u0000"@ =~= esc_char(c));
        }
        "\\u0000"
    } else if code == 1 {
        proof {
            reveal_strlit("\\u0001");
            assert("\\u0001"@ =~= esc_char(c));
        }
        "\\u0001"
    } else if code == 2 {
        proof {
            reveal_strlit("\\u0002");
            assert("\\u0002"@ =~= esc_char(c));
        }
        "\\u0002"
    } else if code == 3 {
        proof {
            reveal_strlit("\\u0003");
            assert("\\u0003"@ =~= esc_char(c));
        }
        "\\u0003"
    } else if code == 4 {
        proof {
            reveal_strlit("\\u0004");
            assert("\\u0004"@ =~= esc_char(c));
        }
        "\\u0004"
    } else if code == 5 {
        proof {
            reveal_strlit("\\u0005");
            assert("\\u0005"@ =~= esc_char(c));
        }
        "\\u0005"
    } else if code == 6 {
        proof {
            reveal_strlit("\\u0006");
            assert("\\u0006"@ =~= esc_char(c));
        }
        "\\u0006"
    } else if code == 7 {
        proof {
            reveal_strlit("\\u0007");
            assert("\\u0007"@ =~= esc_char(c));
        }
        "\\u0007"
    } else if code == 8 {
        proof {
            reveal_strlit("\\u0008");
            assert("\\u0008"@ =~= esc_char(c));
        }
        "\\u0008"
    } else if code == 9 {
        proof {
            reveal_strlit("\\u0009");
            assert("\\u0009"@ =~= esc_char(c));
        }
        "\\u0009"
    } else if code == 10 {
        proof {
            reveal_strlit("\\u000a");
            assert("\\u000a"@ =~= esc_char(c));
        }
        "\\u000a"
    } else if code == 11 {
        proof {
            reveal_strlit("\\u000b");
            assert("\\u000b"@ =~= esc_char(c));
        }
        "\\u000b"
    } else if code == 12 {
        proof {
            reveal_strlit("\\u000c");
            assert("\\u000c"@ =~= esc_char(c));
        }
        "\\u000c"
    } else if code == 13 {
        proof {
            reveal_strlit("\\u000d");
            assert("\\u000d"@ =~= esc_char(c));
        }
        "\\u000d"
    } else if code == 14 {
        proof {
            reveal_strlit("\\u000e");
            assert("\\u000e"@ =~= esc_char(c));
        }
        "\\u000e"
    } else if code == 15 {
        proof {
            reveal_strlit("\\u000f");
            assert("\\u000f"@ =~= esc_char(c));
        }
        "\\u000f"
    } else if code == 16 {
        proof {
            reveal_strlit("\\u0010");
            assert("\\u0010"@ =~= esc_char(c));
        }
        "\\u0010"
    } else if code == 17 {
        proof {
            reveal_strlit("\\u0011");
            assert("\\u0011"@ =~= esc_char(c));
        }
        "\\u0011"
    } else if code == 18 {
        proof {
            reveal_strlit("\\u0012");
            assert("\\u0012"@ =~= esc_char(c));
        }
        "\\u0012"
    } else if code == 19 {
        proof {
            reveal_strlit("\\u0013");
            assert("\\u0013"@ =~= esc_char(c));
        }
        "\\u0013"
    } else if code == 20 {
        proof {
            reveal_strlit("\\u0014");
            assert("\\u0014"@ =~= esc_char(c));
        }
        "\\u0014"
    } else if code == 21 {
        proof {
            reveal_strlit("\\u0015");
            assert("\\u0015"@ =~= esc_char(c));
        }
        "\\u0015"
    } else if code == 22 {
        proof {
            reveal_strlit("\\u0016");
            assert("\\u0016"@ =~= esc_char(c));
        }
        "\\u0016"
    } else if code == 23 {
        proof {
            reveal_strlit("\\u0017");
            assert("\\u0017"@ =~= esc_char(c));
        }
        "\\u0017"
    } else if code == 24 {
        proof {
            reveal_strlit("\\u0018");
            assert("\\u0018"@ =~= esc_char(c));
        }
        "\\u0018"
    } else if code == 25 {
        proof {
            reveal_strlit("\\u0019");
            assert("\\u0019"@ =~= esc_char(c));
        }
        "\\u0019"
    } else if code == 26 {
        proof {
            reveal_strlit("\\u001a");
            assert("\\u001a"@ =~= esc_char(c));
        }
        "\\u001a"
    } else if code == 27 {
        proof {
            reveal_strlit("\\u001b");
            assert("\\u001b"@ =~= esc_char(c));
        }
        "\\u001b"
    } else if code == 28 {
        proof {
            reveal_strlit("\\u001c");
            assert("\\u001c"@ =~= esc_char(c));
        }
        "\\u001c"
    } else if code == 29 {
        proof {
            reveal_strlit("\\u001d");
            assert("\\u001d"@ =~= esc_char(c));
        }
        "\\u001d"
    } else if code == 30 {
        proof {
            reveal_strlit("\\u001e");
            assert("\\u001e"@ =~= esc_char(c));
        }
        "\\u001e"
    } else {
        proof {
            reveal_strlit("\\u001f");
            assert("\\u001f"@ =~= esc_char(c));
        }
        "\\u001f"
    }
}

/// A string escaped and wrapped in double quotes.
pub open spec fn json_quoted(s: Seq<char>) -> Seq<char> {
    seq!['"'] + json_escaped(s) + seq!['"']
}

/// Escapes every character as JSON demands.
pub fn escape_json(s: &str) -> (r: String)
    ensures
        r@ == json_escaped(s@),
{
    let n = s.unicode_len();
    let mut out = String::new();
    let mut i: usize = 0;
    proof {
        assert(s@.skip(0) =~= s@);
        assert(out@ + json_escaped(s@) =~= json_escaped(s@));
    }
    while i < n
        invariant
            i <= n,
            n == s@.len(),
            out@ + json_escaped(s@.skip(i as int)) == json_escaped(s@),
        decreases n - i,
    {
        let ghost tail = s@.skip(i as int);
        let ghost pre = out@;
        proof {
            assert(tail[0] == s@[i as int]);
            assert(tail.drop_first() =~= s@.skip(i + 1));
        }
        let c = s.get_char(i);
        let code = c as u32;
        if code < 32 {
            out.append(control_escape(c));
        } else if c == '"' {
            proof {
                reveal_strlit("\\\"");
                assert("\\\""@ =~= esc_char(c));
            }
            out.append("\\\"");
        } else if c == '\\' {
            proof {
                reveal_strlit("\\\\");
                assert("\\\\"@ =~= esc_char(c));
            }
            out.append("\\\\");
        } else {
            let piece = s.substring_char(i, i + 1);
            proof {
                assert(piece@ =~= seq![s@[i as int]]);
                assert(piece@ =~= esc_char(c));
            }
            out.append(piece);
        }
        proof {
            assert(out@ =~= pre + esc_char(s@[i as int]));
            assert(json_escaped(tail) == esc_char(s@[i as int]) + json_escaped(s@.skip(i + 1)));
            assert((pre + esc_char(s@[i as int])) + json_escaped(s@.skip(i + 1)) =~= pre + (
            esc_char(s@[i as int]) + json_escaped(s@.skip(i + 1))));
        }
        i = i + 1;
    }
    proof {
        assert(s@.skip(n as int) =~= Seq::<char>::empty());
    }
    out
}

/// Escapes a string and wraps it in double quotes.
pub fn quote_json(s: &str) -> (r: String)
    ensures
        r@ == json_quoted(s@),
{
    let mut out = String::from_str("\"");
    let esc = escape_json(s);
    out.append(esc.as_str());
    out.append("\"");
    proof {
        reveal_strlit("\"");
        assert("\""@ =~= seq!['"']);
        assert((seq!['"'] + json_escaped(s@)) + seq!['"'] =~= json_quoted(s@));
    }
    out
}

} // verus!
