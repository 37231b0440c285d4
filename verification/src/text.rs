//! Character-level text helpers: whitespace trimming, prefixes, equality and
//! number formatting, each stated over the character sequence of a string.
use vstd::prelude::*;

verus! {

/// Unicode `White_Space`, the set that `char::is_whitespace` tests.
pub open spec fn is_whitespace_spec(c: char) -> bool {
    let u = c as u32;
    ||| 0x09 <= u <= 0x0d
    ||| u == 0x20
    ||| u == 0x85
    ||| u == 0xa0
    ||| u == 0x1680
    ||| 0x2000 <= u <= 0x200a
    ||| u == 0x2028
    ||| u == 0x2029
    ||| u == 0x202f
    ||| u == 0x205f
    ||| u == 0x3000
}

/// `s` without its leading whitespace.
pub open spec fn trim_start_spec(s: Seq<char>) -> Seq<char>
    decreases s.len(),
{
    if s.len() > 0 && is_whitespace_spec(s[0]) {
        trim_start_spec(s.drop_first())
    } else {
        s
    }
}

/// `s` without its trailing whitespace.
pub open spec fn trim_end_spec(s: Seq<char>) -> Seq<char>
    decreases s.len(),
{
    if s.len() > 0 && is_whitespace_spec(s.last()) {
        trim_end_spec(s.drop_last())
    } else {
        s
    }
}

/// `s` without its leading and trailing whitespace (`str::trim`).
pub open spec fn trim_spec(s: Seq<char>) -> Seq<char> {
    trim_end_spec(trim_start_spec(s))
}

/// `prefix` is an initial segment of `s`.
pub open spec fn has_prefix_spec(s: Seq<char>, prefix: Seq<char>) -> bool {
    prefix.len() <= s.len() && s.subrange(0, prefix.len() as int) == prefix
}

/// The digit that stands for `d` (`0`-`9`, then `a`-`f`).
pub open spec fn digit_char(d: nat) -> char {
    if d < 10 {
        (d + 48) as char
    } else {
        (d + 87) as char
    }
}

/// The digits of `n` in base `radix`, most significant first, with no leading
/// zeros (`0` is written `"0"`).
pub open spec fn radix_string(n: nat, radix: nat) -> Seq<char>
    decreases n,
{
    if radix < 2 || n < radix {
        seq![digit_char(n)]
    } else {
        proof {
            assert(n / radix < n) by (nonlinear_arith)
                requires
                    radix >= 2,
                    n >= radix,
            ;
        }
        radix_string(n / radix, radix).push(digit_char(n % radix))
    }
}

/// `n` in decimal, as `format!("{}", n)` writes it.
pub open spec fn decimal_spec(n: nat) -> Seq<char> {
    radix_string(n, 10)
}

/// `n` in lower-case hexadecimal, as `format!("{:x}", n)` writes it.
pub open spec fn lower_hex_spec(n: nat) -> Seq<char> {
    radix_string(n, 16)
}

/// Whether `c` is whitespace (`char::is_whitespace`).
pub fn is_whitespace(c: char) -> (b: bool)
    ensures
        b == is_whitespace_spec(c),
{
    let u = c as u32;
    (0x09 <= u && u <= 0x0d) || u == 0x20 || u == 0x85 || u == 0xa0 || u == 0x1680 || (0x2000 <= u
        && u <= 0x200a) || u == 0x2028 || u == 0x2029 || u == 0x202f || u == 0x205f || u == 0x3000
}

/// The characters of `s`, in order.
pub fn chars_of(s: &str) -> (v: Vec<char>)
    ensures
        v@ == s@,
{
    let mut v: Vec<char> = Vec::new();
    for c in it: s.chars()
        invariant
            v@ == it.seq().take(it.index()),
            it.seq() == s@,
    {
        v.push(c);
    }
    v
}

/// Appends `c` to `s`.
///
/// Trusted: calls `String::push`, whose documentation says that it appends the
/// given `char` to the end of the string.
#[verifier::external_body]
pub(crate) fn push_char(s: &mut String, c: char)
    ensures
        final(s)@ == old(s)@.push(c),
{
    s.push(c);
}

/// Whether `a` and `b` hold the same characters.
pub fn text_eq(a: &str, b: &str) -> (r: bool)
    ensures
        r == (a@ == b@),
{
    let va = chars_of(a);
    let vb = chars_of(b);
    if va.len() != vb.len() {
        return false;
    }
    let n = va.len();
    for i in 0..n
        invariant
            n == va@.len(),
            n == vb@.len(),
            va@ == a@,
            vb@ == b@,
            forall|k: int| 0 <= k < i ==> va@[k] == vb@[k],
    {
        if va[i] != vb[i] {
            assert(va@[i as int] != vb@[i as int]);
            return false;
        }
    }
    assert(va@ =~= vb@);
    true
}

/// Whether the characters `s` begin with those of `prefix`.
pub fn has_prefix(s: &[char], prefix: &str) -> (r: bool)
    ensures
        r == has_prefix_spec(s@, prefix@),
{
    let p = chars_of(prefix);
    if p.len() > s.len() {
        return false;
    }
    let n = p.len();
    for i in 0..n
        invariant
            n == p@.len(),
            n <= s@.len(),
            p@ == prefix@,
            forall|k: int| 0 <= k < i ==> s@[k] == p@[k],
    {
        if s[i] != p[i] {
            assert(s@.subrange(0, n as int)[i as int] == s@[i as int]);
            assert(s@.subrange(0, n as int) != prefix@);
            return false;
        }
    }
    assert(s@.subrange(0, n as int) =~= p@);
    true
}

proof fn lemma_trim_start_skip(s: Seq<char>, i: int)
    requires
        0 <= i < s.len(),
        is_whitespace_spec(s[i]),
    ensures
        trim_start_spec(s.subrange(i, s.len() as int)) == trim_start_spec(
            s.subrange(i + 1, s.len() as int),
        ),
{
    assert(s.subrange(i, s.len() as int).drop_first() =~= s.subrange(i + 1, s.len() as int));
}

proof fn lemma_trim_end_skip(s: Seq<char>, j: int)
    requires
        0 < j <= s.len(),
        is_whitespace_spec(s[j - 1]),
    ensures
        trim_end_spec(s.subrange(0, j)) == trim_end_spec(s.subrange(0, j - 1)),
{
    assert(s.subrange(0, j).drop_last() =~= s.subrange(0, j - 1));
}

/// The index of the first character of `v` that is not whitespace, or
/// `v.len()` if there is none.
fn skip_leading(v: &Vec<char>) -> (i: usize)
    ensures
        i <= v@.len(),
        trim_start_spec(v@) == v@.subrange(i as int, v@.len() as int),
{
    let n = v.len();
    let mut i: usize = 0;
    assert(v@.subrange(0, n as int) =~= v@);
    while i < n && is_whitespace(v[i])
        invariant
            n == v@.len(),
            i <= n,
            trim_start_spec(v@) == trim_start_spec(v@.subrange(i as int, n as int)),
        decreases n - i,
    {
        proof {
            lemma_trim_start_skip(v@, i as int);
        }
        i = i + 1;
    }
    i
}

/// The characters of `s` without leading and trailing whitespace.
pub fn trim(s: &str) -> (r: String)
    ensures
        r@ == trim_spec(s@),
{
    let v = chars_of(s);
    let n = v.len();
    let i = skip_leading(&v);
    let ghost t = v@.subrange(i as int, n as int);
    let mut j: usize = n;
    assert(t.subrange(0, (n - i) as int) =~= t);
    while j > i && is_whitespace(v[j - 1])
        invariant
            n == v@.len(),
            i <= j <= n,
            t == v@.subrange(i as int, n as int),
            trim_end_spec(t) == trim_end_spec(t.subrange(0, (j - i) as int)),
        decreases j,
    {
        proof {
            lemma_trim_end_skip(t, (j - i) as int);
        }
        j = j - 1;
    }
    assert(v@.subrange(i as int, j as int) =~= t.subrange(0, (j - i) as int));
    let sub = s.substring_char(i, j);
    sub.to_owned()
}

proof fn lemma_trim_start_props(s: Seq<char>)
    ensures
        trim_start_spec(s).len() <= s.len(),
        trim_start_spec(s) == s.subrange(s.len() - trim_start_spec(s).len(), s.len() as int),
        trim_start_spec(s).len() == 0 || !is_whitespace_spec(trim_start_spec(s)[0]),
    decreases s.len(),
{
    if s.len() > 0 && is_whitespace_spec(s[0]) {
        lemma_trim_start_props(s.drop_first());
        let t = trim_start_spec(s.drop_first());
        assert(s.drop_first().subrange(s.drop_first().len() - t.len(), s.drop_first().len() as int)
            =~= s.subrange(s.len() - t.len(), s.len() as int));
    } else {
        assert(s.subrange(0, s.len() as int) =~= s);
    }
}

proof fn lemma_trim_end_props(s: Seq<char>)
    ensures
        trim_end_spec(s).len() <= s.len(),
        trim_end_spec(s) == s.subrange(0, trim_end_spec(s).len() as int),
        trim_end_spec(s).len() == 0 || !is_whitespace_spec(trim_end_spec(s).last()),
    decreases s.len(),
{
    if s.len() > 0 && is_whitespace_spec(s.last()) {
        lemma_trim_end_props(s.drop_last());
        let t = trim_end_spec(s.drop_last());
        assert(s.drop_last().subrange(0, t.len() as int) =~= s.subrange(0, t.len() as int));
    } else {
        assert(s.subrange(0, s.len() as int) =~= s);
    }
}

/// The trimmed text neither begins nor ends with whitespace, and it is a
/// stretch of the original text.
pub proof fn lemma_trim_shape(s: Seq<char>)
    ensures
        trim_spec(s).len() == 0 || (!is_whitespace_spec(trim_spec(s)[0]) && !is_whitespace_spec(
            trim_spec(s).last(),
        )),
        exists|a: int|
            0 <= a && a + trim_spec(s).len() <= s.len() && #[trigger] s.subrange(
                a,
                a + trim_spec(s).len(),
            ) == trim_spec(s),
{
    let t = trim_start_spec(s);
    lemma_trim_start_props(s);
    lemma_trim_end_props(t);
    let u = trim_end_spec(t);
    if u.len() > 0 {
        assert(u[0] == t[0]);
    }
    let a = s.len() - t.len();
    assert(s.subrange(a, a + u.len()) =~= u);
}

/// Trimming a trimmed text changes nothing.
pub proof fn lemma_trim_idempotent(s: Seq<char>)
    ensures
        trim_spec(trim_spec(s)) == trim_spec(s),
{
    let u = trim_spec(s);
    lemma_trim_shape(s);
    if u.len() > 0 {
        assert(trim_start_spec(u) == u);
        assert(trim_end_spec(u) == u);
    } else {
        assert(trim_start_spec(u) == u);
    }
}

proof fn lemma_digit_char_injective(a: nat, b: nat)
    requires
        a < 16,
        b < 16,
        digit_char(a) == digit_char(b),
    ensures
        a == b,
{
    let ca = if a < 10 { a + 48 } else { a + 87 };
    let cb = if b < 10 { b + 48 } else { b + 87 };
    assert((ca as char) as u32 == ca);
    assert((cb as char) as u32 == cb);
}

pub proof fn lemma_radix_len(n: nat, radix: nat)
    requires
        2 <= radix <= 16,
    ensures
        radix_string(n, radix).len() >= 1,
        n >= radix ==> radix_string(n, radix).len() >= 2,
    decreases n,
{
    if n >= radix {
        assert(n / radix < n) by (nonlinear_arith)
            requires
                radix >= 2,
                n >= radix,
        ;
        lemma_radix_len(n / radix, radix);
    }
}

/// Different numbers are written differently.
pub proof fn lemma_radix_injective(a: nat, b: nat, radix: nat)
    requires
        2 <= radix <= 16,
        radix_string(a, radix) == radix_string(b, radix),
    ensures
        a == b,
    decreases a,
{
    lemma_radix_len(a, radix);
    lemma_radix_len(b, radix);
    let sa = radix_string(a, radix);
    if a < radix && b < radix {
        assert(sa[0] == digit_char(a));
        lemma_digit_char_injective(a, b);
    } else if a >= radix && b >= radix {
        assert(a / radix < a) by (nonlinear_arith)
            requires
                radix >= 2,
                a >= radix,
        ;
        assert(a % radix < radix && b % radix < radix) by (nonlinear_arith)
            requires
                radix >= 2,
        ;
        let pa = radix_string(a / radix, radix);
        let pb = radix_string(b / radix, radix);
        assert(sa.last() == digit_char(a % radix));
        assert(sa == pb.push(digit_char(b % radix)));
        lemma_digit_char_injective(a % radix, b % radix);
        assert(pa =~= sa.drop_last());
        assert(pb =~= sa.drop_last());
        lemma_radix_injective(a / radix, b / radix, radix);
        assert(a == radix * (a / radix) + a % radix) by (nonlinear_arith)
            requires
                radix >= 2,
        ;
        assert(b == radix * (b / radix) + b % radix) by (nonlinear_arith)
            requires
                radix >= 2,
        ;
    } else if a < radix {
        assert(radix_string(b, radix).len() >= 2);
    } else {
        assert(radix_string(a, radix).len() >= 2);
    }
}

/// A text made only of whitespace.
pub open spec fn all_whitespace(w: Seq<char>) -> bool {
    forall|i: int| 0 <= i < w.len() ==> is_whitespace_spec(#[trigger] w[i])
}

proof fn lemma_trim_start_append(b: Seq<char>, w: Seq<char>)
    requires
        all_whitespace(w),
    ensures
        trim_start_spec(b + w) == (if trim_start_spec(b).len() > 0 {
            trim_start_spec(b) + w
        } else {
            Seq::<char>::empty()
        }),
    decreases b.len() + w.len(),
{
    if b.len() > 0 {
        assert((b + w)[0] == b[0]);
        if is_whitespace_spec(b[0]) {
            assert((b + w).drop_first() =~= b.drop_first() + w);
            lemma_trim_start_append(b.drop_first(), w);
        }
    } else {
        assert(b + w =~= w);
        if w.len() > 0 {
            assert(is_whitespace_spec(w[0]));
            assert(all_whitespace(w.drop_first()));
            lemma_trim_start_append(b, w.drop_first());
            assert(b + w.drop_first() =~= w.drop_first());
        }
    }
}

proof fn lemma_trim_end_append(y: Seq<char>, w: Seq<char>)
    requires
        all_whitespace(w),
    ensures
        trim_end_spec(y + w) == trim_end_spec(y),
    decreases w.len(),
{
    if w.len() > 0 {
        assert((y + w).last() == w.last());
        assert(is_whitespace_spec(w[w.len() - 1]));
        assert((y + w).drop_last() =~= y + w.drop_last());
        assert(all_whitespace(w.drop_last()));
        lemma_trim_end_append(y, w.drop_last());
    } else {
        assert(y + w =~= y);
    }
}

proof fn lemma_trim_end_keeps(s: Seq<char>, k: int)
    requires
        0 <= k < s.len(),
        !is_whitespace_spec(s[k]),
    ensures
        trim_end_spec(s).len() > k,
    decreases s.len(),
{
    if s.len() > 0 && is_whitespace_spec(s.last()) {
        assert(k < s.len() - 1);
        assert(s.drop_last()[k] == s[k]);
        lemma_trim_end_keeps(s.drop_last(), k);
    }
}

/// A text that, after leading whitespace, begins with `p` (whose first and
/// last characters are not whitespace) still begins with `p` once trimmed,
/// whatever follows `p`.
pub proof fn lemma_trim_keeps_prefix(w: Seq<char>, p: Seq<char>, rest: Seq<char>)
    requires
        all_whitespace(w),
        p.len() > 0,
        !is_whitespace_spec(p[0]),
        !is_whitespace_spec(p.last()),
    ensures
        has_prefix_spec(trim_spec(w + p + rest), p),
{
    let s = p + rest;
    assert(w + p + rest =~= w + s);
    lemma_trim_start_prepend_ws(w, s);
    assert(s[0] == p[0]);
    assert(trim_start_spec(s) == s);
    lemma_trim_end_props(s);
    assert(s[p.len() - 1] == p.last());
    lemma_trim_end_keeps(s, p.len() - 1);
    let t = trim_end_spec(s);
    assert(t.subrange(0, p.len() as int) =~= p) by {
        assert forall|i: int| 0 <= i < p.len() implies t.subrange(0, p.len() as int)[i] == p[i] by {
            assert(t[i] == s.subrange(0, t.len() as int)[i]);
        }
    }
}

/// Whitespace added before or after a text does not change its trimmed form.
pub proof fn lemma_trim_surrounding(w1: Seq<char>, body: Seq<char>, w2: Seq<char>)
    requires
        all_whitespace(w1),
        all_whitespace(w2),
    ensures
        trim_spec(w1 + body + w2) == trim_spec(body),
{
    assert(w1 + body + w2 =~= w1 + (body + w2));
    lemma_trim_start_prepend_ws(w1, body + w2);
    lemma_trim_start_append(body, w2);
    if trim_start_spec(body).len() > 0 {
        lemma_trim_end_append(trim_start_spec(body), w2);
    } else {
        assert(trim_end_spec(Seq::<char>::empty()) == Seq::<char>::empty());
    }
}

proof fn lemma_trim_start_prepend_ws(w: Seq<char>, x: Seq<char>)
    requires
        all_whitespace(w),
    ensures
        trim_start_spec(w + x) == trim_start_spec(x),
    decreases w.len(),
{
    if w.len() > 0 {
        assert((w + x)[0] == w[0]);
        assert(is_whitespace_spec(w[0]));
        assert((w + x).drop_first() =~= w.drop_first() + x);
        assert(all_whitespace(w.drop_first()));
        lemma_trim_start_prepend_ws(w.drop_first(), x);
    } else {
        assert(w + x =~= x);
    }
}

/// Appends the digits of `n` in base `radix` to `out`.
fn write_radix(n: u128, radix: u128, out: &mut String)
    requires
        2 <= radix <= 16,
    ensures
        final(out)@ == old(out)@ + radix_string(n as nat, radix as nat),
    decreases n,
{
    if n >= radix {
        assert(n / radix < n) by (nonlinear_arith)
            requires
                radix >= 2,
                n >= radix,
        ;
        write_radix(n / radix, radix, out);
    } else {
        assert(n % radix == n) by (nonlinear_arith)
            requires
                n < radix,
        ;
    }
    let d = n % radix;
    let c = if d < 10 {
        ((d as u8) + 48) as char
    } else {
        ((d as u8) + 87) as char
    };
    assert(c == digit_char(d as nat));
    push_char(out, c);
    assert(out@ =~= old(out)@ + radix_string(n as nat, radix as nat));
}

/// `n` written in decimal.
pub fn format_decimal(n: u64) -> (r: String)
    ensures
        r@ == decimal_spec(n as nat),
{
    let mut out = String::new();
    write_radix(n as u128, 10, &mut out);
    assert(out@ =~= decimal_spec(n as nat));
    out
}

/// Appends `n`, written in decimal, to `out`.
pub(crate) fn append_decimal(n: u128, out: &mut String)
    ensures
        final(out)@ == old(out)@ + decimal_spec(n as nat),
{
    write_radix(n, 10, out);
}

/// `n` written in lower-case hexadecimal.
pub fn format_lower_hex(n: u64) -> (r: String)
    ensures
        r@ == lower_hex_spec(n as nat),
{
    let mut out = String::new();
    write_radix(n as u128, 16, &mut out);
    assert(out@ =~= lower_hex_spec(n as nat));
    out
}

} // verus!
