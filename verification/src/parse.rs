//! A verified parser and renderer for socket-address strings.
//!
//! Two forms are accepted. The dotted-quad form `a.b.c.d:p`: four runs of
//! one to three decimal digits joined by dots, a colon, and a run of one to
//! five decimal digits, octet values at most 255, port value at most 65535;
//! leading zeros are allowed, as in `01.2.3.4:007`. And the bracketed
//! version-6 form `[groups]:p`: colon-separated hexadecimal groups of one
//! to four digits, either eight of them or two shorter runs around one `::`
//! standing for the omitted zero groups. The parsing contracts are
//! deterministic and two-sided: the results equal [`spec_parse_v4`] and
//! [`spec_parse_v6`] of the input, which pin the parsed values on success
//! and certify the grammar violation on failure. [`format_v4_bytes`] and
//! [`format_v6_bytes`] render canonical forms (no leading zeros; version-6
//! groups written out in full), and rendering an address then parsing it
//! returns the same address ([`lemma_v4_render_parses`],
//! [`lemma_v6_render_parses`]).

use vstd::prelude::*;

verus! {

/// The byte `.` separating octets.
pub const DOT: u8 = 46;
/// The byte `:` separating the address from the port.
pub const COLON: u8 = 58;
/// The byte `[` opening a version-6 address.
pub const LBRACK: u8 = 91;
/// The byte `]` closing a version-6 address.
pub const RBRACK: u8 = 93;

/// True of an ASCII decimal digit.
pub open spec fn is_digit(b: u8) -> bool {
    48 <= b <= 57
}

/// The canonical decimal rendering of `n`: most significant digit first,
/// without leading zeros.
pub open spec fn spec_dec_repr(n: nat) -> Seq<u8>
    decreases n,
{
    if n < 10 {
        seq![(48 + n) as u8]
    } else {
        spec_dec_repr(n / 10).push((48 + n % 10) as u8)
    }
}

/// The number a digit string denotes, most significant digit first.
pub open spec fn spec_dec_value(s: Seq<u8>) -> nat
    decreases s.len(),
{
    if s.len() == 0 {
        0
    } else {
        spec_dec_value(s.drop_last()) * 10 + (s.last() - 48) as nat
    }
}

/// Powers of ten.
pub open spec fn pow10(k: nat) -> nat
    decreases k,
{
    if k == 0 {
        1
    } else {
        10 * pow10((k - 1) as nat)
    }
}

/// The end of the maximal digit run beginning at `i`: the first position at
/// or after `i` holding no digit.
pub open spec fn spec_run_end(s: Seq<u8>, i: int) -> int
    decreases s.len() - i,
{
    if i < 0 || i >= s.len() || !is_digit(s[i]) {
        i
    } else {
        spec_run_end(s, i + 1)
    }
}

/// The canonical rendering of a version-4 socket address.
pub open spec fn spec_v4_repr(a: u8, b: u8, c: u8, d: u8, p: u16) -> Seq<u8> {
    spec_dec_repr(a as nat) + seq![DOT] + spec_dec_repr(b as nat) + seq![DOT] + spec_dec_repr(
        c as nat,
    ) + seq![DOT] + spec_dec_repr(d as nat) + seq![COLON] + spec_dec_repr(p as nat)
}

/// The grammar and value of the dotted-quad form, deterministically: the
/// five digit runs are the maximal runs between the expected separators,
/// the port run must reach the end, the octet runs hold one to three
/// digits and the port run one to five, and the decimal values must fit an
/// octet or a port. `None` exactly when the bytes break one of these
/// rules.
pub open spec fn spec_parse_v4(s: Seq<u8>) -> Option<(u8, u8, u8, u8, u16)> {
    let e1 = spec_run_end(s, 0);
    let e2 = spec_run_end(s, e1 + 1);
    let e3 = spec_run_end(s, e2 + 1);
    let e4 = spec_run_end(s, e3 + 1);
    let e5 = spec_run_end(s, e4 + 1);
    if 0 < e1 && e1 <= 3 && e1 < s.len() && s[e1] == DOT && e1 + 1 < e2 && e2 - (e1 + 1) <= 3
        && e2 < s.len() && s[e2] == DOT && e2 + 1 < e3 && e3 - (e2 + 1) <= 3 && e3 < s.len()
        && s[e3] == DOT && e3 + 1 < e4 && e4 - (e3 + 1) <= 3 && e4 < s.len() && s[e4] == COLON
        && e4 + 1 < e5 && e5 - (e4 + 1) <= 5 && e5 == s.len() {
        let va = spec_dec_value(s.subrange(0, e1));
        let vb = spec_dec_value(s.subrange(e1 + 1, e2));
        let vc = spec_dec_value(s.subrange(e2 + 1, e3));
        let vd = spec_dec_value(s.subrange(e3 + 1, e4));
        let vp = spec_dec_value(s.subrange(e4 + 1, e5));
        if va <= 255 && vb <= 255 && vc <= 255 && vd <= 255 && vp <= 65535 {
            Some((va as u8, vb as u8, vc as u8, vd as u8, vp as u16))
        } else {
            None
        }
    } else {
        None
    }
}

/// The first digits of ten's powers, spelled out for the proofs below.
proof fn lemma_pow10_vals()
    ensures
        pow10(0) == 1,
        pow10(1) == 10,
        pow10(2) == 100,
        pow10(3) == 1000,
        pow10(4) == 10000,
        pow10(5) == 100000,
{
    assert(pow10(0) == 1);
    assert(pow10(1) == 10);
    assert(pow10(2) == 100);
    assert(pow10(3) == 1000);
    assert(pow10(4) == 10000);
    assert(pow10(5) == 100000);
}

/// Ten's powers grow monotonically.
proof fn lemma_pow10_mono(i: nat, j: nat)
    requires
        i <= j,
    ensures
        pow10(i) <= pow10(j),
    decreases j,
{
    if i < j {
        lemma_pow10_mono(i, (j - 1) as nat);
        assert(pow10(j) == 10 * pow10((j - 1) as nat));
    }
}

/// The canonical rendering is nonempty, all digits, free of leading zeros,
/// and denotes the number it renders.
proof fn lemma_dec_repr_props(n: nat)
    ensures
        spec_dec_repr(n).len() >= 1,
        forall|i: int|
            0 <= i < spec_dec_repr(n).len() ==> is_digit(#[trigger] spec_dec_repr(n)[i]),
        n >= 1 ==> spec_dec_repr(n)[0] != 48,
        n == 0 ==> spec_dec_repr(n) =~= seq![48u8],
        spec_dec_value(spec_dec_repr(n)) == n,
    decreases n,
{
    if n < 10 {
        let s = spec_dec_repr(n);
        assert(s =~= seq![(48 + n) as u8]);
        assert(s.drop_last() =~= Seq::<u8>::empty());
        assert(spec_dec_value(Seq::<u8>::empty()) == 0);
        assert(spec_dec_value(s) == 0 * 10 + ((48 + n) as u8 - 48) as nat);
    } else {
        lemma_dec_repr_props(n / 10);
        let t = spec_dec_repr(n / 10);
        let s = spec_dec_repr(n);
        assert(s == t.push((48 + n % 10) as u8));
        assert(s.drop_last() =~= t);
        assert(s.last() == (48 + n % 10) as u8);
        assert(spec_dec_value(s) == spec_dec_value(t) * 10 + (n % 10));
        assert((n / 10) * 10 + n % 10 == n) by (nonlinear_arith);
        assert(n / 10 >= 1);
        assert(s[0] == t[0]);
        assert(forall|i: int| 0 <= i < s.len() ==> is_digit(#[trigger] s[i]));
    }
}

/// A number below the `k`-th power of ten renders in at most `k` digits.
proof fn lemma_dec_repr_len(n: nat, k: nat)
    requires
        n < pow10(k),
        k >= 1,
    ensures
        spec_dec_repr(n).len() <= k,
    decreases k,
{
    if n < 10 {
        lemma_dec_repr_props(n);
    } else {
        assert(pow10(k) == 10 * pow10((k - 1) as nat));
        if k == 1 {
            assert(pow10(1) == 10);
            assert(false);
        }
        assert(n / 10 < pow10((k - 1) as nat)) by (nonlinear_arith)
            requires
                n < 10 * pow10((k - 1) as nat),
        ;
        lemma_dec_repr_len(n / 10, (k - 1) as nat);
    }
}

/// A digit string's value is bounded by ten's powers; without a leading
/// zero it is bounded below as well.
proof fn lemma_dec_value_bounds(s: Seq<u8>)
    requires
        forall|i: int| 0 <= i < s.len() ==> is_digit(#[trigger] s[i]),
    ensures
        spec_dec_value(s) < pow10(s.len() as nat),
        s.len() >= 1 && s[0] != 48 ==> spec_dec_value(s) >= pow10((s.len() - 1) as nat),
    decreases s.len(),
{
    if s.len() == 0 {
    } else {
        let t = s.drop_last();
        assert(forall|i: int| 0 <= i < t.len() ==> is_digit(#[trigger] t[i])) by {
            assert(forall|i: int| 0 <= i < t.len() ==> #[trigger] t[i] == s[i]);
        }
        lemma_dec_value_bounds(t);
        let d = (s.last() - 48) as nat;
        assert(is_digit(s.last()));
        assert(d <= 9);
        let v = spec_dec_value(t);
        assert(pow10(s.len() as nat) == 10 * pow10(t.len() as nat));
        assert(v * 10 + d < 10 * pow10(t.len() as nat)) by (nonlinear_arith)
            requires
                v < pow10(t.len() as nat),
                d <= 9,
        ;
        if s.len() >= 1 && s[0] != 48 {
            if t.len() == 0 {
                assert(spec_dec_value(s) == d);
                assert(s.last() == s[0]);
                assert(d >= 1);
            } else {
                assert(t[0] == s[0]);
                assert(v >= pow10((t.len() - 1) as nat));
                assert(v * 10 + d >= 10 * pow10((t.len() - 1) as nat)) by (nonlinear_arith)
                    requires
                        v >= pow10((t.len() - 1) as nat),
                ;
                assert(pow10((s.len() - 1) as nat) == 10 * pow10((t.len() - 1) as nat));
            }
        }
    }
}

/// The digit run from `i` ends exactly at the first position at or after
/// `i` that holds no digit.
proof fn lemma_run_end_at(s: Seq<u8>, i: int, e: int)
    requires
        0 <= i <= e <= s.len(),
        forall|j: int| i <= j < e ==> is_digit(#[trigger] s[j]),
        e == s.len() || !is_digit(s[e]),
    ensures
        spec_run_end(s, i) == e,
    decreases e - i,
{
    if i == e {
    } else {
        assert(is_digit(s[i]));
        lemma_run_end_at(s, i + 1, e);
    }
}

/// Shape of a canonical rendering: the component positions, separators and
/// digit runs are exactly where the concatenation puts them.
proof fn lemma_v4_shape(s: Seq<u8>, a: u8, b: u8, c: u8, d: u8, p: u16)
    requires
        s == spec_v4_repr(a, b, c, d, p),
    ensures
        ({
            let ra = spec_dec_repr(a as nat);
            let rb = spec_dec_repr(b as nat);
            let rc = spec_dec_repr(c as nat);
            let rd = spec_dec_repr(d as nat);
            let rp = spec_dec_repr(p as nat);
            let e1 = ra.len() as int;
            let e2 = e1 + 1 + rb.len();
            let e3 = e2 + 1 + rc.len();
            let e4 = e3 + 1 + rd.len();
            &&& s.len() == e4 + 1 + rp.len()
            &&& spec_run_end(s, 0) == e1
            &&& s[e1] == DOT
            &&& s.subrange(0, e1) == ra
            &&& spec_run_end(s, e1 + 1) == e2
            &&& s[e2] == DOT
            &&& s.subrange(e1 + 1, e2) == rb
            &&& spec_run_end(s, e2 + 1) == e3
            &&& s[e3] == DOT
            &&& s.subrange(e2 + 1, e3) == rc
            &&& spec_run_end(s, e3 + 1) == e4
            &&& s[e4] == COLON
            &&& s.subrange(e3 + 1, e4) == rd
            &&& spec_run_end(s, e4 + 1) == s.len()
            &&& s.subrange(e4 + 1, s.len() as int) == rp
        }),
{
    let ra = spec_dec_repr(a as nat);
    let rb = spec_dec_repr(b as nat);
    let rc = spec_dec_repr(c as nat);
    let rd = spec_dec_repr(d as nat);
    let rp = spec_dec_repr(p as nat);
    lemma_dec_repr_props(a as nat);
    lemma_dec_repr_props(b as nat);
    lemma_dec_repr_props(c as nat);
    lemma_dec_repr_props(d as nat);
    lemma_dec_repr_props(p as nat);
    let e1 = ra.len() as int;
    let e2 = e1 + 1 + rb.len();
    let e3 = e2 + 1 + rc.len();
    let e4 = e3 + 1 + rd.len();
    assert(s.len() == e4 + 1 + rp.len());
    assert(s.subrange(0, e1) =~= ra);
    assert(s[e1] == DOT);
    assert(s.subrange(e1 + 1, e2) =~= rb);
    assert(s[e2] == DOT);
    assert(s.subrange(e2 + 1, e3) =~= rc);
    assert(s[e3] == DOT);
    assert(s.subrange(e3 + 1, e4) =~= rd);
    assert(s[e4] == COLON);
    assert(s.subrange(e4 + 1, s.len() as int) =~= rp);
    assert(!is_digit(DOT));
    assert(!is_digit(COLON));
    assert(forall|j: int| 0 <= j < e1 ==> is_digit(#[trigger] s[j])) by {
        assert(forall|j: int| 0 <= j < e1 ==> s[j] == ra[j]);
    }
    lemma_run_end_at(s, 0, e1);
    assert(forall|j: int| e1 + 1 <= j < e2 ==> is_digit(#[trigger] s[j])) by {
        assert(forall|j: int| e1 + 1 <= j < e2 ==> s[j] == rb[j - (e1 + 1)]);
    }
    lemma_run_end_at(s, e1 + 1, e2);
    assert(forall|j: int| e2 + 1 <= j < e3 ==> is_digit(#[trigger] s[j])) by {
        assert(forall|j: int| e2 + 1 <= j < e3 ==> s[j] == rc[j - (e2 + 1)]);
    }
    lemma_run_end_at(s, e2 + 1, e3);
    assert(forall|j: int| e3 + 1 <= j < e4 ==> is_digit(#[trigger] s[j])) by {
        assert(forall|j: int| e3 + 1 <= j < e4 ==> s[j] == rd[j - (e3 + 1)]);
    }
    lemma_run_end_at(s, e3 + 1, e4);
    assert(forall|j: int| e4 + 1 <= j < s.len() ==> is_digit(#[trigger] s[j])) by {
        assert(forall|j: int| e4 + 1 <= j < s.len() ==> s[j] == rp[j - (e4 + 1)]);
    }
    lemma_run_end_at(s, e4 + 1, s.len() as int);
}

/// Law: rendering an address canonically and parsing the rendering returns
/// the same address — the renderer's output is in the parser's grammar and
/// denotes the rendered values.
pub proof fn lemma_v4_render_parses(a: u8, b: u8, c: u8, d: u8, p: u16)
    ensures
        spec_parse_v4(spec_v4_repr(a, b, c, d, p)) == Some((a, b, c, d, p)),
{
    let s = spec_v4_repr(a, b, c, d, p);
    lemma_v4_shape(s, a, b, c, d, p);
    lemma_dec_repr_props(a as nat);
    lemma_dec_repr_props(b as nat);
    lemma_dec_repr_props(c as nat);
    lemma_dec_repr_props(d as nat);
    lemma_dec_repr_props(p as nat);
    lemma_pow10_vals();
    lemma_dec_repr_len(a as nat, 3);
    lemma_dec_repr_len(b as nat, 3);
    lemma_dec_repr_len(c as nat, 3);
    lemma_dec_repr_len(d as nat, 3);
    lemma_dec_repr_len(p as nat, 5);
}

/// True of an ASCII decimal digit.
fn digit_byte(b: u8) -> (r: bool)
    ensures
        r == is_digit(b),
{
    48 <= b && b <= 57
}

/// Scans the maximal digit run beginning at `start`.
fn scan_run(bytes: &Vec<u8>, start: usize) -> (end: usize)
    requires
        start <= bytes@.len(),
    ensures
        start <= end <= bytes@.len(),
        end == spec_run_end(bytes@, start as int),
        forall|j: int| start <= j < end ==> is_digit(#[trigger] bytes@[j]),
{
    let mut j = start;
    while j < bytes.len() && digit_byte(bytes[j])
        invariant
            start <= j <= bytes@.len(),
            forall|t: int| start <= t < j ==> is_digit(#[trigger] bytes@[t]),
        decreases bytes@.len() - j,
    {
        j += 1;
    }
    proof {
        lemma_run_end_at(bytes@, start as int, j as int);
    }
    j
}

/// Reads the decimal value of the digit run `bytes[start..end]`, leading
/// zeros and all; refuses values above the port range.
fn parse_num(bytes: &Vec<u8>, start: usize, end: usize) -> (r: Option<u32>)
    requires
        start < end <= bytes@.len(),
        end - start <= 5,
        forall|j: int| start <= j < end ==> is_digit(#[trigger] bytes@[j]),
    ensures
        r is Some ==> r->Some_0 as nat == spec_dec_value(bytes@.subrange(start as int, end as int))
            && r->Some_0 <= 65535,
        r is None ==> spec_dec_value(bytes@.subrange(start as int, end as int)) > 65535,
{
    let ghost sub = bytes@.subrange(start as int, end as int);
    proof {
        lemma_pow10_vals();
    }
    let mut k = start;
    let mut acc: u32 = 0;
    while k < end
        invariant
            start <= k <= end,
            end <= bytes@.len(),
            end - start <= 5,
            forall|j: int| start <= j < end ==> is_digit(#[trigger] bytes@[j]),
            acc as nat == spec_dec_value(bytes@.subrange(start as int, k as int)),
            (acc as nat) < pow10((k - start) as nat),
            pow10(5) == 100000,
        decreases end - k,
    {
        let b = bytes[k];
        let ghost pre = bytes@.subrange(start as int, k as int);
        proof {
            assert(forall|t: int| 0 <= t < pre.len() ==> #[trigger] pre[t] == bytes@[start + t]);
            lemma_pow10_mono((k - start) as nat, 4);
            lemma_pow10_vals();
            assert(pow10((k + 1 - start) as nat) == 10 * pow10((k - start) as nat));
        }
        acc = acc * 10 + ((b - 48) as u32);
        k += 1;
        proof {
            let cur = bytes@.subrange(start as int, k as int);
            assert(cur.drop_last() =~= pre);
            assert(cur.last() == bytes@[k - 1]);
            assert(spec_dec_value(cur) == spec_dec_value(pre) * 10 + (b - 48) as nat);
        }
    }
    if acc > 65535 {
        return None;
    }
    Some(acc)
}


/// Parses the dotted-quad rendering `a.b.c.d:p`, leading zeros allowed.
///
/// The result is exactly [`spec_parse_v4`] of the input: the values of the
/// five digit runs when the bytes fit the grammar and ranges, `None`
/// otherwise.
pub fn parse_v4_bytes(bytes: &Vec<u8>) -> (r: Option<(u8, u8, u8, u8, u16)>)
    ensures
        r == spec_parse_v4(bytes@),
{
    let n = bytes.len();
    let e1 = scan_run(bytes, 0);
    if !(e1 > 0 && e1 <= 3 && e1 < n && bytes[e1] == DOT) {
        return None;
    }
    let s2 = e1 + 1;
    let e2 = scan_run(bytes, s2);
    if !(e2 > s2 && e2 - s2 <= 3 && e2 < n && bytes[e2] == DOT) {
        return None;
    }
    let s3 = e2 + 1;
    let e3 = scan_run(bytes, s3);
    if !(e3 > s3 && e3 - s3 <= 3 && e3 < n && bytes[e3] == DOT) {
        return None;
    }
    let s4 = e3 + 1;
    let e4 = scan_run(bytes, s4);
    if !(e4 > s4 && e4 - s4 <= 3 && e4 < n && bytes[e4] == COLON) {
        return None;
    }
    let s5 = e4 + 1;
    let e5 = scan_run(bytes, s5);
    if !(e5 > s5 && e5 - s5 <= 5 && e5 == n) {
        return None;
    }
    let va = match parse_num(bytes, 0, e1) {
        Some(v) => v,
        None => {
            return None;
        },
    };
    let vb = match parse_num(bytes, s2, e2) {
        Some(v) => v,
        None => {
            return None;
        },
    };
    let vc = match parse_num(bytes, s3, e3) {
        Some(v) => v,
        None => {
            return None;
        },
    };
    let vd = match parse_num(bytes, s4, e4) {
        Some(v) => v,
        None => {
            return None;
        },
    };
    let vp = match parse_num(bytes, s5, e5) {
        Some(v) => v,
        None => {
            return None;
        },
    };
    if va > 255 || vb > 255 || vc > 255 || vd > 255 {
        return None;
    }
    Some((va as u8, vb as u8, vc as u8, vd as u8, vp as u16))
}

/// Appends the canonical decimal rendering of `n`.
fn push_dec(out: &mut Vec<u8>, n: u32)
    requires
        old(out)@.len() + 10 <= usize::MAX,
    ensures
        final(out)@ == old(out)@ + spec_dec_repr(n as nat),
    decreases n,
{
    if n < 10 {
        out.push(48 + (n as u8));
        proof {
            assert(out@ =~= old(out)@ + spec_dec_repr(n as nat));
        }
    } else {
        push_dec(out, n / 10);
        out.push(48 + ((n % 10) as u8));
        proof {
            assert(spec_dec_repr(n as nat) == spec_dec_repr((n / 10) as nat).push(
                (48 + (n as nat) % 10) as u8,
            ));
            assert(out@ =~= old(out)@ + spec_dec_repr(n as nat));
        }
    }
}

/// Renders a version-4 socket address in its canonical dotted-quad form.
pub fn format_v4_bytes(a: u8, b: u8, c: u8, d: u8, p: u16) -> (r: Vec<u8>)
    ensures
        r@ == spec_v4_repr(a, b, c, d, p),
{
    let mut out: Vec<u8> = Vec::new();
    proof {
        lemma_dec_repr_props(a as nat);
        lemma_dec_repr_props(b as nat);
        lemma_dec_repr_props(c as nat);
        lemma_dec_repr_props(d as nat);
        lemma_dec_repr_props(p as nat);
        lemma_pow10_vals();
        lemma_dec_repr_len(a as nat, 3);
        lemma_dec_repr_len(b as nat, 3);
        lemma_dec_repr_len(c as nat, 3);
        lemma_dec_repr_len(d as nat, 3);
        lemma_dec_repr_len(p as nat, 5);
    }
    push_dec(&mut out, a as u32);
    out.push(DOT);
    push_dec(&mut out, b as u32);
    out.push(DOT);
    push_dec(&mut out, c as u32);
    out.push(DOT);
    push_dec(&mut out, d as u32);
    out.push(COLON);
    push_dec(&mut out, p as u32);
    proof {
        assert(out@ =~= spec_v4_repr(a, b, c, d, p));
    }
    out
}

/// True of an ASCII hexadecimal digit.
pub open spec fn is_hex_digit(b: u8) -> bool {
    (48 <= b <= 57) || (97 <= b <= 102) || (65 <= b <= 70)
}

/// The value of one hexadecimal digit.
pub open spec fn spec_hex_digit_val(b: u8) -> nat {
    if 48 <= b <= 57 {
        (b - 48) as nat
    } else if 97 <= b <= 102 {
        (b - 87) as nat
    } else {
        (b - 55) as nat
    }
}

/// The number a hex-digit string denotes, most significant digit first.
pub open spec fn spec_hex_value(s: Seq<u8>) -> nat
    decreases s.len(),
{
    if s.len() == 0 {
        0
    } else {
        spec_hex_value(s.drop_last()) * 16 + spec_hex_digit_val(s.last())
    }
}

/// Powers of sixteen.
pub open spec fn pow16(k: nat) -> nat
    decreases k,
{
    if k == 0 {
        1
    } else {
        16 * pow16((k - 1) as nat)
    }
}

/// The end of the maximal hex-digit run beginning at `i`.
pub open spec fn spec_hex_run_end(s: Seq<u8>, i: int) -> int
    decreases s.len() - i,
{
    if i < 0 || i >= s.len() || !is_hex_digit(s[i]) {
        i
    } else {
        spec_hex_run_end(s, i + 1)
    }
}

/// The first position at or after `i` holding `b`, or the length.
pub open spec fn spec_find_byte(s: Seq<u8>, b: u8, i: int) -> int
    decreases s.len() - i,
{
    if i < 0 || i >= s.len() {
        s.len() as int
    } else if s[i] == b {
        i
    } else {
        spec_find_byte(s, b, i + 1)
    }
}

/// The first position at or after `i` of two adjacent colons, or the
/// length.
pub open spec fn spec_find_dcolon(s: Seq<u8>, i: int) -> int
    decreases s.len() - i,
{
    if i < 0 || i + 1 >= s.len() {
        s.len() as int
    } else if s[i] == COLON && s[i + 1] == COLON {
        i
    } else {
        spec_find_dcolon(s, i + 1)
    }
}

/// The colon-separated hexadecimal groups of `s`: each group one to four
/// hex digits, every colon standing between two groups. `None` on an empty
/// or overlong group, a stray byte, or a dangling colon; the empty string
/// holds no groups.
pub open spec fn spec_hex_groups(s: Seq<u8>) -> Option<Seq<u16>>
    decreases s.len(),
{
    if s.len() == 0 {
        Some(Seq::empty())
    } else {
        let e = spec_hex_run_end(s, 0);
        if e < 1 || e > 4 {
            None
        } else if e == s.len() {
            Some(seq![spec_hex_value(s.subrange(0, e)) as u16])
        } else if s[e] == COLON && e + 1 < s.len() {
            match spec_hex_groups(s.subrange(e + 1, s.len() as int)) {
                Some(rest) => Some(seq![spec_hex_value(s.subrange(0, e)) as u16] + rest),
                None => None,
            }
        } else {
            None
        }
    }
}

/// The eight groups of a version-6 address body: either eight explicit
/// groups, or two shorter runs of groups around one `::` standing for the
/// omitted zero groups.
pub open spec fn spec_v6_groups(body: Seq<u8>) -> Option<Seq<u16>> {
    let m = spec_find_dcolon(body, 0);
    if m == body.len() {
        match spec_hex_groups(body) {
            Some(g) => if g.len() == 8 {
                Some(g)
            } else {
                None
            },
            None => None,
        }
    } else {
        let left = body.subrange(0, m);
        let right = body.subrange(m + 2, body.len() as int);
        match (spec_hex_groups(left), spec_hex_groups(right)) {
            (Some(l), Some(t)) => if l.len() + t.len() <= 7 {
                Some(l + Seq::new((8 - l.len() - t.len()) as nat, |i: int| 0u16) + t)
            } else {
                None
            },
            _ => None,
        }
    }
}

/// The bracketed version-6 socket-address form `[groups]:port`,
/// deterministically: the body runs to the first `]`, a colon and a run of
/// one to five decimal digits follow to the end, and the port value must
/// fit.
pub open spec fn spec_parse_v6(s: Seq<u8>) -> Option<(Seq<u16>, u16)> {
    if s.len() >= 1 && s[0] == LBRACK {
        let jb = spec_find_byte(s, RBRACK, 1);
        let e = spec_run_end(s, jb + 2);
        if jb < s.len() && jb + 1 < s.len() && s[jb + 1] == COLON && jb + 2 < e && e - (jb + 2)
            <= 5 && e == s.len() {
            let vp = spec_dec_value(s.subrange(jb + 2, e));
            match spec_v6_groups(s.subrange(1, jb)) {
                Some(g) => if vp <= 65535 {
                    Some((g, vp as u16))
                } else {
                    None
                },
                None => None,
            }
        } else {
            None
        }
    } else {
        None
    }
}

/// The first powers of sixteen, spelled out for the proofs below.
proof fn lemma_pow16_vals()
    ensures
        pow16(0) == 1,
        pow16(1) == 16,
        pow16(2) == 256,
        pow16(3) == 4096,
        pow16(4) == 65536,
{
    assert(pow16(0) == 1);
    assert(pow16(1) == 16);
    assert(pow16(2) == 256);
    assert(pow16(3) == 4096);
    assert(pow16(4) == 65536);
}

/// Sixteen's powers grow monotonically.
proof fn lemma_pow16_mono(i: nat, j: nat)
    requires
        i <= j,
    ensures
        pow16(i) <= pow16(j),
    decreases j,
{
    if i < j {
        lemma_pow16_mono(i, (j - 1) as nat);
        assert(pow16(j) == 16 * pow16((j - 1) as nat));
    }
}

/// A hex-digit string's value is bounded by sixteen's powers.
proof fn lemma_hex_value_bound(s: Seq<u8>)
    requires
        forall|i: int| 0 <= i < s.len() ==> is_hex_digit(#[trigger] s[i]),
    ensures
        spec_hex_value(s) < pow16(s.len() as nat),
    decreases s.len(),
{
    if s.len() == 0 {
    } else {
        let t = s.drop_last();
        assert(forall|i: int| 0 <= i < t.len() ==> is_hex_digit(#[trigger] t[i])) by {
            assert(forall|i: int| 0 <= i < t.len() ==> #[trigger] t[i] == s[i]);
        }
        lemma_hex_value_bound(t);
        let d = spec_hex_digit_val(s.last());
        assert(is_hex_digit(s.last()));
        assert(d <= 15);
        let v = spec_hex_value(t);
        assert(pow16(s.len() as nat) == 16 * pow16(t.len() as nat));
        assert(v * 16 + d < 16 * pow16(t.len() as nat)) by (nonlinear_arith)
            requires
                v < pow16(t.len() as nat),
                d <= 15,
        ;
    }
}

/// The hex run from `i` ends exactly at the first position at or after `i`
/// that holds no hex digit.
proof fn lemma_hex_run_end_at(s: Seq<u8>, i: int, e: int)
    requires
        0 <= i <= e <= s.len(),
        forall|j: int| i <= j < e ==> is_hex_digit(#[trigger] s[j]),
        e == s.len() || !is_hex_digit(s[e]),
    ensures
        spec_hex_run_end(s, i) == e,
    decreases e - i,
{
    if i == e {
    } else {
        assert(is_hex_digit(s[i]));
        lemma_hex_run_end_at(s, i + 1, e);
    }
}

/// The byte search from `i` stops exactly at the first occurrence.
proof fn lemma_find_byte_at(s: Seq<u8>, b: u8, i: int, j: int)
    requires
        0 <= i <= j <= s.len(),
        forall|t: int| i <= t < j ==> s[t] != b,
        j == s.len() || s[j] == b,
    ensures
        spec_find_byte(s, b, i) == j,
    decreases j - i,
{
    if i == j {
    } else {
        lemma_find_byte_at(s, b, i + 1, j);
    }
}

/// The double-colon search from `i` stops exactly at the first occurrence.
proof fn lemma_find_dcolon_at(s: Seq<u8>, i: int, j: int)
    requires
        0 <= i <= j <= s.len(),
        forall|t: int|
            i <= t < j ==> !(s[t] == COLON && t + 1 < s.len() && #[trigger] s[t + 1] == COLON),
        j == s.len() || (j + 1 < s.len() && s[j] == COLON && s[j + 1] == COLON),
    ensures
        spec_find_dcolon(s, i) == j,
    decreases s.len() - i,
{
    if i + 1 >= s.len() {
        assert(j == s.len());
    } else if i == j {
    } else {
        assert(!(s[i] == COLON && s[i + 1] == COLON));
        lemma_find_dcolon_at(s, i + 1, j);
    }
}

/// True of an ASCII hexadecimal digit.
fn hex_byte(b: u8) -> (r: bool)
    ensures
        r == is_hex_digit(b),
{
    (48 <= b && b <= 57) || (97 <= b && b <= 102) || (65 <= b && b <= 70)
}

/// The value of one hexadecimal digit.
fn hex_val(b: u8) -> (r: u8)
    requires
        is_hex_digit(b),
    ensures
        r as nat == spec_hex_digit_val(b),
        r < 16,
{
    if 48 <= b && b <= 57 {
        b - 48
    } else if 97 <= b && b <= 102 {
        b - 87
    } else {
        b - 55
    }
}

/// Scans the maximal hex-digit run beginning at `start`.
fn scan_hex_run(bytes: &Vec<u8>, start: usize) -> (end: usize)
    requires
        start <= bytes@.len(),
    ensures
        start <= end <= bytes@.len(),
        end == spec_hex_run_end(bytes@, start as int),
        forall|j: int| start <= j < end ==> is_hex_digit(#[trigger] bytes@[j]),
        end == bytes@.len() || !is_hex_digit(bytes@[end as int]),
{
    let mut j = start;
    while j < bytes.len() && hex_byte(bytes[j])
        invariant
            start <= j <= bytes@.len(),
            forall|t: int| start <= t < j ==> is_hex_digit(#[trigger] bytes@[t]),
        decreases bytes@.len() - j,
    {
        j += 1;
    }
    proof {
        lemma_hex_run_end_at(bytes@, start as int, j as int);
    }
    j
}

/// Finds the first occurrence of `b` at or after `start`, or the length.
fn find_byte(bytes: &Vec<u8>, b: u8, start: usize) -> (r: usize)
    requires
        start <= bytes@.len(),
    ensures
        start <= r <= bytes@.len(),
        r == spec_find_byte(bytes@, b, start as int),
        r < bytes@.len() ==> bytes@[r as int] == b,
{
    let mut j = start;
    while j < bytes.len() && bytes[j] != b
        invariant
            start <= j <= bytes@.len(),
            forall|t: int| start <= t < j ==> bytes@[t] != b,
        decreases bytes@.len() - j,
    {
        j += 1;
    }
    proof {
        lemma_find_byte_at(bytes@, b, start as int, j as int);
    }
    j
}

/// Finds the first double colon at or after `start`, or the length.
fn find_dcolon(bytes: &Vec<u8>, start: usize) -> (r: usize)
    requires
        start <= bytes@.len(),
    ensures
        start <= r <= bytes@.len(),
        r == spec_find_dcolon(bytes@, start as int),
        r < bytes@.len() ==> r + 1 < bytes@.len() && bytes@[r as int] == COLON && bytes@[r + 1]
            == COLON,
{
    let n = bytes.len();
    let mut j = start;
    while j < n && j + 1 < n && !(bytes[j] == COLON && bytes[j + 1] == COLON)
        invariant
            start <= j <= n,
            n == bytes@.len(),
            forall|t: int|
                start <= t < j ==> !(bytes@[t] == COLON && t + 1 < bytes@.len()
                    && #[trigger] bytes@[t + 1] == COLON),
        decreases n - j,
    {
        j += 1;
    }
    if j < n && j + 1 < n {
        proof {
            lemma_find_dcolon_at(bytes@, start as int, j as int);
        }
        j
    } else {
        proof {
            assert(forall|t: int|
                start <= t < bytes@.len() ==> !(bytes@[t] == COLON && t + 1 < bytes@.len()
                    && #[trigger] bytes@[t + 1] == COLON)) by {
                assert(forall|t: int|
                    j <= t < bytes@.len() ==> !(t + 1 < bytes@.len())
                        || !(bytes@[t] == COLON && #[trigger] bytes@[t + 1] == COLON));
            }
            lemma_find_dcolon_at(bytes@, start as int, bytes@.len() as int);
        }
        n
    }
}

/// Copies the byte range `[start, end)`.
fn copy_range(bytes: &Vec<u8>, start: usize, end: usize) -> (r: Vec<u8>)
    requires
        start <= end <= bytes@.len(),
    ensures
        r@ == bytes@.subrange(start as int, end as int),
{
    let mut out: Vec<u8> = Vec::new();
    proof {
        assert(out@ =~= bytes@.subrange(start as int, start as int));
    }
    let mut i = start;
    while i < end
        invariant
            start <= i <= end,
            end <= bytes@.len(),
            out@ == bytes@.subrange(start as int, i as int),
        decreases end - i,
    {
        out.push(bytes[i]);
        i += 1;
        proof {
            assert(bytes@.subrange(start as int, i as int) =~= bytes@.subrange(
                start as int,
                i - 1,
            ).push(bytes@[i - 1]));
        }
    }
    out
}

/// Reads the value of the hex-digit group `bytes[start..end]`.
fn parse_hex_group(bytes: &Vec<u8>, start: usize, end: usize) -> (r: u16)
    requires
        start < end <= bytes@.len(),
        end - start <= 4,
        forall|j: int| start <= j < end ==> is_hex_digit(#[trigger] bytes@[j]),
    ensures
        r as nat == spec_hex_value(bytes@.subrange(start as int, end as int)),
{
    proof {
        lemma_pow16_vals();
    }
    let mut k = start;
    let mut acc: u32 = 0;
    while k < end
        invariant
            start <= k <= end,
            end <= bytes@.len(),
            end - start <= 4,
            forall|j: int| start <= j < end ==> is_hex_digit(#[trigger] bytes@[j]),
            acc as nat == spec_hex_value(bytes@.subrange(start as int, k as int)),
            (acc as nat) < pow16((k - start) as nat),
            pow16(4) == 65536,
        decreases end - k,
    {
        let b = bytes[k];
        let ghost pre = bytes@.subrange(start as int, k as int);
        proof {
            assert(forall|t: int| 0 <= t < pre.len() ==> #[trigger] pre[t] == bytes@[start + t]);
            lemma_pow16_mono((k - start) as nat, 3);
            lemma_pow16_vals();
            assert(pow16((k + 1 - start) as nat) == 16 * pow16((k - start) as nat));
        }
        acc = acc * 16 + (hex_val(b) as u32);
        k += 1;
        proof {
            let cur = bytes@.subrange(start as int, k as int);
            assert(cur.drop_last() =~= pre);
            assert(cur.last() == bytes@[k - 1]);
            assert(spec_hex_value(cur) == spec_hex_value(pre) * 16 + spec_hex_digit_val(
                bytes@[k - 1],
            ));
        }
    }
    proof {
        lemma_pow16_mono((end - start) as nat, 4);
    }
    acc as u16
}

/// Prefixes already-parsed groups onto the outcome for the remaining
/// bytes.
pub open spec fn spec_prepend_groups(acc: Seq<u16>, rest: Option<Seq<u16>>) -> Option<Seq<u16>> {
    match rest {
        Some(g) => Some(acc + g),
        None => None,
    }
}

/// Parses a whole byte string as colon-separated hex groups, replacing the
/// recursion of [`spec_hex_groups`] by a left-to-right pass.
fn parse_hex_groups(bytes: &Vec<u8>) -> (r: Option<Vec<u16>>)
    ensures
        (match spec_hex_groups(bytes@) {
            Some(g) => r is Some && r->Some_0@ == g,
            None => r is None,
        }),
{
    let n = bytes.len();
    let mut cur: usize = 0;
    let mut acc: Vec<u16> = Vec::new();
    proof {
        assert(bytes@.subrange(0, n as int) =~= bytes@);
        if spec_hex_groups(bytes@) is Some {
            assert(acc@ + spec_hex_groups(bytes@)->Some_0 =~= spec_hex_groups(bytes@)->Some_0);
        }
    }
    while cur < n
        invariant
            cur <= n,
            n == bytes@.len(),
            spec_hex_groups(bytes@) == spec_prepend_groups(
                acc@,
                spec_hex_groups(bytes@.subrange(cur as int, n as int)),
            ),
        decreases n - cur,
    {
        let ghost t = bytes@.subrange(cur as int, n as int);
        proof {
            assert(forall|j: int| 0 <= j < t.len() ==> #[trigger] t[j] == bytes@[cur + j]);
        }
        let e = scan_hex_run(bytes, cur);
        proof {
            lemma_hex_run_end_at(t, 0, e - cur);
        }
        let glen = e - cur;
        if glen < 1 || glen > 4 {
            return None;
        }
        let v = parse_hex_group(bytes, cur, e);
        proof {
            assert(bytes@.subrange(cur as int, e as int) =~= t.subrange(0, glen as int));
            lemma_hex_value_bound(t.subrange(0, glen as int));
            lemma_pow16_mono(glen as nat, 4);
            lemma_pow16_vals();
            assert(spec_hex_value(t.subrange(0, glen as int)) as u16 == v);
        }
        if e == n {
            let ghost pre_acc = acc@;
            acc.push(v);
            cur = e;
            proof {
                assert(spec_hex_groups(t) == Some(seq![v]));
                assert(bytes@.subrange(cur as int, n as int) =~= Seq::<u8>::empty());
                assert(spec_hex_groups(Seq::<u8>::empty()) == Some(Seq::<u16>::empty()));
                assert(pre_acc + seq![v] =~= acc@ + Seq::<u16>::empty());
            }
        } else if bytes[e] == COLON && e + 1 < n {
            let ghost pre_acc = acc@;
            acc.push(v);
            cur = e + 1;
            proof {
                let t2 = t.subrange(glen + 1, t.len() as int);
                assert(t2 =~= bytes@.subrange(cur as int, n as int));
                if spec_hex_groups(t2) is Some {
                    let g2 = spec_hex_groups(t2)->Some_0;
                    assert(spec_hex_groups(t) == Some(seq![v] + g2));
                    assert(pre_acc + (seq![v] + g2) =~= acc@ + g2);
                } else {
                    assert(spec_hex_groups(t) is None);
                }
            }
        } else {
            return None;
        }
    }
    proof {
        assert(bytes@.subrange(cur as int, n as int) =~= Seq::<u8>::empty());
        assert(spec_hex_groups(Seq::<u8>::empty()) == Some(Seq::<u16>::empty()));
        if spec_hex_groups(bytes@) is Some {
            assert(acc@ + Seq::<u16>::empty() =~= acc@);
        }
    }
    Some(acc)
}

/// Parses a version-6 address body into its eight groups.
fn parse_v6_body(body: &Vec<u8>) -> (r: Option<Vec<u16>>)
    ensures
        (match spec_v6_groups(body@) {
            Some(g) => r is Some && r->Some_0@ == g,
            None => r is None,
        }),
{
    let n = body.len();
    let m = find_dcolon(body, 0);
    if m == n {
        match parse_hex_groups(body) {
            Some(g) => {
                if g.len() == 8 {
                    Some(g)
                } else {
                    None
                }
            },
            None => None,
        }
    } else {
        let left_bytes = copy_range(body, 0, m);
        let right_bytes = copy_range(body, m + 2, n);
        let mut out = match parse_hex_groups(&left_bytes) {
            Some(l) => l,
            None => {
                return None;
            },
        };
        let tail = match parse_hex_groups(&right_bytes) {
            Some(t) => t,
            None => {
                return None;
            },
        };
        if out.len() > 7 || tail.len() > 7 - out.len() {
            return None;
        }
        let ghost lseq = out@;
        let zeros = 8 - out.len() - tail.len();
        let mut z: usize = 0;
        proof {
            assert(out@ =~= lseq + Seq::new(0, |i: int| 0u16));
        }
        while z < zeros
            invariant
                z <= zeros,
                out@ == lseq + Seq::new(z as nat, |i: int| 0u16),
            decreases zeros - z,
        {
            out.push(0);
            z += 1;
            proof {
                assert(Seq::new(z as nat, |i: int| 0u16) =~= Seq::new(
                    (z - 1) as nat,
                    |i: int| 0u16,
                ).push(0u16));
                assert(out@ =~= lseq + Seq::new(z as nat, |i: int| 0u16));
            }
        }
        let ghost zseq = Seq::new(zeros as nat, |i: int| 0u16);
        let mut j: usize = 0;
        proof {
            assert(tail@.subrange(0, 0) =~= Seq::<u16>::empty());
            assert(out@ =~= lseq + zseq + tail@.subrange(0, 0));
        }
        while j < tail.len()
            invariant
                j <= tail@.len(),
                out@ == lseq + zseq + tail@.subrange(0, j as int),
            decreases tail@.len() - j,
        {
            out.push(tail[j]);
            j += 1;
            proof {
                assert(tail@.subrange(0, j as int) =~= tail@.subrange(0, j - 1).push(
                    tail@[j - 1],
                ));
                assert(out@ =~= lseq + zseq + tail@.subrange(0, j as int));
            }
        }
        proof {
            assert(tail@.subrange(0, tail@.len() as int) =~= tail@);
        }
        Some(out)
    }
}

/// Parses the bracketed version-6 rendering `[groups]:p`.
///
/// The result is exactly [`spec_parse_v6`] of the input: the eight groups
/// and port when the bytes fit the grammar and ranges, `None` otherwise.
pub fn parse_v6_bytes(bytes: &Vec<u8>) -> (r: Option<([u16; 8], u16)>)
    ensures
        (match spec_parse_v6(bytes@) {
            Some(t) => r is Some && r->Some_0.0@ == t.0 && r->Some_0.1 == t.1,
            None => r is None,
        }),
{
    let n = bytes.len();
    if n < 1 || bytes[0] != LBRACK {
        return None;
    }
    let jb = find_byte(bytes, RBRACK, 1);
    if !(jb < n && jb + 1 < n && bytes[jb + 1] == COLON) {
        return None;
    }
    let e = scan_run(bytes, jb + 2);
    if !(jb + 2 < e && e - (jb + 2) <= 5 && e == n) {
        return None;
    }
    let vp = match parse_num(bytes, jb + 2, e) {
        Some(v) => v,
        None => {
            return None;
        },
    };
    let body = copy_range(bytes, 1, jb);
    let groups = match parse_v6_body(&body) {
        Some(g) => g,
        None => {
            return None;
        },
    };
    proof {
        assert(groups@.len() == 8) by {
            if spec_v6_groups(body@) is Some {
                let m = spec_find_dcolon(body@, 0);
                if m != body@.len() {
                    let l = spec_hex_groups(body@.subrange(0, m))->Some_0;
                    let t = spec_hex_groups(body@.subrange(m + 2, body@.len() as int))->Some_0;
                    assert(spec_v6_groups(body@)->Some_0.len() == l.len() + (8 - l.len()
                        - t.len()) + t.len());
                }
            }
        }
    }
    let arr: [u16; 8] = [
        groups[0],
        groups[1],
        groups[2],
        groups[3],
        groups[4],
        groups[5],
        groups[6],
        groups[7],
    ];
    proof {
        assert(arr@ =~= groups@);
    }
    Some((arr, vp as u16))
}

/// The byte of one hexadecimal digit, lower case.
pub open spec fn spec_hex_digit_byte(d: nat) -> u8 {
    if d < 10 {
        (48 + d) as u8
    } else {
        (87 + d) as u8
    }
}

/// The canonical hexadecimal rendering of `n`: most significant digit
/// first, lower case, without leading zeros.
pub open spec fn spec_hex_repr(n: nat) -> Seq<u8>
    decreases n,
{
    if n < 16 {
        seq![spec_hex_digit_byte(n)]
    } else {
        spec_hex_repr(n / 16).push(spec_hex_digit_byte(n % 16))
    }
}

/// The canonical rendering of a version-6 socket address: the eight groups
/// written out in full, bracketed, with the decimal port.
pub open spec fn spec_v6_repr(g: Seq<u16>, p: u16) -> Seq<u8> {
    seq![LBRACK] + spec_hex_repr(g[0] as nat) + seq![COLON] + spec_hex_repr(g[1] as nat) + seq![
        COLON,
    ] + spec_hex_repr(g[2] as nat) + seq![COLON] + spec_hex_repr(g[3] as nat) + seq![COLON]
        + spec_hex_repr(g[4] as nat) + seq![COLON] + spec_hex_repr(g[5] as nat) + seq![COLON]
        + spec_hex_repr(g[6] as nat) + seq![COLON] + spec_hex_repr(g[7] as nat) + seq![
        RBRACK,
        COLON,
    ] + spec_dec_repr(p as nat)
}

/// A number below the `k`-th power of sixteen renders in at most `k` hex
/// digits.
proof fn lemma_hex_repr_len(n: nat, k: nat)
    requires
        n < pow16(k),
        k >= 1,
    ensures
        spec_hex_repr(n).len() <= k,
    decreases k,
{
    if n < 16 {
    } else {
        assert(pow16(k) == 16 * pow16((k - 1) as nat));
        if k == 1 {
            assert(pow16(1) == 16);
            assert(false);
        }
        assert(n / 16 < pow16((k - 1) as nat)) by (nonlinear_arith)
            requires
                n < 16 * pow16((k - 1) as nat),
        ;
        lemma_hex_repr_len(n / 16, (k - 1) as nat);
    }
}

/// Appends the canonical hexadecimal rendering of `n`.
fn push_hex(out: &mut Vec<u8>, n: u32)
    requires
        old(out)@.len() + 10 <= usize::MAX,
    ensures
        final(out)@ == old(out)@ + spec_hex_repr(n as nat),
    decreases n,
{
    if n < 16 {
        let d = n as u8;
        out.push(
            if d < 10 {
                48 + d
            } else {
                87 + d
            },
        );
        proof {
            assert(out@ =~= old(out)@ + spec_hex_repr(n as nat));
        }
    } else {
        push_hex(out, n / 16);
        let d = (n % 16) as u8;
        out.push(
            if d < 10 {
                48 + d
            } else {
                87 + d
            },
        );
        proof {
            assert(spec_hex_repr(n as nat) == spec_hex_repr((n / 16) as nat).push(
                spec_hex_digit_byte((n as nat) % 16),
            ));
            assert(out@ =~= old(out)@ + spec_hex_repr(n as nat));
        }
    }
}

/// Renders a version-6 socket address in its canonical bracketed form.
pub fn format_v6_bytes(g: &[u16; 8], p: u16) -> (r: Vec<u8>)
    ensures
        r@ == spec_v6_repr(g@, p),
{
    let mut out: Vec<u8> = Vec::new();
    proof {
        lemma_pow16_vals();
        lemma_pow10_vals();
        assert(forall|i: int| 0 <= i < 8 ==> (g@[i] as nat) < pow16(4)) by {
            assert(pow16(4) == 65536);
        }
        assert forall|i: int| 0 <= i < 8 implies spec_hex_repr(#[trigger] g@[i] as nat).len()
            <= 4 by {
            lemma_hex_repr_len(g@[i] as nat, 4);
        }
        lemma_dec_repr_len(p as nat, 5);
    }
    out.push(LBRACK);
    push_hex(&mut out, g[0] as u32);
    out.push(COLON);
    push_hex(&mut out, g[1] as u32);
    out.push(COLON);
    push_hex(&mut out, g[2] as u32);
    out.push(COLON);
    push_hex(&mut out, g[3] as u32);
    out.push(COLON);
    push_hex(&mut out, g[4] as u32);
    out.push(COLON);
    push_hex(&mut out, g[5] as u32);
    out.push(COLON);
    push_hex(&mut out, g[6] as u32);
    out.push(COLON);
    push_hex(&mut out, g[7] as u32);
    out.push(RBRACK);
    out.push(COLON);
    push_dec(&mut out, p as u32);
    proof {
        assert(out@ =~= spec_v6_repr(g@, p));
    }
    out
}

/// The rendering of one or more groups, joined by single colons.
pub open spec fn spec_groups_repr(g: Seq<u16>) -> Seq<u8>
    decreases g.len(),
{
    if g.len() == 0 {
        Seq::empty()
    } else if g.len() == 1 {
        spec_hex_repr(g[0] as nat)
    } else {
        spec_hex_repr(g[0] as nat) + seq![COLON] + spec_groups_repr(g.drop_first())
    }
}

/// The canonical hexadecimal rendering is nonempty, all hex digits, and
/// denotes the number it renders.
proof fn lemma_hex_repr_props(n: nat)
    ensures
        spec_hex_repr(n).len() >= 1,
        forall|i: int|
            0 <= i < spec_hex_repr(n).len() ==> is_hex_digit(#[trigger] spec_hex_repr(n)[i]),
        spec_hex_value(spec_hex_repr(n)) == n,
    decreases n,
{
    if n < 16 {
        let s = spec_hex_repr(n);
        assert(s =~= seq![spec_hex_digit_byte(n)]);
        assert(is_hex_digit(spec_hex_digit_byte(n)));
        assert(spec_hex_digit_val(spec_hex_digit_byte(n)) == n);
        assert(s.drop_last() =~= Seq::<u8>::empty());
        assert(spec_hex_value(Seq::<u8>::empty()) == 0);
        assert(spec_hex_value(s) == 0 * 16 + spec_hex_digit_val(spec_hex_digit_byte(n)));
    } else {
        lemma_hex_repr_props(n / 16);
        let t = spec_hex_repr(n / 16);
        let s = spec_hex_repr(n);
        assert(s == t.push(spec_hex_digit_byte(n % 16)));
        assert(s.drop_last() =~= t);
        assert(s.last() == spec_hex_digit_byte(n % 16));
        assert(is_hex_digit(spec_hex_digit_byte(n % 16)));
        assert(spec_hex_digit_val(spec_hex_digit_byte(n % 16)) == n % 16);
        assert(spec_hex_value(s) == spec_hex_value(t) * 16 + (n % 16));
        assert((n / 16) * 16 + n % 16 == n) by (nonlinear_arith);
        assert(forall|i: int| 0 <= i < s.len() ==> is_hex_digit(#[trigger] s[i]));
    }
}

/// A joined rendering of groups is nonempty, holds only hex digits and
/// single colons, begins and ends on a digit, and never holds two
/// adjacent colons.
proof fn lemma_groups_repr_props(g: Seq<u16>)
    requires
        g.len() >= 1,
    ensures
        spec_groups_repr(g).len() >= 1,
        forall|t: int|
            0 <= t < spec_groups_repr(g).len() ==> is_hex_digit(#[trigger] spec_groups_repr(g)[t])
                || spec_groups_repr(g)[t] == COLON,
        is_hex_digit(spec_groups_repr(g)[0]),
        is_hex_digit(spec_groups_repr(g).last()),
        forall|t: int|
            0 <= t < spec_groups_repr(g).len() - 1 ==> !(spec_groups_repr(g)[t] == COLON
                && #[trigger] spec_groups_repr(g)[t + 1] == COLON),
    decreases g.len(),
{
    lemma_hex_repr_props(g[0] as nat);
    let h = spec_hex_repr(g[0] as nat);
    if g.len() == 1 {
    } else {
        lemma_groups_repr_props(g.drop_first());
        let rest = spec_groups_repr(g.drop_first());
        let s = spec_groups_repr(g);
        assert(s == h + seq![COLON] + rest);
        assert(s.len() == h.len() + 1 + rest.len());
        assert(forall|t: int| 0 <= t < h.len() ==> #[trigger] s[t] == h[t]);
        assert(s[h.len() as int] == COLON);
        assert(forall|t: int|
            h.len() + 1 <= t < s.len() ==> #[trigger] s[t] == rest[t - (h.len() + 1)]);
        assert(s.last() == rest.last());
        assert forall|t: int|
            0 <= t < s.len() - 1 implies !(s[t] == COLON && #[trigger] s[t + 1] == COLON) by {
            if t < h.len() {
                assert(is_hex_digit(s[t]));
            } else if t == h.len() {
                assert(s[t + 1] == rest[0]);
                assert(is_hex_digit(rest[0]));
            } else {
                let t2 = t - (h.len() + 1);
                assert(s[t] == rest[t2] && s[t + 1] == rest[t2 + 1]);
                assert(!(rest[t2] == COLON && rest[t2 + 1] == COLON));
            }
        }
    }
}

/// Law: rendering a version-6 address canonically and parsing the
/// rendering returns the same address — the renderer's output is in the
/// parser's grammar and denotes the rendered groups and port.
pub proof fn lemma_v6_render_parses(g: Seq<u16>, p: u16)
    requires
        g.len() == 8,
    ensures
        spec_parse_v6(spec_v6_repr(g, p)) == Some((g, p)),
{
    let s = spec_v6_repr(g, p);
    let body = spec_groups_repr(g);
    assert(spec_groups_repr(g) == spec_hex_repr(g[0] as nat) + seq![COLON] + spec_groups_repr(
        g.drop_first(),
    ));
    lemma_groups_repr_props(g);
    lemma_v6_repr_is_bracketed(g, p);
    let dp = spec_dec_repr(p as nat);
    lemma_dec_repr_props(p as nat);
    lemma_pow10_vals();
    lemma_dec_repr_len(p as nat, 5);
    let jb: int = 1 + body.len() as int;
    assert(s.len() == jb + 2 + dp.len());
    assert(s[0] == LBRACK);
    assert(s[jb] == RBRACK);
    assert(s[jb + 1] == COLON);
    assert(forall|t: int| 1 <= t < jb ==> #[trigger] s[t] == body[t - 1]);
    assert(forall|t: int| jb + 2 <= t < s.len() ==> #[trigger] s[t] == dp[t - (jb + 2)]);
    assert forall|t: int| 1 <= t < jb implies s[t] != RBRACK by {
        assert(is_hex_digit(body[t - 1]) || body[t - 1] == COLON);
    }
    lemma_find_byte_at(s, RBRACK, 1, jb);
    assert(forall|t: int| jb + 2 <= t < s.len() ==> is_digit(#[trigger] s[t]));
    lemma_run_end_at(s, jb + 2, s.len() as int);
    assert(s.subrange(1, jb) =~= body);
    assert(s.subrange(jb + 2, s.len() as int) =~= dp);
    lemma_v6_body_parses(g);
    assert(spec_v6_groups(body) == Some(g));
}

/// The flat concatenation of [`spec_v6_repr`] equals the bracketed joined
/// rendering of the groups.
#[verifier::rlimit(100)]
#[verifier::spinoff_prover]
proof fn lemma_v6_repr_is_bracketed(g: Seq<u16>, p: u16)
    requires
        g.len() == 8,
    ensures
        spec_v6_repr(g, p) =~= seq![LBRACK] + spec_groups_repr(g) + seq![RBRACK, COLON]
            + spec_dec_repr(p as nat),
{
    let g1 = g.drop_first();
    let g2 = g1.drop_first();
    let g3 = g2.drop_first();
    let g4 = g3.drop_first();
    let g5 = g4.drop_first();
    let g6 = g5.drop_first();
    let g7 = g6.drop_first();
    assert(g7.len() == 1);
    assert(spec_groups_repr(g7) == spec_hex_repr(g7[0] as nat));
    assert(spec_groups_repr(g6) == spec_hex_repr(g6[0] as nat) + seq![COLON] + spec_groups_repr(
        g7,
    ));
    assert(spec_groups_repr(g5) == spec_hex_repr(g5[0] as nat) + seq![COLON] + spec_groups_repr(
        g6,
    ));
    assert(spec_groups_repr(g4) == spec_hex_repr(g4[0] as nat) + seq![COLON] + spec_groups_repr(
        g5,
    ));
    assert(spec_groups_repr(g3) == spec_hex_repr(g3[0] as nat) + seq![COLON] + spec_groups_repr(
        g4,
    ));
    assert(spec_groups_repr(g2) == spec_hex_repr(g2[0] as nat) + seq![COLON] + spec_groups_repr(
        g3,
    ));
    assert(spec_groups_repr(g1) == spec_hex_repr(g1[0] as nat) + seq![COLON] + spec_groups_repr(
        g2,
    ));
    assert(spec_groups_repr(g) == spec_hex_repr(g[0] as nat) + seq![COLON] + spec_groups_repr(g1));
    assert(g1[0] == g[1] && g2[0] == g[2] && g3[0] == g[3] && g4[0] == g[4] && g5[0] == g[5]
        && g6[0] == g[6] && g7[0] == g[7]);
}

/// The joined rendering of eight groups parses back to those groups.
proof fn lemma_v6_body_parses(g: Seq<u16>)
    requires
        g.len() == 8,
    ensures
        spec_v6_groups(spec_groups_repr(g)) == Some(g),
{
    let body = spec_groups_repr(g);
    lemma_groups_repr_props(g);
    assert forall|t: int|
        0 <= t < body.len() implies !(body[t] == COLON && t + 1 < body.len()
        && #[trigger] body[t + 1] == COLON) by {
        if t + 1 < body.len() {
            assert(!(body[t] == COLON && body[t + 1] == COLON));
        }
    }
    lemma_find_dcolon_at(body, 0, body.len() as int);
    lemma_hex_groups_of_repr(g);
}

/// The joined rendering of groups reads back as exactly those groups.
proof fn lemma_hex_groups_of_repr(g: Seq<u16>)
    requires
        g.len() >= 1,
    ensures
        spec_hex_groups(spec_groups_repr(g)) == Some(g),
    decreases g.len(),
{
    let body = spec_groups_repr(g);
    let h = spec_hex_repr(g[0] as nat);
    lemma_hex_repr_props(g[0] as nat);
    lemma_pow16_vals();
    lemma_hex_repr_len(g[0] as nat, 4);
    if g.len() == 1 {
        assert(body == h);
        lemma_hex_run_end_at(body, 0, h.len() as int);
        assert(body.subrange(0, h.len() as int) =~= h);
        assert(spec_hex_value(h) as u16 == g[0]);
        assert(seq![g[0]] =~= g);
    } else {
        let rest = spec_groups_repr(g.drop_first());
        lemma_groups_repr_props(g.drop_first());
        assert(body == h + seq![COLON] + rest);
        assert(forall|t: int| 0 <= t < h.len() ==> #[trigger] body[t] == h[t]);
        assert(body[h.len() as int] == COLON);
        assert(!is_hex_digit(COLON));
        lemma_hex_run_end_at(body, 0, h.len() as int);
        assert(body.subrange(0, h.len() as int) =~= h);
        assert(spec_hex_value(h) as u16 == g[0]);
        assert(h.len() as int + 1 < body.len() as int);
        assert(body.subrange(h.len() as int + 1, body.len() as int) =~= rest);
        lemma_hex_groups_of_repr(g.drop_first());
        assert(seq![g[0]] + g.drop_first() =~= g);
    }
}

} // verus!
