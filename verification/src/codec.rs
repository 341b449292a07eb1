//! JSON codec for device state snapshots, and the token codec for the
//! power and input enumerations.
//!
//! The serializer produces the exact canonical JSON object the bridge
//! publishes on the bus; the deserializer accepts exactly that form. Both
//! are proved equal to spec-level functions, and the spec-level parser is
//! proved to invert the spec-level serializer, which gives the round trip
//! for every well-formed snapshot.
use vstd::prelude::*;

use crate::state::{
    all_numchar, is_digit, is_numchar, spec_power_token, ActualVolume, AvolModel, BridgeError,
    MusicCastPowerString, MusicCastState, StateModel,
};

verus! {

// ---------------------------------------------------------------------------
// Character-vector helpers.
// ---------------------------------------------------------------------------
/// Append every character of `s` to `out`.
pub fn push_str(out: &mut Vec<char>, s: &str)
    ensures
        final(out)@ == old(out)@ + s@,
{
    let n = s.unicode_len();
    let mut i: usize = 0;
    while i < n
        invariant
            n == s@.len(),
            0 <= i <= n,
            out@ == old(out)@ + s@.subrange(0, i as int),
        decreases n - i,
    {
        out.push(s.get_char(i));
        i = i + 1;
    }
    assert(out@ =~= old(out)@ + s@);
}

/// Append every character of `s` to `out`.
pub fn push_chars(out: &mut Vec<char>, s: &Vec<char>)
    ensures
        final(out)@ == old(out)@ + s@,
{
    let n = s.len();
    let mut i: usize = 0;
    while i < n
        invariant
            n == s@.len(),
            0 <= i <= n,
            out@ == old(out)@ + s@.subrange(0, i as int),
        decreases n - i,
    {
        out.push(s[i]);
        i = i + 1;
    }
    assert(out@ =~= old(out)@ + s@);
}

/// Whether a character vector holds exactly the text of `lit`.
pub fn chars_eq_lit(s: &Vec<char>, lit: &str) -> (r: bool)
    ensures
        r == (s@ == lit@),
{
    let n = lit.unicode_len();
    if s.len() != n {
        return false;
    }
    let mut i: usize = 0;
    while i < n
        invariant
            n == lit@.len(),
            s@.len() == n,
            0 <= i <= n,
            forall|j: int| 0 <= j < i ==> s@[j] == lit@[j],
        decreases n - i,
    {
        if s[i] != lit.get_char(i) {
            return false;
        }
        i = i + 1;
    }
    assert(s@ =~= lit@);
    true
}

// ---------------------------------------------------------------------------
// Token codec for the power and input enumerations.
// ---------------------------------------------------------------------------
/// Deserialize a power token; tokens other than the three exact lowercase
/// protocol tokens are rejected.
pub fn parse_power_token(s: &Vec<char>) -> (r: Option<MusicCastPowerString>)
    ensures
        s@ == spec_power_token(MusicCastPowerString::on) ==> r == Some(MusicCastPowerString::on),
        s@ == spec_power_token(MusicCastPowerString::standby) ==> r == Some(
            MusicCastPowerString::standby,
        ),
        s@ == spec_power_token(MusicCastPowerString::off) ==> r == Some(MusicCastPowerString::off),
        r matches Some(p) ==> s@ == spec_power_token(p),
{
    proof {
        reveal_strlit("on");
        reveal_strlit("standby");
        reveal_strlit("off");
        assert("on"@.len() == 2);
        assert("standby"@.len() == 7);
        assert("off"@.len() == 3);
        assert("on"@ != "standby"@ && "on"@ != "off"@ && "standby"@ != "off"@);
    }
    if chars_eq_lit(s, "on") {
        Some(MusicCastPowerString::on)
    } else if chars_eq_lit(s, "standby") {
        Some(MusicCastPowerString::standby)
    } else if chars_eq_lit(s, "off") {
        Some(MusicCastPowerString::off)
    } else {
        None
    }
}

/// Deserialize an input token; tokens other than the three exact lowercase
/// protocol tokens are rejected.
pub fn parse_input_token(s: &Vec<char>) -> (r: Option<crate::state::MusicCastInputString>)
    ensures
        s@ == crate::state::spec_input_token(crate::state::MusicCastInputString::Optical) ==> r
            == Some(crate::state::MusicCastInputString::Optical),
        s@ == crate::state::spec_input_token(crate::state::MusicCastInputString::Aux) ==> r
            == Some(crate::state::MusicCastInputString::Aux),
        s@ == crate::state::spec_input_token(crate::state::MusicCastInputString::Bluetooth) ==> r
            == Some(crate::state::MusicCastInputString::Bluetooth),
        r matches Some(i) ==> s@ == crate::state::spec_input_token(i),
{
    proof {
        reveal_strlit("optical");
        reveal_strlit("aux");
        reveal_strlit("bluetooth");
        assert("optical"@.len() == 7);
        assert("aux"@.len() == 3);
        assert("bluetooth"@.len() == 9);
        assert("optical"@ != "aux"@ && "optical"@ != "bluetooth"@ && "aux"@ != "bluetooth"@);
    }
    if chars_eq_lit(s, "optical") {
        Some(crate::state::MusicCastInputString::Optical)
    } else if chars_eq_lit(s, "aux") {
        Some(crate::state::MusicCastInputString::Aux)
    } else if chars_eq_lit(s, "bluetooth") {
        Some(crate::state::MusicCastInputString::Bluetooth)
    } else {
        None
    }
}

// ---------------------------------------------------------------------------
// String escaping.
// ---------------------------------------------------------------------------
/// The escaped form of one character inside a JSON string.
pub open spec fn esc_char(c: char) -> Seq<char> {
    if c == '"' || c == '\\' {
        seq!['\\', c]
    } else {
        seq![c]
    }
}

/// The escaped form of a whole string body.
pub open spec fn spec_escape(t: Seq<char>) -> Seq<char>
    decreases t.len(),
{
    if t.len() == 0 {
        Seq::empty()
    } else {
        esc_char(t[0]) + spec_escape(t.drop_first())
    }
}

/// Escaping distributes over appending one character at the end.
pub proof fn lemma_escape_push(t: Seq<char>, c: char)
    ensures
        spec_escape(t.push(c)) == spec_escape(t) + esc_char(c),
    decreases t.len(),
{
    let tp = t.push(c);
    assert(tp.len() == t.len() + 1);
    if t.len() == 0 {
        assert(tp[0] == c);
        assert(tp.drop_first() =~= Seq::<char>::empty());
        assert(spec_escape(tp) == esc_char(c) + spec_escape(tp.drop_first()));
        assert(spec_escape(tp.drop_first()) == Seq::<char>::empty());
        assert(spec_escape(tp) =~= spec_escape(t) + esc_char(c));
    } else {
        assert(tp[0] == t[0]);
        assert(tp.drop_first() =~= t.drop_first().push(c));
        lemma_escape_push(t.drop_first(), c);
        assert(spec_escape(tp) == esc_char(tp[0]) + spec_escape(tp.drop_first()));
        assert(spec_escape(t) == esc_char(t[0]) + spec_escape(t.drop_first()));
        assert(spec_escape(tp) =~= spec_escape(t) + esc_char(c));
    }
}

/// Append the escaped form of `t` to `out`.
pub fn push_escaped(out: &mut Vec<char>, t: &Vec<char>)
    ensures
        final(out)@ == old(out)@ + spec_escape(t@),
{
    let n = t.len();
    let mut i: usize = 0;
    assert(t@.subrange(0, 0) =~= Seq::<char>::empty());
    assert(out@ =~= old(out)@ + spec_escape(t@.subrange(0, 0)));
    while i < n
        invariant
            n == t@.len(),
            0 <= i <= n,
            out@ == old(out)@ + spec_escape(t@.subrange(0, i as int)),
        decreases n - i,
    {
        let c = t[i];
        if c == '"' || c == '\\' {
            out.push('\\');
            out.push(c);
        } else {
            out.push(c);
        }
        proof {
            assert(t@.subrange(0, i + 1) =~= t@.subrange(0, i as int).push(t@[i as int]));
            lemma_escape_push(t@.subrange(0, i as int), t@[i as int]);
            assert(out@ =~= old(out)@ + spec_escape(t@.subrange(0, i + 1)));
        }
        i = i + 1;
    }
    assert(t@.subrange(0, n as int) =~= t@);
}

// ---------------------------------------------------------------------------
// Spec-level parsing of a JSON string body (after the opening quote, up to
// and including the closing quote).
// ---------------------------------------------------------------------------
/// Parse an escaped string body starting at `pos`; on success, the unescaped
/// body and the position just past the closing quote.
pub open spec fn spec_parse_string(s: Seq<char>, pos: int) -> Option<(Seq<char>, int)>
    decreases s.len() - pos,
{
    if pos < 0 || pos >= s.len() {
        None
    } else if s[pos] == '"' {
        Some((Seq::empty(), pos + 1))
    } else if s[pos] == '\\' {
        if pos + 1 < s.len() && (s[pos + 1] == '"' || s[pos + 1] == '\\') {
            match spec_parse_string(s, pos + 2) {
                Some((t, p)) => Some((seq![s[pos + 1]] + t, p)),
                None => None,
            }
        } else {
            None
        }
    } else {
        match spec_parse_string(s, pos + 1) {
            Some((t, p)) => Some((seq![s[pos]] + t, p)),
            None => None,
        }
    }
}

/// Parsing inverts escaping: an escaped body followed by a closing quote
/// parses back to the original body.
pub proof fn lemma_parse_string_round(s: Seq<char>, pos: int, t: Seq<char>)
    requires
        0 <= pos,
        pos + spec_escape(t).len() + 1 <= s.len(),
        s.subrange(pos, pos + spec_escape(t).len() + 1) == spec_escape(t) + seq!['"'],
    ensures
        spec_parse_string(s, pos) == Some((t, pos + spec_escape(t).len() + 1)),
    decreases t.len(),
{
    let e = spec_escape(t);
    let ll = e.len() + 1;
    let sub = s.subrange(pos, pos + ll);
    assert(sub == e + seq!['"']);
    if t.len() == 0 {
        assert(e.len() == 0);
        assert(s[pos] == sub[0]);
        assert(sub[0] == '"');
    } else {
        let c = t[0];
        let rest = t.drop_first();
        let ec = esc_char(c);
        let er = spec_escape(rest);
        assert(e == ec + er);
        let step = ec.len() as int;
        assert(s.subrange(pos + step, pos + step + er.len() + 1) =~= er + seq!['"']) by {
            assert forall|j: int|
                0 <= j < er.len() + 1 implies s.subrange(pos + step, pos + step + er.len() + 1)[j]
                == (er + seq!['"'])[j] by {
                assert(s.subrange(pos + step, pos + step + er.len() + 1)[j] == s[pos + step + j]);
                assert(s[pos + step + j] == sub[step + j]);
                assert(sub[step + j] == (er + seq!['"'])[j]);
            }
        }
        lemma_parse_string_round(s, pos + step, rest);
        assert(seq![c] + rest =~= t);
        if c == '"' || c == '\\' {
            assert(s[pos] == sub[0]);
            assert(sub[0] == ec[0]);
            assert(ec[0] == '\\');
            assert(s[pos + 1] == sub[1]);
            assert(sub[1] == ec[1]);
            assert(ec[1] == c);
            assert(pos + 1 < s.len());
            assert(spec_parse_string(s, pos) == Some((seq![c] + rest, pos + e.len() + 1)));
        } else {
            assert(s[pos] == sub[0]);
            assert(sub[0] == c);
            assert(s[pos] != '"' && s[pos] != '\\');
            assert(spec_parse_string(s, pos) == Some((seq![c] + rest, pos + e.len() + 1)));
        }
    }
}


// ---------------------------------------------------------------------------
// Decimal numbers.
// ---------------------------------------------------------------------------
/// The character of one decimal digit.
pub open spec fn digit_char(d: int) -> char {
    if d == 0 { '0' } else if d == 1 { '1' } else if d == 2 { '2' } else if d == 3 { '3' }
    else if d == 4 { '4' } else if d == 5 { '5' } else if d == 6 { '6' } else if d == 7 { '7' }
    else if d == 8 { '8' } else { '9' }
}

/// The value of one decimal digit character (0 for non-digits).
pub open spec fn digit_val(c: char) -> nat {
    if c == '0' { 0 } else if c == '1' { 1 } else if c == '2' { 2 } else if c == '3' { 3 }
    else if c == '4' { 4 } else if c == '5' { 5 } else if c == '6' { 6 } else if c == '7' { 7 }
    else if c == '8' { 8 } else if c == '9' { 9 } else { 0 }
}

/// The canonical decimal rendering of a number, most significant digit first.
pub open spec fn spec_u16_dec(n: nat) -> Seq<char>
    decreases n,
{
    if n < 10 {
        seq![digit_char(n as int)]
    } else {
        spec_u16_dec(n / 10) + seq![digit_char((n % 10) as int)]
    }
}

/// The numeric value of a digit string, most significant digit first.
pub open spec fn dec_val(s: Seq<char>) -> nat
    decreases s.len(),
{
    if s.len() == 0 {
        0
    } else {
        dec_val(s.drop_last()) * 10 + digit_val(s.last())
    }
}

/// The canonical rendering is nonempty and made of digits only.
pub proof fn lemma_u16_dec_digits(n: nat)
    ensures
        spec_u16_dec(n).len() >= 1,
        forall|j: int| 0 <= j < spec_u16_dec(n).len() ==> is_digit(#[trigger] spec_u16_dec(n)[j]),
    decreases n,
{
    if n < 10 {
        assert(is_digit(spec_u16_dec(n)[0]));
    } else {
        lemma_u16_dec_digits(n / 10);
        assert forall|j: int| 0 <= j < spec_u16_dec(n).len() implies is_digit(
            #[trigger] spec_u16_dec(n)[j],
        ) by {
            if j < spec_u16_dec(n / 10).len() {
                assert(spec_u16_dec(n)[j] == spec_u16_dec(n / 10)[j]);
            } else {
                assert(spec_u16_dec(n)[j] == digit_char((n % 10) as int));
            }
        }
    }
}

/// Reading the canonical rendering back yields the number.
pub proof fn lemma_dec_val_u16(n: nat)
    ensures
        dec_val(spec_u16_dec(n)) == n,
    decreases n,
{
    if n < 10 {
        let s = spec_u16_dec(n);
        assert(s == seq![digit_char(n as int)]);
        assert(s.len() == 1);
        assert(s.last() == digit_char(n as int));
        assert(s.drop_last() =~= Seq::<char>::empty());
        assert(dec_val(s.drop_last()) == 0);
        assert(dec_val(s) == digit_val(digit_char(n as int)));
    } else {
        lemma_dec_val_u16(n / 10);
        let s = spec_u16_dec(n);
        assert(s.drop_last() =~= spec_u16_dec(n / 10));
        assert(s.last() == digit_char((n % 10) as int));
        assert(dec_val(s) == dec_val(spec_u16_dec(n / 10)) * 10 + digit_val(
            digit_char((n % 10) as int),
        ));
        assert(n == (n / 10) * 10 + n % 10);
    }
}

/// The position just past the run of digits starting at `pos`.
pub open spec fn digit_run_end(s: Seq<char>, pos: int) -> int
    decreases s.len() - pos,
{
    if pos < 0 || pos >= s.len() || !is_digit(s[pos]) {
        pos
    } else {
        digit_run_end(s, pos + 1)
    }
}

/// What a digit run is: every character before its end is a digit, and it
/// stops at the end of the input or at the first non-digit.
pub proof fn lemma_digit_run_props(s: Seq<char>, pos: int)
    requires
        0 <= pos <= s.len(),
    ensures
        pos <= digit_run_end(s, pos) <= s.len(),
        forall|j: int| pos <= j < digit_run_end(s, pos) ==> is_digit(s[j]),
        digit_run_end(s, pos) == s.len() || !is_digit(s[digit_run_end(s, pos)]),
    decreases s.len() - pos,
{
    if pos >= s.len() || !is_digit(s[pos]) {
    } else {
        lemma_digit_run_props(s, pos + 1);
    }
}

/// A run of digits up to a non-digit boundary ends exactly at that boundary.
pub proof fn lemma_digit_run_exact(s: Seq<char>, pos: int, end: int)
    requires
        0 <= pos <= end <= s.len(),
        forall|j: int| pos <= j < end ==> is_digit(s[j]),
        end == s.len() || !is_digit(s[end]),
    ensures
        digit_run_end(s, pos) == end,
    decreases end - pos,
{
    if pos == end {
    } else {
        assert(is_digit(s[pos]));
        lemma_digit_run_exact(s, pos + 1, end);
    }
}

/// Appending digits never lowers the value read so far.
pub proof fn lemma_dec_val_extend(s: Seq<char>, pos: int, i: int, j: int)
    requires
        0 <= pos <= i <= j <= s.len(),
    ensures
        dec_val(s.subrange(pos, i)) <= dec_val(s.subrange(pos, j)),
    decreases j - i,
{
    if i == j {
        assert(s.subrange(pos, i) =~= s.subrange(pos, j));
    } else {
        lemma_dec_val_extend(s, pos, i, j - 1);
        assert(s.subrange(pos, j).drop_last() =~= s.subrange(pos, j - 1));
        assert(dec_val(s.subrange(pos, j)) == dec_val(s.subrange(pos, j - 1)) * 10 + digit_val(
            s.subrange(pos, j).last(),
        ));
    }
}

/// Parse an unsigned decimal at `pos`: the whole digit run, rejected when
/// empty or when its value does not fit in sixteen bits.
pub open spec fn spec_parse_u16(s: Seq<char>, pos: int) -> Option<(u16, int)> {
    let end = digit_run_end(s, pos);
    if end == pos {
        None
    } else if dec_val(s.subrange(pos, end)) > 0xffff {
        None
    } else {
        Some((dec_val(s.subrange(pos, end)) as u16, end))
    }
}

/// Parsing inverts rendering: the canonical digits of `n` followed by a
/// non-digit parse back to `n`.
pub proof fn lemma_parse_u16_round(s: Seq<char>, pos: int, n: u16)
    requires
        0 <= pos,
        pos + spec_u16_dec(n as nat).len() <= s.len(),
        s.subrange(pos, pos + spec_u16_dec(n as nat).len()) == spec_u16_dec(n as nat),
        pos + spec_u16_dec(n as nat).len() == s.len() || !is_digit(
            s[pos + spec_u16_dec(n as nat).len()],
        ),
    ensures
        spec_parse_u16(s, pos) == Some((n, pos + spec_u16_dec(n as nat).len())),
{
    let d = spec_u16_dec(n as nat);
    let end = pos + d.len();
    lemma_u16_dec_digits(n as nat);
    assert forall|j: int| pos <= j < end implies is_digit(s[j]) by {
        assert(s[j] == s.subrange(pos, end)[j - pos]);
        assert(s.subrange(pos, end)[j - pos] == d[j - pos]);
    }
    lemma_digit_run_exact(s, pos, end);
    lemma_dec_val_u16(n as nat);
    assert(dec_val(s.subrange(pos, end)) == n);
}

/// Append the canonical decimal rendering of `n` to `out`.
pub fn push_u16(out: &mut Vec<char>, n: u16)
    ensures
        final(out)@ == old(out)@ + spec_u16_dec(n as nat),
    decreases n,
{
    let digits: [char; 10] = ['0', '1', '2', '3', '4', '5', '6', '7', '8', '9'];
    if n < 10 {
        out.push(digits[n as usize]);
    } else {
        push_u16(out, n / 10);
        out.push(digits[(n % 10) as usize]);
        assert(out@ =~= old(out)@ + spec_u16_dec(n as nat));
    }
}

/// Parse an unsigned decimal at `pos`; equal to the spec-level parser.
pub fn parse_u16(s: &Vec<char>, pos: usize) -> (r: Option<(u16, usize)>)
    requires
        pos <= s@.len(),
    ensures
        r matches Some(vp) ==> spec_parse_u16(s@, pos as int) == Some((vp.0, vp.1 as int)) && pos
            <= vp.1 <= s@.len(),
        r is None ==> spec_parse_u16(s@, pos as int) is None,
{
    proof {
        lemma_digit_run_props(s@, pos as int);
    }
    let ghost end = digit_run_end(s@, pos as int);
    let mut i: usize = pos;
    let mut acc: u32 = 0;
    assert(s@.subrange(pos as int, pos as int) =~= Seq::<char>::empty());
    while i < s.len() && char_digit(s[i]).is_some()
        invariant
            pos <= i <= s@.len(),
            forall|j: int| pos <= j < i ==> is_digit(s@[j]),
            digit_run_end(s@, pos as int) == digit_run_end(s@, i as int),
            acc == dec_val(s@.subrange(pos as int, i as int)),
            acc <= 0xffff,
        decreases s@.len() - i,
    {
        let d = char_digit(s[i]).unwrap();
        proof {
            assert(s@.subrange(pos as int, i + 1).drop_last() =~= s@.subrange(
                pos as int,
                i as int,
            ));
            assert(s@.subrange(pos as int, i + 1).last() == s@[i as int]);
        }
        acc = acc * 10 + (d as u32);
        i = i + 1;
        if acc > 0xffff {
            proof {
                lemma_digit_run_props(s@, i as int);
                lemma_dec_val_extend(s@, pos as int, i as int, digit_run_end(s@, i as int));
            }
            return None;
        }
    }
    proof {
        assert(digit_run_end(s@, i as int) == i);
        assert(end == i);
    }
    if i == pos {
        None
    } else {
        Some((acc as u16, i))
    }
}

/// The digit value of a character, when it is a digit.
pub fn char_digit(c: char) -> (r: Option<u8>)
    ensures
        r matches Some(d) ==> is_digit(c) && d == digit_val(c) && d <= 9,
        r is None ==> !is_digit(c),
{
    match c {
        '0' => Some(0),
        '1' => Some(1),
        '2' => Some(2),
        '3' => Some(3),
        '4' => Some(4),
        '5' => Some(5),
        '6' => Some(6),
        '7' => Some(7),
        '8' => Some(8),
        '9' => Some(9),
        _ => None,
    }
}


// ---------------------------------------------------------------------------
// Raw number tokens (the opaque actual-volume reading).
// ---------------------------------------------------------------------------
/// The position just past the run of number-token characters at `pos`.
pub open spec fn numchar_run_end(s: Seq<char>, pos: int) -> int
    decreases s.len() - pos,
{
    if pos < 0 || pos >= s.len() || !is_numchar(s[pos]) {
        pos
    } else {
        numchar_run_end(s, pos + 1)
    }
}

/// What a number-token run is.
pub proof fn lemma_numchar_run_props(s: Seq<char>, pos: int)
    requires
        0 <= pos <= s.len(),
    ensures
        pos <= numchar_run_end(s, pos) <= s.len(),
        forall|j: int| pos <= j < numchar_run_end(s, pos) ==> is_numchar(s[j]),
        numchar_run_end(s, pos) == s.len() || !is_numchar(s[numchar_run_end(s, pos)]),
    decreases s.len() - pos,
{
    if pos >= s.len() || !is_numchar(s[pos]) {
    } else {
        lemma_numchar_run_props(s, pos + 1);
    }
}

/// A run of number-token characters up to a boundary ends exactly there.
pub proof fn lemma_numchar_run_exact(s: Seq<char>, pos: int, end: int)
    requires
        0 <= pos <= end <= s.len(),
        forall|j: int| pos <= j < end ==> is_numchar(s[j]),
        end == s.len() || !is_numchar(s[end]),
    ensures
        numchar_run_end(s, pos) == end,
    decreases end - pos,
{
    if pos == end {
    } else {
        assert(is_numchar(s[pos]));
        lemma_numchar_run_exact(s, pos + 1, end);
    }
}

/// Parse a raw number token at `pos`: the whole nonempty run.
pub open spec fn spec_parse_numtok(s: Seq<char>, pos: int) -> Option<(Seq<char>, int)> {
    let end = numchar_run_end(s, pos);
    if end == pos {
        None
    } else {
        Some((s.subrange(pos, end), end))
    }
}

/// A nonempty number token followed by a non-token character parses back
/// unchanged.
pub proof fn lemma_parse_numtok_round(s: Seq<char>, pos: int, v: Seq<char>)
    requires
        0 <= pos,
        pos + v.len() <= s.len(),
        s.subrange(pos, pos + v.len()) == v,
        v.len() > 0,
        all_numchar(v),
        pos + v.len() == s.len() || !is_numchar(s[pos + v.len()]),
    ensures
        spec_parse_numtok(s, pos) == Some((v, pos + v.len())),
{
    let end = pos + v.len();
    assert forall|j: int| pos <= j < end implies is_numchar(s[j]) by {
        assert(s[j] == s.subrange(pos, end)[j - pos]);
        assert(is_numchar(v[j - pos]));
    }
    lemma_numchar_run_exact(s, pos, end);
}

/// Whether a character may appear in a number token.
pub fn char_is_numchar(c: char) -> (r: bool)
    ensures
        r == is_numchar(c),
{
    match c {
        '0' | '1' | '2' | '3' | '4' | '5' | '6' | '7' | '8' | '9' | '-' | '+' | '.' | 'e'
            | 'E' => true,
        _ => false,
    }
}

/// Parse a raw number token at `pos`; equal to the spec-level parser.
pub fn parse_numtok(s: &Vec<char>, pos: usize) -> (r: Option<(Vec<char>, usize)>)
    requires
        pos <= s@.len(),
    ensures
        r matches Some(vp) ==> spec_parse_numtok(s@, pos as int) == Some((vp.0@, vp.1 as int))
            && pos <= vp.1 <= s@.len() && vp.0@.len() > 0 && all_numchar(vp.0@),
        r is None ==> spec_parse_numtok(s@, pos as int) is None,
{
    let mut i: usize = pos;
    let mut tok: Vec<char> = Vec::new();
    while i < s.len() && char_is_numchar(s[i])
        invariant
            pos <= i <= s@.len(),
            forall|j: int| pos <= j < i ==> is_numchar(s@[j]),
            numchar_run_end(s@, pos as int) == numchar_run_end(s@, i as int),
            tok@ == s@.subrange(pos as int, i as int),
        decreases s@.len() - i,
    {
        tok.push(s[i]);
        proof {
            assert(tok@ =~= s@.subrange(pos as int, i + 1));
        }
        i = i + 1;
    }
    proof {
        assert(numchar_run_end(s@, i as int) == i);
    }
    if i == pos {
        None
    } else {
        Some((tok, i))
    }
}

// ---------------------------------------------------------------------------
// Fixed literals, booleans, and the power token inside JSON.
// ---------------------------------------------------------------------------
/// Expect the exact text `lit` at `pos`; on success the position just past it.
pub open spec fn spec_parse_lit(s: Seq<char>, pos: int, lit: Seq<char>) -> Option<int> {
    if 0 <= pos && pos + lit.len() <= s.len() && s.subrange(pos, pos + lit.len()) == lit {
        Some(pos + lit.len())
    } else {
        None
    }
}

/// Expect the exact text `lit` at `pos`; equal to the spec-level parser.
pub fn parse_lit(s: &Vec<char>, pos: usize, lit: &str) -> (r: Option<usize>)
    requires
        pos <= s@.len(),
    ensures
        r matches Some(p) ==> spec_parse_lit(s@, pos as int, lit@) == Some(p as int) && pos <= p
            <= s@.len(),
        r is None ==> spec_parse_lit(s@, pos as int, lit@) is None,
{
    let n = lit.unicode_len();
    let slen = s.len();
    if slen - pos < n {
        return None;
    }
    let mut i: usize = 0;
    while i < n
        invariant
            n == lit@.len(),
            slen == s@.len(),
            pos + n <= slen,
            0 <= i <= n,
            forall|j: int| 0 <= j < i ==> s@[pos + j] == lit@[j],
        decreases n - i,
    {
        if s[pos + i] != lit.get_char(i) {
            proof {
                assert(s@.subrange(pos as int, pos + n) != lit@) by {
                    assert(s@.subrange(pos as int, pos + n)[i as int] == s@[pos + i]);
                }
            }
            return None;
        }
        i = i + 1;
    }
    assert(s@.subrange(pos as int, pos + n) =~= lit@);
    Some(pos + n)
}

/// The JSON keyword for a boolean.
pub open spec fn spec_bool_token(b: bool) -> Seq<char> {
    if b {
        "true"@
    } else {
        "false"@
    }
}

/// Parse a JSON boolean keyword at `pos`.
pub open spec fn spec_parse_bool(s: Seq<char>, pos: int) -> Option<(bool, int)> {
    match spec_parse_lit(s, pos, "true"@) {
        Some(p) => Some((true, p)),
        None => match spec_parse_lit(s, pos, "false"@) {
            Some(p) => Some((false, p)),
            None => None,
        },
    }
}

/// A serialized boolean parses back unchanged.
pub proof fn lemma_parse_bool_round(s: Seq<char>, pos: int, b: bool)
    requires
        0 <= pos,
        pos + spec_bool_token(b).len() <= s.len(),
        s.subrange(pos, pos + spec_bool_token(b).len()) == spec_bool_token(b),
    ensures
        spec_parse_bool(s, pos) == Some((b, pos + spec_bool_token(b).len())),
{
    reveal_strlit("true");
    reveal_strlit("false");
    assert("true"@.len() == 4);
    assert("false"@.len() == 5);
    if b {
    } else {
        assert(s[pos] == s.subrange(pos, pos + 5)[0]);
        assert(s[pos] == 'f');
        if spec_parse_lit(s, pos, "true"@) is Some {
            assert(s.subrange(pos, pos + 4)[0] == 't');
            assert(false);
        }
    }
}

/// Parse a JSON boolean keyword at `pos`; equal to the spec-level parser.
pub fn parse_bool(s: &Vec<char>, pos: usize) -> (r: Option<(bool, usize)>)
    requires
        pos <= s@.len(),
    ensures
        r matches Some(vp) ==> spec_parse_bool(s@, pos as int) == Some((vp.0, vp.1 as int)) && pos
            <= vp.1 <= s@.len(),
        r is None ==> spec_parse_bool(s@, pos as int) is None,
{
    match parse_lit(s, pos, "true") {
        Some(p) => Some((true, p)),
        None => match parse_lit(s, pos, "false") {
            Some(p) => Some((false, p)),
            None => None,
        },
    }
}

/// Parse a power token at `pos` inside the JSON text.
pub open spec fn spec_parse_power(s: Seq<char>, pos: int) -> Option<(MusicCastPowerString, int)> {
    match spec_parse_lit(s, pos, "on"@) {
        Some(p) => Some((MusicCastPowerString::on, p)),
        None => match spec_parse_lit(s, pos, "standby"@) {
            Some(p) => Some((MusicCastPowerString::standby, p)),
            None => match spec_parse_lit(s, pos, "off"@) {
                Some(p) => Some((MusicCastPowerString::off, p)),
                None => None,
            },
        },
    }
}

/// A serialized power token parses back unchanged.
pub proof fn lemma_parse_power_round(s: Seq<char>, pos: int, p: MusicCastPowerString)
    requires
        0 <= pos,
        pos + spec_power_token(p).len() <= s.len(),
        s.subrange(pos, pos + spec_power_token(p).len()) == spec_power_token(p),
    ensures
        spec_parse_power(s, pos) == Some((p, pos + spec_power_token(p).len())),
{
    reveal_strlit("on");
    reveal_strlit("standby");
    reveal_strlit("off");
    assert("on"@.len() == 2);
    assert("standby"@.len() == 7);
    assert("off"@.len() == 3);
    match p {
        MusicCastPowerString::on => {
        },
        MusicCastPowerString::standby => {
            assert(s[pos] == s.subrange(pos, pos + 7)[0]);
            assert(s[pos] == 's');
            if spec_parse_lit(s, pos, "on"@) is Some {
                assert(s.subrange(pos, pos + 2)[0] == 'o');
                assert(false);
            }
        },
        MusicCastPowerString::off => {
            assert(s[pos] == s.subrange(pos, pos + 3)[0]);
            assert(s[pos + 1] == s.subrange(pos, pos + 3)[1]);
            assert(s[pos] == 'o' && s[pos + 1] == 'f');
            if spec_parse_lit(s, pos, "on"@) is Some {
                assert(s.subrange(pos, pos + 2)[1] == 'n');
                assert(false);
            }
            if spec_parse_lit(s, pos, "standby"@) is Some {
                assert(s.subrange(pos, pos + 7)[0] == 's');
                assert(false);
            }
        },
    }
}

/// Parse a power token at `pos`; equal to the spec-level parser.
pub fn parse_power(s: &Vec<char>, pos: usize) -> (r: Option<(MusicCastPowerString, usize)>)
    requires
        pos <= s@.len(),
    ensures
        r matches Some(vp) ==> spec_parse_power(s@, pos as int) == Some((vp.0, vp.1 as int))
            && pos <= vp.1 <= s@.len(),
        r is None ==> spec_parse_power(s@, pos as int) is None,
{
    match parse_lit(s, pos, "on") {
        Some(p) => Some((MusicCastPowerString::on, p)),
        None => match parse_lit(s, pos, "standby") {
            Some(p) => Some((MusicCastPowerString::standby, p)),
            None => match parse_lit(s, pos, "off") {
                Some(p) => Some((MusicCastPowerString::off, p)),
                None => None,
            },
        },
    }
}

/// Prepend already-collected characters to a string-parse result.
pub open spec fn string_cont(
    r: Option<(Seq<char>, int)>,
    pre: Seq<char>,
) -> (Option<(Seq<char>, int)>) {
    match r {
        Some((t, p)) => Some((pre + t, p)),
        None => None,
    }
}

/// Parse an escaped string body at `pos`; equal to the spec-level parser.
pub fn parse_string(s: &Vec<char>, pos: usize) -> (r: Option<(Vec<char>, usize)>)
    requires
        pos <= s@.len(),
    ensures
        r matches Some(vp) ==> spec_parse_string(s@, pos as int) == Some((vp.0@, vp.1 as int))
            && pos <= vp.1 <= s@.len(),
        r is None ==> spec_parse_string(s@, pos as int) is None,
{
    let mut i: usize = pos;
    let mut body: Vec<char> = Vec::new();
    proof {
        match spec_parse_string(s@, pos as int) {
            Some((t, p)) => {
                assert(Seq::<char>::empty() + t =~= t);
            },
            None => {},
        }
    }
    while i < s.len()
        invariant
            pos <= i <= s@.len(),
            spec_parse_string(s@, pos as int) == string_cont(spec_parse_string(s@, i as int), body@),
        decreases s@.len() - i,
    {
        let c = s[i];
        if c == '"' {
            proof {
                assert(body@ + Seq::<char>::empty() =~= body@);
            }
            return Some((body, i + 1));
        } else if c == '\\' {
            if i + 1 < s.len() && (s[i + 1] == '"' || s[i + 1] == '\\') {
                let e = s[i + 1];
                let ghost pre = body@;
                body.push(e);
                i = i + 2;
                proof {
                    assert(body@ =~= pre + seq![e]);
                    match spec_parse_string(s@, i as int) {
                        Some((t, p)) => {
                            assert(pre + (seq![e] + t) =~= body@ + t);
                        },
                        None => {},
                    }
                }
            } else {
                return None;
            }
        } else {
            let ghost pre = body@;
            body.push(c);
            i = i + 1;
            proof {
                assert(body@ =~= pre + seq![c]);
                match spec_parse_string(s@, i as int) {
                    Some((t, p)) => {
                        assert(pre + (seq![c] + t) =~= body@ + t);
                    },
                    None => {},
                }
            }
        }
    }
    None
}
// ---------------------------------------------------------------------------
// The canonical JSON object for a state snapshot.
// ---------------------------------------------------------------------------
/// The object opener and the key of the power field.
pub open spec fn l_obj() -> Seq<char> {
    "{\"power\":\""@
}

/// The key of the sleep field, closing the power token before it.
pub open spec fn l_sleep() -> Seq<char> {
    "\",\"sleep\":"@
}

/// The key of the volume field.
pub open spec fn l_volume() -> Seq<char> {
    ",\"volume\":"@
}

/// The key of the mute field.
pub open spec fn l_mute() -> Seq<char> {
    ",\"mute\":"@
}

/// The key of the max-volume field.
pub open spec fn l_maxvol() -> Seq<char> {
    ",\"max_volume\":"@
}

/// The key of the input field.
pub open spec fn l_input() -> Seq<char> {
    ",\"input\":\""@
}

/// The key of the subwoofer-volume field.
pub open spec fn l_subvol() -> Seq<char> {
    ",\"subwoofer_volume\":"@
}

/// The key of the actual-volume field.
pub open spec fn l_avol() -> Seq<char> {
    ",\"actual_volume\":"@
}

/// The opener of the actual-volume object and the key of its mode field.
pub open spec fn l_mode() -> Seq<char> {
    "{\"mode\":\""@
}

/// The key of the actual-volume value field.
pub open spec fn l_value() -> Seq<char> {
    ",\"value\":"@
}

/// The key of the actual-volume unit field.
pub open spec fn l_unit() -> Seq<char> {
    ",\"unit\":\""@
}

/// A closing brace.
pub open spec fn l_rbrace() -> Seq<char> {
    "}"@
}

/// A double quote.
pub open spec fn l_quote() -> Seq<char> {
    seq!['"']
}

/// The canonical JSON text of an actual-volume descriptor.
pub open spec fn spec_serialize_avol(a: AvolModel) -> Seq<char> {
    l_mode() + spec_escape(a.mode) + l_quote() + l_value() + a.value + l_unit() + spec_escape(
        a.unit,
    ) + l_quote() + l_rbrace()
}

/// The canonical JSON text of the tail of a state snapshot: input,
/// subwoofer volume, and the actual-volume object.
pub open spec fn spec_serialize_state_rest(v: StateModel) -> Seq<char> {
    l_input() + spec_escape(v.input) + l_quote() + l_subvol() + spec_u16_dec(
        v.subwoofer_volume as nat,
    ) + l_avol() + spec_serialize_avol(v.actual_volume) + l_rbrace()
}

/// The canonical JSON text of a state snapshot.
pub open spec fn spec_serialize_state(v: StateModel) -> Seq<char> {
    l_obj() + spec_power_token(v.power) + l_sleep() + spec_u16_dec(v.sleep as nat) + l_volume()
        + spec_u16_dec(v.volume as nat) + l_mute() + spec_bool_token(v.mute) + l_maxvol()
        + spec_u16_dec(v.max_volume as nat) + spec_serialize_state_rest(v)
}

/// Parse an actual-volume object at `pos`.
pub open spec fn spec_parse_avol(s: Seq<char>, pos: int) -> Option<(AvolModel, int)> {
    match spec_parse_lit(s, pos, l_mode()) {
        None => None,
        Some(p0) => match spec_parse_string(s, p0) {
            None => None,
            Some((mode, p1)) => match spec_parse_lit(s, p1, l_value()) {
                None => None,
                Some(p2) => match spec_parse_numtok(s, p2) {
                    None => None,
                    Some((value, p3)) => match spec_parse_lit(s, p3, l_unit()) {
                        None => None,
                        Some(p4) => match spec_parse_string(s, p4) {
                            None => None,
                            Some((unit, p5)) => match spec_parse_lit(s, p5, l_rbrace()) {
                                None => None,
                                Some(p6) => Some(
                                    (AvolModel { mode: mode, value: value, unit: unit }, p6),
                                ),
                            },
                        },
                    },
                },
            },
        },
    }
}

/// Parse the head of a state snapshot object: power, sleep, volume, mute,
/// and max volume.
pub open spec fn spec_parse_state_head(s: Seq<char>, pos: int) -> Option<
    ((MusicCastPowerString, u16, u16, bool, u16), int),
> {
    match spec_parse_lit(s, pos, l_obj()) {
        None => None,
        Some(p0) => match spec_parse_power(s, p0) {
            None => None,
            Some((power, p1)) => match spec_parse_lit(s, p1, l_sleep()) {
                None => None,
                Some(p2) => match spec_parse_u16(s, p2) {
                    None => None,
                    Some((sleep, p3)) => match spec_parse_lit(s, p3, l_volume()) {
                        None => None,
                        Some(p4) => match spec_parse_u16(s, p4) {
                            None => None,
                            Some((volume, p5)) => match spec_parse_lit(s, p5, l_mute()) {
                                None => None,
                                Some(p6) => match spec_parse_bool(s, p6) {
                                    None => None,
                                    Some((mute, p7)) => match spec_parse_lit(s, p7, l_maxvol()) {
                                        None => None,
                                        Some(p8) => match spec_parse_u16(s, p8) {
                                            None => None,
                                            Some((max_volume, p9)) => Some(
                                                ((power, sleep, volume, mute, max_volume), p9),
                                            ),
                                        },
                                    },
                                },
                            },
                        },
                    },
                },
            },
        },
    }
}

/// Parse a state snapshot object at `pos`.
pub open spec fn spec_parse_state(s: Seq<char>, pos: int) -> Option<(StateModel, int)> {
    match spec_parse_state_head(s, pos) {
        None => None,
        Some((head, p9)) => spec_parse_state_rest(s, p9, head.0, head.1, head.2, head.3, head.4),
    }
}

/// Parse the tail of a state snapshot object: input, subwoofer volume, and
/// the actual-volume object.
pub open spec fn spec_parse_state_rest(
    s: Seq<char>,
    pos: int,
    power: MusicCastPowerString,
    sleep: u16,
    volume: u16,
    mute: bool,
    max_volume: u16,
) -> Option<(StateModel, int)> {
    match spec_parse_lit(s, pos, l_input()) {
        None => None,
        Some(p0) => match spec_parse_string(s, p0) {
            None => None,
            Some((input, p1)) => match spec_parse_lit(s, p1, l_subvol()) {
                None => None,
                Some(p2) => match spec_parse_u16(s, p2) {
                    None => None,
                    Some((subwoofer_volume, p3)) => match spec_parse_lit(s, p3, l_avol()) {
                        None => None,
                        Some(p4) => match spec_parse_avol(s, p4) {
                            None => None,
                            Some((avol, p5)) => match spec_parse_lit(s, p5, l_rbrace()) {
                                None => None,
                                Some(p6) => Some(
                                    (
                                        StateModel {
                                            power: power,
                                            sleep: sleep,
                                            volume: volume,
                                            mute: mute,
                                            max_volume: max_volume,
                                            input: input,
                                            subwoofer_volume: subwoofer_volume,
                                            actual_volume: avol,
                                        },
                                        p6,
                                    ),
                                ),
                            },
                        },
                    },
                },
            },
        },
    }
}

/// Deserialize a whole text as one state snapshot: the parse must consume
/// every character.
pub open spec fn spec_deserialize_state(s: Seq<char>) -> Option<StateModel> {
    match spec_parse_state(s, 0) {
        None => None,
        Some((v, p)) => if p == s.len() {
            Some(v)
        } else {
            None
        },
    }
}

/// A serialized actual-volume object parses back unchanged.
#[verifier::rlimit(60)]
pub proof fn lemma_parse_avol_round(s: Seq<char>, pos: int, a: AvolModel)
    requires
        0 <= pos,
        pos + spec_serialize_avol(a).len() <= s.len(),
        s.subrange(pos, pos + spec_serialize_avol(a).len()) == spec_serialize_avol(a),
        a.wf(),
    ensures
        spec_parse_avol(s, pos) == Some((a, pos + spec_serialize_avol(a).len())),
{
    reveal_strlit("{\"mode\":\"");
    reveal_strlit(",\"value\":");
    reveal_strlit(",\"unit\":\"");
    reveal_strlit("}");
    assert(l_mode().len() == 9);
    assert(l_value().len() == 9);
    assert(l_unit().len() == 9);
    assert(l_rbrace().len() == 1);
    let blob = spec_serialize_avol(a);
    let em = spec_escape(a.mode);
    let eu = spec_escape(a.unit);
    let o0 = pos + l_mode().len();
    let o1 = o0 + em.len() + 1;
    let o2 = o1 + l_value().len();
    let o3 = o2 + a.value.len();
    let o4 = o3 + l_unit().len();
    let o5 = o4 + eu.len() + 1;
    let o6 = o5 + 1;
    assert(o6 == pos + blob.len());
    assert forall|j: int| pos <= j < pos + blob.len() implies #[trigger] s[j] == blob[j - pos] by {
        assert(s.subrange(pos, pos + blob.len())[j - pos] == s[j]);
    }
    assert(s.subrange(pos, o0) =~= l_mode());
    assert(spec_parse_lit(s, pos, l_mode()) == Some(o0));
    assert(s.subrange(o0, o1) =~= em + seq!['"']);
    lemma_parse_string_round(s, o0, a.mode);
    assert(s.subrange(o1, o2) =~= l_value());
    assert(spec_parse_lit(s, o1, l_value()) == Some(o2));
    assert(s.subrange(o2, o3) =~= a.value);
    assert(s[o3] == l_unit()[0]);
    assert(!is_numchar(s[o3]));
    lemma_parse_numtok_round(s, o2, a.value);
    assert(s.subrange(o3, o4) =~= l_unit());
    assert(spec_parse_lit(s, o3, l_unit()) == Some(o4));
    assert(s.subrange(o4, o5) =~= eu + seq!['"']);
    lemma_parse_string_round(s, o4, a.unit);
    assert(s.subrange(o5, o6) =~= l_rbrace());
    assert(spec_parse_lit(s, o5, l_rbrace()) == Some(o6));
    assert(spec_parse_avol(s, pos) == Some((AvolModel { mode: a.mode, value: a.value, unit: a.unit }, o6)));
    assert(AvolModel { mode: a.mode, value: a.value, unit: a.unit } =~= a);
}

/// A serialized snapshot tail parses back unchanged.
#[verifier::rlimit(100)]
pub proof fn lemma_parse_state_rest_round(s: Seq<char>, pos: int, v: StateModel)
    requires
        0 <= pos,
        pos + spec_serialize_state_rest(v).len() <= s.len(),
        s.subrange(pos, pos + spec_serialize_state_rest(v).len()) == spec_serialize_state_rest(v),
        v.wf(),
    ensures
        spec_parse_state_rest(s, pos, v.power, v.sleep, v.volume, v.mute, v.max_volume) == Some(
            (v, pos + spec_serialize_state_rest(v).len()),
        ),
{
    reveal_strlit(",\"input\":\"");
    reveal_strlit(",\"subwoofer_volume\":");
    reveal_strlit(",\"actual_volume\":");
    reveal_strlit("}");
    assert(l_input().len() == 10);
    assert(l_subvol().len() == 20);
    assert(l_avol().len() == 17);
    assert(l_rbrace().len() == 1);
    let text = spec_serialize_state_rest(v);
    let einp = spec_escape(v.input);
    let dsub = spec_u16_dec(v.subwoofer_volume as nat);
    let blob = spec_serialize_avol(v.actual_volume);
    let o0 = pos + l_input().len();
    let o1 = o0 + einp.len() + 1;
    let o2 = o1 + l_subvol().len();
    let o3 = o2 + dsub.len();
    let o4 = o3 + l_avol().len();
    let o5 = o4 + blob.len();
    let o6 = o5 + 1;
    assert(o6 == pos + text.len());
    assert forall|j: int| pos <= j < pos + text.len() implies #[trigger] s[j] == text[j - pos] by {
        assert(s.subrange(pos, pos + text.len())[j - pos] == s[j]);
    }
    assert(s.subrange(pos, o0) =~= l_input());
    assert(spec_parse_lit(s, pos, l_input()) == Some(o0));
    assert(s.subrange(o0, o1) =~= einp + seq!['"']);
    lemma_parse_string_round(s, o0, v.input);
    assert(s.subrange(o1, o2) =~= l_subvol());
    assert(spec_parse_lit(s, o1, l_subvol()) == Some(o2));
    assert(s.subrange(o2, o3) =~= dsub);
    assert(s[o3] == l_avol()[0]);
    assert(!is_digit(s[o3]));
    lemma_parse_u16_round(s, o2, v.subwoofer_volume);
    assert(s.subrange(o3, o4) =~= l_avol());
    assert(spec_parse_lit(s, o3, l_avol()) == Some(o4));
    assert(s.subrange(o4, o5) =~= blob);
    lemma_parse_avol_round(s, o4, v.actual_volume);
    assert(s.subrange(o5, o6) =~= l_rbrace());
    assert(spec_parse_lit(s, o5, l_rbrace()) == Some(o6));
    assert(spec_parse_state_rest(s, pos, v.power, v.sleep, v.volume, v.mute, v.max_volume)
        == Some(
        (
            StateModel {
                power: v.power,
                sleep: v.sleep,
                volume: v.volume,
                mute: v.mute,
                max_volume: v.max_volume,
                input: v.input,
                subwoofer_volume: v.subwoofer_volume,
                actual_volume: v.actual_volume,
            },
            o6,
        ),
    ));
    assert(StateModel {
        power: v.power,
        sleep: v.sleep,
        volume: v.volume,
        mute: v.mute,
        max_volume: v.max_volume,
        input: v.input,
        subwoofer_volume: v.subwoofer_volume,
        actual_volume: v.actual_volume,
    } =~= v);
}

/// The canonical JSON text of the head of a state snapshot.
pub open spec fn spec_serialize_state_head(v: StateModel) -> Seq<char> {
    l_obj() + spec_power_token(v.power) + l_sleep() + spec_u16_dec(v.sleep as nat) + l_volume()
        + spec_u16_dec(v.volume as nat) + l_mute() + spec_bool_token(v.mute) + l_maxvol()
        + spec_u16_dec(v.max_volume as nat)
}

/// A serialized snapshot head parses back unchanged.
#[verifier::rlimit(100)]
pub proof fn lemma_parse_state_head_round(s: Seq<char>, pos: int, v: StateModel)
    requires
        0 <= pos,
        pos + spec_serialize_state_head(v).len() <= s.len(),
        s.subrange(pos, pos + spec_serialize_state_head(v).len()) == spec_serialize_state_head(v),
        pos + spec_serialize_state_head(v).len() == s.len() || !is_digit(
            s[pos + spec_serialize_state_head(v).len()],
        ),
    ensures
        spec_parse_state_head(s, pos) == Some(
            (
                (v.power, v.sleep, v.volume, v.mute, v.max_volume),
                pos + spec_serialize_state_head(v).len(),
            ),
        ),
{
    reveal_strlit("{\"power\":\"");
    reveal_strlit("\",\"sleep\":");
    reveal_strlit(",\"volume\":");
    reveal_strlit(",\"mute\":");
    reveal_strlit(",\"max_volume\":");
    assert(l_obj().len() == 10);
    assert(l_sleep().len() == 10);
    assert(l_volume().len() == 10);
    assert(l_mute().len() == 8);
    assert(l_maxvol().len() == 14);
    let text = spec_serialize_state_head(v);
    let ptok = spec_power_token(v.power);
    let dsleep = spec_u16_dec(v.sleep as nat);
    let dvol = spec_u16_dec(v.volume as nat);
    let btok = spec_bool_token(v.mute);
    let dmax = spec_u16_dec(v.max_volume as nat);
    let o0 = pos + l_obj().len();
    let o1 = o0 + ptok.len();
    let o2 = o1 + l_sleep().len();
    let o3 = o2 + dsleep.len();
    let o4 = o3 + l_volume().len();
    let o5 = o4 + dvol.len();
    let o6 = o5 + l_mute().len();
    let o7 = o6 + btok.len();
    let o8 = o7 + l_maxvol().len();
    let o9 = o8 + dmax.len();
    assert(o9 == pos + text.len());
    assert forall|j: int| pos <= j < pos + text.len() implies #[trigger] s[j] == text[j - pos] by {
        assert(s.subrange(pos, pos + text.len())[j - pos] == s[j]);
    }
    assert(s.subrange(pos, o0) =~= l_obj());
    assert(spec_parse_lit(s, pos, l_obj()) == Some(o0));
    assert(s.subrange(o0, o1) =~= ptok);
    lemma_parse_power_round(s, o0, v.power);
    assert(s.subrange(o1, o2) =~= l_sleep());
    assert(spec_parse_lit(s, o1, l_sleep()) == Some(o2));
    assert(s.subrange(o2, o3) =~= dsleep);
    assert(s[o3] == l_volume()[0]);
    assert(!is_digit(s[o3]));
    lemma_parse_u16_round(s, o2, v.sleep);
    assert(s.subrange(o3, o4) =~= l_volume());
    assert(spec_parse_lit(s, o3, l_volume()) == Some(o4));
    assert(s.subrange(o4, o5) =~= dvol);
    assert(s[o5] == l_mute()[0]);
    assert(!is_digit(s[o5]));
    lemma_parse_u16_round(s, o4, v.volume);
    assert(s.subrange(o5, o6) =~= l_mute());
    assert(spec_parse_lit(s, o5, l_mute()) == Some(o6));
    assert(s.subrange(o6, o7) =~= btok);
    lemma_parse_bool_round(s, o6, v.mute);
    assert(s.subrange(o7, o8) =~= l_maxvol());
    assert(spec_parse_lit(s, o7, l_maxvol()) == Some(o8));
    assert(s.subrange(o8, o9) =~= dmax);
    lemma_parse_u16_round(s, o8, v.max_volume);
}

/// A serialized state snapshot parses back unchanged and consumes the whole
/// serialized text.
#[verifier::rlimit(100)]
pub proof fn lemma_parse_state_round(s: Seq<char>, pos: int, v: StateModel)
    requires
        0 <= pos,
        pos + spec_serialize_state(v).len() <= s.len(),
        s.subrange(pos, pos + spec_serialize_state(v).len()) == spec_serialize_state(v),
        v.wf(),
    ensures
        spec_parse_state(s, pos) == Some((v, pos + spec_serialize_state(v).len())),
{
    reveal_strlit(",\"input\":\"");
    assert(l_input().len() == 10);
    let text = spec_serialize_state(v);
    let head = spec_serialize_state_head(v);
    let rest = spec_serialize_state_rest(v);
    assert(text =~= head + rest);
    let o9 = pos + head.len();
    let o10 = o9 + rest.len();
    assert(o10 == pos + text.len());
    assert forall|j: int| pos <= j < pos + text.len() implies #[trigger] s[j] == text[j - pos] by {
        assert(s.subrange(pos, pos + text.len())[j - pos] == s[j]);
    }
    assert(s.subrange(pos, o9) =~= head);
    assert(s[o9] == l_input()[0]);
    assert(!is_digit(s[o9]));
    lemma_parse_state_head_round(s, pos, v);
    assert(s.subrange(o9, o10) =~= rest);
    lemma_parse_state_rest_round(s, o9, v);
    assert(spec_parse_state(s, pos) == Some((v, o10)));
}

/// Serializing a well-formed snapshot and deserializing the text yields the
/// snapshot back.
pub proof fn lemma_state_round_trip(v: StateModel)
    requires
        v.wf(),
    ensures
        spec_deserialize_state(spec_serialize_state(v)) == Some(v),
{
    let text = spec_serialize_state(v);
    assert(text.subrange(0, text.len() as int) =~= text);
    lemma_parse_state_round(text, 0, v);
}

/// Serialize a snapshot to its canonical JSON text.
#[verifier::rlimit(60)]
pub fn serialize_state(st: &MusicCastState) -> (out: Vec<char>)
    ensures
        out@ == spec_serialize_state(st@),
{
    let mut out: Vec<char> = Vec::new();
    push_str(&mut out, "{\"power\":\"");
    let ptok = crate::state::power_token(st.power);
    push_str(&mut out, ptok.as_str());
    push_str(&mut out, "\",\"sleep\":");
    push_u16(&mut out, st.sleep);
    push_str(&mut out, ",\"volume\":");
    push_u16(&mut out, st.volume);
    push_str(&mut out, ",\"mute\":");
    if st.mute {
        push_str(&mut out, "true");
    } else {
        push_str(&mut out, "false");
    }
    push_str(&mut out, ",\"max_volume\":");
    push_u16(&mut out, st.max_volume);
    push_str(&mut out, ",\"input\":\"");
    push_escaped(&mut out, &st.input);
    out.push('"');
    push_str(&mut out, ",\"subwoofer_volume\":");
    push_u16(&mut out, st.subwoofer_volume);
    push_str(&mut out, ",\"actual_volume\":");
    push_str(&mut out, "{\"mode\":\"");
    push_escaped(&mut out, &st.actual_volume.mode);
    out.push('"');
    push_str(&mut out, ",\"value\":");
    push_chars(&mut out, &st.actual_volume.value);
    push_str(&mut out, ",\"unit\":\"");
    push_escaped(&mut out, &st.actual_volume.unit);
    out.push('"');
    push_str(&mut out, "}");
    push_str(&mut out, "}");
    assert(out@ =~= spec_serialize_state(st@));
    out
}

/// Deserialize a snapshot from its canonical JSON text; texts in any other
/// form are rejected.
#[verifier::rlimit(60)]
pub fn deserialize_state(s: &Vec<char>) -> (r: Option<MusicCastState>)
    ensures
        r matches Some(st) ==> spec_deserialize_state(s@) == Some(st@) && st@.wf(),
        r is None ==> spec_deserialize_state(s@) is None,
{
    let p0 = match parse_lit(s, 0, "{\"power\":\"") {
        Some(p) => p,
        None => {
            return None;
        },
    };
    let (power, p1) = match parse_power(s, p0) {
        Some(vp) => vp,
        None => {
            return None;
        },
    };
    let p2 = match parse_lit(s, p1, "\",\"sleep\":") {
        Some(p) => p,
        None => {
            return None;
        },
    };
    let (sleep, p3) = match parse_u16(s, p2) {
        Some(vp) => vp,
        None => {
            return None;
        },
    };
    let p4 = match parse_lit(s, p3, ",\"volume\":") {
        Some(p) => p,
        None => {
            return None;
        },
    };
    let (volume, p5) = match parse_u16(s, p4) {
        Some(vp) => vp,
        None => {
            return None;
        },
    };
    let p6 = match parse_lit(s, p5, ",\"mute\":") {
        Some(p) => p,
        None => {
            return None;
        },
    };
    let (mute, p7) = match parse_bool(s, p6) {
        Some(vp) => vp,
        None => {
            return None;
        },
    };
    let p8 = match parse_lit(s, p7, ",\"max_volume\":") {
        Some(p) => p,
        None => {
            return None;
        },
    };
    let (max_volume, p9) = match parse_u16(s, p8) {
        Some(vp) => vp,
        None => {
            return None;
        },
    };
    let p10 = match parse_lit(s, p9, ",\"input\":\"") {
        Some(p) => p,
        None => {
            return None;
        },
    };
    let (input, p11) = match parse_string(s, p10) {
        Some(vp) => vp,
        None => {
            return None;
        },
    };
    let p12 = match parse_lit(s, p11, ",\"subwoofer_volume\":") {
        Some(p) => p,
        None => {
            return None;
        },
    };
    let (subwoofer_volume, p13) = match parse_u16(s, p12) {
        Some(vp) => vp,
        None => {
            return None;
        },
    };
    let p14 = match parse_lit(s, p13, ",\"actual_volume\":") {
        Some(p) => p,
        None => {
            return None;
        },
    };
    let (avol, p15) = match parse_avol(s, p14) {
        Some(vp) => vp,
        None => {
            return None;
        },
    };
    let p16 = match parse_lit(s, p15, "}") {
        Some(p) => p,
        None => {
            return None;
        },
    };
    let st = MusicCastState {
        power,
        sleep,
        volume,
        mute,
        max_volume,
        input,
        subwoofer_volume,
        actual_volume: avol,
    };
    if p16 == s.len() {
        assert(spec_parse_state(s@, 0) == Some((st@, p16 as int)));
        Some(st)
    } else {
        None
    }
}

/// Parse an actual-volume object at `pos`; equal to the spec-level parser.
#[verifier::rlimit(60)]
pub fn parse_avol(s: &Vec<char>, pos: usize) -> (r: Option<(ActualVolume, usize)>)
    requires
        pos <= s@.len(),
    ensures
        r matches Some(vp) ==> spec_parse_avol(s@, pos as int) == Some((vp.0@, vp.1 as int))
            && pos <= vp.1 <= s@.len() && vp.0.wf(),
        r is None ==> spec_parse_avol(s@, pos as int) is None,
{
    let p0 = match parse_lit(s, pos, "{\"mode\":\"") {
        Some(p) => p,
        None => {
            return None;
        },
    };
    let (mode, p1) = match parse_string(s, p0) {
        Some(vp) => vp,
        None => {
            return None;
        },
    };
    let p2 = match parse_lit(s, p1, ",\"value\":") {
        Some(p) => p,
        None => {
            return None;
        },
    };
    let (value, p3) = match parse_numtok(s, p2) {
        Some(vp) => vp,
        None => {
            return None;
        },
    };
    let p4 = match parse_lit(s, p3, ",\"unit\":\"") {
        Some(p) => p,
        None => {
            return None;
        },
    };
    let (unit, p5) = match parse_string(s, p4) {
        Some(vp) => vp,
        None => {
            return None;
        },
    };
    let p6 = match parse_lit(s, p5, "}") {
        Some(p) => p,
        None => {
            return None;
        },
    };
    let a = ActualVolume { mode, value, unit };
    assert(spec_parse_avol(s@, pos as int) == Some((a@, p6 as int)));
    Some((a, p6))
}

/// Read a status payload as a state snapshot: a text that is not the
/// canonical JSON form of a snapshot is a format error, never coerced.
pub fn parse_status_response(body: &Vec<char>) -> (r: Result<MusicCastState, BridgeError>)
    ensures
        r matches Ok(st) ==> spec_deserialize_state(body@) == Some(st@) && st@.wf(),
        r matches Err(e) ==> e == BridgeError::DeviceProtocolError && (spec_deserialize_state(
            body@,
        ) is None),
{
    match deserialize_state(body) {
        Some(st) => Ok(st),
        None => Err(BridgeError::DeviceProtocolError),
    }
}

} // verus!
