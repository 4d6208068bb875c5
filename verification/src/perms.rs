//! Unix permission bits as the permissions dialog edits them: twelve check
//! boxes (read, write and execute for owner, group and others, then
//! set-user-ID, set-group-ID and sticky), and the same mode as four octal
//! digits.
use vstd::prelude::*;
use crate::text::{chars_of, string_from_chars, parse_unsigned, parse_unsigned_spec, trim, trim_chars, digit_char};

verus! {

/// The permission bits the dialog shows, in its row order: owner read,
/// write, execute, set-user-ID; group read, write, execute, set-group-ID;
/// others read, write, execute, sticky.
pub open spec fn mode_mask(i: int) -> u32 {
    if i == 0 { 0o400 }
    else if i == 1 { 0o200 }
    else if i == 2 { 0o100 }
    else if i == 3 { 0o4000 }
    else if i == 4 { 0o040 }
    else if i == 5 { 0o020 }
    else if i == 6 { 0o010 }
    else if i == 7 { 0o2000 }
    else if i == 8 { 0o004 }
    else if i == 9 { 0o002 }
    else if i == 10 { 0o001 }
    else { 0o1000 }
}

/// The bit of check box `i`.
pub fn mode_mask_at(i: usize) -> (res: u32)
    requires
        i < 12,
    ensures
        res == mode_mask(i as int),
{
    match i {
        0 => 0o400,
        1 => 0o200,
        2 => 0o100,
        3 => 0o4000,
        4 => 0o040,
        5 => 0o020,
        6 => 0o010,
        7 => 0o2000,
        8 => 0o004,
        9 => 0o002,
        10 => 0o001,
        _ => 0o1000,
    }
}

/// The mode that check boxes stand for: the bits of the ticked ones.
pub open spec fn mode_of_checks(checks: Seq<(bool, u32)>) -> u32
    decreases checks.len(),
{
    if checks.len() == 0 {
        0
    } else {
        let rest = mode_of_checks(checks.drop_last());
        if checks.last().0 { rest | checks.last().1 } else { rest }
    }
}

/// The mode that ticked check boxes stand for, each box given with its bit.
pub fn mode_from_checks(checks: &[(bool, u32)]) -> (res: u32)
    ensures
        res == mode_of_checks(checks@),
{
    let mut m: u32 = 0;
    let mut i: usize = 0;
    assert(checks@.take(0) =~= Seq::<(bool, u32)>::empty());
    while i < checks.len()
        invariant
            i <= checks.len(),
            m == mode_of_checks(checks@.take(i as int)),
        decreases checks.len() - i,
    {
        let (on, mask) = checks[i];
        if on {
            m = m | mask;
        }
        assert(checks@.take(i + 1).drop_last() =~= checks@.take(i as int));
        i += 1;
    }
    assert(checks@.take(checks@.len() as int) =~= checks@);
    m
}

/// The check boxes of the dialog for a mode: box `i` is ticked when the
/// mode has its bit.
pub fn checks_for_mode(mode: u32) -> (res: Vec<(bool, u32)>)
    ensures
        res@.len() == 12,
        forall|i: int| 0 <= i < 12 ==> (#[trigger] res@[i]) == ((mode & mode_mask(i)) != 0, mode_mask(i)),
{
    let mut res: Vec<(bool, u32)> = Vec::new();
    let mut i: usize = 0;
    while i < 12
        invariant
            i <= 12,
            res@.len() == i,
            forall|k: int| 0 <= k < i ==> (#[trigger] res@[k]) == ((mode & mode_mask(k)) != 0, mode_mask(k)),
        decreases 12 - i,
    {
        let mask = mode_mask_at(i);
        res.push(((mode & mask) != 0, mask));
        i += 1;
    }
    res
}

/// Ticking the boxes for a mode and reading them back gives the mode's
/// permission bits (its low twelve bits).
pub proof fn lemma_checks_round_trip(mode: u32, checks: Seq<(bool, u32)>)
    requires
        checks.len() == 12,
        forall|i: int| 0 <= i < 12 ==> (#[trigger] checks[i]) == ((mode & mode_mask(i)) != 0, mode_mask(i)),
    ensures
        mode_of_checks(checks) == mode & 0o7777,
{
    let m = mode;
    lemma_checks_prefix(m, checks, 12);
    assert(checks.take(12) =~= checks);
    reveal_with_fuel(partial_mode, 13);
    assert(partial_mode(m, 12) == m & 0o7777) by (bit_vector)
        requires
            partial_mode(m, 12) == ((((((((((((0u32
                | (if m & 0o400u32 != 0 { 0o400u32 } else { 0 }))
                | (if m & 0o200u32 != 0 { 0o200u32 } else { 0 }))
                | (if m & 0o100u32 != 0 { 0o100u32 } else { 0 }))
                | (if m & 0o4000u32 != 0 { 0o4000u32 } else { 0 }))
                | (if m & 0o040u32 != 0 { 0o040u32 } else { 0 }))
                | (if m & 0o020u32 != 0 { 0o020u32 } else { 0 }))
                | (if m & 0o010u32 != 0 { 0o010u32 } else { 0 }))
                | (if m & 0o2000u32 != 0 { 0o2000u32 } else { 0 }))
                | (if m & 0o004u32 != 0 { 0o004u32 } else { 0 }))
                | (if m & 0o002u32 != 0 { 0o002u32 } else { 0 }))
                | (if m & 0o001u32 != 0 { 0o001u32 } else { 0 }))
                | (if m & 0o1000u32 != 0 { 0o1000u32 } else { 0 })),
    ;
}

proof fn lemma_checks_prefix(m: u32, checks: Seq<(bool, u32)>, k: int)
    requires
        0 <= k <= 12,
        checks.len() == 12,
        forall|i: int| 0 <= i < 12 ==> (#[trigger] checks[i]) == ((m & mode_mask(i)) != 0, mode_mask(i)),
    ensures
        mode_of_checks(checks.take(k)) == partial_mode(m, k),
    decreases k,
{
    if k > 0 {
        lemma_checks_prefix(m, checks, k - 1);
        assert(checks.take(k).drop_last() =~= checks.take(k - 1));
        assert(checks.take(k).last() == checks[k - 1]);
        let r = partial_mode(m, k - 1);
        assert(r | 0u32 == r) by (bit_vector);
    }
}

/// The bits of the first `k` check boxes that a mode has, collected in
/// box order.
spec fn partial_mode(m: u32, k: int) -> u32
    decreases k,
{
    if k <= 0 {
        0
    } else {
        partial_mode(m, k - 1) | (if m & mode_mask(k - 1) != 0 { mode_mask(k - 1) } else { 0 })
    }
}

/// Four octal digits of the low twelve bits of a mode (`{:04o}` of
/// `mode & 0o7777`).
pub open spec fn octal4(mode: u32) -> Seq<char> {
    let m = (mode & 0o7777) as nat;
    seq![digit_char((m / 512) % 8), digit_char((m / 64) % 8), digit_char((m / 8) % 8), digit_char(m % 8)]
}

fn octal_digit(d: u32) -> (c: char)
    requires
        d < 8,
    ensures
        c == digit_char(d as nat),
{
    match d {
        0 => '0',
        1 => '1',
        2 => '2',
        3 => '3',
        4 => '4',
        5 => '5',
        6 => '6',
        _ => '7',
    }
}

/// The text of the octal field for a mode.
pub fn format_mode(mode: u32) -> (res: String)
    ensures
        res@ == octal4(mode),
{
    let m = mode & 0o7777;
    let mut out: Vec<char> = Vec::new();
    out.push(octal_digit((m / 512) % 8));
    out.push(octal_digit((m / 64) % 8));
    out.push(octal_digit((m / 8) % 8));
    out.push(octal_digit(m % 8));
    assert(out@ =~= octal4(mode));
    string_from_chars(out.as_slice())
}

/// What the octal field holds as a mode: its trimmed text read as an octal
/// `u32`, keeping the low twelve bits; nothing when it is not octal.
pub open spec fn parse_mode_spec(text: Seq<char>) -> Option<u32> {
    match parse_unsigned_spec(trim(text), 8, 0xffff_ffff) {
        Some(v) => Some((v as u32) & 0o7777),
        None => None,
    }
}

/// Reads the octal field.
pub fn parse_mode(text: &str) -> (res: Option<u32>)
    ensures
        res == parse_mode_spec(text@),
{
    let cs = chars_of(text);
    let t = trim_chars(cs.as_slice());
    match parse_unsigned(t.as_slice(), 8, 0xffff_ffff) {
        Some(v) => Some((v as u32) & 0o7777),
        None => None,
    }
}

/// The mode the dialog applies: the octal field when it reads as a mode,
/// else the ticked boxes.
pub fn applied_mode(text: &str, checks: &[(bool, u32)]) -> (res: u32)
    ensures
        res == (match parse_mode_spec(text@) {
            Some(m) => m,
            None => mode_of_checks(checks@),
        }),
{
    match parse_mode(text) {
        Some(m) => m,
        None => mode_from_checks(checks),
    }
}

/// Writing a mode in the octal field and reading it back gives its
/// permission bits.
pub proof fn lemma_octal_round_trip(mode: u32)
    ensures
        parse_mode_spec(octal4(mode)) == Some(mode & 0o7777),
{
    let m = mode & 0o7777;
    assert(mode & 0o7777 < 4096) by (bit_vector);
    let s = octal4(mode);
    let (d0, d1, d2, d3) = ((m as nat / 512) % 8, (m as nat / 64) % 8, (m as nat / 8) % 8, m as nat % 8);
    assert(trim(s) == s) by {
        crate::text::lemma_trim_no_white(s);
    }
    assert(crate::text::digit_of(s[0], 8) == Some(d0));
    assert(crate::text::digit_of(s[1], 8) == Some(d1));
    assert(crate::text::digit_of(s[2], 8) == Some(d2));
    assert(crate::text::digit_of(s[3], 8) == Some(d3));
    assert(s.take(1).drop_last() =~= Seq::<char>::empty());
    assert(s.take(2).drop_last() =~= s.take(1));
    assert(s.take(3).drop_last() =~= s.take(2));
    assert(s.drop_last() =~= s.take(3));
    assert(s.take(1).last() == s[0]);
    assert(s.take(2).last() == s[1]);
    assert(s.take(3).last() == s[2]);
    assert(s.last() == s[3]);
    assert(crate::text::digits_value(Seq::<char>::empty(), 8) == 0);
    assert(crate::text::digits_value(s.take(1), 8) == crate::text::digits_value(s.take(1).drop_last(), 8) * 8 + d0);
    assert(crate::text::digits_value(s.take(1), 8) == d0);
    assert(crate::text::digits_value(s.take(2), 8) == d0 * 8 + d1);
    assert(crate::text::digits_value(s.take(3), 8) == (d0 * 8 + d1) * 8 + d2);
    assert(crate::text::digits_value(s, 8) == ((d0 * 8 + d1) * 8 + d2) * 8 + d3);
    assert(((d0 * 8 + d1) * 8 + d2) * 8 + d3 == m) by (nonlinear_arith)
        requires
            m < 4096,
            d0 == (m as nat / 512) % 8,
            d1 == (m as nat / 64) % 8,
            d2 == (m as nat / 8) % 8,
            d3 == m as nat % 8,
    ;
    assert(((m as u32) & 0o7777u32) == m) by (bit_vector)
        requires m < 4096u32;
    assert(s[0] != '+');
}

} // verus!
