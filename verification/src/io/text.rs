use vstd::prelude::*;
use crate::io::{DateTime, weekday_of, weekday_from_monday};

verus! {

/// The characters of ASCII bytes.
pub open spec fn ascii(bytes: Seq<u8>) -> Seq<char> {
    bytes.map_values(|b: u8| b as char)
}

/// Every byte is an ASCII character.
pub open spec fn all_ascii(bytes: Seq<u8>) -> bool {
    forall|i: int| 0 <= i < bytes.len() ==> #[trigger] bytes[i] < 128
}

/// `String::from_utf8`, which cannot fail on ASCII bytes: the string of those bytes.
#[verifier::external_body]
pub(crate) fn ascii_to_string(bytes: Vec<u8>) -> (s: String)
    requires
        all_ascii(bytes@),
    ensures
        s@ == ascii(bytes@),
{
    String::from_utf8(bytes).unwrap()
}

/// The decimal digits of `v`, most significant first, without leading zeros.
pub open spec fn decimal(v: nat) -> Seq<u8>
    decreases v,
{
    if v < 10 {
        seq![(48 + v) as u8]
    } else {
        decimal(v / 10).push((48 + v % 10) as u8)
    }
}

/// `v` printed with `{:02}`: its decimal digits, with a leading zero below ten.
pub open spec fn decimal2(v: nat) -> Seq<u8> {
    if v < 10 {
        seq![48u8] + decimal(v)
    } else {
        decimal(v)
    }
}

pub(crate) proof fn lemma_decimal_ascii(v: nat)
    ensures
        all_ascii(decimal(v)),
        1 <= decimal(v).len(),
    decreases v,
{
    if v >= 10 {
        lemma_decimal_ascii(v / 10);
    }
}

/// Appends the decimal digits of `v` to `out`.
pub fn push_decimal(out: &mut Vec<u8>, v: u64)
    ensures
        final(out)@ == old(out)@ + decimal(v as nat),
    decreases v,
{
    if v >= 10 {
        push_decimal(out, v / 10);
    }
    out.push((48 + v % 10) as u8);
    proof {
        if v >= 10 {
            assert(old(out)@ + decimal(v as nat) == old(out)@ + decimal((v / 10) as nat) + seq![(48 + v % 10) as u8]);
        }
    }
}

/// Appends `v` as `{:02}` prints it.
pub fn push_decimal2(out: &mut Vec<u8>, v: u64)
    ensures
        final(out)@ == old(out)@ + decimal2(v as nat),
{
    if v < 10 {
        out.push(48);
    }
    push_decimal(out, v);
    proof {
        if v < 10 {
            assert(old(out)@ + decimal2(v as nat) == old(out)@.push(48u8) + decimal(v as nat));
        }
    }
}

/// `hh:mm`, each part printed with `{:02}`.
pub open spec fn time_text(hour: nat, minute: nat) -> Seq<u8> {
    decimal2(hour) + seq![58u8] + decimal2(minute)
}

/// Three letter names of the months, January first.
pub open spec fn month_name(month0: int) -> Seq<u8> {
    if month0 == 0 {
        seq![106u8, 97, 110]  // jan

    } else if month0 == 1 {
        seq![102u8, 101, 98]  // feb

    } else if month0 == 2 {
        seq![109u8, 97, 114]  // mar

    } else if month0 == 3 {
        seq![97u8, 112, 114]  // apr

    } else if month0 == 4 {
        seq![109u8, 97, 121]  // may

    } else if month0 == 5 {
        seq![106u8, 117, 110]  // jun

    } else if month0 == 6 {
        seq![106u8, 117, 108]  // jul

    } else if month0 == 7 {
        seq![97u8, 117, 103]  // aug

    } else if month0 == 8 {
        seq![115u8, 101, 112]  // sep

    } else if month0 == 9 {
        seq![111u8, 99, 116]  // oct

    } else if month0 == 10 {
        seq![110u8, 111, 118]  // nov

    } else {
        seq![100u8, 101, 99]  // dec

    }
}

/// Three letter names of the days of the week, Monday first.
pub open spec fn day_name(dow: int) -> Seq<u8> {
    if dow == 0 {
        seq![109u8, 111, 110]  // mon

    } else if dow == 1 {
        seq![116u8, 117, 101]  // tue

    } else if dow == 2 {
        seq![119u8, 101, 100]  // wed

    } else if dow == 3 {
        seq![116u8, 104, 117]  // thu

    } else if dow == 4 {
        seq![102u8, 114, 105]  // fri

    } else if dow == 5 {
        seq![115u8, 97, 116]  // sat

    } else {
        seq![115u8, 117, 110]  // sun

    }
}

/// Appends the name of month `month0` (0 = January).
pub fn push_month_name(out: &mut Vec<u8>, month0: u32)
    requires
        month0 < 12,
    ensures
        final(out)@ == old(out)@ + month_name(month0 as int),
{
    let name: [u8; 3] = match month0 {
        0 => ['j' as u8, 'a' as u8, 'n' as u8],
        1 => ['f' as u8, 'e' as u8, 'b' as u8],
        2 => ['m' as u8, 'a' as u8, 'r' as u8],
        3 => ['a' as u8, 'p' as u8, 'r' as u8],
        4 => ['m' as u8, 'a' as u8, 'y' as u8],
        5 => ['j' as u8, 'u' as u8, 'n' as u8],
        6 => ['j' as u8, 'u' as u8, 'l' as u8],
        7 => ['a' as u8, 'u' as u8, 'g' as u8],
        8 => ['s' as u8, 'e' as u8, 'p' as u8],
        9 => ['o' as u8, 'c' as u8, 't' as u8],
        10 => ['n' as u8, 'o' as u8, 'v' as u8],
        _ => ['d' as u8, 'e' as u8, 'c' as u8],
    };
    out.push(name[0]);
    out.push(name[1]);
    out.push(name[2]);
    assert(old(out)@ + month_name(month0 as int) == old(out)@.push(name[0]).push(name[1]).push(name[2]));
}

/// Appends the name of day `dow` of the week (0 = Monday).
pub fn push_day_name(out: &mut Vec<u8>, dow: u32)
    requires
        dow < 7,
    ensures
        final(out)@ == old(out)@ + day_name(dow as int),
{
    let name: [u8; 3] = match dow {
        0 => ['m' as u8, 'o' as u8, 'n' as u8],
        1 => ['t' as u8, 'u' as u8, 'e' as u8],
        2 => ['w' as u8, 'e' as u8, 'd' as u8],
        3 => ['t' as u8, 'h' as u8, 'u' as u8],
        4 => ['f' as u8, 'r' as u8, 'i' as u8],
        5 => ['s' as u8, 'a' as u8, 't' as u8],
        _ => ['s' as u8, 'u' as u8, 'n' as u8],
    };
    out.push(name[0]);
    out.push(name[1]);
    out.push(name[2]);
    assert(old(out)@ + day_name(dow as int) == old(out)@.push(name[0]).push(name[1]).push(name[2]));
}

pub(crate) proof fn lemma_names_ascii(i: int)
    ensures
        all_ascii(month_name(i)),
        all_ascii(day_name(i)),
{
}

pub(crate) proof fn lemma_concat_ascii(a: Seq<u8>, b: Seq<u8>)
    requires
        all_ascii(a),
        all_ascii(b),
    ensures
        all_ascii(a + b),
{
    assert forall|i: int| 0 <= i < (a + b).len() implies #[trigger] (a + b)[i] < 128 by {
        if i < a.len() {
            assert((a + b)[i] == a[i]);
        } else {
            assert((a + b)[i] == b[i - a.len()]);
        }
    }
}

/// The time of day as the watch face shows it, `hh:mm`.
pub fn get_time_str(t: &DateTime) -> (s: String)
    ensures
        s@ == ascii(time_text(t.hour as nat, t.minute as nat)),
{
    let mut out: Vec<u8> = Vec::new();
    push_decimal2(&mut out, t.hour as u64);
    out.push(':' as u8);
    push_decimal2(&mut out, t.minute as u64);
    proof {
        lemma_decimal_ascii(t.hour as nat);
        lemma_decimal_ascii(t.minute as nat);
        lemma_concat_ascii(seq![48u8], decimal(t.hour as nat));
        lemma_concat_ascii(seq![48u8], decimal(t.minute as nat));
        lemma_concat_ascii(decimal2(t.hour as nat), seq![58u8]);
        lemma_concat_ascii(decimal2(t.hour as nat) + seq![58u8], decimal2(t.minute as nat));
        assert(out@ == time_text(t.hour as nat, t.minute as nat));
    }
    ascii_to_string(out)
}

/// The day of the week, `mon` to `sun`.
pub fn get_dow_str(t: &DateTime) -> (s: String)
    requires
        t.valid(),
    ensures
        s@ == ascii(day_name(weekday_from_monday(t.year as int, t.month as int, t.day as int))),
{
    let dow = weekday_of(t.year, t.month, t.day);
    let mut out: Vec<u8> = Vec::new();
    push_day_name(&mut out, dow);
    proof {
        lemma_names_ascii(dow as int);
        assert(out@ == day_name(dow as int));
    }
    ascii_to_string(out)
}

/// The day of the month and the month's name, as in `19 mar`.
pub fn get_date_str(t: &DateTime) -> (s: String)
    requires
        1 <= t.month <= 12,
    ensures
        s@ == ascii(decimal(t.day as nat) + seq![32u8] + month_name(t.month - 1)),
{
    let mut out: Vec<u8> = Vec::new();
    push_decimal(&mut out, t.day as u64);
    out.push(' ' as u8);
    push_month_name(&mut out, t.month - 1);
    proof {
        lemma_decimal_ascii(t.day as nat);
        lemma_names_ascii(t.month - 1);
        lemma_concat_ascii(decimal(t.day as nat), seq![32u8]);
        lemma_concat_ascii(decimal(t.day as nat) + seq![32u8], month_name(t.month - 1));
        assert(out@ == decimal(t.day as nat) + seq![32u8] + month_name(t.month - 1));
    }
    ascii_to_string(out)
}

/// A setting's value in decimal, as the setting pages show it.
pub fn dtset_string(val: u16) -> (s: String)
    ensures
        s@ == ascii(decimal(val as nat)),
{
    let mut out: Vec<u8> = Vec::new();
    push_decimal(&mut out, val as u64);
    proof {
        lemma_decimal_ascii(val as nat);
        assert(out@ == decimal(val as nat));
    }
    ascii_to_string(out)
}

/// The digits of `v` are decimal digits, two of them below 100.
pub(crate) proof fn lemma_decimal_digits(v: nat)
    ensures
        forall|i: int| 0 <= i < decimal(v).len() ==> 48 <= #[trigger] decimal(v)[i] <= 57,
        v < 10 ==> decimal(v).len() == 1,
        10 <= v < 100 ==> decimal(v).len() == 2,
    decreases v,
{
    if v >= 10 {
        lemma_decimal_digits(v / 10);
        assert forall|i: int| 0 <= i < decimal(v).len() implies 48 <= #[trigger] decimal(v)[i]
            <= 57 by {
            if i < decimal(v / 10).len() {
                assert(decimal(v)[i] == decimal(v / 10)[i]);
            }
        }
    }
}

/// A span of time as the stopwatch shows it, `mm:ss` with each part printed with `{:02}`; a
/// negative span shows as `00:00`.
pub open spec fn td_text(seconds: int) -> Seq<u8> {
    let t = if seconds < 0 {
        0
    } else {
        seconds
    };
    decimal2((t / 60) as nat) + seq![58u8] + decimal2((t % 60) as nat)
}

/// The day of the month and the month's name, as in `19 mar`.
pub open spec fn date_text(t: DateTime) -> Seq<u8> {
    decimal(t.day as nat) + seq![32u8] + month_name(t.month - 1)
}

/// The bytes of `td_text`.
pub fn td_bytes(seconds: i64) -> (v: Vec<u8>)
    ensures
        v@ == td_text(seconds as int),
{
    let t: u64 = if seconds < 0 {
        0
    } else {
        seconds as u64
    };
    let mut out: Vec<u8> = Vec::new();
    push_decimal2(&mut out, t / 60);
    out.push(':' as u8);
    push_decimal2(&mut out, t % 60);
    out
}

/// A span of time in seconds as the stopwatch shows it.
pub fn td_string(seconds: i64) -> (s: String)
    ensures
        s@ == ascii(td_text(seconds as int)),
{
    let out = td_bytes(seconds);
    proof {
        let t = if seconds < 0 {
            0
        } else {
            seconds as int
        };
        lemma_decimal_ascii((t / 60) as nat);
        lemma_decimal_ascii((t % 60) as nat);
        lemma_concat_ascii(seq![48u8], decimal((t / 60) as nat));
        lemma_concat_ascii(seq![48u8], decimal((t % 60) as nat));
        lemma_concat_ascii(decimal2((t / 60) as nat), seq![58u8]);
        lemma_concat_ascii(decimal2((t / 60) as nat) + seq![58u8], decimal2((t % 60) as nat));
    }
    ascii_to_string(out)
}

/// The bytes of `time_text` for the time of `t`.
pub fn time_bytes(t: &DateTime) -> (v: Vec<u8>)
    ensures
        v@ == time_text(t.hour as nat, t.minute as nat),
{
    let mut out: Vec<u8> = Vec::new();
    push_decimal2(&mut out, t.hour as u64);
    out.push(':' as u8);
    push_decimal2(&mut out, t.minute as u64);
    out
}

/// The bytes of `date_text`.
pub fn date_bytes(t: &DateTime) -> (v: Vec<u8>)
    requires
        1 <= t.month <= 12,
    ensures
        v@ == date_text(*t),
{
    let mut out: Vec<u8> = Vec::new();
    push_decimal(&mut out, t.day as u64);
    out.push(' ' as u8);
    push_month_name(&mut out, t.month - 1);
    out
}

/// The bytes of the name of the day of the week of `t`.
pub fn dow_bytes(t: &DateTime) -> (v: Vec<u8>)
    requires
        t.valid(),
    ensures
        v@ == day_name(weekday_from_monday(t.year as int, t.month as int, t.day as int)),
{
    let dow = weekday_of(t.year, t.month, t.day);
    let mut out: Vec<u8> = Vec::new();
    push_day_name(&mut out, dow);
    out
}

} // verus!
