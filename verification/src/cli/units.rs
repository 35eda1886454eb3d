//! Sizes and times as people read them.

use vstd::prelude::*;

use crate::cli::lang::Lang;
use crate::text::{decimal, push_decimal};

verus! {

/// The largest number below which every whole number has a floating-point
/// number of its own.
pub const EXACT_LIMIT: u128 = 0x20_0000_0000_0000;

/// `x / step`, rounded to the nearest whole number, and to the even one of two
/// that are equally near.
pub open spec fn nearest(x: int, step: int) -> int {
    let low = x / step;
    let rest = x % step;
    if 2 * rest > step || (2 * rest == step && low % 2 == 1) {
        low + 1
    } else {
        low
    }
}

fn round(x: u128, step: u128) -> (r: u128)
    requires
        0 < step <= 0x1_0000_0000_0000_0000,
    ensures
        r == nearest(x as int, step as int),
{
    let low: u128 = x / step;
    let rest: u128 = x % step;
    if step > 1 {
        proof {
            assert(low < u128::MAX) by (nonlinear_arith)
                requires
                    low == x / step,
                    step > 1,
                    x <= u128::MAX,
            ;
        }
    }
    if 2 * rest > step || (2 * rest == step && low % 2 == 1) {
        low + 1
    } else {
        low
    }
}

/// The distance between neighbouring floating-point numbers of the size of `x`
/// that are whole: a power of two, and one while every whole number is a
/// floating-point number.
pub open spec fn spacing(x: int) -> int
    decreases x,
{
    if x < EXACT_LIMIT {
        1
    } else {
        2 * spacing(x / 2)
    }
}

fn spacing_of(x: u128) -> (step: u128)
    requires
        x <= u64::MAX,
    ensures
        step == spacing(x as int),
        1 <= step,
        x >= 1 ==> step <= x,
        x == 0 ==> step == 1,
    decreases x,
{
    if x < EXACT_LIMIT {
        1
    } else {
        2 * spacing_of(x / 2)
    }
}

/// The floating-point number nearest to a number of bytes.
pub open spec fn as_float(bytes: int) -> int {
    nearest(bytes, spacing(bytes)) * spacing(bytes)
}

/// The number of bytes in the unit of the given rank.
pub open spec fn unit_bytes(rank: int) -> int
    decreases rank,
{
    if rank <= 0 {
        1
    } else {
        1024 * unit_bytes(rank - 1)
    }
}

/// The highest rank of a unit.
pub const LAST_UNIT: usize = 4;

/// The name of the unit of the given rank.
pub open spec fn unit_name(rank: int) -> Seq<char> {
    if rank <= 0 {
        "B"@
    } else if rank == 1 {
        "KiB"@
    } else if rank == 2 {
        "MiB"@
    } else if rank == 3 {
        "GiB"@
    } else {
        "TiB"@
    }
}

/// The rank of the unit that a size is shown in, from `rank` on: the first of
/// which the size has less than a thousand and twenty-four, or the last.
pub open spec fn unit_rank(size: int, rank: int) -> int
    decreases LAST_UNIT - rank,
{
    if rank >= LAST_UNIT || size < 1024 * unit_bytes(rank) {
        rank
    } else {
        unit_rank(size, rank + 1)
    }
}

/// A size to one decimal place.
pub open spec fn size_text(size: int) -> Seq<char> {
    let rank = unit_rank(size, 0);
    let tenths = nearest(10 * size, unit_bytes(rank));
    decimal((tenths / 10) as nat) + "."@ + decimal((tenths % 10) as nat) + " "@ + unit_name(rank)
}

/// A number of bytes, in the unit that suits it, to one decimal place.
pub fn format_bytes(bytes: u64) -> (text: String)
    ensures
        text@ == size_text(as_float(bytes as int)),
{
    let step: u128 = spacing_of(bytes as u128);
    let whole: u128 = round(bytes as u128, step);
    proof {
        lemma_float_fits(bytes as int, step as int);
    }
    let size: u128 = whole * step;
    let mut rank: usize = 0;
    let mut unit: u128 = 1;
    while rank < LAST_UNIT && size >= 1024 * unit
        invariant
            rank <= LAST_UNIT,
            unit == unit_bytes(rank as int),
            rank == 0 ==> unit == 1,
            rank == 1 ==> unit == 0x400,
            rank == 2 ==> unit == 0x10_0000,
            rank == 3 ==> unit == 0x4000_0000,
            rank == 4 ==> unit == 0x100_0000_0000,
            unit_rank(size as int, 0) == unit_rank(size as int, rank as int),
        decreases LAST_UNIT - rank,
    {
        unit = 1024 * unit;
        rank += 1;
    }
    let tenths: u128 = round(10 * size, unit);
    proof {
        lemma_tenths_fit(size as int, unit as int, rank as int);
    }
    let mut text = String::new();
    push_decimal(&mut text, (tenths / 10) as u64);
    text.append(".");
    push_decimal(&mut text, (tenths % 10) as u64);
    text.append(" ");
    text.append(
        if rank == 0 {
            "B"
        } else if rank == 1 {
            "KiB"
        } else if rank == 2 {
            "MiB"
        } else if rank == 3 {
            "GiB"
        } else {
            "TiB"
        },
    );
    text
}

proof fn lemma_float_fits(bytes: int, step: int)
    requires
        0 <= bytes <= u64::MAX,
        1 <= step,
        bytes >= 1 ==> step <= bytes,
        bytes == 0 ==> step == 1,
    ensures
        0 <= nearest(bytes, step) * step <= 2 * u64::MAX,
{
    let low = bytes / step;
    assert(0 <= low && low * step <= bytes) by (nonlinear_arith)
        requires
            low == bytes / step,
            bytes >= 0,
            step >= 1,
    ;
    assert((low + 1) * step == low * step + step) by (nonlinear_arith);
    assert(low * step >= 0) by (nonlinear_arith)
        requires
            low >= 0,
            step >= 1,
    ;
}

proof fn lemma_tenths_fit(size: int, unit: int, rank: int)
    requires
        0 <= size <= 2 * u64::MAX,
        0 <= rank <= LAST_UNIT,
        rank == 0 ==> unit == 1,
        rank == 1 ==> unit == 0x400,
        rank == 2 ==> unit == 0x10_0000,
        rank == 3 ==> unit == 0x4000_0000,
        rank == 4 ==> unit == 0x100_0000_0000,
        rank < LAST_UNIT ==> size < 1024 * unit,
    ensures
        0 <= nearest(10 * size, unit) / 10 <= u64::MAX,
{
}

/// A number of seconds, in the two largest units that matter.
pub open spec fn duration_text(secs: int, lang: Lang) -> Seq<char> {
    let hours = secs / 3600;
    let minutes = secs % 3600 / 60;
    let seconds = secs % 60;
    let zh = lang == Lang::Zh;
    let hours_unit = if zh { " 小时 "@ } else { " h "@ };
    let minutes_unit = if zh { " 分钟"@ } else { " min"@ };
    let seconds_unit = if zh { " 秒"@ } else { " s"@ };
    if hours > 0 {
        decimal(hours as nat) + hours_unit + decimal(minutes as nat) + minutes_unit
    } else if minutes > 0 {
        decimal(minutes as nat) + minutes_unit + " "@ + decimal(seconds as nat) + seconds_unit
    } else {
        decimal(seconds as nat) + seconds_unit
    }
}

/// A number of whole seconds, in the two largest units that matter.
pub fn format_duration(secs: u64, lang: Lang) -> (text: String)
    ensures
        text@ == duration_text(secs as int, lang),
{
    let hours: u64 = secs / 3600;
    let minutes: u64 = (secs % 3600) / 60;
    let seconds: u64 = secs % 60;
    let (hours_unit, minutes_unit, seconds_unit) = match lang {
        Lang::Zh => (" 小时 ", " 分钟", " 秒"),
        Lang::En => (" h ", " min", " s"),
    };
    let mut text = String::new();
    assert(text@ =~= Seq::<char>::empty());
    if hours > 0 {
        push_decimal(&mut text, hours);
        text.append(hours_unit);
        push_decimal(&mut text, minutes);
        text.append(minutes_unit);
    } else if minutes > 0 {
        push_decimal(&mut text, minutes);
        text.append(minutes_unit);
        text.append(" ");
        push_decimal(&mut text, seconds);
        text.append(seconds_unit);
    } else {
        push_decimal(&mut text, seconds);
        text.append(seconds_unit);
    }
    text
}

/// What is rounded is off by no more than half a step, and where two steps are
/// equally near, an even number of them is taken.
pub proof fn rounding_goes_to_the_nearest(x: int, step: int)
    requires
        x >= 0,
        step > 0,
    ensures
        2 * (nearest(x, step) * step - x) <= step,
        2 * (x - nearest(x, step) * step) <= step,
        2 * (nearest(x, step) * step - x) == step || 2 * (x - nearest(x, step) * step) == step
            ==> nearest(x, step) % 2 == 0,
{
    let low = x / step;
    let rest = x % step;
    assert(x == low * step + rest && 0 <= rest < step) by (nonlinear_arith)
        requires
            low == x / step,
            rest == x % step,
            step > 0,
    ;
    assert((low + 1) * step == low * step + step) by (nonlinear_arith);
    assert(low >= 0) by (nonlinear_arith)
        requires
            low == x / step,
            x >= 0,
            step > 0,
    ;
}

/// Neighbouring floating-point numbers of the size of `x` are so far apart that
/// between 2^52 and 2^53 of them fit below it, from 2^53 on, and one apart
/// below that.
pub proof fn floats_have_fifty_three_bits(x: int)
    requires
        x >= 0,
    ensures
        x < 0x20_0000_0000_0000 ==> spacing(x) == 1,
        x >= 0x20_0000_0000_0000 ==> spacing(x) * 0x10_0000_0000_0000 <= x < spacing(x)
            * 0x20_0000_0000_0000,
        spacing(x) >= 1,
        x >= 0x20_0000_0000_0000 ==> spacing(x) % 2 == 0,
        x >= 0x20_0000_0000_0000 ==> spacing(x) == 2 * spacing(x / 2),
    decreases x,
{
    if x >= 0x20_0000_0000_0000 {
        floats_have_fifty_three_bits(x / 2);
    }
}

/// A number of bytes below 2^53 is a floating-point number itself, and any other
/// is off by no more than half the distance between its neighbours.
pub proof fn floats_are_near(bytes: int)
    requires
        bytes >= 0,
    ensures
        bytes < 0x20_0000_0000_0000 ==> as_float(bytes) == bytes,
        2 * (as_float(bytes) - bytes) <= spacing(bytes),
        2 * (bytes - as_float(bytes)) <= spacing(bytes),
{
    floats_have_fifty_three_bits(bytes);
    rounding_goes_to_the_nearest(bytes, spacing(bytes));
}

/// A size below 1024 bytes is shown in bytes, one below 1024 of a unit of 1024
/// bytes, of 1024 of those, and so on, in that unit, and anything larger in
/// tebibytes; always to the nearest tenth.
pub proof fn sizes_are_shown_in_the_unit_that_suits(size: int)
    requires
        size >= 0,
    ensures
        size < 1024 ==> size_text(size) == tenths_text(nearest(10 * size, 1)) + " "@ + "B"@,
        1024 <= size < 1048576 ==> size_text(size) == tenths_text(nearest(10 * size, 1024)) + " "@
            + "KiB"@,
        1048576 <= size < 1073741824 ==> size_text(size) == tenths_text(
            nearest(10 * size, 1048576),
        ) + " "@ + "MiB"@,
        1073741824 <= size < 1099511627776 ==> size_text(size) == tenths_text(
            nearest(10 * size, 1073741824),
        ) + " "@ + "GiB"@,
        1099511627776 <= size ==> size_text(size) == tenths_text(
            nearest(10 * size, 1099511627776),
        ) + " "@ + "TiB"@,
{
    reveal_with_fuel(unit_rank, 5);
    reveal_with_fuel(unit_bytes, 5);
}

/// A number of tenths, with one decimal place.
pub open spec fn tenths_text(tenths: int) -> Seq<char> {
    decimal((tenths / 10) as nat) + "."@ + decimal((tenths % 10) as nat)
}

/// A time is shown by its hours and minutes where it has an hour, by its minutes
/// and seconds where it has a minute, and else by its seconds.
pub proof fn times_are_shown_by_their_parts(hours: nat, minutes: nat, seconds: nat)
    requires
        minutes < 60,
        seconds < 60,
    ensures
        ({
            let secs = (3600 * hours + 60 * minutes + seconds) as int;
            &&& hours > 0 ==> duration_text(secs, Lang::En) == decimal(hours) + " h "@ + decimal(
                minutes,
            ) + " min"@
            &&& hours == 0 && minutes > 0 ==> duration_text(secs, Lang::En) == decimal(minutes)
                + " min"@ + " "@ + decimal(seconds) + " s"@
            &&& hours == 0 && minutes == 0 ==> duration_text(secs, Lang::En) == decimal(seconds)
                + " s"@
            &&& hours > 0 ==> duration_text(secs, Lang::Zh) == decimal(hours) + " 小时 "@
                + decimal(minutes) + " 分钟"@
            &&& hours == 0 && minutes > 0 ==> duration_text(secs, Lang::Zh) == decimal(minutes)
                + " 分钟"@ + " "@ + decimal(seconds) + " 秒"@
            &&& hours == 0 && minutes == 0 ==> duration_text(secs, Lang::Zh) == decimal(seconds)
                + " 秒"@
        }),
{
    let secs = (3600 * hours + 60 * minutes + seconds) as int;
    assert(secs / 3600 == hours);
    assert(secs % 3600 == 60 * minutes + seconds);
    assert(secs % 3600 / 60 == minutes);
    assert(secs % 60 == seconds);
}

} // verus!
