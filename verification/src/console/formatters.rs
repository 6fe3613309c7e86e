//! How the dashboard writes times, delays, queue levels and long texts.

use vstd::prelude::*;
use vstd::string::*;
use vstd::utf8::{decode_utf8, is_char_boundary};
use crate::model::ChannelType;
use crate::console::state::Delay;
use crate::text::{
    append_decimal, append_spaces, append_zero_padded, decimal, lemma_pad_right, pad_left,
    pad_right,
};
use crate::units::{float_value, float_value_of, round_half_even, rounded_quotient};

verus! {

/// The number of bytes that a text takes.
fn byte_len(s: &str) -> (n: usize)
    ensures
        n == s.spec_bytes().len(),
{
    s.as_bytes().len()
}

/// Where a text of more than `max_len` bytes is cut so that it can be
/// shown in `max_len` bytes with three dots in front: the byte at which
/// what is kept begins.
pub open spec fn left_cut(len: nat, max_len: usize) -> int {
    let kept = if max_len >= 3 {
        max_len - 3
    } else {
        0
    };
    if len >= kept {
        len - kept
    } else {
        0
    }
}

/// `s` as it is, where it has at most `max_len` bytes; else three dots and
/// the end of `s`, `max_len` bytes together.
pub open spec fn truncate_left_spec(s: Seq<char>, bytes: Seq<u8>, max_len: usize) -> Seq<char> {
    if bytes.len() <= max_len {
        s
    } else {
        "..."@ + decode_utf8(bytes.skip(left_cut(bytes.len(), max_len)))
    }
}

/// Whether `truncate_left` can cut `s`: the cut, if there is one, does not
/// fall inside a character.
pub open spec fn can_truncate_left(bytes: Seq<u8>, max_len: usize) -> bool {
    bytes.len() > max_len ==> is_char_boundary(bytes, left_cut(bytes.len(), max_len))
}

/// Shortens a text from the left to `max_len` bytes.
pub fn truncate_left(s: &str, max_len: usize) -> (r: String)
    requires
        can_truncate_left(s.spec_bytes(), max_len),
    ensures
        r@ == truncate_left_spec(s@, s.spec_bytes(), max_len),
{
    broadcast use vstd::utf8::encode_utf8_decode_utf8;

    if byte_len(s) <= max_len {
        String::from_str(s)
    } else {
        let kept = if max_len >= 3 {
            max_len - 3
        } else {
            0
        };
        let len = byte_len(s);
        let start = if len >= kept {
            len - kept
        } else {
            0
        };
        let (_, tail) = s.split_at(start);
        let mut r = String::from_str("...");
        r.append(tail);
        assert(tail.spec_bytes() == vstd::utf8::encode_utf8(tail@));
        assert(s.spec_bytes().subrange(start as int, s.spec_bytes().len() as int)
            =~= s.spec_bytes().skip(start as int));
        r
    }
}

/// Shortens a text from the left to `max_len` bytes; `None` where the cut
/// would fall inside a character.
pub fn try_truncate_left(s: &str, max_len: usize) -> (r: Option<String>)
    ensures
        match r {
            Some(text) => can_truncate_left(s.spec_bytes(), max_len) && text@
                == truncate_left_spec(s@, s.spec_bytes(), max_len),
            None => !can_truncate_left(s.spec_bytes(), max_len),
        },
{
    if byte_len(s) > max_len {
        let kept = if max_len >= 3 {
            max_len - 3
        } else {
            0
        };
        let len = byte_len(s);
        let start = if len >= kept {
            len - kept
        } else {
            0
        };
        if !s.is_char_boundary(start) {
            return None;
        }
    }
    Some(truncate_left(s, max_len))
}

/// Where a message of more than `max_len` bytes is cut so that it can be
/// shown in `max_len` bytes with three dots behind.
pub open spec fn right_cut(max_len: usize) -> int {
    if max_len >= 3 {
        max_len - 3
    } else {
        0
    }
}

/// `msg` with spaces behind it up to `max_len` characters, where it has at
/// most `max_len` bytes; else the beginning of `msg` and three dots,
/// `max_len` bytes together.
pub open spec fn truncate_message_spec(msg: Seq<char>, bytes: Seq<u8>, max_len: usize) -> Seq<
    char,
> {
    if bytes.len() <= max_len {
        pad_right(msg, max_len as nat, ' ')
    } else {
        decode_utf8(bytes.take(right_cut(max_len))) + "..."@
    }
}

/// Whether `truncate_message` can cut `msg`: the cut, if there is one, does
/// not fall inside a character.
pub open spec fn can_truncate_message(bytes: Seq<u8>, max_len: usize) -> bool {
    bytes.len() > max_len ==> is_char_boundary(bytes, right_cut(max_len))
}

/// Fits a message into a column of `max_len`.
pub fn truncate_message(msg: &str, max_len: usize) -> (r: String)
    requires
        can_truncate_message(msg.spec_bytes(), max_len),
    ensures
        r@ == truncate_message_spec(msg@, msg.spec_bytes(), max_len),
{
    broadcast use vstd::utf8::encode_utf8_decode_utf8;

    if byte_len(msg) <= max_len {
        let mut r = String::from_str(msg);
        let have = msg.unicode_len();
        let missing: usize = if have >= max_len {
            0
        } else {
            max_len - have
        };
        append_spaces(&mut r, missing as u64);
        proof {
            lemma_pad_right(msg@, max_len as nat, ' ');
        }
        assert(r@ =~= pad_right(msg@, max_len as nat, ' '));
        r
    } else {
        let cut = if max_len >= 3 {
            max_len - 3
        } else {
            0
        };
        let (head, _) = msg.split_at(cut);
        let mut r = String::from_str(head);
        r.append("...");
        assert(head.spec_bytes() == vstd::utf8::encode_utf8(head@));
        assert(msg.spec_bytes().subrange(0, cut as int) =~= msg.spec_bytes().take(cut as int));
        r
    }
}

/// Fits a message into a column of `max_len`; `None` where the cut would
/// fall inside a character.
pub fn try_truncate_message(msg: &str, max_len: usize) -> (r: Option<String>)
    ensures
        match r {
            Some(text) => can_truncate_message(msg.spec_bytes(), max_len) && text@
                == truncate_message_spec(msg@, msg.spec_bytes(), max_len),
            None => !can_truncate_message(msg.spec_bytes(), max_len),
        },
{
    if byte_len(msg) > max_len {
        let cut = if max_len >= 3 {
            max_len - 3
        } else {
            0
        };
        if !msg.is_char_boundary(cut) {
            return None;
        }
    }
    Some(truncate_message(msg, max_len))
}

/// A time as `MM:SS.mmm`: the minutes within the hour, the seconds and the
/// milliseconds, each with leading zeros.
pub open spec fn format_timestamp_spec(timestamp_ns: u64) -> Seq<char> {
    let total_secs = timestamp_ns / 1_000_000_000;
    let millis = (timestamp_ns % 1_000_000_000) / 1_000_000;
    let minutes = (total_secs % 3600) / 60;
    let seconds = total_secs % 60;
    pad_left(decimal(minutes as nat), 2, '0') + ":"@ + pad_left(decimal(seconds as nat), 2, '0')
        + "."@ + pad_left(decimal(millis as nat), 3, '0')
}

/// Writes a time in nanoseconds as `MM:SS.mmm`.
pub fn format_timestamp(timestamp_ns: u64) -> (r: String)
    ensures
        r@ == format_timestamp_spec(timestamp_ns),
{
    let total_secs = timestamp_ns / 1_000_000_000;
    let millis = (timestamp_ns % 1_000_000_000) / 1_000_000;
    let minutes = (total_secs % 3600) / 60;
    let seconds = total_secs % 60;
    let mut r = String::new();
    append_zero_padded(&mut r, minutes, 2);
    r.append(":");
    append_zero_padded(&mut r, seconds, 2);
    r.append(".");
    append_zero_padded(&mut r, millis, 3);
    assert(r@ =~= format_timestamp_spec(timestamp_ns));
    r
}

/// How long ago, in the largest unit of which there is at least one:
/// `now` under a second, then whole seconds, minutes or hours.
pub open spec fn format_time_ago_spec(nanos_ago: u64) -> Seq<char> {
    if nanos_ago < 1_000_000_000 {
        "now"@
    } else if nanos_ago < 60_000_000_000 {
        decimal((nanos_ago / 1_000_000_000) as nat) + "s ago"@
    } else if nanos_ago < 3_600_000_000_000 {
        decimal((nanos_ago / 60_000_000_000) as nat) + "m ago"@
    } else {
        decimal((nanos_ago / 3_600_000_000_000) as nat) + "h ago"@
    }
}

/// Writes how long ago something happened.
pub fn format_time_ago(nanos_ago: u64) -> (r: String)
    ensures
        r@ == format_time_ago_spec(nanos_ago),
{
    if nanos_ago < 1_000_000_000 {
        return String::from_str("now");
    }
    let mut r = String::new();
    if nanos_ago < 60_000_000_000 {
        append_decimal(&mut r, nanos_ago / 1_000_000_000);
        r.append("s ago");
    } else if nanos_ago < 3_600_000_000_000 {
        append_decimal(&mut r, nanos_ago / 60_000_000_000);
        r.append("m ago");
    } else {
        append_decimal(&mut r, nanos_ago / 3_600_000_000_000);
        r.append("h ago");
    }
    assert(r@ =~= format_time_ago_spec(nanos_ago));
    r
}

/// The unit in which a delay is shown.
#[derive(Debug, Clone, Copy, PartialEq, Eq, Structural)]
pub enum DelayScale {
    Nanos,
    Micros,
    Millis,
    Seconds,
}

impl DelayScale {
    /// How many nanoseconds the unit holds.
    pub open spec fn nanos(self) -> nat {
        match self {
            DelayScale::Nanos => 1,
            DelayScale::Micros => 1_000,
            DelayScale::Millis => 1_000_000,
            DelayScale::Seconds => 1_000_000_000,
        }
    }

    /// How many decimal places a delay is shown with in the unit.
    pub open spec fn places(self) -> nat {
        match self {
            DelayScale::Nanos => 0,
            DelayScale::Micros => 1,
            DelayScale::Millis => 2,
            DelayScale::Seconds => 3,
        }
    }

    /// The sign of the unit.
    pub open spec fn sign(self) -> Seq<char> {
        match self {
            DelayScale::Nanos => "ns"@,
            DelayScale::Micros => "μs"@,
            DelayScale::Millis => "ms"@,
            DelayScale::Seconds => "s"@,
        }
    }
}

/// The unit in which a delay is shown: the largest of which the delay
/// holds at least one.
pub open spec fn delay_scale_spec(delay_ns: u64) -> DelayScale {
    if delay_ns < 1_000 {
        DelayScale::Nanos
    } else if delay_ns < 1_000_000 {
        DelayScale::Micros
    } else if delay_ns < 1_000_000_000 {
        DelayScale::Millis
    } else {
        DelayScale::Seconds
    }
}

/// Finds the unit in which a delay is shown.
pub fn delay_scale(delay_ns: u64) -> (r: DelayScale)
    ensures
        r == delay_scale_spec(delay_ns),
{
    if delay_ns < 1_000 {
        DelayScale::Nanos
    } else if delay_ns < 1_000_000 {
        DelayScale::Micros
    } else if delay_ns < 1_000_000_000 {
        DelayScale::Millis
    } else {
        DelayScale::Seconds
    }
}

/// Two to the power of `e`.
pub open spec fn pow2(e: nat) -> nat
    decreases e,
{
    if e == 0 {
        1
    } else {
        2 * pow2((e - 1) as nat)
    }
}

/// Ten to the power of `e`.
pub open spec fn pow10(e: nat) -> nat
    decreases e,
{
    if e == 0 {
        1
    } else {
        10 * pow10((e - 1) as nat)
    }
}

/// By how many bits a quotient `n / d` between 1 and 2^53 is scaled up to
/// fill the 53 bits of a mantissa: the greatest `e`, from `from` on and up to
/// 52, with `n * 2^e < d * 2^53`.
pub open spec fn quotient_shift(n: nat, d: nat, from: nat) -> nat
    decreases 52 - from,
{
    if from < 52 && n * pow2(from + 1) < d * 0x20_0000_0000_0000 {
        quotient_shift(n, d, from + 1)
    } else {
        from
    }
}

/// The quotient `n / d` as a 64-bit float holds it, shown with `places`
/// decimal places, in units of the last place: the quotient is taken to the
/// nearest number of 53 bits of mantissa, and that number to the nearest
/// decimal, both with ties to even.
pub open spec fn shown_quotient(n: nat, d: nat, places: nat) -> nat {
    let e = quotient_shift(n, d, 0);
    let mantissa = round_half_even(n * pow2(e), d);
    round_half_even(mantissa * pow10(places), pow2(e))
}

/// A delay as it is shown: whole nanoseconds below a microsecond; else in
/// the largest unit of which it holds at least one, with one decimal place
/// for microseconds, two for milliseconds and three for seconds, digit for
/// digit as a 64-bit float of the quotient prints.
pub open spec fn format_delay_spec(delay_ns: u64) -> Seq<char> {
    let scale = delay_scale_spec(delay_ns);
    if scale == DelayScale::Nanos {
        decimal(delay_ns as nat) + scale.sign()
    } else {
        let shown = shown_quotient(float_value(delay_ns), scale.nanos(), scale.places());
        let unit = pow10(scale.places());
        decimal(shown / unit) + "."@ + pad_left(decimal(shown % unit), scale.places(), '0')
            + scale.sign()
    }
}

/// The quotient `n / d` as a 64-bit float holds it, shown with as many
/// decimal places as `unit` has zeros, in units of the last place.
fn shown_quotient_of(n: u128, d: u128, unit: u128, Ghost(places): Ghost<nat>) -> (r: u128)
    requires
        1_000 <= d <= 1_000_000_000,
        d <= n,
        n < d * 0x20_0000_0000_0000,
        unit == pow10(places),
        1 <= unit <= 1_000,
    ensures
        r == shown_quotient(n as nat, d as nat, places),
        r <= 0x20_0000_0000_0001 * unit,
{
    let limit: u128 = d * 0x20_0000_0000_0000;
    let mut e: u32 = 0;
    let mut power: u128 = 1;
    let mut scaled: u128 = n;
    assert(n * pow2(0) == n) by (nonlinear_arith)
        requires
            pow2(0) == 1,
    ;
    while e < 52 && scaled * 2 < limit
        invariant
            e <= 52,
            power == pow2(e as nat),
            scaled == n * pow2(e as nat),
            1 <= power <= scaled < limit,
            limit == d * 0x20_0000_0000_0000,
            1_000 <= d <= 1_000_000_000,
            quotient_shift(n as nat, d as nat, 0) == quotient_shift(n as nat, d as nat, e as nat),
        decreases 52 - e,
    {
        assert(n * pow2((e + 1) as nat) == 2 * (n * pow2(e as nat))) by (nonlinear_arith)
            requires
                pow2((e + 1) as nat) == 2 * pow2(e as nat),
        ;
        scaled = scaled * 2;
        power = power * 2;
        e = e + 1;
    }
    proof {
        if e < 52 {
            assert(n * pow2((e + 1) as nat) == 2 * (n * pow2(e as nat))) by (nonlinear_arith)
                requires
                    pow2((e + 1) as nat) == 2 * pow2(e as nat),
            ;
        }
    }
    let mantissa = rounded_quotient(scaled, d);
    assert(mantissa <= 0x20_0000_0000_0000) by (nonlinear_arith)
        requires
            mantissa <= scaled / d + 1,
            scaled < d * 0x20_0000_0000_0000,
            d >= 1,
    ;
    assert(mantissa * unit <= 0x20_0000_0000_0000 * unit) by (nonlinear_arith)
        requires
            mantissa <= 0x20_0000_0000_0000,
            unit >= 1,
    ;
    let shown = rounded_quotient(mantissa * unit, power);
    assert((mantissa * unit) / (power as int) <= mantissa * unit) by (nonlinear_arith)
        requires
            power >= 1,
            mantissa * unit >= 0,
    ;
    shown
}

/// Writes a delay as it is shown.
pub fn format_delay(delay_ns: u64) -> (r: String)
    ensures
        r@ == format_delay_spec(delay_ns),
{
    let mut r = String::new();
    if delay_ns < 1_000 {
        append_decimal(&mut r, delay_ns);
        r.append("ns");
        assert(r@ =~= format_delay_spec(delay_ns));
        return r;
    }
    let value = float_value_of(delay_ns);
    assert(pow10(0) == 1);
    assert(pow10(1) == 10);
    assert(pow10(2) == 100);
    assert(pow10(3) == 1_000);
    if delay_ns < 1_000_000 {
        let shown = shown_quotient_of(value, 1_000, 10, Ghost(1));
        append_decimal(&mut r, (shown / 10) as u64);
        r.append(".");
        append_zero_padded(&mut r, (shown % 10) as u64, 1);
        r.append("μs");
    } else if delay_ns < 1_000_000_000 {
        let shown = shown_quotient_of(value, 1_000_000, 100, Ghost(2));
        append_decimal(&mut r, (shown / 100) as u64);
        r.append(".");
        append_zero_padded(&mut r, (shown % 100) as u64, 2);
        r.append("ms");
    } else {
        let shown = shown_quotient_of(value, 1_000_000_000, 1_000, Ghost(3));
        append_decimal(&mut r, (shown / 1_000) as u64);
        r.append(".");
        append_zero_padded(&mut r, (shown % 1_000) as u64, 3);
        r.append("s");
    }
    assert(r@ =~= format_delay_spec(delay_ns));
    r
}

/// The text of the delay column: the delay as it is shown, a warning mark
/// for a received entry that is earlier than the sent one, `queued` for a
/// message that was not received yet.
pub open spec fn delay_text_spec(delay: Delay) -> Seq<char> {
    match delay {
        Delay::Nanos(delay_ns) => format_delay_spec(delay_ns),
        Delay::Negative => "⚠"@,
        Delay::Queued => "queued"@,
    }
}

/// Writes the text of the delay column.
pub fn delay_text(delay: Delay) -> (r: String)
    ensures
        r@ == delay_text_spec(delay),
{
    match delay {
        Delay::Nanos(delay_ns) => format_delay(delay_ns),
        Delay::Negative => String::from_str("⚠"),
        Delay::Queued => String::from_str("queued"),
    }
}

/// The colour that shows how full a queue is.
#[derive(Debug, Clone, Copy, PartialEq, Eq, Structural)]
pub enum QueueColor {
    /// Less than half of the capacity is queued.
    Green,
    /// At least half of the capacity is queued.
    Yellow,
    /// The capacity is queued, or more.
    Red,
}

/// The capacity against which a queue is shown: that of a bounded channel,
/// one message for a oneshot, none for an unbounded channel.
pub open spec fn shown_capacity(channel_type: ChannelType) -> Option<nat> {
    channel_type.full_mark()
}

/// The colour of a queue of `queued` messages in a channel of capacity `cap`.
pub open spec fn queue_color(queued: u64, cap: nat) -> QueueColor {
    if queued >= cap {
        QueueColor::Red
    } else if 2 * queued >= cap {
        QueueColor::Yellow
    } else {
        QueueColor::Green
    }
}

/// The text of the queue cell: `[<queued>/<capacity>]`, or `N/A` where the
/// channel has no capacity to show against.
pub open spec fn queue_text(queued: u64, channel_type: ChannelType) -> Seq<char> {
    match shown_capacity(channel_type) {
        Some(cap) if cap > 0 => "["@ + decimal(queued as nat) + "/"@ + decimal(cap) + "]"@,
        _ => "N/A"@,
    }
}

/// The queue cell of a channel: its text, and its colour where it has one.
#[derive(Debug)]
pub struct QueueCell {
    pub text: String,
    pub color: Option<QueueColor>,
}

/// The queue cell of a channel.
pub fn queue_status(queued: u64, channel_type: &ChannelType) -> (r: QueueCell)
    ensures
        r.text@ == queue_text(queued, *channel_type),
        r.color == match shown_capacity(*channel_type) {
            Some(cap) if cap > 0 => Some(queue_color(queued, cap)),
            _ => None,
        },
{
    let capacity: Option<u64> = match channel_type {
        ChannelType::Bounded(cap) => Some(*cap as u64),
        ChannelType::Oneshot => Some(1),
        ChannelType::Unbounded => None,
    };
    match capacity {
        Some(cap) => {
            if cap > 0 {
                let mut text = String::from_str("[");
                append_decimal(&mut text, queued);
                text.append("/");
                append_decimal(&mut text, cap);
                text.append("]");
                let color = if queued >= cap {
                    QueueColor::Red
                } else if queued >= cap - queued {
                    QueueColor::Yellow
                } else {
                    QueueColor::Green
                };
                assert(text@ =~= queue_text(queued, *channel_type));
                QueueCell { text, color: Some(color) }
            } else {
                QueueCell { text: String::from_str("N/A"), color: None }
            }
        },
        None => QueueCell { text: String::from_str("N/A"), color: None },
    }
}

} // verus!
