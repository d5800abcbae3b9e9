use vstd::prelude::*;
use crate::decimal::{decimal, push_char, push_decimal};

verus! {

/// How one character is written in HTML text: the five characters with a
/// meaning in markup become entities, every other stays as it is.
pub open spec fn escape_char(c: char) -> Seq<char> {
    if c == '&' {
        "&amp;"@
    } else if c == '<' {
        "&lt;"@
    } else if c == '>' {
        "&gt;"@
    } else if c == '"' {
        "&quot;"@
    } else if c == '\'' {
        "&#39;"@
    } else {
        seq![c]
    }
}

/// `s` with each character written as `escape_char` says.
pub open spec fn escaped(s: Seq<char>) -> Seq<char>
    decreases s.len(),
{
    if s.len() == 0 {
        Seq::empty()
    } else {
        escaped(s.drop_last()) + escape_char(s.last())
    }
}

/// `input` made safe to place in HTML text or in a quoted attribute.
pub fn html_escape(input: &str) -> (r: String)
    ensures
        r@ == escaped(input@),
{
    let mut out = String::new();
    for c in iter: input.chars()
        invariant
            iter.seq() == input@,
            out@ == escaped(iter.seq().take(iter.index() as int)),
    {
        let ghost before = out@;
        if c == '&' {
            out.append("&amp;");
        } else if c == '<' {
            out.append("&lt;");
        } else if c == '>' {
            out.append("&gt;");
        } else if c == '"' {
            out.append("&quot;");
        } else if c == '\'' {
            out.append("&#39;");
        } else {
            push_char(&mut out, c);
        }
        assert(iter.seq().take(iter.index() + 1).drop_last() =~= iter.seq().take(iter.index() as int));
    }
    assert(input@.take(input@.len() as int) =~= input@);
    out
}

/// An uptime of `t` seconds in words: days, hours and minutes where it is a
/// day or more; hours and minutes where it is an hour or more; minutes and
/// seconds where it is a minute or more; else seconds.
pub open spec fn duration_text(t: nat) -> Seq<char> {
    let days = t / 86_400;
    let hours = (t % 86_400) / 3_600;
    let minutes = (t % 3_600) / 60;
    let seconds = t % 60;
    if days > 0 {
        decimal(days) + "d "@ + decimal(hours) + "h "@ + decimal(minutes) + "m"@
    } else if hours > 0 {
        decimal(hours) + "h "@ + decimal(minutes) + "m"@
    } else if minutes > 0 {
        decimal(minutes) + "m "@ + decimal(seconds) + "s"@
    } else {
        decimal(seconds) + "s"@
    }
}

/// `total_seconds` written as `duration_text` says, e.g. `1d 2h 3m`.
pub fn format_duration(total_seconds: u64) -> (r: String)
    ensures
        r@ == duration_text(total_seconds as nat),
{
    let days = total_seconds / 86_400;
    let hours = (total_seconds % 86_400) / 3_600;
    let minutes = (total_seconds % 3_600) / 60;
    let seconds = total_seconds % 60;
    let mut out = String::new();
    if days > 0 {
        push_decimal(&mut out, days);
        out.append("d ");
        push_decimal(&mut out, hours);
        out.append("h ");
        push_decimal(&mut out, minutes);
        out.append("m");
    } else if hours > 0 {
        push_decimal(&mut out, hours);
        out.append("h ");
        push_decimal(&mut out, minutes);
        out.append("m");
    } else if minutes > 0 {
        push_decimal(&mut out, minutes);
        out.append("m ");
        push_decimal(&mut out, seconds);
        out.append("s");
    } else {
        push_decimal(&mut out, seconds);
        out.append("s");
    }
    assert(out@ =~= duration_text(total_seconds as nat));
    out
}

} // verus!
