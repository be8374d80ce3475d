//! What holds of numbers as text, of JSON, and of errors in words.

use crate::command::{is_write, FileEvent};
use crate::config;
use crate::device::{
    can_be_shortened, hex_char, json_char, json_chars, json_string, shortened, DeviceInputsView,
};
use crate::render;
use crate::state;
use crate::text::{all_digits, decimal, digit_char, digits_value, number, repeated, signed_decimal};
use vstd::prelude::*;
use vstd::utf8::{decode_utf8, encode_utf8, is_char_boundary};

verus! {

// -------------------------------------------------------------------- numbers

/// A number below ten is its digit, and any other has behind the digits of its tenth
/// the digit that is left. A negative number has a minus in front.
pub proof fn numbers_are_written_digit_by_digit(n: nat, k: int)
    ensures
        n < 10 ==> decimal(n).len() == 1 && decimal(n)[0] as int == 48 + n,
        n >= 10 ==> decimal(n).len() == decimal(n / 10).len() + 1 && decimal(n).drop_last()
            == decimal(n / 10) && decimal(n).last() as int == 48 + n % 10,
        k >= 0 ==> signed_decimal(k) == decimal(k as nat),
        k < 0 ==> signed_decimal(k).len() > 0 && signed_decimal(k)[0] == '-' && signed_decimal(
            k,
        ).drop_first() == decimal((-k) as nat),
        n < 10 ==> digit_char(n) as int == 48 + n,
{
    if n >= 10 {
        assert(decimal(n).drop_last() =~= decimal(n / 10));
    }
    if k < 0 {
        assert(signed_decimal(k).drop_first() =~= decimal((-k) as nat));
    }
}

/// A row of digits is worth ten times what it is worth without the last, and the
/// last.
pub proof fn digits_count_by_tens(s: Seq<char>, c: char)
    ensures
        digits_value(Seq::empty()) == 0,
        48 <= c as int <= 57 ==> digits_value(s.push(c)) == 10 * digits_value(s) + (c as int - 48),
        all_digits(s) <==> forall|i: int|
            0 <= i < s.len() ==> 48 <= (#[trigger] s[i]) as int && s[i] as int <= 57,
{
    assert(s.push(c).drop_last() =~= s);
}

/// A number is read from digits, with or without a plus sign in front, if it fits in
/// 32 bits. Nothing else is a number.
pub proof fn numbers_are_read_from_digits(s: Seq<char>, i: int)
    ensures
        number(Seq::empty()) is None,
        number(seq!['+']) is None,
        s.len() > 0 && all_digits(s) && digits_value(s) <= 0xFFFF_FFFF ==> number(s) == Some(
            digits_value(s),
        ) && number(seq!['+'] + s) == Some(digits_value(s)),
        s.len() > 0 && all_digits(s) && digits_value(s) > 0xFFFF_FFFF ==> number(s) is None
            && number(seq!['+'] + s) is None,
        0 <= i < s.len() && !(48 <= s[i] as int <= 57) && (i > 0 || s[i] != '+') ==> number(s)
            is None,
{
    let signed = seq!['+'] + s;
    assert(signed.drop_first() =~= s);
    assert(seq!['+'].drop_first() =~= Seq::<char>::empty());
    if s.len() > 0 && all_digits(s) {
        assert('0' <= s[0] && s[0] <= '9');
    }
    if 0 <= i < s.len() && !(48 <= s[i] as int <= 57) && (i > 0 || s[i] != '+') {
        if s[0] == '+' {
            assert(s.drop_first()[i - 1] == s[i]);
        }
    }
}

/// What is repeated is so long, and the same all over.
pub proof fn repeated_is_the_same_all_over(c: char, n: nat, i: int)
    ensures
        repeated(c, n).len() == n,
        0 <= i < n ==> repeated(c, n)[i] == c,
{
}

// ----------------------------------------------------------------------- JSON

/// In a JSON string quotes and reverse solidi have a reverse solidus in front, control
/// characters are escaped, and any other character is itself.
pub proof fn characters_are_escaped_like_this(c: char)
    ensures
        c as int == 34 || c as int == 92 ==> json_char(c) == seq!['\\', c],
        c as int == 8 ==> json_char(c) == seq!['\\', 'b'],
        c as int == 9 ==> json_char(c) == seq!['\\', 't'],
        c as int == 10 ==> json_char(c) == seq!['\\', 'n'],
        c as int == 12 ==> json_char(c) == seq!['\\', 'f'],
        c as int == 13 ==> json_char(c) == seq!['\\', 'r'],
        c as int >= 32 && c as int != 34 && c as int != 92 ==> json_char(c) == seq![c],
        (c as int) < 32 && !(8 <= c as int <= 10) && !(12 <= c as int <= 13) ==> json_char(c)
            == seq!['\\', 'u', '0', '0', hex_char(c as int / 16), hex_char(c as int % 16)],
{
}

/// Hexadecimal digits are those of decimal numbers, and then small letters.
pub proof fn hexadecimal_digits_are_these(d: int)
    ensures
        0 <= d < 10 ==> hex_char(d) as int == 48 + d,
        10 <= d < 16 ==> hex_char(d) as int == 97 + d - 10,
{
}

/// A text is escaped character by character, and stands between quotes.
pub proof fn texts_are_escaped_character_by_character(s: Seq<char>, c: char)
    ensures
        json_chars(Seq::empty()) == Seq::<char>::empty(),
        json_chars(s.push(c)) == json_chars(s) + json_char(c),
        json_string(s) == seq!['"'] + json_chars(s) + seq!['"'],
    decreases s.len(),
{
    if s.len() == 0 {
        assert(s.push(c).drop_first() =~= Seq::<char>::empty());
        assert(s =~= Seq::<char>::empty());
        assert(json_chars(s.push(c)) =~= json_char(c) + json_chars(Seq::<char>::empty()));
        assert(json_char(c) + Seq::<char>::empty() =~= json_char(c));
        assert(Seq::<char>::empty() + json_char(c) =~= json_char(c));
    } else {
        texts_are_escaped_character_by_character(s.drop_first(), c);
        assert(s.push(c).drop_first() =~= s.drop_first().push(c));
        assert(json_chars(s.push(c)) =~= json_chars(s) + json_char(c));
    }
}

/// What is told of a device is a JSON object of four members, under these names and
/// in this order.
pub proof fn devices_are_told_of_in_four_members(inputs: DeviceInputsView)
    ensures
        inputs.json() == "{\"screen-name\":"@ + (json_string(inputs.screen_name) + (
        ",\"battery-percentage\":"@ + (json_string(inputs.battery_percentage) + (",\"id\":"@ + (
        json_string(inputs.id) + (",\"next-update-at\":"@ + (json_string(inputs.next_update_at)
            + "}"@))))))),
{
    let a = json_string(inputs.screen_name);
    let b = json_string(inputs.battery_percentage);
    let c = json_string(inputs.id);
    let d = json_string(inputs.next_update_at);
    assert(inputs.json() =~= "{\"screen-name\":"@ + (a + (",\"battery-percentage\":"@ + (b + (
    ",\"id\":"@ + (c + (",\"next-update-at\":"@ + (d + "}"@))))))));
}

/// The short name of a device is made of the last four bytes of its address, or of
/// the whole of a shorter one.
pub proof fn short_names_are_the_last_four_bytes(mac: Seq<char>)
    ensures
        ({
            let bytes = encode_utf8(mac);
            let n = bytes.len() as int;
            &&& n >= 4 ==> shortened(mac) == decode_utf8(bytes.subrange(n - 4, n))
            &&& n >= 4 ==> can_be_shortened(mac) == is_char_boundary(bytes, n - 4)
            &&& n < 4 ==> shortened(mac) == mac && can_be_shortened(mac)
        }),
{
}

// --------------------------------------------------------------------- errors

/// What is wrong with the configuration or with an input, in words.
pub proof fn configuration_errors_are_worded_like_this(
    s: Seq<char>,
    t: Seq<char>,
    status: u16,
    code: i32,
)
    ensures
        config::ErrorView::Io(s).message() == "Error reading config: "@ + s,
        config::ErrorView::Deserialize(s).message() == "Error deserializing config: "@ + s,
        config::ErrorView::FetchUrl(s).message() == "Error fetching URL: "@ + s,
        (config::ErrorView::UrlStatusCode { status, url: s }).message() == "HTTP "@ + decimal(
            status as nat,
        ) + " from "@ + s,
        (config::ErrorView::CommandFailed { command: s, exit_code: Some(code), stderr: t }).message()
            == "shell command `"@ + s + "` failed (exit "@ + ("Some("@ + signed_decimal(code as int)
            + ")"@) + "):\n"@ + t,
        (config::ErrorView::CommandFailed { command: s, exit_code: None, stderr: t }).message()
            == "shell command `"@ + s + "` failed (exit "@ + "None"@ + "):\n"@ + t,
        config::ErrorView::Utf8(s).message() == "invalid UTF-8 in command output: "@ + s,
{
}

/// What goes wrong on the way to a screen, in words.
pub proof fn screen_errors_are_worded_like_this(
    s: Seq<char>,
    query: config::ErrorView,
    render: render::ErrorView,
)
    ensures
        state::ErrorView::NoActivePlaylist.message() == "no active playlist defined"@,
        state::ErrorView::NoScreen(s).message() == "no screen defined for playlist "@ + s,
        state::ErrorView::Query(query).message() == "querying input failed: "@ + query.message(),
        state::ErrorView::Render(render).message() == "rendering failed"@,
        state::ErrorView::Unknown.message() == "unknown error"@,
        render::ErrorView::Io(s).message() == "Input/Output error: "@ + s,
        render::ErrorView::Encoding(s).message() == "Encoding to PNG failed: "@ + s,
        render::ErrorView::Typst(s).message() == s,
{
}

// ---------------------------------------------------------------------- events

/// The configuration is read anew when a file was made or changed, and at nothing
/// else.
pub proof fn files_are_written_when_made_or_changed()
    ensures
        is_write(FileEvent::Create),
        is_write(FileEvent::Modify),
        !is_write(FileEvent::Other),
{
}

}
