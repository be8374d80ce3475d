//! What a page is told about the device that shows it.

use crate::clock::{clock_text, in_time, local_clock, local_time_text, utc_seconds};
use crate::query::{lemma_texts_insert, texts, Inputs};
use crate::text::{decimal, decimal_text, digit_char};
use vstd::prelude::*;
use vstd::string::StringExecFns;
use vstd::utf8::{
    decode_utf8, encode_utf8, encode_utf8_decode_utf8, encode_utf8_valid_utf8, is_ascii_chars,
    is_ascii_chars_encode_utf8, is_char_boundary, is_char_boundary_iff_not_is_continuation_byte,
};

verus! {

// ---------------------------------------------------------------------- JSON

/// A digit of a hexadecimal number, in lower case.
pub open spec fn hex_char(d: int) -> char {
    if d < 10 {
        digit_char(d as nat)
    } else if d == 10 {
        'a'
    } else if d == 11 {
        'b'
    } else if d == 12 {
        'c'
    } else if d == 13 {
        'd'
    } else if d == 14 {
        'e'
    } else {
        'f'
    }
}

/// A character as it is written inside a JSON string.
pub open spec fn json_char(c: char) -> Seq<char> {
    if c == '"' || c == '\\' {
        seq!['\\', c]
    } else if c == '\u{8}' {
        seq!['\\', 'b']
    } else if c == '\u{9}' {
        seq!['\\', 't']
    } else if c == '\u{a}' {
        seq!['\\', 'n']
    } else if c == '\u{c}' {
        seq!['\\', 'f']
    } else if c == '\u{d}' {
        seq!['\\', 'r']
    } else if (c as int) < 0x20 {
        seq!['\\', 'u', '0', '0', hex_char(c as int / 16), hex_char(c as int % 16)]
    } else {
        seq![c]
    }
}

/// A text as it is written inside a JSON string.
pub open spec fn json_chars(s: Seq<char>) -> Seq<char>
    decreases s.len(),
{
    if s.len() == 0 {
        Seq::empty()
    } else {
        json_char(s[0]) + json_chars(s.drop_first())
    }
}

/// A text as a JSON string.
pub open spec fn json_string(s: Seq<char>) -> Seq<char> {
    seq!['"'] + json_chars(s) + seq!['"']
}

/// `serde_json::to_string` of a `str`: the text between quotes. Quotes, reverse
/// solidi and control characters are escaped, the latter in short where JSON has
/// a short form.
#[verifier::external_body]
fn to_json(s: &str) -> (r: String)
    ensures
        r@ == json_string(s@),
{
    serde_json::to_string(s).unwrap()
}

/// Hexadecimal digits differ.
proof fn lemma_hex_char(d: int, e: int)
    requires
        0 <= d < 16,
        0 <= e < 16,
        hex_char(d) == hex_char(e),
    ensures
        d == e,
{
    assert(d < 10 ==> hex_char(d) as int == '0' as int + d);
    assert(e < 10 ==> hex_char(e) as int == '0' as int + e);
}

/// What a written character begins with tells whether it is escaped, and how.
proof fn lemma_json_char(c: char, x: Seq<char>, d: char, y: Seq<char>)
    requires
        json_char(c) + x == json_char(d) + y,
    ensures
        c == d,
        x == y,
{
    let hc = json_char(c);
    let hd = json_char(d);
    let whole = hc + x;
    let other = hd + y;
    assert(whole[0] == hc[0] && other[0] == hd[0]);
    if hc[0] == '\\' {
        assert(whole[1] == hc[1] && other[1] == hd[1]);
        if hc[1] == 'u' {
            assert(hd[1] == 'u');
            assert(whole[4] == hc[4] && other[4] == hd[4]);
            assert(whole[5] == hc[5] && other[5] == hd[5]);
            lemma_hex_char(c as int / 16, d as int / 16);
            lemma_hex_char(c as int % 16, d as int % 16);
            assert(c as int == d as int);
        }
    }
    assert(c == d);
    assert(x =~= whole.skip(hc.len() as int));
    assert(y =~= other.skip(hc.len() as int));
}

/// Where a JSON string begins two texts, each is told by the whole.
proof fn lemma_json_chars(a: Seq<char>, x: Seq<char>, b: Seq<char>, y: Seq<char>)
    requires
        json_chars(a) + seq!['"'] + x == json_chars(b) + seq!['"'] + y,
    ensures
        a == b,
        x == y,
    decreases a.len(),
{
    let whole = json_chars(a) + seq!['"'] + x;
    let other = json_chars(b) + seq!['"'] + y;
    if a.len() > 0 && b.len() > 0 {
        let ra = json_chars(a.drop_first()) + seq!['"'] + x;
        let rb = json_chars(b.drop_first()) + seq!['"'] + y;
        assert(whole =~= json_char(a[0]) + ra);
        assert(other =~= json_char(b[0]) + rb);
        lemma_json_char(a[0], ra, b[0], rb);
        lemma_json_chars(a.drop_first(), x, b.drop_first(), y);
        assert(a =~= seq![a[0]] + a.drop_first());
        assert(b =~= seq![b[0]] + b.drop_first());
    } else if a.len() > 0 {
        assert(whole[0] == json_char(a[0])[0]);
        assert(other[0] == '"');
    } else if b.len() > 0 {
        assert(other[0] == json_char(b[0])[0]);
        assert(whole[0] == '"');
    } else {
        assert(a =~= b);
        assert(x =~= whole.skip(1));
        assert(y =~= other.skip(1));
    }
}

// -------------------------------------------------------------------- inputs

/// What a page is told about the device: what it shows, how full its battery is,
/// which one it is, and when it was updated.
#[derive(Debug)]
pub struct DeviceInputs {
    pub screen_name: String,
    pub battery_percentage: String,
    pub id: String,
    pub next_update_at: String,
}

/// What a `DeviceInputs` says.
#[verifier::ext_equal]
pub struct DeviceInputsView {
    pub screen_name: Seq<char>,
    pub battery_percentage: Seq<char>,
    pub id: Seq<char>,
    pub next_update_at: Seq<char>,
}

impl View for DeviceInputs {
    type V = DeviceInputsView;

    open spec fn view(&self) -> DeviceInputsView {
        DeviceInputsView {
            screen_name: self.screen_name@,
            battery_percentage: self.battery_percentage@,
            id: self.id@,
            next_update_at: self.next_update_at@,
        }
    }
}

impl DeviceInputsView {
    /// The inputs as a JSON object.
    pub open spec fn json(self) -> Seq<char> {
        "{\"screen-name\":"@ + json_string(self.screen_name) + ",\"battery-percentage\":"@
            + json_string(self.battery_percentage) + ",\"id\":"@ + json_string(self.id)
            + ",\"next-update-at\":"@ + json_string(self.next_update_at) + "}"@
    }
}

/// What is told about a device at a point in time.
pub open spec fn device_inputs_at(
    screen_name: Seq<char>,
    battery_percentage: u8,
    id: Seq<char>,
    timezone: Seq<char>,
    seconds: i64,
) -> DeviceInputsView {
    DeviceInputsView {
        screen_name,
        battery_percentage: decimal(battery_percentage as nat),
        id,
        next_update_at: clock_text(local_clock(seconds, timezone)),
    }
}

impl DeviceInputs {
    /// What is told about a device at a point in time.
    pub fn new_at(
        screen_name: &str,
        battery_percentage: u8,
        id: &str,
        timezone: &str,
        seconds: i64,
    ) -> (r: Self)
        requires
            in_time(seconds),
        ensures
            r@ == device_inputs_at(screen_name@, battery_percentage, id@, timezone@, seconds),
    {
        DeviceInputs {
            screen_name: screen_name.to_owned(),
            battery_percentage: decimal_text(battery_percentage as u64),
            id: id.to_owned(),
            next_update_at: local_time_text(seconds, timezone),
        }
    }

    /// What is told about a device now.
    pub fn new(screen_name: &str, battery_percentage: u8, id: &str, timezone: &str) -> (r: Self)
        ensures
            exists|seconds: i64| #[trigger]
                in_time(seconds) && r@ == device_inputs_at(
                    screen_name@,
                    battery_percentage,
                    id@,
                    timezone@,
                    seconds,
                ),
    {
        DeviceInputs::new_at(screen_name, battery_percentage, id, timezone, utc_seconds())
    }

    fn to_json_object(&self) -> (r: String)
        ensures
            r@ == self@.json(),
    {
        "{\"screen-name\":".to_owned().concat(to_json(self.screen_name.as_str()).as_str()).concat(
            ",\"battery-percentage\":",
        ).concat(to_json(self.battery_percentage.as_str()).as_str()).concat(",\"id\":").concat(
            to_json(self.id.as_str()).as_str(),
        ).concat(",\"next-update-at\":").concat(
            to_json(self.next_update_at.as_str()).as_str(),
        ).concat("}")
    }

    /// Puts what is told about the device among the inputs of a page.
    pub fn insert_into(&self, map: &mut Inputs)
        ensures
            texts(final(map)@) == texts(old(map)@).insert("tymnl-internal"@, self@.json()),
    {
        let json = self.to_json_object();
        proof {
            lemma_texts_insert(map@, "tymnl-internal"@, json);
        }
        map.insert("tymnl-internal".to_owned(), json);
    }
}

/// Where a key and a JSON string begin two texts, the string and the rest are
/// told by the whole.
proof fn lemma_json_member(
    key: Seq<char>,
    a: Seq<char>,
    x: Seq<char>,
    b: Seq<char>,
    y: Seq<char>,
)
    requires
        key + (json_string(a) + x) == key + (json_string(b) + y),
    ensures
        a == b,
        x == y,
{
    let n = key.len() as int;
    let q = seq!['"'];
    assert((key + (json_string(a) + x)).skip(n + 1) =~= json_chars(a) + q + x);
    assert((key + (json_string(b) + y)).skip(n + 1) =~= json_chars(b) + q + y);
    lemma_json_chars(a, x, b, y);
}

/// Joining texts from the left is joining them from the right.
proof fn lemma_join(
    k1: Seq<char>,
    s1: Seq<char>,
    k2: Seq<char>,
    s2: Seq<char>,
    k3: Seq<char>,
    s3: Seq<char>,
    k4: Seq<char>,
    s4: Seq<char>,
    end: Seq<char>,
)
    ensures
        k1 + s1 + k2 + s2 + k3 + s3 + k4 + s4 + end == k1 + (s1 + (k2 + (s2 + (k3 + (s3 + (k4 + (s4
            + end))))))),
{
    assert(k1 + s1 + k2 + s2 + k3 + s3 + k4 + s4 + end =~= k1 + (s1 + (k2 + (s2 + (k3 + (s3 + (k4
        + (s4 + end))))))));
}

/// The JSON object tells what it was made of: different values never give the
/// same object.
pub proof fn json_tells_the_inputs(a: DeviceInputsView, b: DeviceInputsView)
    requires
        a.json() == b.json(),
    ensures
        a == b,
{
    let k1 = "{\"screen-name\":"@;
    let k2 = ",\"battery-percentage\":"@;
    let k3 = ",\"id\":"@;
    let k4 = ",\"next-update-at\":"@;
    let end = "}"@;
    let a1 = json_string(a.screen_name);
    let b1 = json_string(b.screen_name);
    let a2 = json_string(a.battery_percentage);
    let b2 = json_string(b.battery_percentage);
    let a3 = json_string(a.id);
    let b3 = json_string(b.id);
    let a4 = json_string(a.next_update_at);
    let b4 = json_string(b.next_update_at);
    lemma_join(k1, a1, k2, a2, k3, a3, k4, a4, end);
    lemma_join(k1, b1, k2, b2, k3, b3, k4, b4, end);
    let ar4 = k4 + (a4 + end);
    let br4 = k4 + (b4 + end);
    let ar3 = k3 + (a3 + ar4);
    let br3 = k3 + (b3 + br4);
    let ar2 = k2 + (a2 + ar3);
    let br2 = k2 + (b2 + br3);
    lemma_json_member(k1, a.screen_name, ar2, b.screen_name, br2);
    lemma_json_member(k2, a.battery_percentage, ar3, b.battery_percentage, br3);
    lemma_json_member(k3, a.id, ar4, b.id, br4);
    lemma_json_member(k4, a.next_update_at, end, b.next_update_at, end);
}

// ------------------------------------------------------------------ short ids

/// Whether a character begins where the last four bytes of a text do.
pub open spec fn can_be_shortened(mac: Seq<char>) -> bool {
    let bytes = encode_utf8(mac);
    bytes.len() >= 4 ==> is_char_boundary(bytes, bytes.len() - 4)
}

/// The last four bytes of a MAC address, or all of a shorter one.
pub open spec fn shortened(mac: Seq<char>) -> Seq<char> {
    let bytes = encode_utf8(mac);
    if bytes.len() >= 4 {
        decode_utf8(bytes.subrange(bytes.len() - 4, bytes.len() as int))
    } else {
        mac
    }
}

/// `trmnl::DeviceInfo::short_id` of a device with a MAC address: its last four
/// bytes, or all of a shorter one. It fails where they begin inside a character.
#[verifier::external_body]
pub(crate) fn short_id(mac: &str) -> (r: String)
    requires
        can_be_shortened(mac@),
    ensures
        r@ == shortened(mac@),
{
    trmnl::DeviceInfo::new(mac).short_id().to_owned()
}

/// A MAC address of ASCII characters can be shortened, to its last four
/// characters.
pub proof fn short_id_of_ascii(mac: Seq<char>)
    requires
        is_ascii_chars(mac),
    ensures
        can_be_shortened(mac),
        mac.len() >= 4 ==> shortened(mac) == mac.skip(mac.len() - 4),
        mac.len() < 4 ==> shortened(mac) == mac,
{
    is_ascii_chars_encode_utf8(mac);
    if mac.len() >= 4 {
        let tail = mac.skip(mac.len() - 4);
        is_ascii_chars_encode_utf8(tail);
        let bytes = encode_utf8(mac);
        assert(encode_utf8(tail) =~= bytes.subrange(bytes.len() - 4, bytes.len() as int));
        encode_utf8_decode_utf8(tail);
        encode_utf8_valid_utf8(mac);
        is_char_boundary_iff_not_is_continuation_byte(bytes, bytes.len() - 4);
    }
}

}
