//! The device that the tool presents itself as.

use crate::digits::{hex, hex_char, upper_hex_string};
use crate::property_list::{dictionary_entries, PlistTree};
use std::collections::HashMap;
use vstd::arithmetic::div_mod::lemma_div_denominator;
use vstd::arithmetic::power::{lemma_pow0, lemma_pow_positive, pow};
use vstd::prelude::*;

verus! {

/// The serial number of the device; it marks what the tool left behind.
pub const FAKE_SERIAL: &'static str = "F2LZN0FAKE00";

/// The groups of digits of a UUID, with hyphens between them.
pub open spec fn hyphenated(digits: Seq<char>) -> Seq<char> {
    digits.subrange(0, 8) + seq!['-'] + digits.subrange(8, 12) + seq!['-'] + digits.subrange(12, 16)
        + seq!['-'] + digits.subrange(16, 20) + seq!['-'] + digits.subrange(20, 32)
}

/// The text of the UUID with the value `n`.
pub open spec fn uuid_text(n: nat, upper: bool) -> Seq<char> {
    hyphenated(hex(n, 32, upper))
}

/// Whether `n` is the value of a random UUID: the four bits that tell its
/// version are four, and the two that tell its variant are two.
pub open spec fn is_random_uuid(n: nat) -> bool {
    &&& n / 0x1000_0000_0000_0000_0000 % 16 == 4
    &&& n / 0x4000_0000_0000_0000 % 4 == 2
}

/// `uuid::Uuid::new_v4`, its result as a number by `uuid::Uuid::as_u128`: some
/// value with the version and the variant of a random UUID. Which one is left
/// to chance. Where the operating system has no random bytes to give, the call
/// does not return.
#[verifier::external_body]
fn random_uuid() -> (n: u128)
    ensures
        is_random_uuid(n as nat),
{
    uuid::Uuid::new_v4().as_u128()
}

/// `to_string` of the `uuid::Uuid` that `uuid::Uuid::from_u128` makes of a
/// number: its 32 hexadecimal digits in lower case, in five groups with hyphens
/// between them.
#[verifier::external_body]
fn uuid_string(n: u128) -> (text: String)
    ensures
        text@ == uuid_text(n as nat, false),
{
    uuid::Uuid::from_u128(n).to_string()
}

/// `rand::random` for `u128`: some number, left to chance; nothing is promised
/// of it.
#[verifier::external_body]
fn random_number() -> (n: u128) {
    rand::random::<u128>()
}

/// The upper case of an ASCII letter; any other character stays.
pub open spec fn upper_char(c: char) -> char {
    if 'a' <= c <= 'z' {
        (c as int - 32) as char
    } else {
        c
    }
}

/// The upper case of every ASCII letter of `s`.
pub open spec fn upper_text(s: Seq<char>) -> Seq<char> {
    Seq::new(s.len(), |i: int| upper_char(s[i]))
}

/// The upper case of `c`.
fn to_upper_char(c: char) -> (out: char)
    ensures
        out == upper_char(c),
{
    if 'a' <= c && c <= 'z' {
        let code: u8 = c as u8;
        (code - 32) as char
    } else {
        c
    }
}

/// The upper case of every ASCII letter of `s`.
fn to_upper_text(s: &str) -> (out: String)
    ensures
        out@ == upper_text(s@),
{
    let mut out = String::new();
    for c in it: s.chars()
        invariant
            it.seq() == s@,
            out@ == upper_text(s@).take(it.index() as int),
    {
        out.push(to_upper_char(c));
        proof {
            assert(upper_text(s@).take(it.index() + 1) =~= upper_text(s@).take(
                it.index() as int,
            ).push(upper_char(c)));
        }
    }
    proof {
        assert(upper_text(s@).take(s@.len() as int) =~= upper_text(s@));
    }
    out
}

/// Hexadecimal digits in upper case are those in lower case, put in upper case.
proof fn lemma_upper_hex(n: nat, width: nat)
    ensures
        hex(n, width, true).len() == width,
        hex(n, width, false).len() == width,
        upper_text(hex(n, width, false)) == hex(n, width, true),
    decreases width,
{
    if width > 0 {
        lemma_upper_hex(n / 16, (width - 1) as nat);
        assert(upper_char(hex_char(n % 16, false)) == hex_char(n % 16, true));
        assert(upper_text(hex(n, width, false)) =~= hex(n, width, true));
    } else {
        assert(upper_text(hex(n, width, false)) =~= hex(n, width, true));
    }
}

/// Putting the text of a UUID in upper case gives its text in upper case.
proof fn lemma_upper_uuid(n: nat)
    ensures
        upper_text(uuid_text(n, false)) == uuid_text(n, true),
{
    lemma_upper_hex(n, 32);
    let low = hex(n, 32, false);
    let up = hex(n, 32, true);
    assert forall|i: int| 0 <= i < 32 implies upper_char(#[trigger] low[i]) == up[i] by {
        assert(upper_text(low)[i] == up[i]);
    }
    assert(upper_text(uuid_text(n, false)) =~= uuid_text(n, true));
}

/// The versions that a device names when it registers.
pub struct RegisterMeta {
    pub hardware_version: String,
    pub os_version: String,
    pub software_version: String,
}

/// What a device names for diagnosis.
pub struct DebugMeta {
    pub user_version: String,
    pub hardware_version: String,
    pub serial_number: String,
}

/// A device that does not exist: a phone with a fixed serial number and random
/// identifiers.
pub struct FakeIOSConfig {
    pub device_uuid: String,
    pub serial: String,
    pub udid: String,
}

impl FakeIOSConfig {
    /// Whether the identifiers of the device are these numbers.
    pub open spec fn has_identifiers(self, uuid: u128, udid: u128) -> bool {
        &&& self.device_uuid@ == uuid_text(uuid as nat, true)
        &&& self.serial@ == FAKE_SERIAL@
        &&& self.udid@ == hex(udid as nat, 32, true)
    }

    /// The device with these identifiers.
    pub fn with_identifiers(uuid: u128, udid: u128) -> (config: Self)
        ensures
            config.has_identifiers(uuid, udid),
            config.device_uuid@ == uuid_text(uuid as nat, true),
            config.serial@ == FAKE_SERIAL@,
            config.udid@ == hex(udid as nat, 32, true),
    {
        let text = uuid_string(uuid);
        proof {
            lemma_upper_uuid(uuid as nat);
        }
        FakeIOSConfig {
            device_uuid: to_upper_text(text.as_str()),
            serial: FAKE_SERIAL.to_owned(),
            udid: upper_hex_string(udid, 32),
        }
    }

    /// A device with identifiers left to chance.
    pub fn new() -> (config: Self)
        ensures
            exists|uuid: u128, udid: u128|
                is_random_uuid(uuid as nat) && #[trigger] config.has_identifiers(uuid, udid)
                    && config.device_uuid@ == uuid_text(uuid as nat, true) && config.udid@ == hex(
                    udid as nat,
                    32,
                    true,
                ),
            config.serial@ == FAKE_SERIAL@,
    {
        let uuid: u128 = random_uuid();
        let udid: u128 = random_number();
        FakeIOSConfig::with_identifiers(uuid, udid)
    }

    /// What kind of device this is.
    pub fn get_activation_device(&self) -> (out: String)
        ensures
            out@ == "iPhone"@,
    {
        "iPhone".to_owned()
    }

    /// The data that proves the device genuine: there is none.
    pub fn generate_validation_data(&self) -> (out: Vec<u8>)
        ensures
            out@.len() == 0,
    {
        Vec::new()
    }

    /// The version of the protocol that the device speaks.
    pub fn get_protocol_version(&self) -> (out: u32)
        ensures
            out == 1640,
    {
        1640
    }

    /// The versions that the device names when it registers.
    pub fn get_register_meta(&self) -> (out: RegisterMeta)
        ensures
            out.hardware_version@ == "iPhone15,2"@,
            out.os_version@ == "iPhone OS,17.4,21E219"@,
            out.software_version@ == "21E219"@,
    {
        RegisterMeta {
            hardware_version: "iPhone15,2".to_owned(),
            os_version: "iPhone OS,17.4,21E219".to_owned(),
            software_version: "21E219".to_owned(),
        }
    }

    /// The user agent of the program `item`.
    pub fn get_normal_ua(&self, item: &str) -> (out: String)
        ensures
            out@ == item@ + " CFNetwork/1494.0.7 Darwin/23.4.0"@,
    {
        let mut out = item.to_owned();
        out.append(" CFNetwork/1494.0.7 Darwin/23.4.0");
        out
    }

    /// The client information that is sent for the program `for_item`.
    pub fn get_mme_clientinfo(&self, for_item: &str) -> (out: String)
        ensures
            out@ == "<iPhone15,2> <iPhone OS;17.4;21E219> <"@ + for_item@ + ">"@,
    {
        let mut out = "<iPhone15,2> <iPhone OS;17.4;21E219> <".to_owned();
        out.append(for_item);
        out.append(">");
        out
    }

    /// The user agent that names the version of the device.
    pub fn get_version_ua(&self) -> (out: String)
        ensures
            out@ == "[iPhone OS,17.4,21E219,iPhone15,2]"@,
    {
        "[iPhone OS,17.4,21E219,iPhone15,2]".to_owned()
    }

    /// The name of the device.
    pub fn get_device_name(&self) -> (out: String)
        ensures
            out@ == "iPhone"@,
    {
        "iPhone".to_owned()
    }

    /// The UUID of the device.
    pub fn get_device_uuid(&self) -> (out: String)
        ensures
            out == self.device_uuid,
    {
        self.device_uuid.clone()
    }

    /// The private data of the device: there is none.
    pub fn get_private_data(&self) -> (out: plist::Dictionary)
        ensures
            dictionary_entries(out) == Seq::<(Seq<char>, PlistTree)>::empty(),
    {
        plist::Dictionary::new()
    }

    /// What the device names for diagnosis.
    pub fn get_debug_meta(&self) -> (out: DebugMeta)
        ensures
            out.user_version@ == "17.4"@,
            out.hardware_version@ == "iPhone15,2"@,
            out.serial_number == self.serial,
    {
        DebugMeta {
            user_version: "17.4".to_owned(),
            hardware_version: "iPhone15,2".to_owned(),
            serial_number: self.serial.clone(),
        }
    }

    /// The address at which the device logs in.
    pub fn get_login_url(&self) -> (out: &'static str)
        ensures
            out@ == "https://setup.icloud.com/setup/iosbuddy/loginDelegates"@,
    {
        "https://setup.icloud.com/setup/iosbuddy/loginDelegates"
    }

    /// The serial number of the device.
    pub fn get_serial_number(&self) -> (out: String)
        ensures
            out == self.serial,
    {
        self.serial.clone()
    }

    /// The headers that describe the hardware at login: there are none.
    pub fn get_gsa_hardware_headers(&self) -> (out: HashMap<String, String>)
        ensures
            out@ == Map::<String, String>::empty(),
    {
        HashMap::new()
    }

    /// The version of the login service of the device.
    pub fn get_aoskit_version(&self) -> (out: String)
        ensures
            out@ == "com.apple.AuthKit/1 (com.apple.akd/1.0)"@,
    {
        "com.apple.AuthKit/1 (com.apple.akd/1.0)".to_owned()
    }

    /// The UDID of the device.
    pub fn get_udid(&self) -> (out: String)
        ensures
            out == self.udid,
    {
        self.udid.clone()
    }
}

/// Whether `c` is a hexadecimal digit in upper case.
pub open spec fn is_upper_hex(c: char) -> bool {
    '0' <= c <= '9' || 'A' <= c <= 'F'
}

/// The digit at each place of a number in hexadecimal.
proof fn lemma_hex_digit(n: nat, width: nat, i: int)
    requires
        0 <= i < width,
    ensures
        hex(n, width, true).len() == width,
        hex(n, width, true)[i] == hex_char(
            (n as int / pow(16, (width - 1 - i) as nat) % 16) as nat,
            true,
        ),
        is_upper_hex(hex(n, width, true)[i]),
    decreases width,
{
    lemma_upper_hex(n, width);
    if i == width - 1 {
        lemma_pow0(16);
        assert(n as int / 1 == n);
    } else {
        lemma_upper_hex(n / 16, (width - 1) as nat);
        lemma_hex_digit(n / 16, (width - 1) as nat, i);
        let k = (width - 2 - i) as nat;
        lemma_pow_positive(16, k);
        lemma_div_denominator(n as int, 16, pow(16, k));
        assert(pow(16, k + 1) == 16 * pow(16, k)) by {
            reveal(pow);
        }
    }
}

/// The place values of the digits that tell the version and the variant.
proof fn lemma_place_values()
    ensures
        pow(16, 19) == 0x1000_0000_0000_0000_0000,
        pow(16, 15) == 0x1000_0000_0000_0000,
{
    reveal_with_fuel(pow, 20);
}

/// The UUID of a device with random identifiers has 36 characters: hyphens
/// after its 8th, 12th, 16th and 20th digit and hexadecimal digits in upper
/// case elsewhere, of which the 13th is a four and the 17th one of 8, 9, A and
/// B.
pub proof fn law_device_uuid_shape(uuid: nat)
    requires
        is_random_uuid(uuid),
    ensures
        uuid_text(uuid, true).len() == 36,
        forall|i: int|
            0 <= i < 36 ==> if i == 8 || i == 13 || i == 18 || i == 23 {
                #[trigger] uuid_text(uuid, true)[i] == '-'
            } else {
                is_upper_hex(uuid_text(uuid, true)[i])
            },
        uuid_text(uuid, true)[14] == '4',
        uuid_text(uuid, true)[19] == '8' || uuid_text(uuid, true)[19] == '9' || uuid_text(
            uuid,
            true,
        )[19] == 'A' || uuid_text(uuid, true)[19] == 'B',
{
    let digits = hex(uuid, 32, true);
    lemma_upper_hex(uuid, 32);
    assert forall|i: int| 0 <= i < 32 implies is_upper_hex(#[trigger] digits[i]) by {
        lemma_hex_digit(uuid, 32, i);
    }
    lemma_place_values();
    lemma_hex_digit(uuid, 32, 12);
    lemma_hex_digit(uuid, 32, 16);
    assert(uuid_text(uuid, true)[14] == digits[12]);
    assert(uuid_text(uuid, true)[19] == digits[16]);
    let high = uuid as int / 0x1000_0000_0000_0000;
    lemma_div_denominator(uuid as int, 0x1000_0000_0000_0000, 4);
    assert(high / 4 == uuid as int / 0x4000_0000_0000_0000);
    assert(high / 4 % 4 == 2);
    assert(8 <= high % 16 < 12);
    let text = uuid_text(uuid, true);
    assert forall|i: int| 0 <= i < 36 implies if i == 8 || i == 13 || i == 18 || i == 23 {
        #[trigger] text[i] == '-'
    } else {
        is_upper_hex(text[i])
    } by {
        if i < 8 {
            assert(text[i] == digits[i]);
        } else if 8 < i < 13 {
            assert(text[i] == digits[i - 1]);
        } else if 13 < i < 18 {
            assert(text[i] == digits[i - 2]);
        } else if 18 < i < 23 {
            assert(text[i] == digits[i - 3]);
        } else if 23 < i {
            assert(text[i] == digits[i - 4]);
        }
    }
}

/// The UDID of a device has 32 hexadecimal digits in upper case.
pub proof fn law_udid_shape(udid: nat)
    ensures
        hex(udid, 32, true).len() == 32,
        forall|i: int| 0 <= i < 32 ==> is_upper_hex(#[trigger] hex(udid, 32, true)[i]),
{
    lemma_upper_hex(udid, 32);
    assert forall|i: int| 0 <= i < 32 implies is_upper_hex(#[trigger] hex(udid, 32, true)[i]) by {
        lemma_hex_digit(udid, 32, i);
    }
}

/// The digits of a number in upper case hexadecimal: at each place the digit
/// for its value.
pub proof fn law_hex_places(n: nat, width: nat, i: int)
    requires
        0 <= i < width,
    ensures
        hex(n, width, true).len() == width,
        hex(n, width, true)[i] == "0123456789ABCDEF"@[n as int / pow(16, (width - 1 - i) as nat)
            % 16],
{
    reveal_strlit("0123456789ABCDEF");
    lemma_hex_digit(n, width, i);
    lemma_pow_positive(16, (width - 1 - i) as nat);
    let d = n as int / pow(16, (width - 1 - i) as nat) % 16;
    assert(0 <= d < 16);
    assert(d == 0 || d == 1 || d == 2 || d == 3 || d == 4 || d == 5 || d == 6 || d == 7 || d == 8
        || d == 9 || d == 10 || d == 11 || d == 12 || d == 13 || d == 14 || d == 15);
}

/// The text of a UUID in upper case: its 32 hexadecimal digits in order, with a
/// hyphen after the 8th, the 12th, the 16th and the 20th.
pub proof fn law_uuid_places(n: nat, i: int)
    requires
        0 <= i < 36,
    ensures
        uuid_text(n, true).len() == 36,
        uuid_text(n, true)[i] == if i == 8 || i == 13 || i == 18 || i == 23 {
            '-'
        } else {
            let place = if i < 8 {
                i
            } else if i < 13 {
                i - 1
            } else if i < 18 {
                i - 2
            } else if i < 23 {
                i - 3
            } else {
                i - 4
            };
            "0123456789ABCDEF"@[n as int / pow(16, (31 - place) as nat) % 16]
        },
{
    let digits = hex(n, 32, true);
    lemma_upper_hex(n, 32);
    if i != 8 && i != 13 && i != 18 && i != 23 {
        let place = if i < 8 {
            i
        } else if i < 13 {
            i - 1
        } else if i < 18 {
            i - 2
        } else if i < 23 {
            i - 3
        } else {
            i - 4
        };
        law_hex_places(n, 32, place);
        assert(uuid_text(n, true)[i] == digits[place]);
    }
}

/// The identifiers of a device are written out of its two numbers: at each place
/// of the UUID, behind the hyphens before it, and of the UDID stands the
/// hexadecimal digit of its own number there, in upper case. The serial number
/// is the same whatever the numbers are.
pub proof fn law_device_identifiers(config: FakeIOSConfig, uuid: u128, udid: u128, i: int)
    requires
        config.has_identifiers(uuid, udid),
        0 <= i < 32,
    ensures
        config.serial@ == "F2LZN0FAKE00"@,
        config.udid@.len() == 32,
        config.udid@[i] == "0123456789ABCDEF"@[udid as int / pow(16, (31 - i) as nat) % 16],
        config.device_uuid@.len() == 36,
        config.device_uuid@[if i < 8 {
            i
        } else if i < 12 {
            i + 1
        } else if i < 16 {
            i + 2
        } else if i < 20 {
            i + 3
        } else {
            i + 4
        }] == "0123456789ABCDEF"@[uuid as int / pow(16, (31 - i) as nat) % 16],
{
    law_hex_places(udid as nat, 32, i);
    law_uuid_places(
        uuid as nat,
        if i < 8 {
            i
        } else if i < 12 {
            i + 1
        } else if i < 16 {
            i + 2
        } else if i < 20 {
            i + 3
        } else {
            i + 4
        },
    );
}

} // verus!
