//! Configuration values as the environment gives them.

use crate::error::{Fault, NexusError};
use crate::text;
use vstd::prelude::*;
use vstd::string::*;

verus! {

/// What the environment says of one variable.
#[derive(Debug, Clone, PartialEq, Eq)]
pub enum EnvValue {
    /// It is not set.
    Absent,
    /// It is set to something that is not Unicode.
    NotUnicode,
    Value(String),
}

/// The value of a variable, by its contents.
pub enum Setting {
    Absent,
    NotUnicode,
    Value(Seq<char>),
}

impl View for EnvValue {
    type V = Setting;

    open spec fn view(&self) -> Setting {
        match self {
            EnvValue::Absent => Setting::Absent,
            EnvValue::NotUnicode => Setting::NotUnicode,
            EnvValue::Value(v) => Setting::Value(v@),
        }
    }
}

/// Whether a text holds nothing but white space.
pub open spec fn blank(s: Seq<char>) -> bool {
    text::trimmed(s).len() == 0
}

/// Whether a text holds nothing but white space.
pub fn is_blank(s: &str) -> (r: bool)
    ensures
        r == blank(s@),
{
    let t = text::trim(s);
    t.as_str().is_empty()
}

/// The complaint that a variable is not Unicode.
pub open spec fn not_unicode(name: Seq<char>) -> Fault {
    Fault::ConfigError(name + " must be valid Unicode"@)
}

fn not_unicode_error(name: &str) -> (r: NexusError)
    ensures
        r@ == not_unicode(name@),
{
    NexusError::ConfigError(text::cat2(name, " must be valid Unicode"))
}

/// A text that has a default and may not be blank.
pub open spec fn string_setting(name: Seq<char>, v: Setting, default: Seq<char>) -> Result<
    Seq<char>,
    Fault,
> {
    match v {
        Setting::Value(t) => if blank(t) {
            Err(Fault::ConfigError(name + " must not be empty when configured"@))
        } else {
            Ok(t)
        },
        Setting::Absent => Ok(default),
        Setting::NotUnicode => Err(not_unicode(name)),
    }
}

/// The outcome of reading a text.
pub open spec fn text_outcome(r: Result<String, NexusError>) -> Result<Seq<char>, Fault> {
    match r {
        Ok(t) => Ok(t@),
        Err(e) => Err(e@),
    }
}

/// Reads a text that has a default and may not be blank.
pub fn env_string(name: &str, v: &EnvValue, default: String) -> (r: Result<String, NexusError>)
    ensures
        text_outcome(r) == string_setting(name@, v@, default@),
{
    match v {
        EnvValue::Value(t) => if is_blank(t.as_str()) {
            Err(NexusError::ConfigError(text::cat2(name, " must not be empty when configured")))
        } else {
            Ok(t.clone())
        },
        EnvValue::Absent => Ok(default),
        EnvValue::NotUnicode => Err(not_unicode_error(name)),
    }
}

/// A text that may be left out. A blank one counts as left out.
pub open spec fn optional_setting(name: Seq<char>, v: Setting) -> Result<Option<Seq<char>>, Fault> {
    match v {
        Setting::Value(t) => if blank(t) {
            Ok(None)
        } else {
            Ok(Some(t))
        },
        Setting::Absent => Ok(None),
        Setting::NotUnicode => Err(not_unicode(name)),
    }
}

/// The outcome of reading an optional text.
pub open spec fn optional_outcome(r: Result<Option<String>, NexusError>) -> Result<
    Option<Seq<char>>,
    Fault,
> {
    match r {
        Ok(t) => Ok(text::opt_text(t)),
        Err(e) => Err(e@),
    }
}

/// Reads a text that may be left out.
pub fn env_optional_string(name: &str, v: &EnvValue) -> (r: Result<Option<String>, NexusError>)
    ensures
        optional_outcome(r) == optional_setting(name@, v@),
{
    match v {
        EnvValue::Value(t) => if is_blank(t.as_str()) {
            Ok(None)
        } else {
            Ok(Some(t.clone()))
        },
        EnvValue::Absent => Ok(None),
        EnvValue::NotUnicode => Err(not_unicode_error(name)),
    }
}

/// The truth value that a word stands for.
pub open spec fn truth_word(t: Seq<char>) -> Option<bool> {
    let w = text::ascii_lowered(text::trimmed(t));
    if w == "1"@ || w == "true"@ || w == "yes"@ || w == "on"@ {
        Some(true)
    } else if w == "0"@ || w == "false"@ || w == "no"@ || w == "off"@ {
        Some(false)
    } else {
        None
    }
}

/// The truth value that a word stands for.
pub fn parse_truth_word(t: &str) -> (r: Option<bool>)
    ensures
        r == truth_word(t@),
{
    let trimmed = text::trim(t);
    let w = text::ascii_lowercase(trimmed.as_str());
    if text::same_text(w.as_str(), "1") || text::same_text(w.as_str(), "true") || text::same_text(
        w.as_str(),
        "yes",
    ) || text::same_text(w.as_str(), "on") {
        Some(true)
    } else if text::same_text(w.as_str(), "0") || text::same_text(w.as_str(), "false")
        || text::same_text(w.as_str(), "no") || text::same_text(w.as_str(), "off") {
        Some(false)
    } else {
        None
    }
}

/// A truth value that has a default.
pub open spec fn bool_setting(name: Seq<char>, v: Setting, default: bool) -> Result<bool, Fault> {
    match v {
        Setting::Value(t) => match truth_word(t) {
            Some(b) => Ok(b),
            None => Err(
                Fault::ConfigError(
                    name + " must be one of true/false, yes/no, on/off, or 1/0"@,
                ),
            ),
        },
        Setting::Absent => Ok(default),
        Setting::NotUnicode => Err(not_unicode(name)),
    }
}

/// The outcome of reading a truth value.
pub open spec fn bool_outcome(r: Result<bool, NexusError>) -> Result<bool, Fault> {
    match r {
        Ok(b) => Ok(b),
        Err(e) => Err(e@),
    }
}

/// Reads a truth value.
pub fn env_bool(name: &str, v: &EnvValue, default: bool) -> (r: Result<bool, NexusError>)
    ensures
        bool_outcome(r) == bool_setting(name@, v@, default),
{
    match v {
        EnvValue::Value(t) => match parse_truth_word(t.as_str()) {
            Some(b) => Ok(b),
            None => Err(
                NexusError::ConfigError(
                    text::cat2(name, " must be one of true/false, yes/no, on/off, or 1/0"),
                ),
            ),
        },
        EnvValue::Absent => Ok(default),
        EnvValue::NotUnicode => Err(not_unicode_error(name)),
    }
}

/// Why a text is not a number of 64 bits; empty where it is one.
pub uninterp spec fn number_fault(s: Seq<char>) -> Seq<char>;

/// `str::parse::<u64>`: what its error says depends on the text alone.
#[verifier::external_body]
pub(crate) fn number_fault_text(s: &str) -> (r: String)
    ensures
        r@ == number_fault(s@),
{
    match s.parse::<u64>() {
        Ok(_) => String::new(),
        Err(e) => e.to_string(),
    }
}

/// The number that a text stands for, white space around it aside.
pub open spec fn number_value(t: Seq<char>) -> Option<u64> {
    match text::number(text::trimmed(t)) {
        Some(n) => if n <= u64::MAX {
            Some(n as u64)
        } else {
            None
        },
        None => None,
    }
}

/// The number that a text stands for, white space around it aside.
pub fn parse_number_value(t: &str) -> (r: Option<u64>)
    ensures
        r == number_value(t@),
{
    let trimmed = text::trim(t);
    text::parse_number(trimmed.as_str())
}

/// A number that has a default.
pub open spec fn u64_setting(name: Seq<char>, v: Setting, default: u64) -> Result<u64, Fault> {
    match v {
        Setting::Value(t) => match number_value(t) {
            Some(n) => Ok(n),
            None => Err(
                Fault::ConfigError(
                    "invalid "@ + name + ": "@ + number_fault(text::trimmed(t)),
                ),
            ),
        },
        Setting::Absent => Ok(default),
        Setting::NotUnicode => Err(not_unicode(name)),
    }
}

/// The outcome of reading a number.
pub open spec fn u64_outcome(r: Result<u64, NexusError>) -> Result<u64, Fault> {
    match r {
        Ok(n) => Ok(n),
        Err(e) => Err(e@),
    }
}

/// Reads a number.
pub fn env_u64(name: &str, v: &EnvValue, default: u64) -> (r: Result<u64, NexusError>)
    ensures
        u64_outcome(r) == u64_setting(name@, v@, default),
{
    match v {
        EnvValue::Value(t) => match parse_number_value(t.as_str()) {
            Some(n) => Ok(n),
            None => {
                let trimmed = text::trim(t.as_str());
                let why = number_fault_text(trimmed.as_str());
                Err(NexusError::ConfigError(text::cat4("invalid ", name, ": ", why.as_str())))
            },
        },
        EnvValue::Absent => Ok(default),
        EnvValue::NotUnicode => Err(not_unicode_error(name)),
    }
}

/// The value of one hexadecimal digit.
pub open spec fn nibble(b: u8) -> Option<u8> {
    if 48 <= b <= 57 {
        Some((b - 48) as u8)
    } else if 97 <= b <= 102 {
        Some((b - 87) as u8)
    } else if 65 <= b <= 70 {
        Some((b - 55) as u8)
    } else {
        None
    }
}

/// The value of one hexadecimal digit.
pub fn hex_nibble(b: u8) -> (r: Option<u8>)
    ensures
        r == nibble(b),
{
    if 48 <= b && b <= 57 {
        Some(b - 48)
    } else if 97 <= b && b <= 102 {
        Some(b - 87)
    } else if 65 <= b && b <= 70 {
        Some(b - 55)
    } else {
        None
    }
}

/// What is wrong with a hexadecimal text.
#[derive(Debug, Clone, Copy, PartialEq, Eq, Structural)]
pub enum HexFault {
    /// It ends in the middle of a byte.
    Odd,
    /// It holds something that is no digit.
    Digit,
}

/// The bytes that pairs of digits stand for, read from the left: the first
/// pair that is not a byte decides.
pub open spec fn hex_pairs(b: Seq<u8>) -> Result<Seq<u8>, HexFault>
    decreases b.len(),
{
    if b.len() == 0 {
        Ok(Seq::empty())
    } else if b.len() == 1 {
        Err(HexFault::Odd)
    } else {
        match (nibble(b[0]), nibble(b[1])) {
            (Some(hi), Some(lo)) => match hex_pairs(b.skip(2)) {
                Ok(rest) => Ok(seq![(hi * 16 + lo) as u8] + rest),
                Err(e) => Err(e),
            },
            _ => Err(HexFault::Digit),
        }
    }
}

/// The bytes that pairs of digits stand for.
pub fn parse_hex_pairs(b: &[u8]) -> (r: Result<Vec<u8>, HexFault>)
    ensures
        match r {
            Ok(v) => hex_pairs(b@) == Ok::<Seq<u8>, HexFault>(v@),
            Err(e) => hex_pairs(b@) == Err::<Seq<u8>, HexFault>(e),
        },
{
    let mut out: Vec<u8> = Vec::new();
    let mut i: usize = 0;
    assert(b@.skip(0) =~= b@);
    assert(hex_pairs(b@) == after(out@, hex_pairs(b@.skip(0)))) by {
        match hex_pairs(b@) {
            Ok(v) => {
                assert(Seq::<u8>::empty() + v =~= v);
            },
            Err(_) => {},
        }
    }
    while i < b.len()
        invariant
            i <= b.len(),
            hex_pairs(b@) == after(out@, hex_pairs(b@.skip(i as int))),
        decreases b.len() - i,
    {
        let ghost rest = b@.skip(i as int);
        let ghost had = out@;
        if b.len() - i < 2 {
            return Err(HexFault::Odd);
        }
        assert(rest[0] == b@[i as int] && rest[1] == b@[i + 1]);
        match (hex_nibble(b[i]), hex_nibble(b[i + 1])) {
            (Some(hi), Some(lo)) => {
                let byte: u8 = hi * 16 + lo;
                out.push(byte);
                i = i + 2;
                proof {
                    assert(rest.skip(2) =~= b@.skip(i as int));
                    match hex_pairs(b@.skip(i as int)) {
                        Ok(v) => {
                            assert(had + (seq![byte] + v) =~= out@ + v);
                        },
                        Err(_) => {},
                    }
                }
            },
            _ => {
                return Err(HexFault::Digit);
            },
        }
    }
    assert(b@.skip(b.len() as int) =~= Seq::<u8>::empty());
    assert(out@ + Seq::<u8>::empty() =~= out@);
    Ok(out)
}

// What comes of a reading that has `head` behind it.
spec fn after(head: Seq<u8>, rest: Result<Seq<u8>, HexFault>) -> Result<Seq<u8>, HexFault> {
    match rest {
        Ok(v) => Ok(head + v),
        Err(e) => Err(e),
    }
}

/// A key in hexadecimal, of at most 512 bytes, that may be left out.
pub open spec fn hex_setting(name: Seq<char>, v: Setting) -> Result<Option<Seq<u8>>, Fault> {
    match v {
        Setting::Value(t) => if blank(t) {
            Ok(None)
        } else {
            match hex_pairs(vstd::utf8::encode_utf8(text::trimmed(t))) {
                Err(HexFault::Odd) => Err(
                    Fault::ConfigError(name + " must be an even-length hex string"@),
                ),
                Err(HexFault::Digit) => Err(
                    Fault::ConfigError(name + " contains invalid hex character"@),
                ),
                Ok(b) => if b.len() > 512 {
                    Err(
                        Fault::ConfigError(
                            name + " must be at most 512 bytes (1024 hex chars)"@,
                        ),
                    )
                } else {
                    Ok(Some(b))
                },
            }
        },
        Setting::Absent => Ok(None),
        Setting::NotUnicode => Err(not_unicode(name)),
    }
}

/// The outcome of reading a key.
pub open spec fn hex_outcome(r: Result<Option<Vec<u8>>, NexusError>) -> Result<
    Option<Seq<u8>>,
    Fault,
> {
    match r {
        Ok(Some(b)) => Ok(Some(b@)),
        Ok(None) => Ok(None),
        Err(e) => Err(e@),
    }
}

/// Reads a key in hexadecimal.
pub fn env_optional_hex(name: &str, v: &EnvValue) -> (r: Result<Option<Vec<u8>>, NexusError>)
    ensures
        hex_outcome(r) == hex_setting(name@, v@),
{
    match v {
        EnvValue::Value(t) => {
            if is_blank(t.as_str()) {
                return Ok(None);
            }
            let trimmed = text::trim(t.as_str());
            match parse_hex_pairs(trimmed.as_str().as_bytes()) {
                Err(HexFault::Odd) => Err(
                    NexusError::ConfigError(
                        text::cat2(name, " must be an even-length hex string"),
                    ),
                ),
                Err(HexFault::Digit) => Err(
                    NexusError::ConfigError(text::cat2(name, " contains invalid hex character")),
                ),
                Ok(b) => if b.len() > 512 {
                    Err(
                        NexusError::ConfigError(
                            text::cat2(name, " must be at most 512 bytes (1024 hex chars)"),
                        ),
                    )
                } else {
                    Ok(Some(b))
                },
            }
        },
        EnvValue::Absent => Ok(None),
        EnvValue::NotUnicode => Err(not_unicode_error(name)),
    }
}

/// Bytes as pairs of hexadecimal digits.
pub open spec fn hex_written(b: Seq<u8>) -> Seq<u8>
    decreases b.len(),
{
    if b.len() == 0 {
        Seq::empty()
    } else {
        seq![text::hex_digit(b[0] / 16) as u8, text::hex_digit(b[0] % 16) as u8] + hex_written(
            b.skip(1),
        )
    }
}

/// Reading pairs of hexadecimal digits undoes writing them, whatever the bytes.
pub proof fn lemma_hex_pairs_read_back(b: Seq<u8>)
    ensures
        hex_pairs(hex_written(b)) == Ok::<Seq<u8>, HexFault>(b),
    decreases b.len(),
{
    if b.len() > 0 {
        lemma_hex_pairs_read_back(b.skip(1));
        let w = hex_written(b);
        assert(w.skip(2) =~= hex_written(b.skip(1)));
        lemma_nibbles_read_back(b[0] / 16);
        lemma_nibbles_read_back(b[0] % 16);
        assert((b[0] / 16) * 16 + b[0] % 16 == b[0]);
        assert(seq![b[0]] + b.skip(1) =~= b);
    } else {
        assert(b =~= Seq::empty());
    }
}

/// A digit stands for the same number in either case, and each number below
/// sixteen has a digit.
pub proof fn lemma_nibbles_read_back(n: u8)
    requires
        n < 16,
    ensures
        nibble(text::hex_digit(n) as u8) == Some(n),
        n >= 10 ==> nibble((65 + n - 10) as u8) == Some(n),
{
}

/// What a number of pairs stands for: half as many bytes, where every character
/// is a digit.
pub proof fn lemma_hex_pairs_halve(b: Seq<u8>)
    ensures
        hex_pairs(b) matches Ok(r) ==> 2 * r.len() == b.len() && forall|i: int|
            0 <= i < b.len() ==> nibble(#[trigger] b[i]) is Some,
        hex_pairs(b) == Err::<Seq<u8>, HexFault>(HexFault::Odd) ==> b.len() % 2 == 1,
    decreases b.len(),
{
    if b.len() >= 2 {
        lemma_hex_pairs_halve(b.skip(2));
        if hex_pairs(b) is Ok {
            assert forall|i: int| 0 <= i < b.len() implies nibble(#[trigger] b[i]) is Some by {
                if i >= 2 {
                    assert(b.skip(2)[i - 2] == b[i]);
                }
            }
        }
    }
}

/// A switch is on or off by its words, in whatever case and with white space
/// round them, and no word means both.
pub proof fn lemma_switches_by_words(t: Seq<char>, w: Seq<char>)
    requires
        w == text::ascii_lowered(text::trimmed(t)),
    ensures
        w == "1"@ || w == "true"@ || w == "yes"@ || w == "on"@ ==> truth_word(t) == Some(true),
        w == "0"@ || w == "false"@ || w == "no"@ || w == "off"@ ==> truth_word(t) == Some(false),
        truth_word(t) is Some ==> w.len() > 0 && w.len() <= 5,
{
    reveal_strlit("1");
    reveal_strlit("true");
    reveal_strlit("yes");
    reveal_strlit("on");
    reveal_strlit("0");
    reveal_strlit("false");
    reveal_strlit("no");
    reveal_strlit("off");
    if w == "0"@ || w == "false"@ || w == "no"@ || w == "off"@ {
        assert(w[0] == '0' || w[0] == 'f' || w[0] == 'n' || w[0] == 'o');
        if w.len() == 2 {
            assert(w[0] == 'n');
        }
    }
}

/// A setting that is there is taken as it stands, one that is not leaves the
/// default, and what cannot be taken is told under the name of the setting.
pub proof fn lemma_settings_are_taken(
    name: Seq<char>,
    t: Seq<char>,
    default_text: Seq<char>,
    default_flag: bool,
    default_number: u64,
)
    ensures
        string_setting(name, Setting::Absent, default_text) == Ok::<Seq<char>, Fault>(default_text),
        bool_setting(name, Setting::Absent, default_flag) == Ok::<bool, Fault>(default_flag),
        u64_setting(name, Setting::Absent, default_number) == Ok::<u64, Fault>(default_number),
        optional_setting(name, Setting::Absent) == Ok::<Option<Seq<char>>, Fault>(None),
        hex_setting(name, Setting::Absent) == Ok::<Option<Seq<u8>>, Fault>(None),
        text::trimmed(t).len() > 0 ==> string_setting(name, Setting::Value(t), default_text) == Ok::<
            Seq<char>,
            Fault,
        >(t) && optional_setting(name, Setting::Value(t)) == Ok::<Option<Seq<char>>, Fault>(Some(t)),
        text::trimmed(t).len() == 0 ==> string_setting(name, Setting::Value(t), default_text) is Err
            && optional_setting(name, Setting::Value(t)) == Ok::<Option<Seq<char>>, Fault>(None),
        string_setting(name, Setting::NotUnicode, default_text) is Err,
        bool_setting(name, Setting::NotUnicode, default_flag) is Err,
        u64_setting(name, Setting::NotUnicode, default_number) is Err,
        optional_setting(name, Setting::NotUnicode) is Err,
        hex_setting(name, Setting::NotUnicode) is Err,
        bool_setting(name, Setting::Value(t), default_flag) is Ok <==> truth_word(t) is Some,
        bool_setting(name, Setting::Value(t), default_flag) matches Ok(b) ==> truth_word(t) == Some(
            b,
        ),
        u64_setting(name, Setting::Value(t), default_number) matches Ok(n) ==> text::number(
            text::trimmed(t),
        ) == Some(n as nat),
        hex_setting(name, Setting::Value(t)) matches Ok(Some(b)) ==> b.len() <= 512,
        string_setting(name, Setting::Value(t), default_text) matches Err(f) ==> names_setting(
            f,
            name,
        ),
        bool_setting(name, Setting::Value(t), default_flag) matches Err(f) ==> names_setting(
            f,
            name,
        ),
        hex_setting(name, Setting::Value(t)) matches Err(f) ==> names_setting(f, name),
        names_setting(not_unicode(name), name),
{
    lemma_name_in_front(name, " must be valid Unicode"@);
    lemma_name_in_front(name, " must not be empty when configured"@);
    lemma_name_in_front(name, " must be one of true/false, yes/no, on/off, or 1/0"@);
    lemma_name_in_front(name, " must be an even-length hex string"@);
    lemma_name_in_front(name, " contains invalid hex character"@);
    lemma_name_in_front(name, " must be at most 512 bytes (1024 hex chars)"@);
}

/// Whether a fault is one of the configuration that starts with the name of the
/// setting.
pub open spec fn names_setting(f: Fault, name: Seq<char>) -> bool {
    f matches Fault::ConfigError(t) && text::starts(t, name)
}

proof fn lemma_name_in_front(name: Seq<char>, said: Seq<char>)
    ensures
        text::starts(name + said, name),
{
    assert((name + said).subrange(0, name.len() as int) =~= name);
}

} // verus!
