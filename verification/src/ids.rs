use vstd::prelude::*;

verus! {

/// `c` is a lowercase hexadecimal digit.
pub open spec fn is_lower_hex(c: char) -> bool {
    ('0' <= c <= '9') || ('a' <= c <= 'f')
}

/// `s` is a UUID in the hyphenated form: 36 characters, with '-' at indices
/// 8, 13, 18 and 23 and lowercase hexadecimal digits elsewhere.
pub open spec fn is_hyphenated_uuid(s: Seq<char>) -> bool {
    &&& s.len() == 36
    &&& forall|i: int|
        0 <= i < 36 ==> if i == 8 || i == 13 || i == 18 || i == 23 {
            #[trigger] s[i] == '-'
        } else {
            is_lower_hex(s[i])
        }
}

/// `s` is `n` lowercase hexadecimal digits.
pub open spec fn is_hex_of_len(s: Seq<char>, n: nat) -> bool {
    &&& s.len() == n
    &&& forall|i: int| 0 <= i < n ==> is_lower_hex(#[trigger] s[i])
}

/// A fresh random identifier in hyphenated form.
///
/// Trusted: calls `uuid::Uuid::new_v4().to_string()`. `Display` for `Uuid`
/// writes the lowercase hyphenated form (`format_hyphenated` in the crate's
/// `fmt.rs`); the contract states that shape. Which UUID comes out is left
/// open: it is random.
#[verifier::external_body]
pub fn random_uuid() -> (res: String)
    ensures
        is_hyphenated_uuid(res@),
{
    uuid::Uuid::new_v4().to_string()
}

/// A fresh random identifier as 32 hexadecimal digits.
///
/// Trusted: calls `uuid::Uuid::new_v4().simple().to_string()`. `Display` for
/// `Simple` writes 32 lowercase hexadecimal digits (`format_simple` in the
/// crate's `fmt.rs`); the contract states that shape. The digits themselves
/// are random and left open.
#[verifier::external_body]
pub fn random_simple_uuid() -> (res: String)
    ensures
        is_hex_of_len(res@, 32),
{
    uuid::Uuid::new_v4().simple().to_string()
}

/// `s` is a time stamp in UTC: it ends with the offset `+00:00`.
pub open spec fn is_utc_stamp(s: Seq<char>) -> bool {
    s.len() >= 6 && s.subrange(s.len() - 6, s.len() as int) == "+00:00"@
}

/// The system clock could not be read as a time stamp: it reads a time
/// before 1970, or one too far off to be held.
#[derive(Debug, Clone, Copy, PartialEq, Eq, Structural)]
pub enum ClockError {
    Unreadable,
}

/// The current time in RFC 3339 form, or `None` where the clock cannot be
/// read as a time stamp.
///
/// Trusted: calls `std::time::SystemTime::now().duration_since(UNIX_EPOCH)`
/// (an error before 1970), `chrono::DateTime::from_timestamp` (`None` for a
/// time it cannot hold) and `to_rfc3339`, the steps of `Utc::now` in the
/// `chrono` crate (`offset/utc.rs`) with its two panics turned into `None`.
/// For UTC, `to_rfc3339` (`write_rfc3339` without `Z`) ends the text with the
/// offset `+00:00`; the contract states that ending. The date and time
/// before it depend on the clock and are left open, and so does whether the
/// clock can be read.
#[verifier::external_body]
pub fn now_rfc3339() -> (res: Option<String>)
    ensures
        res matches Some(s) ==> is_utc_stamp(s@),
{
    let since = std::time::SystemTime::now().duration_since(std::time::UNIX_EPOCH).ok()?;
    let stamp = chrono::DateTime::from_timestamp(since.as_secs() as i64, since.subsec_nanos())?;
    Some(stamp.to_rfc3339())
}

/// The first `n` characters of the ASCII text `full`.
pub fn hex_prefix(full: &str, n: usize) -> (r: String)
    requires
        vstd::string::is_ascii(full),
        n <= full@.len(),
    ensures
        r@ == full@.subrange(0, n as int),
{
    full.substring_ascii(0, n).to_string()
}

/// The first `n` digits of a fresh random 32-digit hexadecimal identifier.
pub fn random_hex(n: usize) -> (res: String)
    requires
        n <= 32,
    ensures
        is_hex_of_len(res@, n as nat),
{
    let full = random_simple_uuid();
    let text = full.as_str();
    assert(vstd::string::is_ascii(text));
    hex_prefix(text, n)
}

/// A short hash naming a player or a join link: 6 hexadecimal digits.
pub fn hex_string_short() -> (res: String)
    ensures
        is_hex_of_len(res@, 6),
{
    random_hex(6)
}

/// An identifier for a place in the matchmaking pool: 8 hexadecimal digits.
pub fn new_poll_id() -> (res: String)
    ensures
        is_hex_of_len(res@, 8),
{
    random_hex(8)
}

} // verus!
