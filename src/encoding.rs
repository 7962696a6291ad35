//! Text forms used when drafting an invoice: hex payment identifiers,
//! decimal amounts, and the human-readable description.
use vstd::prelude::*;

verus! {

/// The lowercase hex digit for a value below 16.
pub open spec fn hex_digit(v: int) -> char {
    seq!['0', '1', '2', '3', '4', '5', '6', '7', '8', '9', 'a', 'b', 'c', 'd', 'e', 'f'][v]
}

/// Two lowercase hex digits per byte, most significant nibble first.
pub open spec fn hex_of(b: Seq<u8>) -> Seq<char>
    decreases b.len(),
{
    if b.len() == 0 {
        Seq::empty()
    } else {
        hex_of(b.drop_last()) + seq![hex_digit(b.last() as int / 16), hex_digit(b.last() as int % 16)]
    }
}

/// The decimal digit for a value below 10.
pub open spec fn decimal_digit(v: int) -> char {
    seq!['0', '1', '2', '3', '4', '5', '6', '7', '8', '9'][v]
}

/// The decimal text of a natural number, without sign or leading zeros.
pub open spec fn decimal_of(n: nat) -> Seq<char>
    decreases n,
{
    if n < 10 {
        seq![decimal_digit(n as int)]
    } else {
        decimal_of(n / 10).push(decimal_digit((n % 10) as int))
    }
}

pub proof fn lemma_hex_len(b: Seq<u8>)
    ensures
        hex_of(b).len() == 2 * b.len(),
    decreases b.len(),
{
    if b.len() > 0 {
        lemma_hex_len(b.drop_last());
    }
}

/// Relies on `hex::encode`, which writes each byte as two lowercase hex
/// digits, high nibble first, in the order of the input.
#[verifier::external_body]
pub(crate) fn hex_encode(bytes: &[u8; 32]) -> (r: String)
    ensures
        r@ == hex_of(bytes@),
{
    hex::encode(bytes)
}

/// Relies on std's `Display` for `u64` (through `ToString`), which writes the
/// plain decimal form.
#[verifier::external_body]
pub(crate) fn decimal_text(n: u64) -> (r: String)
    ensures
        r@ == decimal_of(n as nat),
{
    n.to_string()
}

/// The payment identifier for a payment hash: its lowercase hex form.
pub fn payment_id_of(hash: &[u8; 32]) -> (r: String)
    ensures
        r@ == hex_of(hash@),
        r@.len() == 64,
{
    proof {
        lemma_hex_len(hash@);
    }
    hex_encode(hash)
}

/// Whom a donation goes to when the request names no recipient.
pub open spec fn default_recipient() -> Seq<char> {
    "SatsForGood"@
}

/// The description carried by the encoded invoice.
pub open spec fn description_of(amount: u64, recipient: Option<Seq<char>>) -> Seq<char> {
    "Donation of "@ + decimal_of(amount as nat) + " sats to "@ + match recipient {
        Some(r) => r,
        None => default_recipient(),
    }
}

/// Builds the description "Donation of <amount> sats to <recipient>".
pub fn invoice_description(amount: u64, recipient: &Option<String>) -> (r: String)
    ensures
        r@ == description_of(
            amount,
            match recipient {
                Some(s) => Some(s@),
                None => None,
            },
        ),
{
    let digits = decimal_text(amount);
    let mut text = String::from_str("Donation of ");
    text.append(digits.as_str());
    text.append(" sats to ");
    match recipient {
        Some(name) => text.append(name.as_str()),
        None => text.append("SatsForGood"),
    }
    text
}

/// Standard padded base64 text of a byte string.
pub uninterp spec fn base64_of(b: Seq<u8>) -> Seq<char>;

/// Relies on `base64::engine::general_purpose::STANDARD.encode`: padded
/// standard-alphabet base64, four characters per started group of three bytes.
/// It panics when the output length overflows `usize`; the bound keeps clear of that.
#[verifier::external_body]
pub(crate) fn base64_encode(bytes: &Vec<u8>) -> (r: String)
    requires
        bytes@.len() <= usize::MAX / 2,
    ensures
        r@ == base64_of(bytes@),
        r@.len() == 4 * ((bytes@.len() + 2) / 3),
{
    base64::Engine::encode(&base64::engine::general_purpose::STANDARD, bytes)
}

/// The prefix of a data URI holding a base64-encoded PNG image.
pub open spec fn png_data_uri_prefix() -> Seq<char> {
    "data:image/png;base64,"@
}

/// The data URI for an already base64-encoded PNG image.
pub fn data_uri_from_base64(encoded: &str) -> (r: String)
    ensures
        r@ == png_data_uri_prefix() + encoded@,
{
    let mut uri = String::from_str("data:image/png;base64,");
    uri.append(encoded);
    uri
}

/// The data URI that embeds the PNG image `png`.
pub fn png_data_uri(png: &Vec<u8>) -> (r: String)
    requires
        png@.len() <= usize::MAX / 2,
    ensures
        r@ == png_data_uri_prefix() + base64_of(png@),
{
    let encoded = base64_encode(png);
    data_uri_from_base64(encoded.as_str())
}

} // verus!
