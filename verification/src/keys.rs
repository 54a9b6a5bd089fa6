//! Reading private keys that users type or configure: 64 hex digits or a WIF
//! string.
use vstd::prelude::*;
use vstd::utf8::encode_utf8;

use crate::codec::{hex_bytes, hex_decode, is_hex_text};
use crate::wallet::WalletError;

verus! {

/// A private key as it was written, once its form is known.
pub enum PrivateKeyText {
    /// The secret bytes of a key written in hex.
    Secret(Vec<u8>),
    /// A key in wallet import format, still to be decoded.
    Wif(String),
}

/// The outcome of reading a key, as plain values: the secret bytes or the WIF
/// text, or the message of the error.
pub enum KeyReading {
    Secret(Seq<u8>),
    Wif(Seq<char>),
    Failed(Seq<char>),
}

/// How a key is read from its text, by the byte length of the text: 64 bytes are
/// hex, 51 or 52 bytes are WIF, any other length fails with `other_length`.
pub open spec fn key_reading(text: Seq<char>, other_length: Seq<char>) -> KeyReading {
    let bytes = encode_utf8(text);
    if bytes.len() == 64 {
        if is_hex_text(bytes) {
            KeyReading::Secret(hex_bytes(bytes))
        } else {
            KeyReading::Failed("Failed to decode hex"@)
        }
    } else if bytes.len() == 51 || bytes.len() == 52 {
        KeyReading::Wif(text)
    } else {
        KeyReading::Failed(other_length)
    }
}

/// The result of reading a key, as plain values.
pub open spec fn reading_of(r: Result<PrivateKeyText, WalletError>) -> KeyReading {
    match r {
        Ok(PrivateKeyText::Secret(b)) => KeyReading::Secret(b@),
        Ok(PrivateKeyText::Wif(s)) => KeyReading::Wif(s@),
        Err(e) => KeyReading::Failed(e.spec_message()),
    }
}

fn read_private_key_text(text: &str, other_length: &str) -> (r: Result<PrivateKeyText, WalletError>)
    ensures
        reading_of(r) == key_reading(text@, other_length@),
        r is Err ==> r matches Err(WalletError::Custom(_)),
{
    let len = text.as_bytes().len();
    if len == 64 {
        match hex_decode(text) {
            Ok(bytes) => Ok(PrivateKeyText::Secret(bytes)),
            Err(_) => Err(WalletError::Custom("Failed to decode hex".to_owned())),
        }
    } else if len == 51 || len == 52 {
        Ok(PrivateKeyText::Wif(text.to_owned()))
    } else {
        Err(WalletError::Custom(other_length.to_owned()))
    }
}

/// Reads the private key of a wallet: 64 hex digits give the secret bytes,
/// 51 or 52 bytes are taken as WIF; any other length is refused.
pub fn wallet_private_key_text(text: &str) -> (r: Result<PrivateKeyText, WalletError>)
    ensures
        reading_of(r) == key_reading(text@, "Private key in env file can't be decoded"@),
        r is Err ==> r matches Err(WalletError::Custom(_)),
{
    read_private_key_text(text, "Private key in env file can't be decoded")
}

/// Reads one private key of an identity, as a wallet key is read but with its
/// own message for a length that is neither hex nor WIF.
pub fn identity_private_key_text(text: &str) -> (r: Result<PrivateKeyText, WalletError>)
    ensures
        reading_of(r) == key_reading(text@, "Private key can't be decoded from hex or wif"@),
        r is Err ==> r matches Err(WalletError::Custom(_)),
{
    read_private_key_text(text, "Private key can't be decoded from hex or wif")
}

/// Reads the private keys of an identity in order; the first key that cannot be
/// read fails the whole list with its error.
pub fn identity_private_key_texts(texts: &Vec<String>) -> (r: Result<
    Vec<PrivateKeyText>,
    WalletError,
>)
    ensures
        r matches Ok(keys) ==> {
            &&& keys@.len() == texts@.len()
            &&& forall|i: int|
                0 <= i < texts@.len() ==> reading_of(Ok(#[trigger] keys@[i])) == key_reading(
                    texts@[i]@,
                    "Private key can't be decoded from hex or wif"@,
                )
        },
        r matches Err(e) ==> exists|i: int|
            0 <= i < texts@.len() && (forall|j: int|
                0 <= j < i ==> !(key_reading(
                    texts@[j]@,
                    "Private key can't be decoded from hex or wif"@,
                ) is Failed)) && KeyReading::Failed(e.spec_message()) == key_reading(
                texts@[i]@,
                "Private key can't be decoded from hex or wif"@,
            ),
{
    let mut keys: Vec<PrivateKeyText> = Vec::new();
    let mut i: usize = 0;
    while i < texts.len()
        invariant
            i <= texts@.len(),
            keys@.len() == i,
            forall|k: int|
                0 <= k < i ==> reading_of(Ok(#[trigger] keys@[k])) == key_reading(
                    texts@[k]@,
                    "Private key can't be decoded from hex or wif"@,
                ),
            forall|j: int|
                0 <= j < i ==> !(key_reading(
                    texts@[j]@,
                    "Private key can't be decoded from hex or wif"@,
                ) is Failed),
        decreases texts@.len() - i,
    {
        let r = identity_private_key_text(texts[i].as_str());
        match r {
            Ok(k) => {
                keys.push(k);
            },
            Err(e) => {
                return Err(e);
            },
        }
        i = i + 1;
    }
    Ok(keys)
}

/// The secret bytes of a key once the key crate decoded the key read from its
/// text (`decoded`, or `None` where it refused it): a refused key in hex is not
/// a private key, a refused WIF text is not a WIF key.
pub fn decoded_private_key(text: &PrivateKeyText, decoded: Option<Vec<u8>>) -> (r: Result<
    Vec<u8>,
    WalletError,
>)
    ensures
        decoded matches Some(k) ==> (r matches Ok(b) && b@ == k@),
        decoded is None ==> (r matches Err(WalletError::Custom(m)) && m@ == if text is Secret {
            "Expected private key"@
        } else {
            "Expected WIF key"@
        }),
{
    match decoded {
        Some(k) => Ok(k),
        None => match text {
            PrivateKeyText::Secret(_) => Err(WalletError::Custom("Expected private key".to_owned())),
            PrivateKeyText::Wif(_) => Err(WalletError::Custom("Expected WIF key".to_owned())),
        },
    }
}

} // verus!
