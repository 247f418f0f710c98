//! Logging in, and what the account tells about itself.

use crate::digits::{decimal, decimal_string};
use crate::entries::lookup;
use crate::property_list::{dictionary_entries, PlistTree};
use sha2::Digest;
use vstd::prelude::*;
use vstd::utf8::encode_utf8;

verus! {

/// The escrow proxy that is used where the account names no other.
pub const DEFAULT_ESCROW_HOST: &'static str = "https://p97-escrowproxy.icloud.com:443";

/// The SHA-256 digest of `data`.
pub uninterp spec fn sha256_digest(data: Seq<u8>) -> Seq<u8>;

/// `sha2::Sha256::digest`: the digest of `data`, which has 32 bytes.
#[verifier::external_body]
fn sha256(data: &[u8]) -> (digest: Vec<u8>)
    ensures
        digest@ == sha256_digest(data@),
        digest@.len() == 32,
{
    sha2::Sha256::digest(data).to_vec()
}

/// What stands for the password at login: the SHA-256 digest of its UTF-8
/// bytes.
pub fn password_hash(password: &str) -> (hash: Vec<u8>)
    ensures
        hash@ == sha256_digest(encode_utf8(password@)),
        hash@.len() == 32,
{
    sha256(password.as_bytes())
}

/// The identifiers of an account.
pub struct AccountIds {
    pub dsid: String,
    pub adsid: String,
}

/// The view of [`AccountIds`].
pub struct AccountIdsModel {
    pub dsid: Seq<char>,
    pub adsid: Seq<char>,
}

impl View for AccountIds {
    type V = AccountIdsModel;

    open spec fn view(&self) -> AccountIdsModel {
        AccountIdsModel { dsid: self.dsid@, adsid: self.adsid@ }
    }
}

/// The identifiers that the data sent at login holds: the one is a number that
/// fits in `u64`, the other a text. There are none where either is missing or
/// of another kind.
pub open spec fn ids_in(entries: Seq<(Seq<char>, PlistTree)>) -> Option<AccountIdsModel> {
    match (lookup(entries, "DsPrsId"@), lookup(entries, "adsid"@)) {
        (Some(PlistTree::Number(n)), Some(PlistTree::Text(adsid))) => if 0 <= n <= u64::MAX {
            Some(AccountIdsModel { dsid: decimal(n as nat), adsid })
        } else {
            None
        },
        _ => None,
    }
}

/// The identifiers of the account in the data `spd` that was sent at login.
pub fn account_ids(spd: &plist::Dictionary) -> (ids: Option<AccountIds>)
    ensures
        match ids {
            Some(i) => ids_in(dictionary_entries(*spd)) == Some(i@),
            None => ids_in(dictionary_entries(*spd)) is None,
        },
        ids matches Some(i) ==> {
            &&& lookup(dictionary_entries(*spd), "DsPrsId"@) matches Some(PlistTree::Number(n))
                && 0 <= n <= u64::MAX && i.dsid@ == decimal(n as nat)
            &&& lookup(dictionary_entries(*spd), "adsid"@) == Some(PlistTree::Text(i.adsid@))
        },
{
    let number = match spd.get("DsPrsId") {
        Some(value) => match value.as_unsigned_integer() {
            Some(n) => n,
            None => {
                return None;
            },
        },
        None => {
            return None;
        },
    };
    let adsid = match spd.get("adsid") {
        Some(value) => match value.as_string() {
            Some(s) => s.to_owned(),
            None => {
                return None;
            },
        },
        None => {
            return None;
        },
    };
    Some(AccountIds { dsid: decimal_string(number), adsid })
}

/// Whether the records are fetched once more: only where the first attempt was
/// answered with a demand to start over.
pub fn should_sync_again(attempts: u32, reset_requested: bool) -> (again: bool)
    ensures
        again == (attempts == 1 && reset_requested),
{
    attempts == 1 && reset_requested
}

/// Where the data has an integer between zero and `u64::MAX` under `DsPrsId` and
/// a text under `adsid`, the identifiers are that integer in decimal and that
/// text; there are none in any other case.
pub proof fn law_account_ids(entries: Seq<(Seq<char>, PlistTree)>, n: u64, text: Seq<char>)
    ensures
        lookup(entries, "DsPrsId"@) == Some(PlistTree::Number(n as int)) && lookup(
            entries,
            "adsid"@,
        ) == Some(PlistTree::Text(text)) ==> (ids_in(entries) matches Some(ids) && {
            &&& ids.dsid == decimal(n as nat)
            &&& ids.adsid == text
        }),
        ids_in(entries) is Some ==> {
            &&& lookup(entries, "DsPrsId"@) matches Some(PlistTree::Number(m)) && 0 <= m
                <= u64::MAX
            &&& lookup(entries, "adsid"@) matches Some(PlistTree::Text(_))
        },
{
}

/// The view of account identifiers has each as it is.
pub proof fn law_account_ids_view(ids: AccountIds)
    ensures
        ids@.dsid == ids.dsid@,
        ids@.adsid == ids.adsid@,
{
}

} // verus!
