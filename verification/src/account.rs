//! Accounts: how they are keyed, how keys are read off the wire and out of
//! storage, and what an account holds.
use vstd::prelude::*;
use vstd::string::*;
use vstd::utf8::*;

use crate::order::{byte_codes, char_codes, key_before, lemma_key_irreflexive, lemma_lex_common_prefix};
use crate::proto::{account_id, AccountId, IdView};
use crate::text::{chars_of, hex_byte, hex_byte_string, hex_char, hex_digit_value, hex_value};

verus! {

/// Longest accepted `namespace:key` name, in characters.
pub const MAX_NAMED_LENGTH: usize = 128;

/// The key of an account in the ledger.
#[derive(Debug, PartialEq, Eq, Hash, PartialOrd, Ord)]
pub enum AccountKey {
    Player([u8; 16]),
    Named(String),
}

impl View for AccountKey {
    type V = IdView;

    open spec fn view(&self) -> IdView {
        match self {
            AccountKey::Player(uuid) => IdView::Player(uuid@),
            AccountKey::Named(name) => IdView::Named(name@),
        }
    }
}

impl Clone for AccountKey {
    fn clone(&self) -> (r: Self)
        ensures
            r == *self,
    {
        match self {
            AccountKey::Player(uuid) => AccountKey::Player(*uuid),
            AccountKey::Named(name) => AccountKey::Named(name.clone()),
        }
    }
}

/// Why an account id was refused.
#[derive(Clone, Copy, Debug, PartialEq, Eq, Structural)]
pub enum InvalidAccount {
    Missing,
    BadUuid,
    BadName,
}

/// What each refusal says to the person who made it.
pub open spec fn invalid_account_text(e: InvalidAccount) -> Seq<char> {
    match e {
        InvalidAccount::Missing => "no account was given"@,
        InvalidAccount::BadUuid => "player accounts are identified by a 16-byte uuid"@,
        InvalidAccount::BadName =>
            "named accounts look like \"namespace:key\", up to 128 characters of [a-zA-Z0-9_.-]"@,
    }
}

impl InvalidAccount {
    /// The refusal as a sentence.
    pub fn to_string(&self) -> (r: String)
        ensures
            r@ == invalid_account_text(*self),
    {
        match self {
            InvalidAccount::Missing => String::from_str("no account was given"),
            InvalidAccount::BadUuid => String::from_str(
                "player accounts are identified by a 16-byte uuid",
            ),
            InvalidAccount::BadName => String::from_str(
                "named accounts look like \"namespace:key\", up to 128 characters of [a-zA-Z0-9_.-]",
            ),
        }
    }
}

/// A character allowed on either side of the colon of a name: `[a-zA-Z0-9_.-]`.
pub open spec fn is_name_char(c: char) -> bool {
    ||| ('a' <= c && c <= 'z')
    ||| ('A' <= c && c <= 'Z')
    ||| ('0' <= c && c <= '9')
    ||| c == '_'
    ||| c == '.'
    ||| c == '-'
}

/// A well-formed `namespace:key`: one colon with a non-empty run of name
/// characters on each side, at most `MAX_NAMED_LENGTH` characters in all.
pub open spec fn valid_name(s: Seq<char>) -> bool {
    &&& s.len() <= MAX_NAMED_LENGTH
    &&& exists|i: int|
        0 < i < s.len() - 1 && #[trigger] s[i] == ':' && (forall|j: int|
            0 <= j < s.len() && j != i ==> is_name_char(#[trigger] s[j]))
}

fn is_name_char_exec(c: char) -> (r: bool)
    ensures
        r == is_name_char(c),
{
    ('a' <= c && c <= 'z') || ('A' <= c && c <= 'Z') || ('0' <= c && c <= '9') || c == '_' || c
        == '.' || c == '-'
}

/// Whether `name` is a well-formed `namespace:key`.
pub fn is_valid_name(name: &str) -> (r: bool)
    ensures
        r == valid_name(name@),
{
    let chars = chars_of(name);
    let n = chars.len();
    if n > MAX_NAMED_LENGTH {
        return false;
    }
    let mut colons: usize = 0;
    let mut first_colon: usize = 0;
    let mut i: usize = 0;
    while i < n
        invariant
            n == chars@.len(),
            chars@ == name@,
            i <= n,
            colons <= i,
            colons == 0 ==> forall|j: int| 0 <= j < i ==> chars@[j] != ':',
            colons >= 1 ==> first_colon < i && chars@[first_colon as int] == ':' && forall|j: int|
                0 <= j < first_colon ==> chars@[j] != ':',
            colons == 1 ==> forall|j: int| 0 <= j < i && j != first_colon ==> chars@[j] != ':',
            colons >= 2 ==> exists|j: int|
                first_colon < j < i && #[trigger] chars@[j] == ':',
            forall|j: int| 0 <= j < i && chars@[j] != ':' ==> is_name_char(#[trigger] chars@[j]),
        decreases n - i,
    {
        let c = chars[i];
        if c == ':' {
            if colons == 0 {
                first_colon = i;
            }
            colons = colons + 1;
        } else if !is_name_char_exec(c) {
            proof {
                assert forall|k: int|
                    0 < k < name@.len() - 1 && #[trigger] name@[k] == ':' implies !(forall|j: int|
                    0 <= j < name@.len() && j != k ==> is_name_char(#[trigger] name@[j])) by {
                    assert(name@[i as int] == c);
                }
            }
            return false;
        }
        i = i + 1;
    }
    if colons != 1 || first_colon == 0 || first_colon + 1 == n {
        proof {
            if colons >= 2 {
                let j = choose|j: int| first_colon < j < n && #[trigger] chars@[j] == ':';
                assert forall|k: int|
                    0 < k < name@.len() - 1 && #[trigger] name@[k] == ':' implies !(forall|j: int|
                    0 <= j < name@.len() && j != k ==> is_name_char(#[trigger] name@[j])) by {
                    if k == first_colon {
                        assert(name@[j] == ':');
                    } else {
                        assert(name@[first_colon as int] == ':');
                    }
                }
            }
        }
        return false;
    }
    proof {
        assert(name@[first_colon as int] == ':');
        assert forall|j: int| 0 <= j < name@.len() && j != first_colon implies is_name_char(
            #[trigger] name@[j],
        ) by {
            assert(chars@[j] != ':');
        }
    }
    true
}

/// The lowercase hexadecimal spelling of a run of bytes, two digits each.
pub open spec fn hex_bytes(b: Seq<u8>) -> Seq<char>
    decreases b.len(),
{
    if b.len() == 0 {
        Seq::empty()
    } else {
        hex_bytes(b.drop_last()) + hex_byte(b.last())
    }
}

/// How an account key is written in storage: a player's uuid as 32 lowercase
/// hexadecimal digits, a name as itself.
pub open spec fn storage_text(k: IdView) -> Seq<char> {
    match k {
        IdView::Player(uuid) => hex_bytes(uuid),
        IdView::Named(name) => name,
    }
}

/// The byte that a two-character slice spells for `u8::from_str_radix(_, 16)`:
/// two hexadecimal digits, or a `+` sign and one digit.
pub open spec fn pair_value(c0: char, c1: char) -> Option<u8> {
    if c0 == '+' {
        match hex_value(c1) {
            Some(v) => Some(v as u8),
            None => None,
        }
    } else {
        match (hex_value(c0), hex_value(c1)) {
            (Some(h), Some(l)) => Some((h * 16 + l) as u8),
            _ => None,
        }
    }
}

/// Every pair of characters of a 32-character key spells a byte.
pub open spec fn pairs_spell_bytes(s: Seq<char>) -> bool {
    forall|i: int| 0 <= i < 16 ==> (#[trigger] pair_value(s[2 * i], s[2 * i + 1])) is Some
}

/// The 16 bytes spelled by the pairs of a 32-character key.
pub open spec fn pair_bytes(s: Seq<char>) -> Seq<u8> {
    Seq::new(16, |i: int| pair_value(s[2 * i], s[2 * i + 1])->0)
}

/// What a storage key reads as.
pub open spec fn parse_storage_text(s: Seq<char>) -> Result<IdView, InvalidAccount> {
    if s.contains(':') {
        if valid_name(s) {
            Ok(IdView::Named(s))
        } else {
            Err(InvalidAccount::BadName)
        }
    } else if is_ascii_chars(s) && s.len() == 32 && pairs_spell_bytes(s) {
        Ok(IdView::Player(pair_bytes(s)))
    } else {
        Err(InvalidAccount::BadUuid)
    }
}

/// Reading a uuid key slices it into 16 two-byte pieces; those cuts must fall
/// between characters.
pub open spec fn storage_key_cuts_fit(key: &str) -> bool {
    (!key@.contains(':') && key.spec_bytes().len() == 32) ==> forall|i: int|
        0 <= i <= 16 ==> #[trigger] is_char_boundary(key.spec_bytes(), 2 * i)
}

/// What an optional reference to an account id holds.
pub open spec fn id_view(id: Option<&AccountId>) -> Option<IdView> {
    match id {
        Some(id) => id@,
        None => None,
    }
}

/// What an account id on the wire reads as.
pub open spec fn parse_id(id: Option<IdView>) -> Result<IdView, InvalidAccount> {
    match id {
        None => Err(InvalidAccount::Missing),
        Some(IdView::Player(bytes)) => if bytes.len() == 16 {
            Ok(IdView::Player(bytes))
        } else {
            Err(InvalidAccount::BadUuid)
        },
        Some(IdView::Named(name)) => if valid_name(name) {
            Ok(IdView::Named(name))
        } else {
            Err(InvalidAccount::BadName)
        },
    }
}

/// A key read by a function agrees with what the specification reads.
pub open spec fn key_result_is(
    r: Result<AccountKey, InvalidAccount>,
    s: Result<IdView, InvalidAccount>,
) -> bool {
    match s {
        Ok(v) => r matches Ok(k) && k@ == v,
        Err(e) => r == Err::<AccountKey, InvalidAccount>(e),
    }
}

/// A key that the ledger accepts: a player's 16-byte uuid, or a well-formed name.
pub open spec fn well_formed_key(k: IdView) -> bool {
    match k {
        IdView::Player(uuid) => uuid.len() == 16,
        IdView::Named(name) => valid_name(name),
    }
}

impl AccountKey {
    /// Reads an account id off the wire.
    pub fn from_proto(id: Option<&AccountId>) -> (r: Result<AccountKey, InvalidAccount>)
        ensures
            key_result_is(r, parse_id(id_view(id))),
    {
        match id {
            None => Err(InvalidAccount::Missing),
            Some(id) => match &id.kind {
                None => Err(InvalidAccount::Missing),
                Some(account_id::Kind::Player(bytes)) => {
                    if bytes.len() == 16 {
                        let mut uuid = [0u8;16];
                        let mut i: usize = 0;
                        while i < 16
                            invariant
                                bytes@.len() == 16,
                                i <= 16,
                                forall|j: int| 0 <= j < i ==> uuid@[j] == bytes@[j],
                            decreases 16 - i,
                        {
                            uuid[i] = bytes[i];
                            i = i + 1;
                        }
                        assert(uuid@ =~= bytes@);
                        Ok(AccountKey::Player(uuid))
                    } else {
                        Err(InvalidAccount::BadUuid)
                    }
                },
                Some(account_id::Kind::Named(name)) => {
                    if is_valid_name(name.as_str()) {
                        Ok(AccountKey::Named(name.clone()))
                    } else {
                        Err(InvalidAccount::BadName)
                    }
                },
            },
        }
    }

    /// The key as an account id on the wire.
    pub fn to_proto(&self) -> (r: AccountId)
        ensures
            r@ == Some(self@),
    {
        match self {
            AccountKey::Player(uuid) => AccountId::player(*uuid),
            AccountKey::Named(name) => AccountId { kind: Some(account_id::Kind::Named(name.clone())) },
        }
    }

    pub fn is_player(&self) -> (r: bool)
        ensures
            r == (self@ is Player),
    {
        match self {
            AccountKey::Player(_) => true,
            AccountKey::Named(_) => false,
        }
    }

    /// Whether two keys name the same account.
    pub fn same(&self, other: &AccountKey) -> (r: bool)
        ensures
            r == (self@ == other@),
    {
        match (self, other) {
            (AccountKey::Player(a), AccountKey::Player(b)) => {
                let mut i: usize = 0;
                while i < 16
                    invariant
                        i <= 16,
                        a@.len() == 16,
                        b@.len() == 16,
                        self@ == IdView::Player(a@),
                        other@ == IdView::Player(b@),
                        forall|j: int| 0 <= j < i ==> a@[j] == b@[j],
                    decreases 16 - i,
                {
                    if a[i] != b[i] {
                        assert(a@[i as int] != b@[i as int]);
                        assert(a@ != b@);
                        return false;
                    }
                    i = i + 1;
                }
                assert(a@ =~= b@);
                true
            },
            (AccountKey::Named(a), AccountKey::Named(b)) => {
                let r = a.eq(b);
                r
            },
            _ => false,
        }
    }

    /// Whether this key comes strictly before `other` in the order of keys.
    pub fn precedes(&self, other: &AccountKey) -> (r: bool)
        ensures
            r == key_before(self@, other@),
    {
        match (self, other) {
            (AccountKey::Player(a), AccountKey::Player(b)) => {
                let ghost x = byte_codes(a@);
                let ghost y = byte_codes(b@);
                let mut i: usize = 0;
                while i < 16
                    invariant
                        i <= 16,
                        a@.len() == 16,
                        b@.len() == 16,
                        x == byte_codes(a@),
                        y == byte_codes(b@),
                        self@ == IdView::Player(a@),
                        other@ == IdView::Player(b@),
                        forall|j: int| 0 <= j < i ==> a@[j] == b@[j],
                    decreases 16 - i,
                {
                    if a[i] != b[i] {
                        proof {
                            assert forall|j: int| 0 <= j < i implies x[j] == y[j] by {
                                assert(a@[j] == b@[j]);
                            }
                            lemma_lex_common_prefix(x, y, i as int);
                            assert(x.skip(i as int)[0] == a@[i as int]);
                            assert(y.skip(i as int)[0] == b@[i as int]);
                        }
                        return a[i] < b[i];
                    }
                    i = i + 1;
                }
                proof {
                    assert(a@ =~= b@);
                    lemma_key_irreflexive(self@);
                }
                false
            },
            (AccountKey::Player(_), AccountKey::Named(_)) => true,
            (AccountKey::Named(_), AccountKey::Player(_)) => false,
            (AccountKey::Named(a), AccountKey::Named(b)) => {
                let ca = chars_of(a.as_str());
                let cb = chars_of(b.as_str());
                let ghost x = char_codes(a@);
                let ghost y = char_codes(b@);
                let mut i: usize = 0;
                while i < ca.len() && i < cb.len()
                    invariant
                        i <= ca@.len(),
                        i <= cb@.len(),
                        ca@ == a@,
                        cb@ == b@,
                        x == char_codes(a@),
                        y == char_codes(b@),
                        self@ == IdView::Named(a@),
                        other@ == IdView::Named(b@),
                        forall|j: int| 0 <= j < i ==> ca@[j] == cb@[j],
                    decreases ca@.len() - i,
                {
                    if ca[i] != cb[i] {
                        proof {
                            assert forall|j: int| 0 <= j < i implies x[j] == y[j] by {
                                assert(ca@[j] == cb@[j]);
                            }
                            lemma_lex_common_prefix(x, y, i as int);
                            assert(x.skip(i as int)[0] == ca@[i as int] as int);
                            assert(y.skip(i as int)[0] == cb@[i as int] as int);
                        }
                        return ca[i] < cb[i];
                    }
                    i = i + 1;
                }
                proof {
                    assert forall|j: int| 0 <= j < i implies x[j] == y[j] by {
                        assert(ca@[j] == cb@[j]);
                    }
                    lemma_lex_common_prefix(x, y, i as int);
                    assert(x.skip(i as int).len() == x.len() - i);
                    assert(y.skip(i as int).len() == y.len() - i);
                }
                i < cb.len()
            },
        }
    }

    /// How the key is written in storage and in messages.
    pub fn storage_key(&self) -> (r: String)
        ensures
            r@ == storage_text(self@),
    {
        match self {
            AccountKey::Player(uuid) => {
                let mut r = String::new();
                let mut i: usize = 0;
                while i < 16
                    invariant
                        i <= 16,
                        uuid@.len() == 16,
                        r@ == hex_bytes(uuid@.subrange(0, i as int)),
                    decreases 16 - i,
                {
                    let pair = hex_byte_string(uuid[i]);
                    r.append(pair.as_str());
                    proof {
                        let s = uuid@.subrange(0, i + 1);
                        assert(s.drop_last() =~= uuid@.subrange(0, i as int));
                    }
                    i = i + 1;
                }
                assert(uuid@.subrange(0, 16) =~= uuid@);
                r
            },
            AccountKey::Named(name) => name.clone(),
        }
    }

    /// Reads a key back from how it is written in storage.
    pub fn from_storage_key(key: &str) -> (r: Result<AccountKey, InvalidAccount>)
        requires
            storage_key_cuts_fit(key),
        ensures
            key_result_is(r, parse_storage_text(key@)),
    {
        let chars = chars_of(key);
        let n = chars.len();
        let mut i: usize = 0;
        while i < n
            invariant
                n == chars@.len(),
                chars@ == key@,
                i <= n,
                forall|j: int| 0 <= j < i ==> chars@[j] != ':',
            decreases n - i,
        {
            if chars[i] == ':' {
                assert(key@[i as int] == ':');
                if is_valid_name(key) {
                    return Ok(AccountKey::Named(key.to_owned()));
                } else {
                    return Err(InvalidAccount::BadName);
                }
            }
            i = i + 1;
        }
        assert(!key@.contains(':'));
        if !key.is_ascii() || n != 32 {
            return Err(InvalidAccount::BadUuid);
        }
        let mut uuid = [0u8;16];
        let mut p: usize = 0;
        while p < 16
            invariant
                n == 32,
                !key@.contains(':'),
                n == chars@.len(),
                chars@ == key@,
                p <= 16,
                forall|j: int| 0 <= j < p ==> (#[trigger] pair_value(key@[2 * j], key@[2 * j + 1])) == Some(uuid@[j]),
            decreases 16 - p,
        {
            let c0 = chars[2 * p];
            let c1 = chars[2 * p + 1];
            let low = hex_digit_value(c1);
            let byte = if c0 == '+' {
                match low {
                    Some(v) => v,
                    None => {
                        assert(pair_value(key@[2 * p as int], key@[2 * p + 1]) is None);
                        assert(!pairs_spell_bytes(key@));
                        return Err(InvalidAccount::BadUuid);
                    },
                }
            } else {
                match (hex_digit_value(c0), low) {
                    (Some(h), Some(l)) => h * 16 + l,
                    _ => {
                        assert(pair_value(key@[2 * p as int], key@[2 * p + 1]) is None);
                        assert(!pairs_spell_bytes(key@));
                        return Err(InvalidAccount::BadUuid);
                    },
                }
            };
            assert(pair_value(key@[2 * p as int], key@[2 * p + 1]) == Some(byte));
            uuid[p] = byte;
            p = p + 1;
        }
        assert(uuid@ =~= pair_bytes(key@));
        Ok(AccountKey::Player(uuid))
    }
}

/// Every key that `from_proto` produces is well formed.
pub proof fn lemma_parsed_ids_are_well_formed(id: Option<IdView>)
    ensures
        parse_id(id) matches Ok(k) ==> well_formed_key(k),
{
}

/// Law: a well-formed key survives the trip onto the wire and back.
pub proof fn lemma_proto_round_trip(k: IdView)
    requires
        well_formed_key(k),
    ensures
        parse_id(Some(k)) == Ok::<IdView, InvalidAccount>(k),
{
}

/// The spelling of a run of bytes has two characters per byte.
#[verifier::spinoff_prover]
pub proof fn lemma_hex_bytes(b: Seq<u8>)
    ensures
        hex_bytes(b).len() == 2 * b.len(),
        forall|i: int|
            0 <= i < b.len() ==> #[trigger] hex_bytes(b)[2 * i] == hex_char((b[i] / 16) as nat)
                && hex_bytes(b)[2 * i + 1] == hex_char((b[i] % 16) as nat),
    decreases b.len(),
{
    if b.len() > 0 {
        lemma_hex_bytes(b.drop_last());
        assert forall|i: int| 0 <= i < b.len() implies #[trigger] hex_bytes(b)[2 * i] == hex_char(
            (b[i] / 16) as nat,
        ) && hex_bytes(b)[2 * i + 1] == hex_char((b[i] % 16) as nat) by {
            if i < b.len() - 1 {
                assert(b.drop_last()[i] == b[i]);
            }
        }
    }
}

/// A hexadecimal digit reads back as its value.
pub proof fn lemma_hex_char(d: nat)
    requires
        d < 16,
    ensures
        hex_value(hex_char(d)) == Some(d),
        hex_char(d) != ':',
        hex_char(d) != '+',
        '\0' <= hex_char(d) <= '\u{7f}',
{
    if d < 10 {
        assert((d + 48) as char as int == d + 48);
    } else {
        assert((d + 87) as char as int == d + 87);
    }
}

/// Law: a well-formed key survives the trip into storage and back.
pub proof fn lemma_storage_round_trip(k: IdView)
    requires
        well_formed_key(k),
    ensures
        parse_storage_text(storage_text(k)) == Ok::<IdView, InvalidAccount>(k),
        is_ascii_chars(storage_text(k)),
{
    match k {
        IdView::Player(uuid) => {
            let s = hex_bytes(uuid);
            lemma_hex_bytes(uuid);
            assert forall|j: int| 0 <= j < s.len() implies s[j] != ':' && '\0' <= #[trigger] s[j]
                <= '\u{7f}' by {
                let i = j / 2;
                assert(j == 2 * i || j == 2 * i + 1);
                assert(0 <= i < 16);
                let b = uuid[i];
                lemma_hex_char((b / 16) as nat);
                lemma_hex_char((b % 16) as nat);
                assert(s[2 * i] == hex_char((b / 16) as nat));
                assert(s[2 * i + 1] == hex_char((b % 16) as nat));
            }
            assert forall|i: int| 0 <= i < 16 implies (#[trigger] pair_value(s[2 * i], s[2 * i + 1]))
                == Some(uuid[i]) by {
                lemma_hex_char((uuid[i] / 16) as nat);
                lemma_hex_char((uuid[i] % 16) as nat);
                assert(s[2 * i] == hex_char((uuid[i] / 16) as nat));
                assert(uuid[i] == (uuid[i] / 16) * 16 + uuid[i] % 16);
            }
            assert(pair_bytes(s) =~= uuid);
        },
        IdView::Named(name) => {
            let i = choose|i: int|
                0 < i < name.len() - 1 && #[trigger] name[i] == ':' && (forall|j: int|
                    0 <= j < name.len() && j != i ==> is_name_char(#[trigger] name[j]));
            assert(name.contains(':'));
            assert forall|j: int| 0 <= j < name.len() implies '\0' <= #[trigger] name[j]
                <= '\u{7f}' by {
                if j != i {
                    assert(is_name_char(name[j]));
                }
            }
        },
    }
}

/// Keys in storage are read without cutting a character when they are ASCII.
pub proof fn lemma_ascii_cuts_fit(key: &str)
    requires
        is_ascii_chars(key@),
    ensures
        storage_key_cuts_fit(key),
{
    let b = key.spec_bytes();
    is_ascii_chars_encode_utf8(key@);
    encode_utf8_valid_utf8(key@);
    assert forall|i: int| 0 <= i <= 16 && b.len() == 32 implies #[trigger] is_char_boundary(b, 2 * i) by {
        if 2 * i == b.len() {
            is_char_boundary_start_end_of_seq(b);
        } else {
            is_char_boundary_iff_not_is_continuation_byte(b, 2 * i);
            assert(key@[2 * i] as u8 == b[2 * i]);
            assert((key@[2 * i] as nat) < 128);
        }
    }
}

/// What an account holds: its balance, and for named accounts the plugin
/// that created it.
#[derive(Debug, PartialEq, Eq)]
pub struct Account {
    pub balance: i64,
    pub owner: Option<String>,
}

/// An account as plain values.
pub struct AccountView {
    pub balance: i64,
    pub owner: Option<Seq<char>>,
}

/// An optional string as an optional sequence of characters.
pub open spec fn text_option(s: Option<String>) -> Option<Seq<char>> {
    match s {
        Some(s) => Some(s@),
        None => None,
    }
}

impl View for Account {
    type V = AccountView;

    open spec fn view(&self) -> AccountView {
        AccountView { balance: self.balance, owner: text_option(self.owner) }
    }
}

/// A copy of an optional string.
pub fn copy_text_option(s: &Option<String>) -> (r: Option<String>)
    ensures
        r == *s,
{
    match s {
        Some(s) => Some(s.clone()),
        None => None,
    }
}

impl Clone for Account {
    fn clone(&self) -> (r: Self)
        ensures
            r == *self,
    {
        Account { balance: self.balance, owner: copy_text_option(&self.owner) }
    }
}

} // verus!
