//! Mnemonic wallet: a BIP39 phrase kept encrypted under a password, accounts
//! derived from its seed, and signed transfer requests.
use vstd::prelude::*;
use crate::keymap::KeyMap;
use crate::crypto::{sha256, sha256_spec, secret_key_check, secret_key_valid, public_key_from_secret, public_key_of};
use crate::text::{push_str, push_decimal, decimal, hex_encode, hex_lower, str_eq, bytes_debug, push_bytes_debug};
use crate::bytes::{concat, to_vec, bytes_eq};
use crate::wallet::{address_of, Network};

verus! {

/// An account derived from the wallet's phrase.
pub struct WalletAccount {
    pub index: u32,
    pub name: String,
    pub address: String,
    /// Compressed public key, hexadecimal.
    pub public_key: String,
    pub encrypted_private_key: Vec<u8>,
    pub derivation_path: String,
}

/// A wallet: the encrypted phrase and its accounts.
pub struct Wallet {
    pub version: u32,
    pub encrypted_mnemonic: Vec<u8>,
    pub accounts: Vec<WalletAccount>,
    pub current_account: u32,
    pub created_at: u64,
}

/// A transfer to sign.
pub struct TransactionRequest {
    pub from: String,
    pub to: String,
    pub amount: u64,
    pub gas_price: u64,
    pub gas_limit: u64,
    pub nonce: u64,
    pub data: Vec<u8>,
}

/// A signed transfer.
pub struct SignedTransaction {
    pub from: String,
    pub to: String,
    pub amount: u64,
    pub gas_price: u64,
    pub gas_limit: u64,
    pub nonce: u64,
    pub data: Vec<u8>,
    /// Compact signature, hexadecimal.
    pub signature: String,
    /// Hexadecimal SHA-256 of the digest followed by the signature.
    pub hash: String,
}

/// Why a wallet operation failed.
#[derive(Debug)]
pub enum WalletError {
    WalletNotFound,
    AccountNotFound,
    InvalidPassword,
    InvalidMnemonic(String),
    MnemonicError(String),
    KeyDerivationError,
    DecryptionError,
    InvalidAddress,
    SerializationError(String),
}

impl WalletError {
    /// The message shown for the error.
    pub fn message(&self) -> (r: String)
        ensures
            r@ == wallet_error_text(*self),
    {
        let mut s = String::new();
        match self {
            WalletError::WalletNotFound => push_str(&mut s, "钱包不存在"),
            WalletError::AccountNotFound => push_str(&mut s, "账户不存在"),
            WalletError::InvalidPassword => push_str(&mut s, "密码错误"),
            WalletError::InvalidMnemonic(e) => {
                push_str(&mut s, "无效助记词: ");
                push_str(&mut s, e.as_str());
            },
            WalletError::MnemonicError(e) => {
                push_str(&mut s, "助记词错误: ");
                push_str(&mut s, e.as_str());
            },
            WalletError::KeyDerivationError => push_str(&mut s, "密钥派生失败"),
            WalletError::DecryptionError => push_str(&mut s, "解密失败"),
            WalletError::InvalidAddress => push_str(&mut s, "无效地址"),
            WalletError::SerializationError(e) => {
                push_str(&mut s, "序列化错误: ");
                push_str(&mut s, e.as_str());
            },
        }
        s
    }
}

/// The message of each error.
pub open spec fn wallet_error_text(e: WalletError) -> Seq<char> {
    match e {
        WalletError::WalletNotFound => "钱包不存在"@,
        WalletError::AccountNotFound => "账户不存在"@,
        WalletError::InvalidPassword => "密码错误"@,
        WalletError::InvalidMnemonic(m) => "无效助记词: "@ + m@,
        WalletError::MnemonicError(m) => "助记词错误: "@ + m@,
        WalletError::KeyDerivationError => "密钥派生失败"@,
        WalletError::DecryptionError => "解密失败"@,
        WalletError::InvalidAddress => "无效地址"@,
        WalletError::SerializationError(m) => "序列化错误: "@ + m@,
    }
}

// ---------------------------------------------------------------------------
// BIP39 (`bip39`) and signing (`secp256k1`)
// ---------------------------------------------------------------------------

/// The phrase is a valid English BIP39 mnemonic.
pub uninterp spec fn mnemonic_valid(phrase: Seq<char>) -> bool;

/// The BIP39 seed of a valid phrase with the empty passphrase.
pub uninterp spec fn mnemonic_seed_of(phrase: Seq<char>) -> Seq<u8>;

/// The compact (64-byte) ECDSA signature of a 32-byte digest under `sk`.
pub uninterp spec fn ecdsa_compact_of(digest: Seq<u8>, sk: Seq<u8>) -> Seq<u8>;

/// `bip39::Mnemonic::generate_in` (English, 12 words) from the thread's
/// random source, as text. For 12 words it always succeeds (only a bad word
/// count is refused), and the phrase parses back as a valid mnemonic; which
/// phrase comes out is not stated.
#[verifier::external_body]
fn generate_mnemonic() -> (r: Result<String, String>)
    ensures
        r is Ok,
        r matches Ok(p) ==> mnemonic_valid(p@),
{
    bip39::Mnemonic::generate_in(bip39::Language::English, 12).map(|m| m.to_string()).map_err(|e| e.to_string())
}

/// `bip39::Mnemonic::parse_in` (English): whether the phrase parses, with
/// the error's text otherwise (not stated).
#[verifier::external_body]
fn check_mnemonic(phrase: &str) -> (r: Result<(), String>)
    ensures
        r is Ok <==> mnemonic_valid(phrase@),
{
    bip39::Mnemonic::parse_in(bip39::Language::English, phrase).map(|_| ()).map_err(|e| e.to_string())
}

/// `bip39::Mnemonic::to_seed` with the empty passphrase: 64 bytes.
#[verifier::external_body]
fn mnemonic_seed(phrase: &str) -> (r: Vec<u8>)
    requires
        mnemonic_valid(phrase@),
    ensures
        r@ == mnemonic_seed_of(phrase@),
{
    match bip39::Mnemonic::parse_in(bip39::Language::English, phrase) {
        Ok(m) => m.to_seed("").to_vec(),
        Err(_) => Vec::new(),
    }
}

/// `secp256k1::Secp256k1::sign_ecdsa` of a 32-byte digest, compact form.
#[verifier::external_body]
fn ecdsa_sign_compact(digest: &[u8], sk: &[u8]) -> (r: Vec<u8>)
    requires
        digest@.len() == 32,
        secret_key_valid(sk@),
    ensures
        r@ == ecdsa_compact_of(digest@, sk@),
{
    let key = secp256k1::SecretKey::from_slice(sk).unwrap();
    let msg = secp256k1::Message::from_digest_slice(digest).unwrap();
    secp256k1::Secp256k1::new().sign_ecdsa(&msg, &key).serialize_compact().to_vec()
}

/// `String::from_utf8`: the text of valid UTF-8 bytes, `None` otherwise.
#[verifier::external_body]
fn utf8_text(bytes: Vec<u8>) -> (r: Option<String>)
    ensures
        r is Some <==> vstd::utf8::valid_utf8(bytes@),
        r matches Some(s) ==> s@ == vstd::utf8::decode_utf8(bytes@),
{
    String::from_utf8(bytes).ok()
}

// ---------------------------------------------------------------------------
// Password encryption
// ---------------------------------------------------------------------------

/// The key of a password: the SHA-256 of its UTF-8 bytes.
pub open spec fn password_key(password: Seq<char>) -> Seq<u8> {
    sha256_spec(vstd::utf8::encode_utf8(password))
}

/// Each byte XOR-ed with the key byte at its position modulo the key length.
pub open spec fn xor_cycle(data: Seq<u8>, key: Seq<u8>) -> Seq<u8> {
    Seq::new(data.len(), |i: int| data[i] ^ key[i % (key.len() as int)])
}

/// Decryption undoes encryption: XOR-ing twice with the same key gives the data back.
pub proof fn lemma_xor_cycle_twice(data: Seq<u8>, key: Seq<u8>)
    requires
        key.len() > 0,
    ensures
        xor_cycle(xor_cycle(data, key), key) == data,
{
    let once = xor_cycle(data, key);
    assert forall|i: int| 0 <= i < data.len() implies #[trigger] xor_cycle(once, key)[i] == data[i] by {
        let a = data[i];
        let b = key[i % (key.len() as int)];
        assert((a ^ b) ^ b == a) by (bit_vector);
    }
    assert(xor_cycle(once, key) =~= data);
}

/// `data` XOR-ed with the password key.
fn xor_with_password(data: &[u8], password: &str) -> (r: Vec<u8>)
    ensures
        r@ == xor_cycle(data@, password_key(password@)),
        password_key(password@).len() == 32,
{
    let key = sha256(password.as_bytes());
    let mut out: Vec<u8> = Vec::new();
    let mut i: usize = 0;
    while i < data.len()
        invariant
            i <= data@.len(),
            key@ == password_key(password@),
            key@.len() == 32,
            out@.len() == i,
            forall|k: int| 0 <= k < i ==> out@[k] == data@[k] ^ key@[k % 32],
        decreases data@.len() - i,
    {
        out.push(data[i] ^ key[i % 32]);
        i = i + 1;
    }
    assert(out@ =~= xor_cycle(data@, password_key(password@)));
    out
}

/// The text a transfer request is signed over.
pub open spec fn request_text(tx: TransactionRequest) -> Seq<char> {
    tx.from@ + tx.to@ + decimal(tx.amount as nat) + decimal(tx.gas_price as nat) + decimal(
        tx.gas_limit as nat,
    ) + bytes_debug(tx.data@)
}

/// The derivation path of account `index`.
pub open spec fn derivation_path(index: u32) -> Seq<char> {
    "m/44'/8888'/0'/0/"@ + decimal(index as nat)
}

/// The secret key of the account at `path` of `phrase`.
pub open spec fn account_secret(phrase: Seq<char>, path: Seq<char>) -> Seq<u8> {
    sha256_spec(mnemonic_seed_of(phrase) + vstd::utf8::encode_utf8(path))
}

/// The bytes of the phrase that `w` holds, decrypted with `password`.
pub open spec fn decrypted_mnemonic(w: Wallet, password: Seq<char>) -> Seq<u8> {
    xor_cycle(w.encrypted_mnemonic@, password_key(password))
}

/// The next account of `w` can be derived with `password`: the decrypted
/// phrase is UTF-8 text, a valid mnemonic, and yields a valid secret key for
/// the next derivation path.
pub open spec fn account_derivable(w: Wallet, password: Seq<char>) -> bool {
    let bytes = decrypted_mnemonic(w, password);
    &&& vstd::utf8::valid_utf8(bytes)
    &&& mnemonic_valid(vstd::utf8::decode_utf8(bytes))
    &&& secret_key_valid(
        account_secret(vstd::utf8::decode_utf8(bytes), derivation_path(w.accounts@.len() as u32)),
    )
}

/// A wallet started from `phrase` gets its first account.
pub open spec fn first_account_derivable(phrase: Seq<char>) -> bool {
    mnemonic_valid(phrase) && secret_key_valid(account_secret(phrase, derivation_path(0)))
}

/// Account `i` of `w` has address `a`.
pub open spec fn has_account(w: Wallet, a: Seq<char>, i: int) -> bool {
    0 <= i < w.accounts@.len() && w.accounts@[i].address@ == a
}

/// Holds the wallet, the password's hash and the secret keys derived so far.
pub struct WalletManager {
    wallet: Option<Wallet>,
    password_hash: Option<Vec<u8>>,
    private_keys: KeyMap<String, Vec<u8>>,
}

impl WalletManager {
    /// Every secret key kept in memory is a valid key.
    pub closed spec fn wf(&self) -> bool {
        forall|a: Seq<char>| #[trigger] self.private_keys@.contains_key(a) ==> secret_key_valid(
            self.private_keys@[a]@,
        )
    }

    /// Whether the secret key of the account at `address` is kept in memory.
    pub closed spec fn has_cached_key(&self, address: Seq<char>) -> bool {
        self.private_keys@.contains_key(address)
    }

    /// The current account of the wallet exists and has address `from`.
    pub open spec fn current_account_is(&self, from: Seq<char>) -> bool {
        &&& self.wallet_view() matches Some(w)
        &&& w.current_account < w.accounts@.len()
        &&& w.accounts@[w.current_account as int].address@ == from
    }

    /// The current account's stored key, decrypted with `password`, is a
    /// valid secret key.
    pub open spec fn current_key_opens(&self, password: Seq<char>) -> bool {
        let w = self.wallet_view().unwrap();
        secret_key_valid(
            xor_cycle(w.accounts@[w.current_account as int].encrypted_private_key@, password_key(password)),
        )
    }

    /// The wallet, if one was created, restored or loaded.
    pub closed spec fn wallet_view(&self) -> Option<Wallet> {
        self.wallet
    }

    /// The hash of the password, if set.
    pub closed spec fn password_hash_view(&self) -> Option<Seq<u8>> {
        match self.password_hash {
            Some(h) => Some(h@),
            None => None,
        }
    }

    /// The wallet holds `phrase` encrypted under `password`, whose hash is kept.
    pub open spec fn holds_mnemonic(&self, phrase: Seq<char>, password: Seq<char>) -> bool {
        &&& self.wallet_view() matches Some(w)
        &&& w.encrypted_mnemonic@ == xor_cycle(vstd::utf8::encode_utf8(phrase), password_key(password))
        &&& self.password_hash_view() == Some(password_key(password))
    }

    pub fn new() -> (r: Self)
        ensures
            r.wf(),
            r.wallet_view() is None,
            r.password_hash_view() is None,
    {
        WalletManager { wallet: None, password_hash: None, private_keys: KeyMap::new() }
    }

    fn hash_password(password: &str) -> (r: Vec<u8>)
        ensures
            r@ == password_key(password@),
    {
        sha256(password.as_bytes())
    }

    /// Whether `password` hashes to the kept hash.
    fn verify_password(&self, password: &str) -> (r: bool)
        ensures
            r == (self.password_hash_view() == Some(password_key(password@))),
    {
        match &self.password_hash {
            Some(h) => {
                let input = Self::hash_password(password);
                bytes_eq(h.as_slice(), input.as_slice())
            },
            None => false,
        }
    }

    /// A new wallet from a fresh 12-word phrase encrypted under `password`,
    /// with its first account. Returns the phrase and the account's address.
    pub fn create_wallet(&mut self, password: &str) -> (r: Result<(String, String), WalletError>)
        requires
            old(self).wf(),
        ensures
            final(self).wf(),
            exists|p: Seq<char>|
                #![trigger first_account_derivable(p)]
                {
                    &&& mnemonic_valid(p)
                    &&& final(self).holds_mnemonic(p, password@)
                    &&& (r is Ok <==> first_account_derivable(p))
                    &&& (r matches Ok((m, a)) ==> m@ == p)
                    &&& (r is Err ==> (r matches Err(e) && e is KeyDerivationError))
                },
            r matches Ok((m, a)) ==> {
                &&& final(self).holds_mnemonic(m@, password@)
                &&& final(self).wallet_view() matches Some(w)
                &&& w.accounts@.len() == 1
                &&& w.accounts@[0].address@ == a@
                &&& w.version == 1
                &&& w.current_account == 0
            },
    {
        let phrase = match generate_mnemonic() {
            Ok(p) => p,
            Err(e) => {
                return Err(WalletError::MnemonicError(e));
            },
        };
        let ghost p = phrase@;
        let address = match self.start_wallet(phrase.as_str(), password) {
            Ok(a) => a,
            Err(e) => {
                assert(first_account_derivable(p) == false);
                return Err(e);
            },
        };
        assert(first_account_derivable(p));
        Ok((phrase, address))
    }

    /// Keeps `phrase` encrypted under `password` as a new wallet and derives
    /// its first account.
    pub fn start_wallet(&mut self, phrase: &str, password: &str) -> (r: Result<String, WalletError>)
        requires
            old(self).wf(),
        ensures
            final(self).wf(),
            final(self).holds_mnemonic(phrase@, password@),
            r is Ok <==> first_account_derivable(phrase@),
            !mnemonic_valid(phrase@) ==> (r matches Err(e) && e is InvalidMnemonic),
            mnemonic_valid(phrase@) && !first_account_derivable(phrase@) ==> (r matches Err(e)
                && e is KeyDerivationError),
            r is Err ==> (final(self).wallet_view() matches Some(w) && w.accounts@.len() == 0 && w.version == 1
                && w.current_account == 0),
            r matches Ok(a) ==> {
                &&& final(self).holds_mnemonic(phrase@, password@)
                &&& final(self).wallet_view() matches Some(w)
                &&& w.accounts@.len() == 1
                &&& w.accounts@[0].address@ == a@
                &&& w.version == 1
                &&& w.current_account == 0
            },
    {
        let encrypted = xor_with_password(phrase.as_bytes(), password);
        let wallet = Wallet {
            version: 1,
            encrypted_mnemonic: encrypted,
            accounts: Vec::new(),
            current_account: 0,
            created_at: crate::clock::unix_seconds(),
        };
        self.wallet = Some(wallet);
        self.password_hash = Some(Self::hash_password(password));
        proof {
            let bytes = vstd::utf8::encode_utf8(phrase@);
            lemma_xor_cycle_twice(bytes, password_key(password@));
            vstd::utf8::encode_utf8_valid_utf8(phrase@);
            vstd::utf8::encode_utf8_decode_utf8(phrase@);
            assert(decrypted_mnemonic(self.wallet_view().unwrap(), password@) == bytes);
            assert(self.wallet_view().unwrap().accounts@.len() == 0);
        }
        self.create_account("Account 1", password)
    }

    /// A wallet from an existing phrase, which must be a valid mnemonic.
    pub fn restore_wallet(&mut self, mnemonic_phrase: &str, password: &str) -> (r: Result<String, WalletError>)
        requires
            old(self).wf(),
        ensures
            final(self).wf(),
            !mnemonic_valid(mnemonic_phrase@) ==> (r matches Err(e) && e is InvalidMnemonic),
            r is Ok <==> first_account_derivable(mnemonic_phrase@),
            mnemonic_valid(mnemonic_phrase@) && !first_account_derivable(mnemonic_phrase@) ==> (r matches Err(e)
                && e is KeyDerivationError),
            r matches Ok(a) ==> {
                &&& final(self).holds_mnemonic(mnemonic_phrase@, password@)
                &&& final(self).wallet_view() matches Some(w)
                &&& w.accounts@.len() == 1
                &&& w.accounts@[0].address@ == a@
            },
    {
        match check_mnemonic(mnemonic_phrase) {
            Ok(()) => {},
            Err(e) => {
                return Err(WalletError::InvalidMnemonic(e));
            },
        }
        self.start_wallet(mnemonic_phrase, password)
    }

    /// Derives the next account (index = number of accounts) from the phrase
    /// decrypted with `password`, keeps its key encrypted, and returns its address.
    pub fn create_account(&mut self, name: &str, password: &str) -> (r: Result<String, WalletError>)
        requires
            old(self).wf(),
        ensures
            final(self).wf(),
            old(self).wallet_view() is None ==> (r matches Err(e) && e is WalletNotFound),
            old(self).wallet_view() matches Some(w) ==> (r is Ok <==> account_derivable(w, password@)),
            old(self).wallet_view() matches Some(w) && !vstd::utf8::valid_utf8(decrypted_mnemonic(w, password@))
                ==> (r matches Err(e) && e is DecryptionError),
            old(self).wallet_view() matches Some(w) && vstd::utf8::valid_utf8(decrypted_mnemonic(w, password@))
                && !mnemonic_valid(vstd::utf8::decode_utf8(decrypted_mnemonic(w, password@)))
                ==> (r matches Err(e) && e is InvalidMnemonic),
            old(self).wallet_view() matches Some(w) && vstd::utf8::valid_utf8(decrypted_mnemonic(w, password@))
                && mnemonic_valid(vstd::utf8::decode_utf8(decrypted_mnemonic(w, password@)))
                && !account_derivable(w, password@) ==> (r matches Err(e) && e is KeyDerivationError),
            r is Err ==> final(self).wallet_view() == old(self).wallet_view(),
            final(self).password_hash_view() == old(self).password_hash_view(),
            forall|m: Seq<char>, p: Seq<char>| old(self).holds_mnemonic(m, p) ==> final(self).holds_mnemonic(m, p),
            r matches Ok(a) ==> (old(self).wallet_view() matches Some(w0) && final(self).wallet_view() matches Some(w1)
                && w1.accounts@.len() == w0.accounts@.len() + 1
                && w1.accounts@.drop_last() == w0.accounts@
                && w1.accounts@.last().address@ == a@
                && w1.accounts@.last().name@ == name@
                && w1.accounts@.last().index == w0.accounts@.len() as u32
                && w1.accounts@.last().derivation_path@ == derivation_path(w0.accounts@.len() as u32)
                && w1.current_account == w0.current_account
                && w1.version == w0.version
                && w1.encrypted_mnemonic == w0.encrypted_mnemonic),
    {
        let (phrase_bytes, index) = match &self.wallet {
            Some(w) => (xor_with_password(w.encrypted_mnemonic.as_slice(), password), w.accounts.len() as u32),
            None => {
                return Err(WalletError::WalletNotFound);
            },
        };
        let phrase = match utf8_text(phrase_bytes) {
            Some(p) => p,
            None => {
                return Err(WalletError::DecryptionError);
            },
        };
        let mut path = String::new();
        proof {
            reveal_strlit("m/44'/8888'/0'/0/");
        }
        push_str(&mut path, "m/44'/8888'/0'/0/");
        push_decimal(&mut path, index as u64);
        match check_mnemonic(phrase.as_str()) {
            Ok(()) => {},
            Err(e) => {
                return Err(WalletError::InvalidMnemonic(e));
            },
        }
        let seed = mnemonic_seed(phrase.as_str());
        let material = concat(seed.as_slice(), path.as_str().as_bytes());
        let secret = sha256(material.as_slice());
        if !secret_key_check(secret.as_slice()) {
            return Err(WalletError::KeyDerivationError);
        }
        let public_key = public_key_from_secret(secret.as_slice());
        let address = crate::wallet::Wallet::generate_address(public_key.as_slice(), Network::Mainnet);
        let encrypted_key = xor_with_password(secret.as_slice(), password);
        let account = WalletAccount {
            index,
            name: name.to_string(),
            address: address.clone(),
            public_key: hex_encode(public_key.as_slice()),
            encrypted_private_key: encrypted_key,
            derivation_path: path,
        };
        let mut w = match self.wallet.take() {
            Some(w) => w,
            None => {
                proof {
                    assert(false);
                }
                return Err(WalletError::WalletNotFound);
            },
        };
        w.accounts.push(account);
        self.wallet = Some(w);
        let ghost old_keys = self.private_keys@;
        self.private_keys.insert(address.clone(), secret);
        proof {
            assert forall|a: Seq<char>| #[trigger] self.private_keys@.contains_key(a) implies secret_key_valid(
                self.private_keys@[a]@,
            ) by {
                if a != address@ {
                    assert(old_keys.contains_key(a));
                }
            }
        }
        Ok(address)
    }

    /// Signs `tx` with the current account, which must be `tx.from`: the
    /// SHA-256 of `request_text(tx)` is signed, and the transfer's hash is the
    /// SHA-256 of that digest followed by the compact signature.
    pub fn sign_transaction(&self, tx: TransactionRequest, password: &str) -> (r: Result<SignedTransaction, WalletError>)
        requires
            self.wf(),
        ensures
            self.wallet_view() is None ==> (r matches Err(e) && e is WalletNotFound),
            self.wallet_view() matches Some(w) && w.current_account >= w.accounts@.len() ==> (r matches Err(e)
                && e is AccountNotFound),
            self.wallet_view() matches Some(w) && w.current_account < w.accounts@.len()
                && w.accounts@[w.current_account as int].address@ != tx.from@ ==> (r matches Err(e) && e is InvalidAddress),
            self.current_account_is(tx.from@) ==> (r is Ok <==> (self.has_cached_key(tx.from@)
                || self.current_key_opens(password@))),
            self.current_account_is(tx.from@) && r is Err ==> (r matches Err(e) && e is DecryptionError),
            r matches Ok(s) ==> s.from == tx.from && s.to == tx.to && s.amount == tx.amount && s.gas_price
                == tx.gas_price && s.gas_limit == tx.gas_limit && s.nonce == tx.nonce && s.data == tx.data
                && exists|sk: Seq<u8>| secret_key_valid(sk) && s.signature@ == hex_lower(
                #[trigger] ecdsa_compact_of(sha256_spec(vstd::utf8::encode_utf8(request_text(tx))), sk))
                && s.hash@ == hex_lower(sha256_spec(sha256_spec(vstd::utf8::encode_utf8(request_text(tx)))
                + ecdsa_compact_of(sha256_spec(vstd::utf8::encode_utf8(request_text(tx))), sk))),
    {
        let w = match &self.wallet {
            Some(w) => w,
            None => {
                return Err(WalletError::WalletNotFound);
            },
        };
        if w.current_account as usize >= w.accounts.len() {
            return Err(WalletError::AccountNotFound);
        }
        let account = &w.accounts[w.current_account as usize];
        if !str_eq(account.address.as_str(), tx.from.as_str()) {
            return Err(WalletError::InvalidAddress);
        }
        let key: Vec<u8> = match self.private_keys.get(&tx.from) {
            Some(k) => to_vec(k.as_slice()),
            None => {
                let k = xor_with_password(account.encrypted_private_key.as_slice(), password);
                if !secret_key_check(k.as_slice()) {
                    return Err(WalletError::DecryptionError);
                }
                k
            },
        };
        let mut text = String::new();
        push_str(&mut text, tx.from.as_str());
        push_str(&mut text, tx.to.as_str());
        push_decimal(&mut text, tx.amount);
        push_decimal(&mut text, tx.gas_price);
        push_decimal(&mut text, tx.gas_limit);
        push_bytes_debug(&mut text, &tx.data);
        assert(text@ == request_text(tx));
        let tx_hash = sha256(text.as_str().as_bytes());
        let signature = ecdsa_sign_compact(tx_hash.as_slice(), key.as_slice());
        let material = concat(tx_hash.as_slice(), signature.as_slice());
        let final_hash = sha256(material.as_slice());
        let sig_hex = hex_encode(signature.as_slice());
        let hash_hex = hex_encode(final_hash.as_slice());
        Ok(SignedTransaction {
            from: tx.from,
            to: tx.to,
            amount: tx.amount,
            gas_price: tx.gas_price,
            gas_limit: tx.gas_limit,
            nonce: tx.nonce,
            data: tx.data,
            signature: sig_hex,
            hash: hash_hex,
        })
    }

    /// The wallet, if any.
    pub fn get_wallet_info(&self) -> (r: Option<&Wallet>)
        ensures
            match self.wallet_view() {
                Some(w) => r matches Some(x) && *x == w,
                None => r is None,
            },
    {
        self.wallet.as_ref()
    }

    /// The current account, if the wallet has it.
    pub fn get_current_account(&self) -> (r: Option<&WalletAccount>)
        ensures
            match self.wallet_view() {
                Some(w) => if w.current_account < w.accounts@.len() {
                    r matches Some(a) && *a == w.accounts@[w.current_account as int]
                } else {
                    r is None
                },
                None => r is None,
            },
    {
        match &self.wallet {
            Some(w) => {
                if (w.current_account as usize) < w.accounts.len() {
                    Some(&w.accounts[w.current_account as usize])
                } else {
                    None
                }
            },
            None => None,
        }
    }

    /// Makes account `index` the current one.
    pub fn switch_account(&mut self, index: u32) -> (r: Result<(), WalletError>)
        requires
            old(self).wf(),
        ensures
            final(self).wf(),
            old(self).wallet_view() is None ==> (r matches Err(e) && e is WalletNotFound),
            old(self).wallet_view() matches Some(w) && index >= w.accounts@.len() ==> (r matches Err(e)
                && e is AccountNotFound) && final(self).wallet_view() == old(self).wallet_view(),
            old(self).wallet_view() is Some && index < old(self).wallet_view().unwrap().accounts@.len() ==> {
                &&& r is Ok
                &&& final(self).wallet_view() matches Some(w1)
                &&& w1.current_account == index
                &&& w1.accounts == old(self).wallet_view().unwrap().accounts
                &&& w1.encrypted_mnemonic == old(self).wallet_view().unwrap().encrypted_mnemonic
            },
            final(self).password_hash_view() == old(self).password_hash_view(),
            forall|m: Seq<char>, p: Seq<char>| old(self).holds_mnemonic(m, p) ==> final(self).holds_mnemonic(m, p),
    {
        let mut w = match self.wallet.take() {
            Some(w) => w,
            None => {
                return Err(WalletError::WalletNotFound);
            },
        };
        if index as usize >= w.accounts.len() {
            self.wallet = Some(w);
            return Err(WalletError::AccountNotFound);
        }
        w.current_account = index;
        self.wallet = Some(w);
        Ok(())
    }

    /// The phrase, decrypted; the password must match the kept hash.
    pub fn export_mnemonic(&self, password: &str) -> (r: Result<String, WalletError>)
        ensures
            self.wallet_view() is None ==> (r matches Err(e) && e is WalletNotFound),
            self.wallet_view() is Some && self.password_hash_view() != Some(password_key(password@)) ==> (r matches Err(e) && e is InvalidPassword),
            forall|m: Seq<char>| self.holds_mnemonic(m, password@) ==> (r matches Ok(x) && x@ == m),
    {
        let w = match &self.wallet {
            Some(w) => w,
            None => {
                return Err(WalletError::WalletNotFound);
            },
        };
        if !self.verify_password(password) {
            return Err(WalletError::InvalidPassword);
        }
        let bytes = xor_with_password(w.encrypted_mnemonic.as_slice(), password);
        proof {
            assert forall|m: Seq<char>| self.holds_mnemonic(m, password@) implies bytes@ == vstd::utf8::encode_utf8(m)
                && vstd::utf8::valid_utf8(bytes@) && vstd::utf8::decode_utf8(bytes@) == m by {
                lemma_xor_cycle_twice(vstd::utf8::encode_utf8(m), password_key(password@));
                vstd::utf8::encode_utf8_valid_utf8(m);
                vstd::utf8::encode_utf8_decode_utf8(m);
            }
        }
        match utf8_text(bytes) {
            Some(m) => Ok(m),
            None => Err(WalletError::DecryptionError),
        }
    }

    /// The secret key of the account at `address`, decrypted with `password`,
    /// in hexadecimal.
    pub fn export_private_key(&self, address: &str, password: &str) -> (r: Result<String, WalletError>)
        ensures
            self.wallet_view() is None ==> (r matches Err(e) && e is WalletNotFound),
            self.wallet_view() is Some && !(exists|i: int| #[trigger] has_account(self.wallet_view().unwrap(), address@, i))
                ==> (r matches Err(e) && e is AccountNotFound),
            self.wallet_view() is Some && (exists|i: int| #[trigger] has_account(self.wallet_view().unwrap(), address@, i))
                ==> r is Ok,
            r matches Ok(k) ==> self.wallet_view() is Some && exists|i: int| #[trigger] has_account(self.wallet_view().unwrap(), address@, i)
                && k@ == hex_lower(xor_cycle(self.wallet_view().unwrap().accounts@[i].encrypted_private_key@, password_key(password@))),
    {
        let w = match &self.wallet {
            Some(w) => w,
            None => {
                return Err(WalletError::WalletNotFound);
            },
        };
        let mut i: usize = 0;
        while i < w.accounts.len()
            invariant
                self.wallet == Some(*w),
                i <= w.accounts@.len(),
                forall|j: int| 0 <= j < i ==> !#[trigger] has_account(*w, address@, j),
            decreases w.accounts@.len() - i,
        {
            if str_eq(w.accounts[i].address.as_str(), address) {
                assert(w.accounts@[i as int].address@ == address@);
                let key = xor_with_password(w.accounts[i].encrypted_private_key.as_slice(), password);
                let k = hex_encode(key.as_slice());
                assert(self.wallet_view() == Some(*w));
                assert(has_account(*w, address@, i as int));
                assert(has_account(self.wallet_view().unwrap(), address@, i as int));
                assert(k@ == hex_lower(xor_cycle(self.wallet_view().unwrap().accounts@[i as int].encrypted_private_key@, password_key(password@))));
                return Ok(k);
            }
            i = i + 1;
        }
        Err(WalletError::AccountNotFound)
    }

    /// Takes a stored wallet and the password it was kept under (the second
    /// half of reading a saved wallet).
    pub fn load_wallet(&mut self, wallet: Wallet, password: &str)
        requires
            old(self).wf(),
        ensures
            final(self).wf(),
            final(self).wallet_view() == Some(wallet),
            final(self).password_hash_view() == Some(password_key(password@)),
    {
        self.wallet = Some(wallet);
        self.password_hash = Some(Self::hash_password(password));
    }
}

} // verus!
