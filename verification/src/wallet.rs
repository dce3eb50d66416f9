//! Key pairs, P2PKH addresses (Base58Check), WIF export and ECDSA signatures.
use vstd::prelude::*;
use crate::crypto::{
    sha256, ripemd160, double_sha256_bytes, double_sha256_spec, sha256_spec, ripemd160_spec,
    secret_key_valid, public_key_of, ecdsa_sign_spec, public_key_parses, der_signature_parses,
    ecdsa_verifies, base58_encode_spec, base58_decode_spec, random_secret_key, secret_key_check,
    public_key_from_secret, ecdsa_sign, public_key_check, der_signature_check, ecdsa_verify,
    base58_encode, base58_decode,
};
use crate::keymap::KeyMap;
use crate::bytes::{concat, slice_of, bytes_eq};
use crate::text::{hex_encode, hex_decode, hex_lower, hex_decode_spec};

verus! {

/// A key pair with its address; keys are hexadecimal strings.
#[derive(Debug, Clone)]
pub struct Wallet {
    pub private_key: String,
    pub public_key: String,
    pub address: String,
}

#[derive(Debug, Clone, Copy, PartialEq, Eq, Structural)]
pub enum Network {
    Mainnet,
    Testnet,
}

/// Why a wallet operation failed.
#[derive(Debug, Clone, Copy, PartialEq, Eq, Structural)]
pub enum WalletError {
    InvalidPrivateKey,
    InvalidPublicKey,
    InvalidAddress,
    InvalidSignature,
    InvalidWif,
    SigningError,
}

/// Version byte of an address on `n`.
pub open spec fn version_byte(n: Network) -> u8 {
    match n {
        Network::Mainnet => 0x00,
        Network::Testnet => 0x6F,
    }
}

/// First four bytes of the double SHA-256 of `d`.
pub open spec fn checksum_of(d: Seq<u8>) -> Seq<u8> {
    double_sha256_spec(d).take(4)
}

/// The P2PKH address of public key `pk` on `n`:
/// `Base58(version ‖ RIPEMD160(SHA256(pk)) ‖ checksum)`.
pub open spec fn address_of(pk: Seq<u8>, n: Network) -> Seq<char> {
    let payload = seq![version_byte(n)] + ripemd160_spec(sha256_spec(pk));
    base58_encode_spec(payload + checksum_of(payload))
}

/// Whether `address` decodes to 25 bytes with a known version byte and a
/// matching checksum.
pub open spec fn address_valid(address: Seq<char>) -> bool {
    match base58_decode_spec(address) {
        Some(d) => d.len() == 25 && (d[0] == 0x00 || d[0] == 0x6F) && d.subrange(21, 25)
            == checksum_of(d.take(21)),
        None => false,
    }
}

/// The secret key written in hexadecimal by `hex`, if it is one.
pub open spec fn parsed_key(hex: Seq<char>) -> Option<Seq<u8>> {
    match hex_decode_spec(hex) {
        Some(b) => if b.len() == 32 && secret_key_valid(b) {
            Some(b)
        } else {
            None
        },
        None => None,
    }
}

/// The wallet determined by a secret key.
pub open spec fn wallet_of(w: Wallet, sk: Seq<u8>) -> bool {
    &&& w.private_key@ == hex_lower(sk)
    &&& w.public_key@ == hex_lower(public_key_of(sk))
    &&& w.address@ == address_of(public_key_of(sk), Network::Mainnet)
}

/// The wallet's keys belong together: its private key is a valid secret key
/// in hexadecimal, and its public key is that key's public key in
/// hexadecimal, which parses.
pub open spec fn wallet_sound(w: Wallet) -> bool {
    &&& parsed_key(w.private_key@) is Some
    &&& hex_decode_spec(w.public_key@) == Some(public_key_of(parsed_key(w.private_key@).unwrap()))
    &&& public_key_parses(public_key_of(parsed_key(w.private_key@).unwrap()))
    &&& public_key_of(parsed_key(w.private_key@).unwrap()).len() == 33
}

/// WIF payload of a secret key: `0x80 ‖ sk (‖ 0x01 when compressed)`.
pub open spec fn wif_payload(sk: Seq<u8>, compressed: bool) -> Seq<u8> {
    if compressed {
        seq![0x80u8] + sk + seq![0x01u8]
    } else {
        seq![0x80u8] + sk
    }
}

/// Whether a decoded WIF string is well formed: long enough, with the right
/// version byte and checksum.
pub open spec fn wif_ok(d: Seq<u8>) -> bool {
    &&& d.len() >= 37
    &&& d[0] == 0x80
    &&& d.subrange(d.len() - 4, d.len() as int) == checksum_of(d.take(d.len() - 4))
}

fn calculate_checksum(data: &[u8]) -> (r: Vec<u8>)
    ensures
        r@ == checksum_of(data@),
{
    let h = double_sha256_bytes(data);
    let mut r: Vec<u8> = Vec::new();
    let mut i: usize = 0;
    while i < 4
        invariant
            i <= 4,
            h@.len() == 32,
            h@ == double_sha256_spec(data@),
            r@ == h@.take(i as int),
        decreases 4 - i,
    {
        r.push(h[i]);
        i = i + 1;
        assert(r@ == h@.take(i as int));
    }
    r
}

impl Wallet {
    /// A wallet with a fresh random key pair and its main-network address.
    pub fn new() -> (r: Self)
        ensures
            exists|sk: Seq<u8>| sk.len() == 32 && secret_key_valid(sk) && #[trigger] wallet_of(r, sk),
            wallet_sound(r),
    {
        let sk = random_secret_key();
        let w = Self::from_secret(&sk);
        assert(wallet_of(w, sk@));
        w
    }

    fn from_secret(sk: &Vec<u8>) -> (r: Self)
        requires
            secret_key_valid(sk@),
            sk@.len() == 32,
        ensures
            wallet_of(r, sk@),
            wallet_sound(r),
    {
        let pk = public_key_from_secret(sk.as_slice());
        proof {
            lemma_hex_round_trip(sk@);
            lemma_hex_round_trip(pk@);
        }
        Wallet {
            private_key: hex_encode(sk.as_slice()),
            public_key: hex_encode(pk.as_slice()),
            address: Self::generate_address(pk.as_slice(), Network::Mainnet),
        }
    }

    /// The wallet of the secret key written in hexadecimal by `private_key_hex`.
    pub fn from_private_key(private_key_hex: &str) -> (r: Result<Self, WalletError>)
        ensures
            match parsed_key(private_key_hex@) {
                Some(sk) => r matches Ok(w) && w.private_key@ == private_key_hex@
                    && w.public_key@ == hex_lower(public_key_of(sk)) && w.address@ == address_of(
                    public_key_of(sk),
                    Network::Mainnet,
                ),
                None => r == Err::<Self, WalletError>(WalletError::InvalidPrivateKey),
            },
            r matches Ok(w) ==> wallet_sound(w),
    {
        let sk = match Self::parse_private_key(private_key_hex) {
            Ok(k) => k,
            Err(e) => {
                return Err(e);
            },
        };
        let pk = public_key_from_secret(sk.as_slice());
        proof {
            lemma_hex_round_trip(pk@);
        }
        Ok(
            Wallet {
                private_key: private_key_hex.to_owned(),
                public_key: hex_encode(pk.as_slice()),
                address: Self::generate_address(pk.as_slice(), Network::Mainnet),
            },
        )
    }

    fn parse_private_key(hex_str: &str) -> (r: Result<Vec<u8>, WalletError>)
        ensures
            match parsed_key(hex_str@) {
                Some(sk) => r matches Ok(k) && k@ == sk,
                None => r == Err::<Vec<u8>, WalletError>(WalletError::InvalidPrivateKey),
            },
    {
        let bytes = match hex_decode(hex_str) {
            Some(b) => b,
            None => {
                return Err(WalletError::InvalidPrivateKey);
            },
        };
        if bytes.len() != 32 {
            return Err(WalletError::InvalidPrivateKey);
        }
        if !secret_key_check(bytes.as_slice()) {
            return Err(WalletError::InvalidPrivateKey);
        }
        Ok(bytes)
    }

    pub(crate) fn generate_address(public_key: &[u8], network: Network) -> (r: String)
        ensures
            r@ == address_of(public_key@, network),
    {
        let h = sha256(public_key);
        let pubkey_hash = ripemd160(h.as_slice());
        let version_byte: u8 = match network {
            Network::Mainnet => 0x00,
            Network::Testnet => 0x6F,
        };
        let mut versioned: Vec<u8> = Vec::new();
        versioned.push(version_byte);
        let payload = concat(versioned.as_slice(), pubkey_hash.as_slice());
        let checksum = calculate_checksum(payload.as_slice());
        let full = concat(payload.as_slice(), checksum.as_slice());
        assert(versioned@ == seq![version_byte]);
        base58_encode(full.as_slice())
    }

    /// Whether `address` is a well-formed address (see `address_valid`).
    pub fn validate_address(address: &str) -> (r: bool)
        ensures
            r == address_valid(address@),
    {
        let decoded = match base58_decode(address) {
            Some(v) => v,
            None => {
                return false;
            },
        };
        if decoded.len() != 25 {
            return false;
        }
        let version = decoded[0];
        if version != 0x00 && version != 0x6F {
            return false;
        }
        let payload = slice_of(decoded.as_slice(), 0, 21);
        let checksum = slice_of(decoded.as_slice(), 21, 25);
        let calculated = calculate_checksum(payload.as_slice());
        assert(payload@ == decoded@.take(21));
        bytes_eq(checksum.as_slice(), calculated.as_slice())
    }

    /// Signs the double SHA-256 of `data` with the wallet's key (DER).
    pub fn sign(&self, data: &[u8]) -> (r: Result<Vec<u8>, WalletError>)
        ensures
            match parsed_key(self.private_key@) {
                Some(sk) => r matches Ok(s) && s@ == ecdsa_sign_spec(double_sha256_spec(data@), sk),
                None => r == Err::<Vec<u8>, WalletError>(WalletError::InvalidPrivateKey),
            },
            // the signature parses and verifies under the key's public key
            parsed_key(self.private_key@) matches Some(sk) ==> (r matches Ok(s) && s@.len() > 0
                && der_signature_parses(s@) && ecdsa_verifies(double_sha256_spec(data@), s@, public_key_of(sk))),
    {
        let sk = match Self::parse_private_key(self.private_key.as_str()) {
            Ok(k) => k,
            Err(e) => {
                return Err(e);
            },
        };
        let hash = Self::hash_for_sign(data);
        Ok(ecdsa_sign(hash.as_slice(), sk.as_slice()))
    }

    /// Checks an ECDSA signature of the double SHA-256 of `data`; a key or
    /// signature that does not parse is an error.
    pub fn verify_signature(public_key: &[u8], data: &[u8], signature_bytes: &[u8]) -> (r: Result<
        bool,
        WalletError,
    >)
        ensures
            !public_key_parses(public_key@) ==> r == Err::<bool, WalletError>(
                WalletError::InvalidPublicKey,
            ),
            public_key_parses(public_key@) && !der_signature_parses(signature_bytes@) ==> r == Err::<
                bool,
                WalletError,
            >(WalletError::InvalidSignature),
            public_key_parses(public_key@) && der_signature_parses(signature_bytes@) ==> r == Ok::<
                bool,
                WalletError,
            >(ecdsa_verifies(double_sha256_spec(data@), signature_bytes@, public_key@)),
            // What a wallet signs verifies under its public key.
            forall|sk: Seq<u8>|
                #[trigger] public_key_of(sk) == public_key@ && secret_key_valid(sk) && signature_bytes@
                    == ecdsa_sign_spec(double_sha256_spec(data@), sk) ==> r == Ok::<bool, WalletError>(true),
    {
        let hash = Self::hash_for_sign(data);
        if !public_key_check(public_key) {
            return Err(WalletError::InvalidPublicKey);
        }
        if !der_signature_check(signature_bytes) {
            return Err(WalletError::InvalidSignature);
        }
        Ok(ecdsa_verify(hash.as_slice(), signature_bytes, public_key))
    }

    fn hash_for_sign(data: &[u8]) -> (r: Vec<u8>)
        ensures
            r@ == double_sha256_spec(data@),
            r@.len() == 32,
    {
        double_sha256_bytes(data)
    }

    /// The 20-byte public key hash inside an address of 25 decoded bytes.
    pub fn address_to_pubkey_hash(address: &str) -> (r: Result<Vec<u8>, WalletError>)
        ensures
            match base58_decode_spec(address@) {
                Some(d) => if d.len() == 25 {
                    r matches Ok(h) && h@ == d.subrange(1, 21)
                } else {
                    r == Err::<Vec<u8>, WalletError>(WalletError::InvalidAddress)
                },
                None => r == Err::<Vec<u8>, WalletError>(WalletError::InvalidAddress),
            },
    {
        let decoded = match base58_decode(address) {
            Some(v) => v,
            None => {
                return Err(WalletError::InvalidAddress);
            },
        };
        if decoded.len() != 25 {
            return Err(WalletError::InvalidAddress);
        }
        Ok(slice_of(decoded.as_slice(), 1, 21))
    }

    /// The secret key in Wallet Import Format.
    pub fn export_wif(&self, compressed: bool) -> (r: Result<String, WalletError>)
        ensures
            match parsed_key(self.private_key@) {
                Some(sk) => r matches Ok(s) && s@ == base58_encode_spec(
                    wif_payload(sk, compressed) + checksum_of(wif_payload(sk, compressed)),
                ),
                None => r == Err::<String, WalletError>(WalletError::InvalidPrivateKey),
            },
    {
        let sk = match Self::parse_private_key(self.private_key.as_str()) {
            Ok(k) => k,
            Err(e) => {
                return Err(e);
            },
        };
        let mut head: Vec<u8> = Vec::new();
        head.push(0x80);
        let mut wif_bytes = concat(head.as_slice(), sk.as_slice());
        if compressed {
            wif_bytes.push(0x01);
        }
        assert(wif_bytes@ == wif_payload(sk@, compressed));
        let checksum = calculate_checksum(wif_bytes.as_slice());
        let full = concat(wif_bytes.as_slice(), checksum.as_slice());
        Ok(base58_encode(full.as_slice()))
    }

    /// The wallet of a key given in Wallet Import Format.
    pub fn from_wif(wif: &str) -> (r: Result<Self, WalletError>)
        ensures
            match base58_decode_spec(wif@) {
                Some(d) => if wif_ok(d) {
                    match parsed_key(hex_lower(d.subrange(1, 33))) {
                        Some(sk) => r matches Ok(w) && wallet_of(w, sk),
                        None => r == Err::<Self, WalletError>(WalletError::InvalidPrivateKey),
                    }
                } else {
                    r == Err::<Self, WalletError>(WalletError::InvalidWif)
                },
                None => r == Err::<Self, WalletError>(WalletError::InvalidWif),
            },
    {
        let decoded = match base58_decode(wif) {
            Some(v) => v,
            None => {
                return Err(WalletError::InvalidWif);
            },
        };
        if decoded.len() < 37 {
            return Err(WalletError::InvalidWif);
        }
        if decoded[0] != 0x80 {
            return Err(WalletError::InvalidWif);
        }
        let payload_len = decoded.len() - 4;
        let checksum = slice_of(decoded.as_slice(), payload_len, decoded.len());
        let payload = slice_of(decoded.as_slice(), 0, payload_len);
        let calculated = calculate_checksum(payload.as_slice());
        assert(payload@ == decoded@.take(payload_len as int));
        if !bytes_eq(checksum.as_slice(), calculated.as_slice()) {
            return Err(WalletError::InvalidWif);
        }
        let key_bytes = slice_of(decoded.as_slice(), 1, 33);
        let private_key_hex = hex_encode(key_bytes.as_slice());
        let r = Self::from_private_key(private_key_hex.as_str());
        proof {
            lemma_hex_round_trip(key_bytes@);
        }
        r
    }
}

/// Decoding the lower-case hexadecimal rendering of bytes gives them back.
pub proof fn lemma_hex_round_trip(b: Seq<u8>)
    ensures
        hex_decode_spec(hex_lower(b)) == Some(b),
    decreases b.len(),
{
    crate::text::lemma_hex_lower_len(b);
    if b.len() > 0 {
        let p = b.drop_last();
        lemma_hex_round_trip(p);
        crate::text::lemma_hex_lower_len(p);
        let h = hex_lower(b);
        assert(h.take(h.len() - 2) == hex_lower(p));
        let x = b.last();
        assert((x as nat / 16) * 16 + x as nat % 16 == x);
    } else {
        assert(hex_lower(b) == Seq::<char>::empty());
    }
}

/// Wallets held in memory, by address.
pub struct KeyStore {
    pub wallets: KeyMap<String, Wallet>,
}

impl KeyStore {
    pub fn new() -> (r: Self)
        ensures
            r.wallets@ == Map::<Seq<char>, Wallet>::empty(),
    {
        KeyStore { wallets: KeyMap::new() }
    }

    /// Creates a wallet with a fresh key, stores it under its address and
    /// returns it.
    pub fn create_wallet(&mut self) -> (r: &Wallet)
        ensures
            exists|sk: Seq<u8>| sk.len() == 32 && secret_key_valid(sk) && #[trigger] wallet_of(*r, sk),
            final(self).wallets@ == old(self).wallets@.insert(r.address@, *r),
    {
        let wallet = Wallet::new();
        let address = wallet.address.clone();
        self.wallets.insert(address.clone(), wallet);
        match self.wallets.get(&address) {
            Some(w) => w,
            None => {
                proof {
                    assert(false);
                }
                self.wallets.entry_at(0).1
            },
        }
    }

    /// Imports the wallet of a hexadecimal secret key and stores it.
    pub fn import_wallet(&mut self, private_key: &str) -> (r: Result<&Wallet, WalletError>)
        ensures
            match parsed_key(private_key@) {
                Some(sk) => r matches Ok(w) && w.private_key@ == private_key@ && w.public_key@
                    == hex_lower(public_key_of(sk)) && w.address@ == address_of(
                    public_key_of(sk),
                    Network::Mainnet,
                ) && final(self).wallets@ == old(self).wallets@.insert(w.address@, *w),
                None => r == Err::<&Wallet, WalletError>(WalletError::InvalidPrivateKey)
                    && final(self).wallets@ == old(self).wallets@,
            },
    {
        let wallet = match Wallet::from_private_key(private_key) {
            Ok(w) => w,
            Err(e) => {
                return Err(e);
            },
        };
        let address = wallet.address.clone();
        self.wallets.insert(address.clone(), wallet);
        match self.wallets.get(&address) {
            Some(w) => Ok(w),
            None => {
                proof {
                    assert(false);
                }
                Err(WalletError::InvalidAddress)
            },
        }
    }

    pub fn get_wallet(&self, address: &str) -> (r: Option<&Wallet>)
        ensures
            match r {
                Some(w) => self.wallets@.contains_key(address@) && *w == self.wallets@[address@],
                None => !self.wallets@.contains_key(address@),
            },
    {
        let key = address.to_owned();
        self.wallets.get(&key)
    }

    /// The addresses of all stored wallets.
    pub fn get_addresses(&self) -> (r: Vec<&String>)
        ensures
            r@.len() == self.wallets@.len(),
            forall|i: int| 0 <= i < r@.len() ==> self.wallets@.contains_key((#[trigger] r@[i])@),
            forall|k: Seq<char>| #[trigger] self.wallets@.contains_key(k) ==> exists|i: int|
                0 <= i < r@.len() && (#[trigger] r@[i])@ == k,
    {
        let n = self.wallets.len();
        let mut r: Vec<&String> = Vec::new();
        let mut i: usize = 0;
        while i < n
            invariant
                n == self.wallets.entries().len(),
                n == self.wallets@.len(),
                self.wallets@ == crate::keymap::entries_map(self.wallets.entries()),
                crate::keymap::distinct_keys(self.wallets.entries()),
                i <= n,
                r@.len() == i,
                forall|j: int| 0 <= j < i ==> (#[trigger] r@[j])@ == self.wallets.entries()[j].0@,
            decreases n - i,
        {
            let (k, _) = self.wallets.entry_at(i);
            r.push(k);
            i = i + 1;
        }
        proof {
            assert forall|j: int| 0 <= j < r@.len() implies self.wallets@.contains_key(
                (#[trigger] r@[j])@,
            ) by {
                crate::keymap::lemma_entries_map_at(self.wallets.entries(), j);
            }
            assert forall|k: Seq<char>| #[trigger] self.wallets@.contains_key(k) implies exists|
                i: int,
            | 0 <= i < r@.len() && (#[trigger] r@[i])@ == k by {
                let j = choose|j: int| #[trigger] crate::keymap::key_at(self.wallets.entries(), j, k);
                assert(crate::keymap::key_at(self.wallets.entries(), j, k));
                assert((r@[j])@ == k);
            }
        }
        r
    }

    /// Signs `tx_data` with the wallet stored under `address`.
    pub fn sign_transaction(&self, address: &str, tx_data: &[u8]) -> (r: Result<Vec<u8>, WalletError>)
        ensures
            !self.wallets@.contains_key(address@) ==> r == Err::<Vec<u8>, WalletError>(
                WalletError::InvalidAddress,
            ),
            self.wallets@.contains_key(address@) ==> match parsed_key(
                self.wallets@[address@].private_key@,
            ) {
                Some(sk) => r matches Ok(s) && s@ == ecdsa_sign_spec(double_sha256_spec(tx_data@), sk),
                None => r == Err::<Vec<u8>, WalletError>(WalletError::InvalidPrivateKey),
            },
    {
        let key = address.to_owned();
        match self.wallets.get(&key) {
            Some(w) => w.sign(tx_data),
            None => Err(WalletError::InvalidAddress),
        }
    }
}

} // verus!
