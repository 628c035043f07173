//! The vault and its entries.

use crate::encryption::{CipherView, CryptoError, EncryptionManager};
use crate::text::string_from_utf8;
use std::marker::PhantomData;
use vstd::prelude::*;
use vstd::std_specs::convert::{FromSpecImpl, IntoSpec};
use vstd::utf8::{
    decode_utf8, encode_utf8, encode_utf8_decode_utf8, encode_utf8_valid_utf8, valid_utf8,
};

verus! {

/// Why a vault could not store or read an entry.
#[derive(Debug, Clone, Copy, PartialEq, Eq, Hash, Structural)]
pub enum VaultError {
    /// The cipher refused a plaintext or a ciphertext.
    Crypto(CryptoError),
    /// Decrypted bytes are not UTF-8.
    Encoding,
}

impl From<CryptoError> for VaultError {
    fn from(error: CryptoError) -> (res: VaultError) {
        VaultError::Crypto(error)
    }
}

impl FromSpecImpl<CryptoError> for VaultError {
    open spec fn obeys_from_spec() -> bool {
        true
    }

    open spec fn from_spec(error: CryptoError) -> VaultError {
        VaultError::Crypto(error)
    }
}

/// A credential in the clear: what callers hand in and get back.
#[derive(Debug, Clone, Eq, Hash, PartialEq)]
pub struct PasswordEntry {
    pub username: String,
    pub password: String,
}

/// What a [`PasswordEntry`] is to a contract: its two texts.
pub struct EntryView {
    pub username: Seq<char>,
    pub password: Seq<char>,
}

impl EntryView {
    /// The entry whose texts are encoded by `username` and `password`, or
    /// the encoding error where either is not UTF-8.
    pub open spec fn from_utf8(username: Seq<u8>, password: Seq<u8>) -> Result<
        EntryView,
        VaultError,
    > {
        if valid_utf8(username) && valid_utf8(password) {
            Ok(EntryView { username: decode_utf8(username), password: decode_utf8(password) })
        } else {
            Err(VaultError::Encoding)
        }
    }
}

impl View for PasswordEntry {
    type V = EntryView;

    open spec fn view(&self) -> EntryView {
        EntryView { username: self.username@, password: self.password@ }
    }
}

impl DeepView for PasswordEntry {
    type V = EntryView;

    open spec fn deep_view(&self) -> EntryView {
        self@
    }
}

/// The view of what [`PasswordEntry::from_utf8`] returns.
pub open spec fn entry_result_view(res: Result<PasswordEntry, VaultError>) -> Result<
    EntryView,
    VaultError,
> {
    match res {
        Ok(entry) => Ok(entry@),
        Err(error) => Err(error),
    }
}

impl PasswordEntry {
    /// Reads an entry out of the bytes of its two texts.
    ///
    /// Fails with [`VaultError::Encoding`] exactly where `username` or
    /// `password` is not UTF-8.
    pub fn from_utf8(username: Vec<u8>, password: Vec<u8>) -> (res: Result<
        PasswordEntry,
        VaultError,
    >)
        ensures
            entry_result_view(res) == EntryView::from_utf8(username@, password@),
    {
        let username = match string_from_utf8(username) {
            Ok(text) => text,
            Err(_) => return Err(VaultError::Encoding),
        };
        let password = match string_from_utf8(password) {
            Ok(text) => text,
            Err(_) => return Err(VaultError::Encoding),
        };
        Ok(PasswordEntry { username, password })
    }
}

/// A credential as the vault stores it: each text encrypted on its own.
#[derive(Debug, Eq, Hash, PartialEq)]
pub struct PasswordEntryBytes {
    username: Vec<u8>,
    password: Vec<u8>,
}

/// What a [`PasswordEntryBytes`] is to a contract: its two ciphertexts.
pub struct SealedEntry {
    pub username: Seq<u8>,
    pub password: Seq<u8>,
}

impl View for PasswordEntryBytes {
    type V = SealedEntry;

    closed spec fn view(&self) -> SealedEntry {
        SealedEntry { username: self.username@, password: self.password@ }
    }
}

/// What a vault is to a contract, locked or unlocked: the master password,
/// the cipher, and the stored entries in the order in which they came.
pub struct VaultView {
    pub master_pass: Seq<char>,
    pub cipher: CipherView,
    pub stored: Seq<SealedEntry>,
}

impl VaultView {
    /// The vault that holds nothing yet.
    pub open spec fn empty(master_pass: Seq<char>, cipher: CipherView) -> VaultView {
        VaultView { master_pass, cipher, stored: Seq::empty() }
    }

    /// What `entry` becomes when the vault's cipher encrypts its two texts,
    /// or the cipher's complaint about the first text that it refuses.
    pub open spec fn seal(self, entry: EntryView) -> Result<SealedEntry, VaultError> {
        match self.cipher.encrypt(encode_utf8(entry.username)) {
            Err(error) => Err(VaultError::Crypto(error)),
            Ok(username) => match self.cipher.encrypt(encode_utf8(entry.password)) {
                Err(error) => Err(VaultError::Crypto(error)),
                Ok(password) => Ok(SealedEntry { username, password }),
            },
        }
    }

    /// What a stored entry reads as: both ciphertexts decrypted, then both
    /// plaintexts decoded. A failure of the cipher comes before one of the
    /// decoding.
    pub open spec fn unseal(self, sealed: SealedEntry) -> Result<EntryView, VaultError> {
        match self.cipher.decrypt(sealed.username) {
            Err(error) => Err(VaultError::Crypto(error)),
            Ok(username) => match self.cipher.decrypt(sealed.password) {
                Err(error) => Err(VaultError::Crypto(error)),
                Ok(password) => EntryView::from_utf8(username, password),
            },
        }
    }

    /// The vault with `sealed` stored behind all that it holds.
    pub open spec fn push(self, sealed: SealedEntry) -> VaultView {
        VaultView { stored: self.stored.push(sealed), ..self }
    }

    /// The outcome of adding `entry`: the vault with the sealed entry at its
    /// end, or the error of sealing it.
    pub open spec fn add(self, entry: EntryView) -> Result<VaultView, VaultError> {
        match self.seal(entry) {
            Ok(sealed) => Ok(self.push(sealed)),
            Err(error) => Err(error),
        }
    }

    /// `later` is this vault after a successful `add` of `entry`, and its
    /// new last entry reads back as `entry`.
    pub open spec fn added(self, entry: EntryView, later: VaultView) -> bool {
        &&& self.add(entry) == Ok::<VaultView, VaultError>(later)
        &&& later.unseal(later.stored.last()) == Ok::<EntryView, VaultError>(entry)
    }

    /// The outcome of reading the first `n` stored entries in order: all of
    /// them in the clear, or the error of the first that cannot be read.
    pub open spec fn list_prefix(self, n: nat) -> Result<Seq<EntryView>, VaultError>
        decreases n,
    {
        if n == 0 {
            Ok(Seq::empty())
        } else {
            match self.list_prefix((n - 1) as nat) {
                Err(error) => Err(error),
                Ok(entries) => match self.unseal(self.stored[n - 1]) {
                    Err(error) => Err(error),
                    Ok(entry) => Ok(entries.push(entry)),
                },
            }
        }
    }

    /// The outcome of reading every stored entry in order.
    pub open spec fn listing(self) -> Result<Seq<EntryView>, VaultError> {
        self.list_prefix(self.stored.len())
    }

    /// Storing one more entry leaves what the earlier ones read as.
    proof fn lemma_push_keeps_prefix(self, sealed: SealedEntry, n: nat)
        requires
            n <= self.stored.len(),
        ensures
            self.push(sealed).list_prefix(n) == self.list_prefix(n),
        decreases n,
    {
        if n > 0 {
            self.lemma_push_keeps_prefix(sealed, (n - 1) as nat);
        }
    }

    /// The outcome of a listing, `listed`, followed by reading `entries`
    /// without error: a listing that failed stays as it is.
    pub open spec fn extend(
        listed: Result<Seq<EntryView>, VaultError>,
        entries: Seq<EntryView>,
    ) -> Result<Seq<EntryView>, VaultError> {
        match listed {
            Ok(earlier) => Ok(earlier + entries),
            Err(error) => Err(error),
        }
    }

    /// After a successful add the vault lists what it listed before, then
    /// the added entry; a vault that failed to list fails as before.
    pub proof fn lemma_added_extends_listing(self, entry: EntryView, later: VaultView)
        requires
            self.added(entry, later),
        ensures
            later.listing() == Self::extend(self.listing(), seq![entry]),
    {
        self.lemma_push_keeps_prefix(later.stored.last(), self.stored.len());
        if let Ok(earlier) = self.listing() {
            assert(earlier.push(entry) =~= earlier + seq![entry]);
        }
    }

    /// Reading on past a failure changes nothing: a longer prefix fails
    /// with the error of the shorter one.
    proof fn lemma_list_prefix_fails_on(self, m: nat, n: nat)
        requires
            m <= n,
            self.list_prefix(m) is Err,
        ensures
            self.list_prefix(n) == self.list_prefix(m),
        decreases n,
    {
        if m < n {
            self.lemma_list_prefix_fails_on(m, (n - 1) as nat);
        }
    }
}

/// `vaults` is a run of successful adds: each vault but the first is the one
/// before it after the add of the entry at the same place in `entries`.
pub open spec fn is_add_run(vaults: Seq<VaultView>, entries: Seq<EntryView>) -> bool {
    &&& vaults.len() == entries.len() + 1
    &&& forall|i: int|
        0 <= i < entries.len() ==> (#[trigger] vaults[i]).added(entries[i], vaults[i + 1])
}

/// After any run of successful adds the last vault lists what the first one
/// listed, followed by the added entries in the order of the adds; where the
/// first one failed to list, the last one fails in the same way. A run that
/// began with an empty vault ends with one that lists exactly the added
/// entries.
pub proof fn lemma_listing_after_adds(vaults: Seq<VaultView>, entries: Seq<EntryView>)
    requires
        is_add_run(vaults, entries),
    ensures
        vaults.last().listing() == VaultView::extend(vaults.first().listing(), entries),
        vaults.first().stored.len() == 0 ==> vaults.last().listing() == Ok::<
            Seq<EntryView>,
            VaultError,
        >(entries),
    decreases entries.len(),
{
    let listed = vaults.first().listing();
    if entries.len() == 0 {
        if let Ok(earlier) = listed {
            assert(earlier + entries =~= earlier);
        }
    } else {
        let n = entries.len() as int;
        let earlier_vaults = vaults.drop_last();
        let earlier_entries = entries.drop_last();
        assert(is_add_run(earlier_vaults, earlier_entries)) by {
            assert forall|i: int| 0 <= i < earlier_entries.len() implies (
            #[trigger] earlier_vaults[i]).added(earlier_entries[i], earlier_vaults[i + 1]) by {
                assert(vaults[i].added(entries[i], vaults[i + 1]));
            }
        }
        lemma_listing_after_adds(earlier_vaults, earlier_entries);
        assert(vaults[n - 1].added(entries[n - 1], vaults[n]));
        vaults[n - 1].lemma_added_extends_listing(entries[n - 1], vaults[n]);
        if let Ok(earlier) = listed {
            assert((earlier + earlier_entries) + seq![entries[n - 1]] =~= earlier + entries);
        }
    }
    if vaults.first().stored.len() == 0 {
        assert(Seq::<EntryView>::empty() + entries =~= entries);
    }
}

/// Marks a vault whose entries can be neither read nor extended.
pub struct Locked;

/// Marks a vault whose entries can be read and extended.
pub struct Unlocked;

/// The vault. `State` is [`Locked`] or [`Unlocked`] and exists in the type
/// only: locking and unlocking move the same data from one type to the
/// other.
pub struct PasswordManager<State = Locked> {
    master_pass: String,
    encryption_manager: EncryptionManager,
    passwords: Vec<PasswordEntryBytes>,
    state: PhantomData<State>,
}

impl<State> View for PasswordManager<State> {
    type V = VaultView;

    closed spec fn view(&self) -> VaultView {
        VaultView {
            master_pass: self.master_pass@,
            cipher: self.encryption_manager@,
            stored: self.passwords@.map_values(|sealed: PasswordEntryBytes| sealed@),
        }
    }
}

impl PasswordManager<Locked> {
    /// A locked vault that holds nothing, with a cipher of its own.
    pub fn new<S: Into<String>>(master_pass: S) -> (vault: Self)
        ensures
            vault@.stored == Seq::<SealedEntry>::empty(),
            vault@.cipher.wf(),
            S::obeys_into_spec() ==> vault@.master_pass == master_pass.into_spec()@,
    {
        Self::with_cipher(master_pass.into(), EncryptionManager::new())
    }

    /// A locked vault that holds nothing, with the given cipher.
    pub fn with_cipher(master_pass: String, encryption_manager: EncryptionManager) -> (vault: Self)
        ensures
            vault@ == VaultView::empty(master_pass@, encryption_manager@),
    {
        let vault = PasswordManager {
            master_pass,
            encryption_manager,
            passwords: Vec::with_capacity(512),
            state: PhantomData::<Locked>,
        };
        assert(vault@.stored =~= Seq::empty());
        vault
    }

    /// What `unlock` returns.
    pub closed spec fn spec_unlock(self) -> Option<PasswordManager<Unlocked>> {
        Some(
            PasswordManager {
                master_pass: self.master_pass,
                encryption_manager: self.encryption_manager,
                passwords: self.passwords,
                state: PhantomData::<Unlocked>,
            },
        )
    }

    /// Hands the vault over for reading and writing. No password is asked
    /// for, so this never fails.
    pub fn unlock(self) -> (res: Option<PasswordManager<Unlocked>>)
        ensures
            res == self.spec_unlock(),
            res matches Some(vault) && vault@ == self@,
    {
        Some(
            PasswordManager {
                master_pass: self.master_pass,
                encryption_manager: self.encryption_manager,
                passwords: self.passwords,
                state: PhantomData::<Unlocked>,
            },
        )
    }
}

/// The view of what [`PasswordManager::list_passwords`] returns.
pub open spec fn entries_result_view(res: Result<Vec<PasswordEntry>, VaultError>) -> Result<
    Seq<EntryView>,
    VaultError,
> {
    match res {
        Ok(entries) => Ok(entries.deep_view()),
        Err(error) => Err(error),
    }
}

impl PasswordManager<Unlocked> {
    /// Encrypts the two texts of `entry`, the username first.
    fn seal(&self, entry: &PasswordEntry) -> (res: Result<PasswordEntryBytes, VaultError>)
        ensures
            match res {
                Ok(sealed) => {
                    &&& self@.seal(entry@) == Ok::<SealedEntry, VaultError>(sealed@)
                    &&& self@.unseal(sealed@) == Ok::<EntryView, VaultError>(entry@)
                },
                Err(error) => self@.seal(entry@) == Err::<SealedEntry, VaultError>(error),
            },
    {
        broadcast use {encode_utf8_valid_utf8, encode_utf8_decode_utf8};

        let username = match self.encryption_manager.encrypt(entry.username.as_str().as_bytes()) {
            Ok(ciphertext) => ciphertext,
            Err(error) => return Err(VaultError::from(error)),
        };
        let password = match self.encryption_manager.encrypt(entry.password.as_str().as_bytes()) {
            Ok(ciphertext) => ciphertext,
            Err(error) => return Err(VaultError::from(error)),
        };
        Ok(PasswordEntryBytes { username, password })
    }

    /// Decrypts the two ciphertexts of `sealed`, the username first, and
    /// reads the plaintexts as text.
    fn unseal(&self, sealed: &PasswordEntryBytes) -> (res: Result<PasswordEntry, VaultError>)
        ensures
            entry_result_view(res) == self@.unseal(sealed@),
    {
        let username = match self.encryption_manager.decrypt(&sealed.username) {
            Ok(plaintext) => plaintext,
            Err(error) => return Err(VaultError::from(error)),
        };
        let password = match self.encryption_manager.decrypt(&sealed.password) {
            Ok(plaintext) => plaintext,
            Err(error) => return Err(VaultError::from(error)),
        };
        PasswordEntry::from_utf8(username, password)
    }

    /// Decrypts every stored entry, in the order in which the entries were
    /// added, and returns them in the clear. The vault stays as it is.
    ///
    /// Fails with the error of the first entry that cannot be read.
    pub fn list_passwords(&self) -> (res: Result<Vec<PasswordEntry>, VaultError>)
        ensures
            entries_result_view(res) == self@.listing(),
    {
        let mut entries: Vec<PasswordEntry> = Vec::with_capacity(self.passwords.len());
        let mut i: usize = 0;
        assert(entries.deep_view() =~= Seq::empty());
        while i < self.passwords.len()
            invariant
                i <= self.passwords.len(),
                self@.list_prefix(i as nat) == Ok::<Seq<EntryView>, VaultError>(
                    entries.deep_view(),
                ),
            decreases self.passwords.len() - i,
        {
            let ghost before = entries.deep_view();
            match self.unseal(&self.passwords[i]) {
                Ok(entry) => {
                    entries.push(entry);
                    assert(entries.deep_view() =~= before.push(entry@));
                },
                Err(error) => {
                    proof {
                        self@.lemma_list_prefix_fails_on((i + 1) as nat, self@.stored.len());
                    }
                    return Err(error);
                },
            }
            i += 1;
        }
        Ok(entries)
    }

    /// Encrypts the two texts of `entry` and stores them behind all that
    /// the vault holds.
    ///
    /// Fails, and leaves the vault as it was, exactly where the cipher
    /// refuses one of the texts. After a success the new last entry reads
    /// back as `entry`.
    pub fn add_password(&mut self, entry: PasswordEntry) -> (res: Result<(), VaultError>)
        ensures
            match res {
                Ok(()) => old(self)@.added(entry@, final(self)@),
                Err(error) => {
                    &&& old(self)@.add(entry@) == Err::<VaultView, VaultError>(error)
                    &&& final(self)@ == old(self)@
                },
            },
            res is Ok ==> final(self)@.listing() == VaultView::extend(
                old(self)@.listing(),
                seq![entry@],
            ),
    {
        let sealed = match self.seal(&entry) {
            Ok(sealed) => sealed,
            Err(error) => return Err(error),
        };
        self.passwords.push(sealed);
        proof {
            assert(self@.stored =~= old(self)@.stored.push(sealed@));
            old(self)@.lemma_added_extends_listing(entry@, self@);
        }
        Ok(())
    }

    /// What `lock` returns.
    pub closed spec fn spec_lock(self) -> PasswordManager<Locked> {
        PasswordManager {
            master_pass: self.master_pass,
            encryption_manager: self.encryption_manager,
            passwords: self.passwords,
            state: PhantomData::<Locked>,
        }
    }

    /// Takes the vault back from reading and writing: what it holds stays
    /// as it is.
    pub fn lock(self) -> (vault: PasswordManager<Locked>)
        ensures
            vault == self.spec_lock(),
            vault@ == self@,
    {
        PasswordManager {
            master_pass: self.master_pass,
            encryption_manager: self.encryption_manager,
            passwords: self.passwords,
            state: PhantomData::<Locked>,
        }
    }
}

/// Unlocking a vault and locking it again gives the vault back as it was,
/// master password, cipher and stored entries.
pub proof fn lemma_unlock_then_lock(vault: PasswordManager<Locked>)
    ensures
        vault.spec_unlock() matches Some(unlocked) && {
            &&& unlocked.spec_lock() == vault
            &&& unlocked@ == vault@
        },
{
}

/// Locking a vault and unlocking it again gives the vault back as it was:
/// every entry added before is still there and reads as before.
pub proof fn lemma_lock_then_unlock(vault: PasswordManager<Unlocked>)
    ensures
        vault.spec_lock().spec_unlock() == Some(vault),
        vault.spec_lock()@ == vault@,
        vault.spec_lock()@.listing() == vault@.listing(),
{
}

} // verus!
