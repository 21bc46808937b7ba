//! Mnemonic and descriptor helpers: generate a fresh BIP39 mnemonic, check a
//! restored one for an allowed word count, and derive the pair of BIP84
//! private descriptor strings (external and internal keychain) from a
//! mnemonic and an optional passphrase. The cryptography itself (entropy,
//! seed stretching, extended-key derivation, descriptor templating) is done
//! by the wallet library behind a small trusted surface.

use vstd::prelude::*;

use bdk_wallet::bip39::Language;
use bdk_wallet::bip39::Mnemonic;
use bdk_wallet::bitcoin::bip32::Xpriv;
use bdk_wallet::bitcoin::NetworkKind;
use bdk_wallet::keys::bip39::WordCount;
use bdk_wallet::keys::GeneratableKey;
use bdk_wallet::keys::GeneratedKey;
use bdk_wallet::miniscript::Tap;
use bdk_wallet::template::Bip84;
use bdk_wallet::template::DescriptorTemplate;
use bdk_wallet::KeychainKind;

verus! {

/// The ways a mnemonic or descriptor operation can fail.
#[derive(Clone, Copy, Debug, PartialEq, Eq, Structural)]
pub enum KeyError {
    /// The entropy source or the mnemonic encoding failed.
    Generation,
    /// A word sequence does not have one of the allowed lengths.
    InvalidLength,
    /// The words are not a valid BIP39 mnemonic, or key derivation failed.
    ParseOrDerivation,
}

/// An allowed number of words in a mnemonic phrase.
pub open spec fn valid_word_count(n: nat) -> bool {
    n == 12 || n == 15 || n == 18 || n == 21 || n == 24
}

/// The view of each word of a sequence of words.
pub open spec fn word_views(words: Seq<&str>) -> Seq<Seq<char>> {
    words.map_values(|w: &str| w@)
}

/// The words joined into one phrase, each word followed by a single space.
pub open spec fn joined_phrase(words: Seq<Seq<char>>) -> Seq<char>
    decreases words.len(),
{
    if words.len() == 0 {
        Seq::empty()
    } else {
        joined_phrase(words.drop_last()) + words.last().push(' ')
    }
}

/// The passphrase in use: the given one, or the empty one when none is given.
pub open spec fn passphrase_view(passphrase: Option<&str>) -> Seq<char> {
    match passphrase {
        Some(p) => p@,
        None => Seq::<char>::empty(),
    }
}

/// The pair of BIP84 private descriptor strings (external, then internal
/// keychain) that the wallet library derives on the test network from a
/// mnemonic phrase and a passphrase, or `None` when the phrase does not
/// parse as a BIP39 mnemonic or key derivation fails. The derivation is
/// deterministic in the phrase and the passphrase, so its outcome is a
/// function of the two.
pub uninterp spec fn derived_descriptors(phrase: Seq<char>, passphrase: Seq<char>) -> Option<(Seq<char>, Seq<char>)>;

/// A native-segwit descriptor string: one that begins with "wpkh(".
pub open spec fn starts_with_wpkh(s: Seq<char>) -> bool {
    s.len() >= 5 && s.subrange(0, 5) == "wpkh("@
}

/// Whether `part` occurs contiguously somewhere in `s`.
pub open spec fn contains_seq(s: Seq<char>, part: Seq<char>) -> bool {
    exists|i: int| 0 <= i && i + part.len() <= s.len() && #[trigger] s.subrange(i, i + part.len()) == part
}

/// The position of a word in the fixed BIP39 English wordlist, or `None`
/// when the word is not in it: what `bip39::Language::find_word` returns on
/// `Language::English`, a function of the word alone.
pub uninterp spec fn english_word_index(word: Seq<char>) -> Option<nat>;

/// Whether a phrase parses as a checksum-valid BIP39 mnemonic: the outcome
/// of `bip39::Mnemonic::parse`, a function of the phrase alone.
pub uninterp spec fn mnemonic_parses(phrase: Seq<char>) -> bool;

/// Relies on `bdk_wallet::bip39::Mnemonic::generate` with
/// `WordCount::Words12` and `Language::English`: a fresh twelve-word
/// mnemonic from the thread's secure random source. Generation succeeds:
/// the requested 128 bits are an entropy length that the mnemonic encoding
/// accepts. Each word is taken by index from the fixed English wordlist,
/// so `Language::find_word` finds it there; and the words encode the drawn
/// entropy together with its checksum, so the phrase they form (each word
/// followed by a single space; `Mnemonic::parse` skips the trailing one)
/// parses as a checksum-valid BIP39 mnemonic.
#[verifier::external_body]
pub fn generate_mnemonic() -> (r: Result<Vec<&'static str>, KeyError>)
    ensures
        r is Ok,
        r matches Ok(words) ==> words@.len() == 12,
        r matches Ok(words) ==> forall|i: int|
            0 <= i < words@.len() ==> (#[trigger] english_word_index(words@[i]@)) is Some,
        r matches Ok(words) ==> mnemonic_parses(joined_phrase(word_views(words@))),
{
    let generated: GeneratedKey<Mnemonic, Tap> =
        Mnemonic::generate((WordCount::Words12, Language::English))
            .map_err(|_| KeyError::Generation)?;
    Ok(generated.words().collect())
}

/// Checks that a restored word sequence has an allowed length and returns it
/// unchanged. This is a structural pre-check only: it verifies neither the
/// BIP39 checksum nor that each word belongs to the wordlist.
pub fn restore_mnemonic(mnemonic: Vec<&'static str>) -> (r: Result<Vec<&'static str>, KeyError>)
    ensures
        r is Ok <==> valid_word_count(mnemonic@.len()),
        r matches Ok(words) ==> words@ == mnemonic@,
        r matches Err(e) ==> e == KeyError::InvalidLength,
{
    let n = mnemonic.len();
    if n == 12 || n == 15 || n == 18 || n == 21 || n == 24 {
        Ok(mnemonic)
    } else {
        Err(KeyError::InvalidLength)
    }
}

/// Joins the words into one phrase, each word followed by a single space.
fn join_words(words: &Vec<&'static str>) -> (r: String)
    ensures
        r@ == joined_phrase(word_views(words@)),
{
    let mut phrase = String::new();
    let n = words.len();
    let mut i: usize = 0;
    while i < n
        invariant
            i <= n,
            n == words@.len(),
            phrase@ == joined_phrase(word_views(words@.take(i as int))),
        decreases n - i,
    {
        phrase.append(words[i]);
        phrase.append(" ");
        proof {
            reveal_strlit(" ");
            let taken = word_views(words@.take(i + 1));
            assert(taken.drop_last() =~= word_views(words@.take(i as int)));
            assert(phrase@ =~= joined_phrase(taken.drop_last()) + taken.last().push(' '));
        }
        i += 1;
    }
    proof {
        assert(words@.take(n as int) =~= words@);
    }
    phrase
}

/// Relies on the wallet library's derivation pipeline, each step of which is
/// a deterministic function of its arguments: `Mnemonic::parse` (BIP39
/// wordlist and checksum validation), `Mnemonic::to_seed` (PBKDF2 seed
/// stretching with the passphrase), `Xpriv::new_master` on the test network,
/// the `Bip84` template built for the external and the internal keychain,
/// and `to_string_with_secret` (private-form serialization). The template
/// builds a `wpkh` descriptor, whose string form begins with "wpkh(" and
/// holds the key in its secret form: the master key serialized with the
/// testnet version prefix ("tprv"), followed by the BIP84 testnet path
/// "/84'/1'/0'" and the keychain step, "/0/*" for the external descriptor
/// and "/1/*" for the internal one — so the two strings differ. Success
/// needs the phrase to parse: the first failing step returns the error.
#[verifier::external_body]
fn derive_descriptors(phrase: &str, passphrase: &str) -> (r: Result<(String, String), KeyError>)
    ensures
        r is Ok <==> derived_descriptors(phrase@, passphrase@) is Some,
        r is Ok ==> mnemonic_parses(phrase@),
        r matches Ok(d) ==> Some((d.0@, d.1@)) == derived_descriptors(phrase@, passphrase@),
        r matches Ok(d) ==> starts_with_wpkh(d.0@) && starts_with_wpkh(d.1@),
        r matches Ok(d) ==> contains_seq(d.0@, "tprv"@) && contains_seq(d.1@, "tprv"@),
        r matches Ok(d) ==> contains_seq(d.0@, "/84'/1'/0'"@) && contains_seq(
            d.1@,
            "/84'/1'/0'"@,
        ),
        r matches Ok(d) ==> contains_seq(d.0@, "/0/*"@) && contains_seq(d.1@, "/1/*"@),
        r matches Ok(d) ==> d.0@ != d.1@,
        r matches Err(e) ==> e == KeyError::ParseOrDerivation,
{
    let mnemonic = Mnemonic::parse(phrase).map_err(|_| KeyError::ParseOrDerivation)?;
    let seed = mnemonic.to_seed(passphrase);
    let xpriv = Xpriv::new_master(NetworkKind::Test, &seed)
        .map_err(|_| KeyError::ParseOrDerivation)?;
    let (external, external_keys, _) = Bip84(xpriv, KeychainKind::External)
        .build(NetworkKind::Test)
        .map_err(|_| KeyError::ParseOrDerivation)?;
    let (internal, internal_keys, _) = Bip84(xpriv, KeychainKind::Internal)
        .build(NetworkKind::Test)
        .map_err(|_| KeyError::ParseOrDerivation)?;
    Ok((
        external.to_string_with_secret(&external_keys),
        internal.to_string_with_secret(&internal_keys),
    ))
}

/// Derives the pair of BIP84 private descriptor strings (external, then
/// internal keychain) from a mnemonic and an optional passphrase, on the
/// fixed test network. The words are joined with single spaces and parsed
/// as a BIP39 mnemonic; an invalid phrase or a failed derivation is an
/// error, and either both descriptors are returned or neither.
pub fn mnemonic_to_descriptors(
    mnemonic: Vec<&'static str>,
    passphrase: Option<&str>,
) -> (r: Result<(String, String), KeyError>)
    ensures
        r is Ok <==> derived_descriptors(
            joined_phrase(word_views(mnemonic@)),
            passphrase_view(passphrase),
        ) is Some,
        r is Ok ==> mnemonic_parses(joined_phrase(word_views(mnemonic@))),
        r matches Ok(d) ==> Some((d.0@, d.1@)) == derived_descriptors(
            joined_phrase(word_views(mnemonic@)),
            passphrase_view(passphrase),
        ),
        r matches Ok(d) ==> starts_with_wpkh(d.0@) && starts_with_wpkh(d.1@),
        r matches Ok(d) ==> contains_seq(d.0@, "tprv"@) && contains_seq(d.1@, "tprv"@),
        r matches Ok(d) ==> contains_seq(d.0@, "/84'/1'/0'"@) && contains_seq(
            d.1@,
            "/84'/1'/0'"@,
        ),
        r matches Ok(d) ==> contains_seq(d.0@, "/0/*"@) && contains_seq(d.1@, "/1/*"@),
        r matches Ok(d) ==> d.0@ != d.1@,
        r matches Err(e) ==> e == KeyError::ParseOrDerivation,
{
    let phrase = join_words(&mnemonic);
    let pass: &str = match passphrase {
        Some(p) => p,
        None => "",
    };
    proof {
        reveal_strlit("");
        assert(pass@ == passphrase_view(passphrase));
    }
    derive_descriptors(phrase.as_str(), pass)
}

/// Law: descriptor derivation is deterministic. One mnemonic and one
/// passphrase determine at most one descriptor pair: two successful
/// derivations from the same words and the same passphrase agree.
pub proof fn lemma_derivation_deterministic(
    words: Seq<Seq<char>>,
    passphrase: Seq<char>,
    d1: (Seq<char>, Seq<char>),
    d2: (Seq<char>, Seq<char>),
)
    requires
        derived_descriptors(joined_phrase(words), passphrase) == Some(d1),
        derived_descriptors(joined_phrase(words), passphrase) == Some(d2),
    ensures
        d1 == d2,
{
}

/// Law: a freshly generated mnemonic has twelve words, an allowed word
/// count, so restoring it succeeds and returns it unchanged.
pub proof fn lemma_generated_count_is_valid(words: Seq<Seq<char>>)
    requires
        words.len() == 12,
    ensures
        valid_word_count(words.len()),
{
}

} // verus!
