//! End-to-end encryption of one connection: an RSA key pair for the key
//! exchange, an AES-256-GCM session key for the messages, and the handshake
//! that gets the session key from one side to the other.
//!
//! The peers exchange public keys. The peer that learns the other's key
//! first, and has no session key yet, makes one, encrypts it under the
//! other's public key and sends it; the receiver answers that the handshake
//! is complete. Where both peers make a session key at the same time, the
//! key made by the peer with the smaller public key is the one both keep.

use vstd::prelude::*;
use vstd::slice::*;
use vstd::string::*;
use vstd::utf8::*;
use crate::crypto::{
    aes_gcm_open, aes_gcm_opened, aes_gcm_seal, aes_gcm_sealed, base64_bytes, base64_decode,
    base64_encode, base64_text, random_bytes, rsa_check_public_key, rsa_decrypt, rsa_decrypted,
    rsa_encrypt, rsa_generate_private_key, rsa_generated_key, rsa_parses_public, rsa_public_key_der,
    rsa_public_of,
    rsa_sign, rsa_signed, rsa_verified, rsa_verify, AES_GCM_MAX_PLAINTEXT, AES_KEY_LEN,
    AES_NONCE_LEN,
};
use crate::error::ChatError;
use crate::protocol::{EncryptionMessage, StatusUpdate};
use crate::text::{concat2, string_from_utf8};

verus! {

broadcast use vstd::array::group_array_axioms;

/// Size in bits of the RSA keys that sessions generate.
pub const RSA_KEY_BITS: usize = 1024;

/// Where a session stands in the handshake. A session comes into being
/// with its key pair, so the first state it is ever seen in is
/// `KeypairReady`.
#[derive(Debug, Clone, Copy, PartialEq, Eq, Structural)]
pub enum HandshakeState {
    /// The key pair exists; our public key has not been announced.
    KeypairReady,
    /// Our public key is announced; the peer's is not known yet.
    AwaitingPeerKey,
    /// The peer's public key is known, ours is not announced, and there is
    /// no session key yet.
    PeerKeyKnown,
    /// Both public keys are out and there is no session key yet: the peer
    /// may send one at any time.
    AwaitingSessionKey,
    /// We made the session key and sent it; the peer has not confirmed it.
    AwaitingAck,
    /// Both ends hold the session key.
    SessionEstablished,
}

/// What a session holds, as plain values.
pub struct SessionView {
    /// Our private key in PKCS#8 DER form.
    pub private_key: Seq<u8>,
    /// Our public key in DER form.
    pub public_key: Seq<u8>,
    /// The peer's public key in DER form, once received.
    pub peer_key: Option<Seq<u8>>,
    /// The session key, once made or received.
    pub session_key: Option<Seq<u8>>,
    /// Whether our public key has been announced.
    pub announced: bool,
    /// Whether the peer is known to hold the session key.
    pub confirmed: bool,
}

impl SessionView {
    /// The handshake state that the held values amount to.
    pub open spec fn state(self) -> HandshakeState {
        if self.session_key is Some {
            if self.confirmed {
                HandshakeState::SessionEstablished
            } else {
                HandshakeState::AwaitingAck
            }
        } else if self.peer_key is Some {
            if self.announced {
                HandshakeState::AwaitingSessionKey
            } else {
                HandshakeState::PeerKeyKnown
            }
        } else if self.announced {
            HandshakeState::AwaitingPeerKey
        } else {
            HandshakeState::KeypairReady
        }
    }

    /// Whether messages can be encrypted and decrypted.
    pub open spec fn is_ready(self) -> bool {
        self.session_key is Some
    }

    /// Whether, of two session keys made at the same time, ours is the one
    /// to keep: our public key does not come after the peer's.
    pub open spec fn keeps_own_key(self) -> bool {
        self.peer_key matches Some(peer) && bytes_le(self.public_key, peer)
    }
}

/// Lexicographic order on byte sequences.
pub open spec fn bytes_le(a: Seq<u8>, b: Seq<u8>) -> bool
    decreases a.len(),
{
    if a.len() == 0 {
        true
    } else if b.len() == 0 {
        false
    } else if a[0] != b[0] {
        a[0] < b[0]
    } else {
        bytes_le(a.drop_first(), b.drop_first())
    }
}

/// The public key that a key-exchange text carries, if it carries one.
pub open spec fn peer_key_of(text: Seq<char>) -> Option<Seq<u8>> {
    match base64_bytes(text) {
        Some(der) => if rsa_parses_public(der) {
            Some(der)
        } else {
            None
        },
        None => None,
    }
}

/// The session key that the holder of `private_key` recovers from a
/// key-exchange text, if it recovers one of the right length.
pub open spec fn shared_key_of(private_key: Seq<u8>, text: Seq<char>) -> Option<Seq<u8>> {
    match base64_bytes(text) {
        Some(encrypted) => match rsa_decrypted(private_key, encrypted) {
            Some(key) => if key.len() == AES_KEY_LEN {
                Some(key)
            } else {
                None
            },
            None => None,
        },
        None => None,
    }
}

/// The transport text of a message sealed under `key` with `nonce`: base64
/// of the nonce followed by the ciphertext.
pub open spec fn sealed_text(key: Seq<u8>, nonce: Seq<u8>, plaintext: Seq<char>) -> Seq<char> {
    base64_text(nonce + aes_gcm_sealed(key, nonce, encode_utf8(plaintext)))
}

/// The nonce at the front of a transport text, if the text is long enough to
/// hold one.
pub open spec fn carried_nonce(text: Seq<char>) -> Option<Seq<u8>> {
    match base64_bytes(text) {
        Some(combined) => if combined.len() < AES_NONCE_LEN {
            None
        } else {
            Some(combined.subrange(0, AES_NONCE_LEN as int))
        },
        None => None,
    }
}

/// The message that a transport text opens to under `key`, if it is base64
/// of a nonce and an authentic ciphertext of well-formed UTF-8.
pub open spec fn opened_text(key: Seq<u8>, text: Seq<char>) -> Option<Seq<char>> {
    match base64_bytes(text) {
        Some(combined) => if combined.len() < AES_NONCE_LEN {
            None
        } else {
            match aes_gcm_opened(
                key,
                combined.subrange(0, AES_NONCE_LEN as int),
                combined.skip(AES_NONCE_LEN as int),
            ) {
                Some(plain) => if valid_utf8(plain) {
                    Some(decode_utf8(plain))
                } else {
                    None
                },
                None => None,
            }
        },
        None => None,
    }
}

/// The transport text of the signature of `message` under `private_key`.
pub open spec fn signature_text(private_key: Seq<u8>, message: Seq<char>) -> Option<Seq<char>> {
    match rsa_signed(private_key, encode_utf8(message)) {
        Some(signature) => Some(base64_text(signature)),
        None => None,
    }
}

/// Whether a signature text is valid for `message` under `public_key`;
/// `None` where the text is not base64 or the key does not parse.
pub open spec fn signature_verdict(public_key: Seq<u8>, message: Seq<char>, text: Seq<char>)
    -> Option<bool> {
    match base64_bytes(text) {
        Some(signature) => rsa_verified(public_key, encode_utf8(message), signature),
        None => None,
    }
}

/// Sealing under different nonces gives different texts: two transport
/// texts that carry different nonces cannot be the same text. So the same
/// plaintext sealed twice under one key, each time with a nonce of its own,
/// travels as two different ciphertexts.
pub proof fn lemma_distinct_nonces_distinct_texts(first: Seq<char>, second: Seq<char>)
    requires
        carried_nonce(first) != carried_nonce(second),
    ensures
        first != second,
{
}

/// Whether `r` is an encryption error whose message starts with `prefix`.
pub open spec fn fails_with<T>(r: Result<T, ChatError>, prefix: Seq<char>) -> bool {
    match r {
        Err(ChatError::Encryption(msg)) => prefix.is_prefix_of(msg@),
        _ => false,
    }
}

proof fn lemma_cause_is_encryption<T>(r: Result<T, ChatError>)
    ensures
        (r matches Err(e) && e is Encryption) ==> fails_with(r, ""@),
{
    reveal_strlit("");
    match r {
        Err(ChatError::Encryption(msg)) => {
            assert(msg@.subrange(0, 0) =~= ""@);
        },
        _ => {},
    }
}

fn failure(prefix: &str, detail: &str) -> (e: ChatError)
    ensures
        e matches ChatError::Encryption(msg) && prefix@.is_prefix_of(msg@) && ""@.is_prefix_of(
            msg@,
        ),
{
    let msg = concat2(prefix, detail);
    proof {
        reveal_strlit("");
        assert(msg@.subrange(0, prefix@.len() as int) =~= prefix@);
        assert(msg@.subrange(0, 0) =~= ""@);
    }
    ChatError::Encryption(msg)
}

proof fn lemma_other_prefix(msg: Seq<char>, has: Seq<char>, other: Seq<char>)
    requires
        has.is_prefix_of(msg),
        has.len() > 0,
        other.len() > 0,
        has[0] != other[0],
    ensures
        !other.is_prefix_of(msg),
{
    if other.is_prefix_of(msg) {
        assert(msg.subrange(0, has.len() as int)[0] == has[0]);
        assert(msg.subrange(0, other.len() as int)[0] == other[0]);
    }
}

proof fn lemma_fails_otherwise<T>(r: Result<T, ChatError>, has: Seq<char>, other: Seq<char>)
    requires
        fails_with(r, has),
        has.len() > 0,
        other.len() > 0,
        has[0] != other[0],
    ensures
        !fails_with(r, other),
{
    match r {
        Err(ChatError::Encryption(msg)) => {
            lemma_other_prefix(msg@, has, other);
        },
        _ => {},
    }
}

fn session_key_of(bytes: &Vec<u8>) -> (key: [u8; 32])
    requires
        bytes@.len() == 32,
    ensures
        key@ == bytes@,
{
    let mut key = [0u8; 32];
    let mut i: usize = 0;
    while i < 32
        invariant
            i <= 32,
            bytes@.len() == 32,
            forall|k: int| 0 <= k < i ==> key@[k] == bytes@[k],
        decreases 32 - i,
    {
        key[i] = bytes[i];
        i += 1;
    }
    assert(key@ =~= bytes@);
    key
}

fn nonce_of(bytes: &Vec<u8>) -> (nonce: [u8; 12])
    requires
        bytes@.len() == 12,
    ensures
        nonce@ == bytes@,
{
    let mut nonce = [0u8; 12];
    let mut i: usize = 0;
    while i < 12
        invariant
            i <= 12,
            bytes@.len() == 12,
            forall|k: int| 0 <= k < i ==> nonce@[k] == bytes@[k],
        decreases 12 - i,
    {
        nonce[i] = bytes[i];
        i += 1;
    }
    assert(nonce@ =~= bytes@);
    nonce
}

fn copy_bytes(bytes: &Vec<u8>) -> (r: Vec<u8>)
    ensures
        r@ == bytes@,
{
    slice_to_vec(bytes.as_slice())
}

/// Whether `a` does not come after `b` in lexicographic order.
pub fn bytes_less_or_equal(a: &[u8], b: &[u8]) -> (r: bool)
    ensures
        r == bytes_le(a@, b@),
{
    let mut i: usize = 0;
    assert(a@.skip(0) =~= a@ && b@.skip(0) =~= b@);
    loop
        invariant
            i <= a@.len(),
            i <= b@.len(),
            bytes_le(a@, b@) == bytes_le(a@.skip(i as int), b@.skip(i as int)),
        decreases a@.len() - i,
    {
        let ghost ra = a@.skip(i as int);
        let ghost rb = b@.skip(i as int);
        if i == a.len() {
            return true;
        }
        if i == b.len() {
            return false;
        }
        if a[i] != b[i] {
            return a[i] < b[i];
        }
        assert(ra.drop_first() =~= a@.skip(i + 1));
        assert(rb.drop_first() =~= b@.skip(i + 1));
        i += 1;
    }
}

/// One step the handshake asks of the connection.
#[derive(Debug, PartialEq)]
pub enum HandshakeAction {
    /// Send this handshake message to the peer.
    Send(EncryptionMessage),
    /// Show this status to the local user.
    Notify(StatusUpdate),
}

/// The actions of a handler's result as a sequence.
pub open spec fn action_seq(r: Result<Vec<HandshakeAction>, ChatError>) -> Result<
    Seq<HandshakeAction>,
    ChatError,
> {
    match r {
        Ok(actions) => Ok(actions@),
        Err(e) => Err(e),
    }
}

/// What one handshake message does to a session: the relation between the
/// session before, the message, the session after and what the handler
/// returns.
///
/// A public key is stored; if the session has no session key yet it makes
/// one and sends it. A session key from the peer is adopted and confirmed to
/// the peer, unless we are waiting for the peer to confirm ours and ours is
/// the one to keep. A confirmation from the peer establishes the session.
/// Every failure leaves the session as it was, except that a public key that
/// was received stays stored when making the session key fails.
pub open spec fn handshake_step(
    before: SessionView,
    msg: EncryptionMessage,
    after: SessionView,
    r: Result<Seq<HandshakeAction>, ChatError>,
) -> bool {
    match msg {
        EncryptionMessage::PublicKeyExchange(text) => match peer_key_of(text@) {
            None => fails_with(r, ""@) && after == before,
            Some(key) => {
                let stored = SessionView { peer_key: Some(key), ..before };
                if before.session_key is Some {
                    r matches Ok(actions) && actions.len() == 0 && after == stored
                } else {
                    match r {
                        Ok(actions) => {
                            &&& actions.len() == 1
                            &&& actions[0] matches HandshakeAction::Send(
                                EncryptionMessage::SharedKeyExchange(sent),
                            ) && base64_bytes(sent@) is Some && (forall|private_key: Seq<u8>|
                                rsa_generated_key(private_key) && #[trigger] rsa_public_of(
                                    private_key,
                                ) == Some(key) ==> shared_key_of(private_key, sent@)
                                    == after.session_key)
                            &&& after.session_key matches Some(made) && made.len() == AES_KEY_LEN
                            &&& after == (SessionView {
                                session_key: after.session_key,
                                confirmed: false,
                                ..stored
                            })
                        },
                        Err(_) => fails_with(r, ""@) && after == stored,
                    }
                }
            },
        },
        EncryptionMessage::SharedKeyExchange(text) => {
            if before.state() == HandshakeState::AwaitingAck && before.keeps_own_key() {
                r matches Ok(actions) && actions.len() == 0 && after == before
            } else {
                match shared_key_of(before.private_key, text@) {
                    Some(key) => {
                        &&& r matches Ok(actions) && actions.len() == 2 && actions[0]
                            == HandshakeAction::Send(EncryptionMessage::HandshakeComplete)
                            && actions[1] == HandshakeAction::Notify(
                            StatusUpdate::EncryptionEnabled,
                        )
                        &&& after == (SessionView {
                            session_key: Some(key),
                            confirmed: true,
                            ..before
                        })
                    },
                    None => fails_with(r, ""@) && after == before,
                }
            }
        },
        EncryptionMessage::HandshakeComplete => {
            if before.session_key is Some {
                &&& r matches Ok(actions) && actions.len() == 1 && actions[0]
                    == HandshakeAction::Notify(StatusUpdate::EncryptionEnabled)
                &&& after == (SessionView { confirmed: true, ..before })
            } else {
                fails_with(r, ""@) && after == before
            }
        },
    }
}

/// Key agreement. A session that holds no session key takes in the public
/// key of its peer and answers with a key-exchange message, `sent`; the
/// peer, whose key pair the generator made, takes that message in and is not
/// bound to a key of its own. Then the peer recovers the very key that the session
/// made: both hold the same session key, of the length the cipher asks for,
/// the peer's session is established and the session awaits the peer's
/// confirmation.
pub proof fn lemma_exchange_agrees(
    maker: SessionView,
    announcement: EncryptionMessage,
    maker_after: SessionView,
    answer: Seq<HandshakeAction>,
    sent: EncryptionMessage,
    taker: SessionView,
    taker_after: SessionView,
    taken: Result<Seq<HandshakeAction>, ChatError>,
)
    requires
        rsa_generated_key(taker.private_key),
        rsa_public_of(taker.private_key) == Some(taker.public_key),
        announcement matches EncryptionMessage::PublicKeyExchange(text) && peer_key_of(text@)
            == Some(taker.public_key),
        maker.session_key is None,
        handshake_step(maker, announcement, maker_after, Ok(answer)),
        !(taker.state() == HandshakeState::AwaitingAck && taker.keeps_own_key()),
        answer.len() > 0 ==> answer[0] == HandshakeAction::Send(sent),
        handshake_step(taker, sent, taker_after, taken),
    ensures
        answer.len() == 1,
        taken is Ok,
        maker_after.session_key matches Some(key) && key.len() == AES_KEY_LEN,
        taker_after.session_key == maker_after.session_key,
        maker_after.is_ready() && taker_after.is_ready(),
        maker_after.state() == HandshakeState::AwaitingAck,
        taker_after.state() == HandshakeState::SessionEstablished,
{
}

/// The cryptographic session of one connection.
pub struct E2EEncryption {
    private_key: Vec<u8>,
    public_key: Vec<u8>,
    peer_public_key: Option<Vec<u8>>,
    session_key: Option<Vec<u8>>,
    announced: bool,
    confirmed: bool,
}

impl View for E2EEncryption {
    type V = SessionView;

    closed spec fn view(&self) -> SessionView {
        SessionView {
            private_key: self.private_key@,
            public_key: self.public_key@,
            peer_key: match self.peer_public_key {
                Some(key) => Some(key@),
                None => None,
            },
            session_key: match self.session_key {
                Some(key) => Some(key@),
                None => None,
            },
            announced: self.announced,
            confirmed: self.confirmed,
        }
    }
}

impl E2EEncryption {
    #[verifier::type_invariant]
    spec fn well_formed(self) -> bool {
        &&& self.session_key matches Some(key) ==> key@.len() == AES_KEY_LEN
        &&& self.peer_public_key matches Some(key) ==> rsa_parses_public(key@)
        &&& rsa_parses_public(self.public_key@)
        &&& rsa_public_of(self.private_key@) == Some(self.public_key@)
        &&& rsa_generated_key(self.private_key@)
    }

    /// Creates a session with a fresh RSA key pair and nothing else. Whether
    /// a key pair can be had is for the generator to say; a session that is
    /// returned is in the state `KeypairReady`.
    pub fn new() -> (r: Result<E2EEncryption, ChatError>)
        ensures
            match r {
                Ok(session) => {
                    &&& rsa_generated_key(session@.private_key)
                    &&& rsa_public_of(session@.private_key) == Some(session@.public_key)
                    &&& rsa_parses_public(session@.public_key)
                    &&& session@.peer_key is None
                    &&& session@.session_key is None
                    &&& !session@.announced
                    &&& !session@.confirmed
                    &&& session@.state() == HandshakeState::KeypairReady
                },
                Err(_) => fails_with(r, "Failed to "@),
            },
    {
        match rsa_generate_private_key(RSA_KEY_BITS) {
            Ok(private_key) => E2EEncryption::from_private_key(private_key),
            Err(detail) => {
                let e = failure("Failed to ", "generate RSA key: ");
                Err(extend_failure(e, detail.as_str()))
            },
        }
    }

    /// Creates a session around a private key in PKCS#8 DER form, which has
    /// to be one that the key generator made: the session decrypts and signs
    /// with it. Succeeds exactly where the key parses and its public key can
    /// be handed to a peer.
    pub fn from_private_key(private_key: Vec<u8>) -> (r: Result<E2EEncryption, ChatError>)
        requires
            rsa_generated_key(private_key@),
        ensures
            match rsa_public_of(private_key@) {
                Some(public_key) if rsa_parses_public(public_key) => r matches Ok(session)
                    && session@ == (SessionView {
                    private_key: private_key@,
                    public_key,
                    peer_key: None,
                    session_key: None,
                    announced: false,
                    confirmed: false,
                }),
                _ => fails_with(r, "Failed to "@),
            },
    {
        let public_key = match rsa_public_key_der(private_key.as_slice()) {
            Ok(key) => key,
            Err(detail) => {
                let e = failure("Failed to ", "encode public key: ");
                return Err(extend_failure(e, detail.as_str()));
            },
        };
        match rsa_check_public_key(public_key.as_slice()) {
            Ok(()) => {},
            Err(detail) => {
                let e = failure("Failed to ", "encode public key: ");
                return Err(extend_failure(e, detail.as_str()));
            },
        }
        Ok(
            E2EEncryption {
                private_key,
                public_key,
                peer_public_key: None,
                session_key: None,
                announced: false,
                confirmed: false,
            },
        )
    }

    /// Our public key as the text that is sent to the peer. The peer's
    /// `set_peer_public_key` accepts it, and the key it carries is the one
    /// that belongs to our private key, which the generator made.
    pub fn get_public_key_base64(&self) -> (r: Result<String, ChatError>)
        ensures
            r matches Ok(text) && text@ == base64_text(self@.public_key) && peer_key_of(text@)
                == Some(self@.public_key),
            rsa_generated_key(self@.private_key),
            rsa_public_of(self@.private_key) == Some(self@.public_key),
    {
        proof {
            use_type_invariant(self);
        }
        Ok(base64_encode(self.public_key.as_slice()))
    }

    /// Announces our public key: returns the message that carries it and
    /// notes that it has been sent.
    pub fn begin_handshake(&mut self) -> (msg: EncryptionMessage)
        ensures
            msg matches EncryptionMessage::PublicKeyExchange(text) && text@ == base64_text(
                old(self)@.public_key,
            ) && peer_key_of(text@) == Some(old(self)@.public_key),
            rsa_generated_key(old(self)@.private_key),
            rsa_public_of(old(self)@.private_key) == Some(old(self)@.public_key),
            final(self)@ == (SessionView { announced: true, ..old(self)@ }),
    {
        proof {
            use_type_invariant(&*self);
        }
        let text = base64_encode(self.public_key.as_slice());
        self.announced = true;
        EncryptionMessage::PublicKeyExchange(text)
    }

    /// Stores the peer's public key from its transport text. Fails, and
    /// changes nothing, exactly where the text carries no public key.
    pub fn set_peer_public_key(&mut self, key_base64: &str) -> (r: Result<(), ChatError>)
        ensures
            match peer_key_of(key_base64@) {
                Some(key) => r is Ok && final(self)@ == (SessionView {
                    peer_key: Some(key),
                    ..old(self)@
                }),
                None => fails_with(r, "Failed to "@) && final(self)@ == old(self)@,
            },
    {
        proof {
            use_type_invariant(&*self);
        }
        let key = match base64_decode(key_base64) {
            Ok(key) => key,
            Err(detail) => {
                let e = failure("Failed to ", "decode public key: ");
                return Err(extend_failure(e, detail.as_str()));
            },
        };
        match rsa_check_public_key(key.as_slice()) {
            Ok(()) => {},
            Err(detail) => {
                let e = failure("Failed to ", "parse public key: ");
                return Err(extend_failure(e, detail.as_str()));
            },
        }
        self.peer_public_key = Some(key);
        Ok(())
    }

    /// Makes a random session key, keeps it, and returns it encrypted under
    /// the peer's public key, as text. A peer whose key pair the generator
    /// made, and whose public key this is, recovers the kept key from that
    /// text.
    /// Fails for want of the peer's key exactly where it is not known, and
    /// otherwise where the outside generator or cipher fails; after a
    /// failure the session is as it was.
    #[verifier::rlimit(50)]
    pub fn generate_shared_key(&mut self) -> (r: Result<String, ChatError>)
        ensures
            fails_with(r, "Peer public key not set"@) <==> old(self)@.peer_key is None,
            match r {
                Ok(text) => {
                    &&& old(self)@.peer_key matches Some(peer_key)
                    &&& final(self)@.session_key matches Some(key)
                    &&& key.len() == AES_KEY_LEN
                    &&& final(self)@ == (SessionView {
                        session_key: Some(key),
                        confirmed: false,
                        ..old(self)@
                    })
                    &&& base64_bytes(text@) is Some
                    &&& forall|private_key: Seq<u8>|
                        rsa_generated_key(private_key) && #[trigger] rsa_public_of(private_key)
                            == Some(peer_key) ==> shared_key_of(private_key, text@) == Some(key)
                },
                Err(_) => fails_with(r, ""@) && final(self)@ == old(self)@,
            },
    {
        proof {
            use_type_invariant(&*self);
            reveal_strlit("Peer public key not set");
            reveal_strlit("Failed to generate AES key: ");
            reveal_strlit("Failed to encrypt AES key: ");
        }
        let peer_key = match &self.peer_public_key {
            Some(key) => copy_bytes(key),
            None => {
                return Err(failure("Peer public key not set", ""));
            },
        };
        let key = match random_bytes(AES_KEY_LEN) {
            Ok(bytes) => session_key_of(&bytes),
            Err(detail) => {
                let e = failure("Failed to generate AES key: ", detail.as_str());
                proof {
                    lemma_other_prefix(
                        e->Encryption_0@,
                        "Failed to generate AES key: "@,
                        "Peer public key not set"@,
                    );
                }
                return Err(e);
            },
        };
        let encrypted = match rsa_encrypt(peer_key.as_slice(), key.as_slice()) {
            Ok(encrypted) => encrypted,
            Err(detail) => {
                let e = failure("Failed to encrypt AES key: ", detail.as_str());
                proof {
                    lemma_other_prefix(
                        e->Encryption_0@,
                        "Failed to encrypt AES key: "@,
                        "Peer public key not set"@,
                    );
                }
                return Err(e);
            },
        };
        Ok(self.use_session_key(&key, encrypted.as_slice()))
    }

    /// Keeps `key` as the session key, not yet confirmed by the peer, and
    /// returns the text under which `encrypted`, the key as encrypted for
    /// the peer, is sent.
    pub fn use_session_key(&mut self, key: &[u8; 32], encrypted: &[u8]) -> (text: String)
        ensures
            final(self)@ == (SessionView {
                session_key: Some(key@),
                confirmed: false,
                ..old(self)@
            }),
            text@ == base64_text(encrypted@),
            base64_bytes(text@) == Some(encrypted@),
    {
        proof {
            use_type_invariant(&*self);
        }
        let held = slice_to_vec(key.as_slice());
        self.confirmed = false;
        self.session_key = Some(held);
        base64_encode(encrypted)
    }

    /// Recovers the session key from the peer's key-exchange text and keeps
    /// it. Fails, and changes nothing, exactly where the text yields no key
    /// of the right length under our private key.
    #[verifier::rlimit(50)]
    pub fn set_shared_key(&mut self, encrypted_key_base64: &str) -> (r: Result<(), ChatError>)
        ensures
            match shared_key_of(old(self)@.private_key, encrypted_key_base64@) {
                Some(key) => r is Ok && final(self)@ == (SessionView {
                    session_key: Some(key),
                    confirmed: true,
                    ..old(self)@
                }),
                None => (fails_with(r, "Failed to "@) || fails_with(r, "Invalid AES key size"@))
                    && final(self)@ == old(self)@,
            },
    {
        proof {
            use_type_invariant(&*self);
        }
        let encrypted = match base64_decode(encrypted_key_base64) {
            Ok(encrypted) => encrypted,
            Err(detail) => {
                let e = failure("Failed to ", "decode encrypted key: ");
                return Err(extend_failure(e, detail.as_str()));
            },
        };
        let key = match rsa_decrypt(self.private_key.as_slice(), encrypted.as_slice()) {
            Ok(key) => key,
            Err(detail) => {
                let e = failure("Failed to ", "decrypt AES key: ");
                return Err(extend_failure(e, detail.as_str()));
            },
        };
        if key.len() != AES_KEY_LEN {
            return Err(failure("Invalid AES key size", ""));
        }
        self.session_key = Some(key);
        self.confirmed = true;
        Ok(())
    }

    /// Notes that the peer has confirmed the session key. Fails, and changes
    /// nothing, exactly where there is no session key to confirm.
    pub fn confirm_handshake(&mut self) -> (r: Result<(), ChatError>)
        ensures
            if old(self)@.session_key is Some {
                r is Ok && final(self)@ == (SessionView { confirmed: true, ..old(self)@ })
            } else {
                fails_with(r, "Handshake completed without a session key"@) && final(self)@
                    == old(self)@
            },
    {
        proof {
            use_type_invariant(&*self);
        }
        if self.session_key.is_none() {
            return Err(failure("Handshake completed without a session key", ""));
        }
        self.confirmed = true;
        Ok(())
    }

    /// Seals `plaintext` under the session key with the given nonce. Succeeds
    /// exactly where a session key is held and the plaintext is within the
    /// cipher's limit. The text returned is determined by key, nonce and
    /// plaintext, carries the nonce, and opens to the plaintext under the
    /// same key.
    #[verifier::rlimit(50)]
    pub fn encrypt_with_nonce(&self, nonce: &[u8; 12], plaintext: &str) -> (r: Result<
        String,
        ChatError,
    >)
        ensures
            match r {
                Ok(text) => {
                    &&& self@.session_key matches Some(key)
                    &&& text@ == sealed_text(key, nonce@, plaintext@)
                    &&& opened_text(key, text@) == Some(plaintext@)
                    &&& carried_nonce(text@) == Some(nonce@)
                },
                Err(_) => if self@.session_key is None {
                    fails_with(r, "Encryption not initialized"@)
                } else {
                    fails_with(r, "Failed to encrypt message: "@) && encode_utf8(plaintext@).len()
                        > AES_GCM_MAX_PLAINTEXT
                },
            },
    {
        proof {
            use_type_invariant(self);
        }
        let key = match &self.session_key {
            Some(key) => key,
            None => {
                return Err(failure("Encryption not initialized", ""));
            },
        };
        let plain = plaintext.as_bytes();
        let nonce_bytes = nonce.as_slice();
        assert(nonce_bytes@ == nonce@ && nonce@.len() == 12);
        let sealed = match aes_gcm_seal(key.as_slice(), nonce_bytes, plain) {
            Ok(sealed) => sealed,
            Err(detail) => {
                return Err(failure("Failed to encrypt message: ", detail.as_str()));
            },
        };
        let mut combined = slice_to_vec(nonce_bytes);
        let mut tail = sealed;
        let ghost sealed_bytes = tail@;
        combined.append(&mut tail);
        let text = base64_encode(combined.as_slice());
        proof {
            assert(combined@ == nonce@ + sealed_bytes);
            assert(combined@.subrange(0, AES_NONCE_LEN as int) =~= nonce@);
            assert(combined@.skip(AES_NONCE_LEN as int) =~= sealed_bytes);
            encode_utf8_valid_utf8(plaintext@);
            encode_utf8_decode_utf8(plaintext@);
        }
        Ok(text)
    }

    /// Seals `plaintext` under the session key with a fresh random nonce.
    /// Whatever nonce was drawn, the text opens to the plaintext under the
    /// same key. Fails for want of a session key exactly where none is held,
    /// and otherwise where the outside generator or cipher fails.
    #[verifier::rlimit(50)]
    pub fn encrypt_message(&self, plaintext: &str) -> (r: Result<String, ChatError>)
        ensures
            fails_with(r, "Encryption not initialized"@) <==> self@.session_key is None,
            match r {
                Ok(text) => {
                    &&& self@.session_key matches Some(key)
                    &&& opened_text(key, text@) == Some(plaintext@)
                    &&& carried_nonce(text@) matches Some(nonce)
                    &&& text@ == sealed_text(key, nonce, plaintext@)
                },
                Err(_) => fails_with(r, ""@),
            },
    {
        proof {
            reveal_strlit("Encryption not initialized");
            reveal_strlit("Failed to generate nonce: ");
            reveal_strlit("Failed to encrypt message: ");
        }
        if self.session_key.is_none() {
            return Err(failure("Encryption not initialized", ""));
        }
        let nonce = match random_bytes(AES_NONCE_LEN) {
            Ok(bytes) => nonce_of(&bytes),
            Err(detail) => {
                let e = failure("Failed to generate nonce: ", detail.as_str());
                proof {
                    lemma_other_prefix(
                        e->Encryption_0@,
                        "Failed to generate nonce: "@,
                        "Encryption not initialized"@,
                    );
                }
                return Err(e);
            },
        };
        let r = self.encrypt_with_nonce(&nonce, plaintext);
        proof {
            lemma_cause_is_encryption(r);
            if r is Err {
                lemma_fails_otherwise(
                    r,
                    "Failed to encrypt message: "@,
                    "Encryption not initialized"@,
                );
            }
        }
        r
    }

    /// Opens a transport text under the session key. Succeeds exactly where
    /// a session key is held and the text is base64 of a nonce and an
    /// authentic ciphertext of well-formed UTF-8.
    #[verifier::rlimit(50)]
    pub fn decrypt_message(&self, ciphertext_base64: &str) -> (r: Result<String, ChatError>)
        ensures
            match self@.session_key {
                None => fails_with(r, "Encryption not initialized"@),
                Some(key) => match opened_text(key, ciphertext_base64@) {
                    Some(plain) => r matches Ok(text) && text@ == plain,
                    None => fails_with(r, "Failed to "@) || fails_with(r, "Invalid ciphertext"@),
                },
            },
    {
        proof {
            use_type_invariant(self);
        }
        let key = match &self.session_key {
            Some(key) => key,
            None => {
                return Err(failure("Encryption not initialized", ""));
            },
        };
        let combined = match base64_decode(ciphertext_base64) {
            Ok(combined) => combined,
            Err(detail) => {
                let e = failure("Failed to ", "decode ciphertext: ");
                return Err(extend_failure(e, detail.as_str()));
            },
        };
        if combined.len() < AES_NONCE_LEN {
            return Err(failure("Invalid ciphertext", ""));
        }
        let nonce = slice_subrange(combined.as_slice(), 0, AES_NONCE_LEN);
        let body = slice_subrange(combined.as_slice(), AES_NONCE_LEN, combined.len());
        assert(body@ =~= combined@.skip(AES_NONCE_LEN as int));
        let plain = match aes_gcm_open(key.as_slice(), nonce, body) {
            Ok(plain) => plain,
            Err(detail) => {
                let e = failure("Failed to ", "decrypt message: ");
                return Err(extend_failure(e, detail.as_str()));
            },
        };
        match string_from_utf8(plain) {
            Some(text) => Ok(text),
            None => Err(failure("Failed to ", "decode plaintext")),
        }
    }

    /// Whether a session key is held.
    pub fn is_ready(&self) -> (ready: bool)
        ensures
            ready == self@.is_ready(),
    {
        self.session_key.is_some()
    }

    /// Where the session stands in the handshake.
    pub fn handshake_state(&self) -> (state: HandshakeState)
        ensures
            state == self@.state(),
    {
        if self.session_key.is_some() {
            if self.confirmed {
                HandshakeState::SessionEstablished
            } else {
                HandshakeState::AwaitingAck
            }
        } else if self.peer_public_key.is_some() {
            if self.announced {
                HandshakeState::AwaitingSessionKey
            } else {
                HandshakeState::PeerKeyKnown
            }
        } else if self.announced {
            HandshakeState::AwaitingPeerKey
        } else {
            HandshakeState::KeypairReady
        }
    }

    /// Signs `message` with our private key and returns the signature as
    /// text. The session key plays no part.
    pub fn sign_message(&self, message: &str) -> (r: Result<String, ChatError>)
        ensures
            match signature_text(self@.private_key, message@) {
                Some(text) => r matches Ok(signature) && signature@ == text,
                None => fails_with(r, "Failed to sign message: "@),
            },
    {
        proof {
            use_type_invariant(self);
        }
        match rsa_sign(self.private_key.as_slice(), message.as_bytes()) {
            Ok(signature) => Ok(base64_encode(signature.as_slice())),
            Err(detail) => Err(failure("Failed to sign message: ", detail.as_str())),
        }
    }

    /// Checks a signature text against `message` under the peer's public
    /// key. Fails where the peer's key is not known or the text is not
    /// base64; otherwise says whether the signature is valid.
    pub fn verify_signature(&self, message: &str, signature_base64: &str) -> (r: Result<
        bool,
        ChatError,
    >)
        ensures
            match self@.peer_key {
                None => fails_with(r, "Peer public key not set"@),
                Some(key) => match signature_verdict(key, message@, signature_base64@) {
                    Some(valid) => r == Ok::<bool, ChatError>(valid),
                    None => fails_with(r, "Failed to decode signature: "@),
                },
            },
    {
        proof {
            use_type_invariant(self);
        }
        let peer_key = match &self.peer_public_key {
            Some(key) => key,
            None => {
                return Err(failure("Peer public key not set", ""));
            },
        };
        let signature = match base64_decode(signature_base64) {
            Ok(signature) => signature,
            Err(detail) => {
                return Err(failure("Failed to decode signature: ", detail.as_str()));
            },
        };
        match rsa_verify(peer_key.as_slice(), message.as_bytes(), signature.as_slice()) {
            Ok(valid) => Ok(valid),
            Err(detail) => Err(failure("Invalid signature format: ", detail.as_str())),
        }
    }

    /// Handles one handshake message from the peer and says what the
    /// connection has to do next.
    #[verifier::rlimit(50)]
    pub fn handle_handshake_message(&mut self, msg: &EncryptionMessage) -> (r: Result<
        Vec<HandshakeAction>,
        ChatError,
    >)
        ensures
            handshake_step(old(self)@, *msg, final(self)@, action_seq(r)),
    {
        let mut actions: Vec<HandshakeAction> = Vec::new();
        match msg {
            EncryptionMessage::PublicKeyExchange(text) => {
                match self.set_peer_public_key(text.as_str()) {
                    Ok(()) => {},
                    Err(e) => {
                        proof {
                            lemma_cause_is_encryption(Err::<(), ChatError>(e));
                        }
                        return Err(e);
                    },
                }
                if !self.is_ready() {
                    match self.generate_shared_key() {
                        Ok(sent) => {
                            actions.push(
                                HandshakeAction::Send(EncryptionMessage::SharedKeyExchange(sent)),
                            );
                        },
                        Err(e) => {
                            return Err(e);
                        },
                    }
                }
                Ok(actions)
            },
            EncryptionMessage::SharedKeyExchange(text) => {
                let waiting = match self.handshake_state() {
                    HandshakeState::AwaitingAck => true,
                    _ => false,
                };
                if waiting && self.keeps_own_key() {
                    return Ok(actions);
                }
                match self.set_shared_key(text.as_str()) {
                    Ok(()) => {},
                    Err(e) => {
                        proof {
                            lemma_cause_is_encryption(Err::<(), ChatError>(e));
                        }
                        return Err(e);
                    },
                }
                actions.push(HandshakeAction::Send(EncryptionMessage::HandshakeComplete));
                actions.push(HandshakeAction::Notify(StatusUpdate::EncryptionEnabled));
                Ok(actions)
            },
            EncryptionMessage::HandshakeComplete => {
                match self.confirm_handshake() {
                    Ok(()) => {},
                    Err(e) => {
                        proof {
                            lemma_cause_is_encryption(Err::<(), ChatError>(e));
                        }
                        return Err(e);
                    },
                }
                actions.push(HandshakeAction::Notify(StatusUpdate::EncryptionEnabled));
                Ok(actions)
            },
        }
    }

    /// Whether, of two session keys made at the same time, ours is kept.
    pub fn keeps_own_key(&self) -> (keeps: bool)
        ensures
            keeps == self@.keeps_own_key(),
    {
        match &self.peer_public_key {
            Some(peer) => bytes_less_or_equal(self.public_key.as_slice(), peer.as_slice()),
            None => false,
        }
    }
}

fn extend_failure(e: ChatError, detail: &str) -> (r: ChatError)
    requires
        e is Encryption,
    ensures
        r matches ChatError::Encryption(msg) && e matches ChatError::Encryption(old_msg)
            && msg@ == old_msg@ + detail@,
        forall|prefix: Seq<char>|
            fails_with(Err::<(), ChatError>(e), prefix) ==> fails_with(Err::<(), ChatError>(r), prefix),
{
    match e {
        ChatError::Encryption(msg) => {
            let longer = concat2(msg.as_str(), detail);
            assert forall|prefix: Seq<char>| prefix.is_prefix_of(msg@) implies prefix.is_prefix_of(
                longer@,
            ) by {
                assert(longer@.subrange(0, prefix.len() as int) =~= msg@.subrange(
                    0,
                    prefix.len() as int,
                ));
            }
            ChatError::Encryption(longer)
        },
        other => other,
    }
}

} // verus!
