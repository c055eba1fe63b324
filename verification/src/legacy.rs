//! The first-generation channel: a string seed, a boolean role and the
//! `nonce‖ciphertext` base64 packet, with an HMAC-SHA-256 ratchet.
//!
//! Kept for peers that still speak it; new code uses
//! [`crate::CryptoNugget`] from the ordered mode.

use crate::primitives::{
    aes256gcm_decrypt, aes256gcm_encrypt, aes256gcm_open, aes256gcm_seal, base64_decode,
    base64_decode_text, base64_encode, hmac_sha256, hmac_sha256_tag,
    random_32_bytes, random_nonce, sha256, sha256_digest, string_from_utf8, AEAD_MAX_LEN,
};
use crate::text::{
    array12, ascii_bytes, has_prefix, hex_text, push_ascii, push_bytes, push_hex,
    strip_prefix_chars,
};
use vstd::prelude::*;
use vstd::slice::slice_subrange;
use vstd::string::*;
use vstd::utf8::{
    decode_utf8, encode_utf8, encode_utf8_decode_utf8, encode_utf8_valid_utf8, valid_utf8,
};

verus! {

/// Errors of the first-generation channel.
#[derive(Debug, PartialEq, Eq, Structural)]
pub enum NuggetError {
    /// Encryption failed.
    CifradoFallido,
    /// The packet is too short or corrupt.
    PaqueteCorruptoODemasiadoCorto,
    /// The packet is not valid base64.
    ErrorDecodificacionBase64,
    /// Authentication failed: wrong key or desynchronised ends.
    AutenticacionDesincronizada,
    /// The invitation link is malformed.
    EnlaceInvalido,
    /// The decrypted text is not valid UTF-8.
    ErrorUtf8,
}

/// The human-readable message of a first-generation error.
pub open spec fn nugget_error_message(e: NuggetError) -> Seq<char> {
    match e {
        NuggetError::CifradoFallido => "Fallo crítico al intentar cifrar el mensaje."@,
        NuggetError::PaqueteCorruptoODemasiadoCorto => "El paquete es demasiado corto o está corrupto."@,
        NuggetError::ErrorDecodificacionBase64 => "El paquete no es un Base64 válido."@,
        NuggetError::AutenticacionDesincronizada => "Fallo de autenticación: Clave incorrecta o los nodos están desincronizados."@,
        NuggetError::EnlaceInvalido => "El enlace de invitación tiene un formato inválido."@,
        NuggetError::ErrorUtf8 => "El texto descifrado no contiene formato UTF-8 válido."@,
    }
}

impl NuggetError {
    /// The human-readable message of this error.
    pub fn mensaje(&self) -> (m: String)
        ensures
            m@ == nugget_error_message(*self),
    {
        match self {
            NuggetError::CifradoFallido => String::from_str("Fallo crítico al intentar cifrar el mensaje."),
            NuggetError::PaqueteCorruptoODemasiadoCorto => String::from_str(
                "El paquete es demasiado corto o está corrupto.",
            ),
            NuggetError::ErrorDecodificacionBase64 => String::from_str("El paquete no es un Base64 válido."),
            NuggetError::AutenticacionDesincronizada => String::from_str(
                "Fallo de autenticación: Clave incorrecta o los nodos están desincronizados.",
            ),
            NuggetError::EnlaceInvalido => String::from_str(
                "El enlace de invitación tiene un formato inválido.",
            ),
            NuggetError::ErrorUtf8 => String::from_str(
                "El texto descifrado no contiene formato UTF-8 válido.",
            ),
        }
    }
}

/// Shortest packet: nonce (12 bytes) and tag (16 bytes).
pub const MIN_PACKET_LEN: usize = 28;

/// State of one end of the first-generation channel.
pub struct CryptoNugget {
    tx_key: [u8; 32],
    rx_key: [u8; 32],
}

/// The mathematical value of a first-generation channel end.
pub struct LegacyState {
    pub tx_key: Seq<u8>,
    pub rx_key: Seq<u8>,
}

impl View for CryptoNugget {
    type V = LegacyState;

    closed spec fn view(&self) -> LegacyState {
        LegacyState { tx_key: self.tx_key@, rx_key: self.rx_key@ }
    }
}

/// A first-generation key: SHA-256 of the seed's UTF-8 bytes followed by the label.
pub open spec fn legacy_key(seed: Seq<char>, label: Seq<char>) -> Seq<u8> {
    sha256_digest(encode_utf8(seed) + ascii_bytes(label))
}

/// A fresh end: the initiator sends with the `NUGGET_TX` key and receives with
/// the `NUGGET_RX` key, the other end the other way round.
pub open spec fn legacy_initial(seed: Seq<char>, initiator: bool) -> LegacyState {
    let a = legacy_key(seed, "NUGGET_TX"@);
    let b = legacy_key(seed, "NUGGET_RX"@);
    if initiator {
        LegacyState { tx_key: a, rx_key: b }
    } else {
        LegacyState { tx_key: b, rx_key: a }
    }
}

/// One ratchet step: HMAC-SHA-256 of the label `EVOLUCION_NUGGET` under the current key.
pub open spec fn legacy_ratchet(key: Seq<u8>) -> Seq<u8> {
    hmac_sha256_tag(key, ascii_bytes("EVOLUCION_NUGGET"@))
}

/// Packet bytes `b` are `nonce‖ciphertext` sent from `st` for `plaintext`
/// (12 + 16 bytes longer than it), and they authenticate to `plaintext` under the sender's key.
pub open spec fn legacy_carries(st: LegacyState, plaintext: Seq<u8>, b: Seq<u8>) -> bool {
    &&& b.len() == plaintext.len() + MIN_PACKET_LEN
    &&& b.subrange(12, b.len() as int) == aes256gcm_seal(
        st.tx_key,
        b.subrange(0, 12),
        plaintext,
        Seq::empty(),
    )
    &&& aes256gcm_open(st.tx_key, b.subrange(0, 12), b.subrange(12, b.len() as int), Seq::empty())
        == Some(plaintext)
}

/// What receiving base64 packet text gives.
pub open spec fn legacy_receive_result(st: LegacyState, text: Seq<char>) -> Result<Seq<char>, NuggetError> {
    match base64_decode_text(text) {
        None => Err(NuggetError::ErrorDecodificacionBase64),
        Some(b) => if b.len() < MIN_PACKET_LEN {
            Err(NuggetError::PaqueteCorruptoODemasiadoCorto)
        } else {
            match aes256gcm_open(st.rx_key, b.subrange(0, 12), b.subrange(12, b.len() as int), Seq::empty()) {
                None => Err(NuggetError::AutenticacionDesincronizada),
                Some(plaintext) => if valid_utf8(plaintext) {
                    Ok(decode_utf8(plaintext))
                } else {
                    Err(NuggetError::ErrorUtf8)
                },
            }
        },
    }
}

/// The packet authenticates: the receive key ratchets.
pub open spec fn legacy_receive_authenticates(st: LegacyState, text: Seq<char>) -> bool {
    match base64_decode_text(text) {
        None => false,
        Some(b) => b.len() >= MIN_PACKET_LEN && aes256gcm_open(
            st.rx_key,
            b.subrange(0, 12),
            b.subrange(12, b.len() as int),
            Seq::empty(),
        ) is Some,
    }
}

/// The beginning of a first-generation invitation link.
pub open spec fn legacy_link_prefix() -> Seq<char> {
    "nugget://sincronizar?semilla="@
}

/// Diagnostic text `TX:<hex>... RX:<hex>...` of the first four bytes of each key.
pub open spec fn legacy_dna_text(st: LegacyState) -> Seq<char> {
    "TX:"@ + hex_text(st.tx_key.subrange(0, 4)) + "... RX:"@ + hex_text(st.rx_key.subrange(0, 4)) + "..."@
}

/// A string result that agrees with `expected`.
pub open spec fn legacy_string_result_matches(r: Result<String, NuggetError>, expected: Result<Seq<char>, NuggetError>) -> bool {
    match (r, expected) {
        (Ok(s), Ok(c)) => s@ == c,
        (Err(e), Err(f)) => e == f,
        _ => false,
    }
}

impl CryptoNugget {
    /// Creates an end from a shared seed string.
    pub fn new(semilla_inicial: &str, es_iniciador: bool) -> (n: Self)
        ensures
            n@ == legacy_initial(semilla_inicial@, es_iniciador),
    {
        proof {
            reveal_strlit("NUGGET_TX");
            reveal_strlit("NUGGET_RX");
        }
        let mut datos_a: Vec<u8> = Vec::new();
        push_bytes(&mut datos_a, semilla_inicial.as_bytes());
        push_ascii(&mut datos_a, "NUGGET_TX");
        let clave_a = sha256(datos_a.as_slice());
        let mut datos_b: Vec<u8> = Vec::new();
        push_bytes(&mut datos_b, semilla_inicial.as_bytes());
        push_ascii(&mut datos_b, "NUGGET_RX");
        let clave_b = sha256(datos_b.as_slice());
        let (tx, rx) = if es_iniciador {
            (clave_a, clave_b)
        } else {
            (clave_b, clave_a)
        };
        CryptoNugget { tx_key: tx, rx_key: rx }
    }

    /// Encrypts the text under a fresh random nonce, returns `nonce‖ciphertext`
    /// in base64, and ratchets the send key.
    pub fn cifrar(&mut self, texto_plano: &str) -> (r: Result<String, NuggetError>)
        requires
            texto_plano.spec_bytes().len() + MIN_PACKET_LEN <= isize::MAX,
        ensures
            r is Ok <==> texto_plano.spec_bytes().len() <= AEAD_MAX_LEN,
            r matches Err(e) ==> e == NuggetError::CifradoFallido,
            r matches Ok(text) ==> (base64_decode_text(text@) matches Some(b) && legacy_carries(
                old(self)@,
                texto_plano.spec_bytes(),
                b,
            )),
            r is Ok ==> final(self)@ == (LegacyState { tx_key: legacy_ratchet(old(self)@.tx_key), ..old(self)@ }),
            r is Err ==> final(self)@ == old(self)@,
    {
        let nonce = random_nonce();
        let no_aad: Vec<u8> = Vec::new();
        assert(no_aad@ =~= Seq::<u8>::empty());
        let ciphertext = match aes256gcm_encrypt(&self.tx_key, &nonce, texto_plano.as_bytes(), no_aad.as_slice()) {
            Ok(c) => c,
            Err(_) => {
                return Err(NuggetError::CifradoFallido);
            },
        };
        self.mutar_clave(true);
        let mut paquete: Vec<u8> = Vec::new();
        push_bytes(&mut paquete, &nonce);
        push_bytes(&mut paquete, ciphertext.as_slice());
        assert(paquete@.subrange(0, 12) =~= nonce@);
        assert(paquete@.subrange(12, paquete@.len() as int) =~= ciphertext@);
        Ok(base64_encode(paquete.as_slice()))
    }

    /// Decrypts a base64 `nonce‖ciphertext` packet into text and ratchets the
    /// receive key; the key ratchets whenever the packet authenticates.
    pub fn descifrar(&mut self, paquete_base64: &str) -> (r: Result<String, NuggetError>)
        ensures
            legacy_string_result_matches(r, legacy_receive_result(old(self)@, paquete_base64@)),
            legacy_receive_authenticates(old(self)@, paquete_base64@) ==> final(self)@ == (
            LegacyState { rx_key: legacy_ratchet(old(self)@.rx_key), ..old(self)@ }),
            !legacy_receive_authenticates(old(self)@, paquete_base64@) ==> final(self)@ == old(self)@,
    {
        let empaquetado = match base64_decode(paquete_base64) {
            Ok(b) => b,
            Err(_) => {
                return Err(NuggetError::ErrorDecodificacionBase64);
            },
        };
        if empaquetado.len() < MIN_PACKET_LEN {
            return Err(NuggetError::PaqueteCorruptoODemasiadoCorto);
        }
        let nonce = array12(slice_subrange(empaquetado.as_slice(), 0, 12));
        let ciphertext = slice_subrange(empaquetado.as_slice(), 12, empaquetado.len());
        let no_aad: Vec<u8> = Vec::new();
        assert(no_aad@ =~= Seq::<u8>::empty());
        let texto_plano = match aes256gcm_decrypt(&self.rx_key, &nonce, ciphertext, no_aad.as_slice()) {
            Ok(p) => p,
            Err(_) => {
                return Err(NuggetError::AutenticacionDesincronizada);
            },
        };
        self.mutar_clave(false);
        match string_from_utf8(texto_plano) {
            Ok(s) => Ok(s),
            Err(_) => Err(NuggetError::ErrorUtf8),
        }
    }

    /// One ratchet step on the send key (`es_tx`) or the receive key.
    fn mutar_clave(&mut self, es_tx: bool)
        ensures
            es_tx ==> final(self)@ == (LegacyState { tx_key: legacy_ratchet(old(self)@.tx_key), ..old(self)@ }),
            !es_tx ==> final(self)@ == (LegacyState { rx_key: legacy_ratchet(old(self)@.rx_key), ..old(self)@ }),
    {
        proof {
            reveal_strlit("EVOLUCION_NUGGET");
        }
        let mut etiqueta: Vec<u8> = Vec::new();
        push_ascii(&mut etiqueta, "EVOLUCION_NUGGET");
        if es_tx {
            self.tx_key = hmac_sha256(&self.tx_key, etiqueta.as_slice());
        } else {
            self.rx_key = hmac_sha256(&self.rx_key, etiqueta.as_slice());
        }
    }

    /// Diagnostic text with the first four bytes of each key in hexadecimal.
    pub fn obtener_estado_adn(&self) -> (adn: String)
        ensures
            adn@ == legacy_dna_text(self@),
    {
        let mut out = String::new();
        out.append("TX:");
        push_hex(&mut out, slice_subrange(&self.tx_key, 0, 4));
        out.append("... RX:");
        push_hex(&mut out, slice_subrange(&self.rx_key, 0, 4));
        out.append("...");
        assert(out@ =~= legacy_dna_text(self@));
        out
    }

    /// Generates a master seed: 32 random bytes from the operating system's
    /// generator, in base64.
    pub fn generar_semilla_maestra() -> (semilla: String)
        ensures
            base64_decode_text(semilla@) matches Some(b) && b.len() == 32,
    {
        let llave_cruda = random_32_bytes();
        base64_encode(&llave_cruda)
    }

    /// Packs the seed into an invitation link.
    pub fn generar_enlace_invitacion(semilla: &str) -> (enlace: String)
        ensures
            enlace@ == legacy_link_prefix() + semilla@,
    {
        let mut enlace = String::from_str("nugget://sincronizar?semilla=");
        enlace.append(semilla);
        enlace
    }

    /// Extracts the seed from an invitation link.
    pub fn extraer_semilla_de_enlace(enlace: &str) -> (r: Result<String, NuggetError>)
        ensures
            r is Ok <==> has_prefix(enlace@, legacy_link_prefix()),
            r matches Ok(s) ==> s@ == enlace@.subrange(legacy_link_prefix().len() as int, enlace@.len() as int),
            r matches Err(e) ==> e == NuggetError::EnlaceInvalido,
    {
        match strip_prefix_chars(enlace, "nugget://sincronizar?semilla=") {
            Some(semilla) => Ok(semilla.to_owned()),
            None => Err(NuggetError::EnlaceInvalido),
        }
    }
}

/// The two ends made from one seed string hold matching keys.
pub proof fn lemma_legacy_roles_pair(seed: Seq<char>)
    ensures
        legacy_initial(seed, true).tx_key == legacy_initial(seed, false).rx_key,
        legacy_initial(seed, true).rx_key == legacy_initial(seed, false).tx_key,
{
}

/// A text that one end sent is read back as the same text by an end that
/// receives with the sender's key, and both keys ratchet to the same value.
pub proof fn lemma_legacy_delivery(a: LegacyState, b: LegacyState, message: Seq<char>, text: Seq<char>, packet: Seq<u8>)
    requires
        a.tx_key == b.rx_key,
        base64_decode_text(text) == Some(packet),
        legacy_carries(a, encode_utf8(message), packet),
    ensures
        legacy_receive_result(b, text) == Ok::<Seq<char>, NuggetError>(message),
        legacy_receive_authenticates(b, text),
        legacy_ratchet(a.tx_key) == legacy_ratchet(b.rx_key),
{
    encode_utf8_valid_utf8(message);
    encode_utf8_decode_utf8(message);
}

/// The invitation link carries the seed string back.
pub proof fn lemma_legacy_link_roundtrip(seed: Seq<char>)
    ensures
        has_prefix(legacy_link_prefix() + seed, legacy_link_prefix()),
        (legacy_link_prefix() + seed).subrange(legacy_link_prefix().len() as int, (legacy_link_prefix() + seed).len() as int) == seed,
{
    let link = legacy_link_prefix() + seed;
    assert(link.subrange(0, legacy_link_prefix().len() as int) =~= legacy_link_prefix());
    assert(link.subrange(legacy_link_prefix().len() as int, link.len() as int) =~= seed);
}

} // verus!
