//! The ratcheted ordered channel.

use aes_gcm::aead::{Aead, KeyInit, Payload};
use aes_gcm::{Aes256Gcm, Key, Nonce};
use base64::{engine::general_purpose::STANDARD, Engine as _};
use cripto_endevs_comunity::packet::V2_HEADER_LEN;
use cripto_endevs_comunity::{CryptoNugget, Error, MasterSeed, Role};

fn actores() -> (CryptoNugget, CryptoNugget) {
    let semilla = CryptoNugget::generar_semilla_maestra();
    (
        CryptoNugget::new(&semilla, Role::Initiator),
        CryptoNugget::new(&semilla, Role::Responder),
    )
}

/// Reads the keys and counters of a channel end out of one of its snapshots
/// (the snapshot layout is public: `CNST‖1‖nonce‖AES-GCM(state)`).
fn estado_interno(nugget: &mut CryptoNugget) -> ([u8; 32], [u8; 32], u64, u64) {
    let wrap = [0x5Au8; 32];
    let snapshot = nugget.export_state(&wrap).unwrap();
    let context = b"cryptonugget:v1";
    let mut aad = b"CNST".to_vec();
    aad.push(1);
    aad.extend_from_slice(&(context.len() as u32).to_be_bytes());
    aad.extend_from_slice(context);
    let cipher = Aes256Gcm::new(Key::<Aes256Gcm>::from_slice(&wrap));
    let state = cipher
        .decrypt(
            Nonce::from_slice(&snapshot[5..17]),
            Payload {
                msg: &snapshot[17..],
                aad: &aad,
            },
        )
        .unwrap();
    let mut tx_key = [0u8; 32];
    tx_key.copy_from_slice(&state[0..32]);
    let mut rx_key = [0u8; 32];
    rx_key.copy_from_slice(&state[32..64]);
    let tx_seq = u64::from_be_bytes(state[64..72].try_into().unwrap());
    let rx_seq = u64::from_be_bytes(state[72..80].try_into().unwrap());
    (tx_key, rx_key, tx_seq, rx_seq)
}

#[test]
fn flujo_alice_bob_completo() {
    let (mut alice, mut bob) = actores();

    let msg1 = "¡Hola Bob!";
    let cifrado1 = alice.cifrar(msg1).unwrap();
    let descifrado1 = bob.descifrar(&cifrado1).unwrap();
    assert_eq!(descifrado1, msg1);

    let msg2 = "¿Cómo estás?";
    let cifrado2 = alice.cifrar(msg2).unwrap();
    let descifrado2 = bob.descifrar(&cifrado2).unwrap();
    assert_eq!(descifrado2, msg2);
}

#[test]
fn clave_incorrecta_falla() {
    let semilla_a = CryptoNugget::generar_semilla_maestra();
    let semilla_b = CryptoNugget::generar_semilla_maestra();
    let mut alice = CryptoNugget::new(&semilla_a, Role::Initiator);
    let mut bob = CryptoNugget::new(&semilla_b, Role::Responder);

    let cifrado = alice.cifrar("secreto").unwrap();
    assert!(bob.descifrar(&cifrado).is_err());
}

#[test]
fn paquete_corrupto_falla() {
    let (mut alice, mut bob) = actores();

    let cifrado = alice.cifrar("test").unwrap();
    let mut bytes = STANDARD.decode(&cifrado).unwrap();
    if bytes.len() > V2_HEADER_LEN + 1 {
        bytes[V2_HEADER_LEN + 1] ^= 0xFF;
    }
    let corrupto = STANDARD.encode(&bytes);

    assert!(matches!(bob.descifrar(&corrupto), Err(Error::Autenticacion)));
}

#[test]
fn metadata_autenticada_falla_si_se_modifica() {
    let (mut alice, mut bob) = actores();

    let cifrado = alice.cifrar("test").unwrap();
    let mut bytes = STANDARD.decode(&cifrado).unwrap();
    bytes[9] ^= 0x01;
    let corrupto = STANDARD.encode(&bytes);

    assert!(matches!(bob.descifrar(&corrupto), Err(Error::Autenticacion)));
}

#[test]
fn paquete_demasiado_corto_falla() {
    let semilla = CryptoNugget::generar_semilla_maestra();
    let mut bob = CryptoNugget::new(&semilla, Role::Responder);
    let paquete_corto = STANDARD.encode(b"corto");
    assert!(matches!(bob.descifrar(&paquete_corto), Err(Error::PaqueteCorrupto)));
}

#[test]
fn cifrados_distintos_para_mismo_plaintext() {
    let semilla = CryptoNugget::generar_semilla_maestra();
    let mut alice = CryptoNugget::new(&semilla, Role::Initiator);

    let msg = "mismo texto";
    let c1 = alice.cifrar(msg).unwrap();
    let c2 = alice.cifrar(msg).unwrap();

    assert_ne!(c1, c2);
}

#[test]
fn desincronizacion_por_orden_incorrecto() {
    let (mut alice, mut bob) = actores();

    let cifrado1 = alice.cifrar("primero").unwrap();
    let cifrado2 = alice.cifrar("segundo").unwrap();

    assert!(matches!(bob.descifrar(&cifrado2), Err(Error::Autenticacion)));

    let descifrado1 = bob.descifrar(&cifrado1).unwrap();
    assert_eq!(descifrado1, "primero");
}

#[test]
fn mensaje_repetido_falla() {
    let (mut alice, mut bob) = actores();

    let cifrado = alice.cifrar("no repetir").unwrap();
    let descifrado = bob.descifrar(&cifrado).unwrap();
    assert_eq!(descifrado, "no repetir");

    assert!(matches!(bob.descifrar(&cifrado), Err(Error::Autenticacion)));
}

#[test]
fn enlace_invitacion_roundtrip() {
    let semilla = CryptoNugget::generar_semilla_maestra();
    let enlace = CryptoNugget::generar_enlace_invitacion(&semilla);
    let extraida = CryptoNugget::extraer_semilla_de_enlace(&enlace).unwrap();
    assert_eq!(extraida.export_for_transfer(), semilla.export_for_transfer());
}

#[test]
fn enlace_invalido_falla() {
    assert!(matches!(
        CryptoNugget::extraer_semilla_de_enlace("http://invalido"),
        Err(Error::EnlaceInvalido)
    ));
}

#[test]
fn base64_invalido_falla() {
    let semilla = CryptoNugget::generar_semilla_maestra();
    let mut bob = CryptoNugget::new(&semilla, Role::Responder);
    assert!(matches!(
        bob.descifrar("!!!no-es-base64-valido!!!"),
        Err(Error::Base64(_))
    ));
}

#[test]
fn contextos_distintos_no_interoperan() {
    let semilla = CryptoNugget::generar_semilla_maestra();
    let mut alice = CryptoNugget::new_with_context(&semilla, Role::Initiator, b"app-a/v1");
    let mut bob = CryptoNugget::new_with_context(&semilla, Role::Responder, b"app-b/v1");

    let cifrado = alice.cifrar("mensaje").unwrap();
    assert!(matches!(bob.descifrar(&cifrado), Err(Error::Autenticacion)));
}

#[test]
fn ratcheting_sincronizacion_mantiene_estado() {
    let (mut alice, mut bob) = actores();

    let adn_inicial_alice = alice.obtener_estado_adn();
    let adn_inicial_bob = bob.obtener_estado_adn();

    let c = alice.cifrar("ratchet").unwrap();
    let _ = bob.descifrar(&c).unwrap();

    assert_ne!(alice.obtener_estado_adn(), adn_inicial_alice);
    assert_ne!(bob.obtener_estado_adn(), adn_inicial_bob);
    let (alice_tx_key, alice_rx_key, alice_tx_seq, _) = estado_interno(&mut alice);
    let (bob_tx_key, bob_rx_key, _, bob_rx_seq) = estado_interno(&mut bob);
    assert_eq!(alice_tx_key, bob_rx_key);
    assert_eq!(alice_rx_key, bob_tx_key);
    assert_eq!(alice_tx_seq, 1);
    assert_eq!(bob_rx_seq, 1);
}

#[test]
fn semilla_cero_es_invalida() {
    assert!(matches!(
        MasterSeed::from_bytes([0u8; 32]),
        Err(Error::SemillaInvalida)
    ));
}
