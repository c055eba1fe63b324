//! Concrete checks of the library's contracts and laws: edge cases, every
//! error variant, and the outside primitives seen through the public API.

use base64::{engine::general_purpose::STANDARD, Engine as _};
use cripto_endevs_comunity::{
    CryptoNugget, Error, MasterSeed, Mode, Packet, ReplayWindowChannel, Role, StatelessEnvelope,
};

fn seed(byte: u8) -> MasterSeed {
    MasterSeed::from_bytes([byte; 32]).unwrap()
}

#[test]
fn replay_window_edge_of_window() {
    let s = seed(1);
    let mut alice = ReplayWindowChannel::new(&s, Role::Initiator, 4).unwrap();
    let mut bob = ReplayWindowChannel::new(&s, Role::Responder, 4).unwrap();
    let packets: Vec<Packet> = (0..5).map(|_| alice.seal(b"m", b"").unwrap()).collect();
    assert_eq!(bob.open(&packets[4], b"").unwrap(), b"m");
    // 3 behind the highest: still inside a window of 4.
    assert_eq!(bob.open(&packets[1], b"").unwrap(), b"m");
    // 4 behind: outside.
    assert!(matches!(bob.open(&packets[0], b""), Err(Error::FueraDeOrden)));
    assert!(matches!(bob.open(&packets[1], b""), Err(Error::Repetido)));
    assert!(matches!(bob.open(&packets[4], b""), Err(Error::Repetido)));
}

#[test]
fn replay_window_full_width_and_large_jump() {
    let s = seed(2);
    let mut alice = ReplayWindowChannel::new(&s, Role::Initiator, 128).unwrap();
    let mut bob = ReplayWindowChannel::new(&s, Role::Responder, 128).unwrap();
    let packets: Vec<Packet> = (0..200).map(|_| alice.seal(b"x", b"").unwrap()).collect();
    assert!(bob.open(&packets[0], b"").is_ok());
    // A jump of more than 128 clears the history.
    assert!(bob.open(&packets[199], b"").is_ok());
    assert!(matches!(bob.open(&packets[0], b""), Err(Error::FueraDeOrden)));
    assert!(bob.open(&packets[72], b"").is_ok());
    assert!(matches!(bob.open(&packets[71], b""), Err(Error::FueraDeOrden)));
    assert!(matches!(bob.open(&packets[72], b""), Err(Error::Repetido)));
    assert!(matches!(bob.open(&packets[199], b""), Err(Error::Repetido)));
}

#[test]
fn replay_window_refuses_v1_packets() {
    let s = seed(3);
    let mut alice = ReplayWindowChannel::new(&s, Role::Initiator, 8).unwrap();
    let mut bob = ReplayWindowChannel::new(&s, Role::Responder, 8).unwrap();
    let mut p = alice.seal(b"v", b"").unwrap();
    p.version = 1;
    assert!(matches!(bob.open(&p, b""), Err(Error::VersionNoSoportada(1))));
}

#[test]
fn replay_window_seal_with_nonce_is_deterministic() {
    let s = seed(4);
    let mut a1 = ReplayWindowChannel::new(&s, Role::Initiator, 8).unwrap();
    let mut a2 = ReplayWindowChannel::new(&s, Role::Initiator, 8).unwrap();
    let p1 = a1.seal_with_nonce(b"same", b"meta", [5u8; 12]).unwrap();
    let p2 = a2.seal_with_nonce(b"same", b"meta", [5u8; 12]).unwrap();
    assert_eq!(p1, p2);
    assert_eq!(p1.sequence, 0);
    assert_eq!(p1.flags, 1);
    assert_eq!(p1.ciphertext.len(), 4 + 16);
    assert_ne!(&p1.ciphertext[..4], b"same");
}

#[test]
fn ordered_seal_with_nonce_matches_peer_and_advances() {
    let s = seed(5);
    let mut alice = CryptoNugget::new(&s, Role::Initiator);
    let mut bob = CryptoNugget::new(&s, Role::Responder);
    let p = alice
        .cifrar_bytes_with_aad_and_nonce(b"hola", b"", [9u8; 12])
        .unwrap();
    assert_eq!(p.nonce, [9u8; 12]);
    assert_eq!(p.sequence, 0);
    assert_eq!(p.version, 2);
    assert_eq!(bob.descifrar_bytes_with_aad(&p, b"").unwrap(), b"hola");
    let q = alice
        .cifrar_bytes_with_aad_and_nonce(b"hola", b"", [9u8; 12])
        .unwrap();
    assert_eq!(q.sequence, 1);
    // The key ratcheted: the same nonce and plaintext give another ciphertext.
    assert_ne!(p.ciphertext, q.ciphertext);
    assert_eq!(bob.descifrar_bytes_with_aad(&q, b"").unwrap(), b"hola");
}

#[test]
fn ordered_unknown_version_is_typed_and_keeps_state() {
    let s = seed(6);
    let mut alice = CryptoNugget::new(&s, Role::Initiator);
    let mut bob = CryptoNugget::new(&s, Role::Responder);
    let mut p = alice.cifrar_bytes_with_aad(b"x", b"").unwrap();
    let original = p.clone();
    p.version = 7;
    assert!(matches!(
        bob.descifrar_bytes_with_aad(&p, b""),
        Err(Error::VersionNoSoportada(7))
    ));
    assert_eq!(bob.descifrar_bytes_with_aad(&original, b"").unwrap(), b"x");
}

#[test]
fn ordered_utf8_error_still_ratchets() {
    let s = seed(7);
    let mut alice = CryptoNugget::new(&s, Role::Initiator);
    let mut bob = CryptoNugget::new(&s, Role::Responder);
    let c1 = alice.cifrar_bytes(&[0xFF]).unwrap();
    let c2 = alice.cifrar("siguiente").unwrap();
    assert!(matches!(bob.descifrar(&c1), Err(Error::Utf8)));
    assert_eq!(bob.descifrar(&c2).unwrap(), "siguiente");
}

#[test]
fn dna_text_format_and_pairing() {
    let s = seed(8);
    let mut alice = CryptoNugget::new(&s, Role::Initiator);
    let mut bob = CryptoNugget::new(&s, Role::Responder);
    let adn = alice.obtener_estado_adn();
    assert!(adn.starts_with("TX:"));
    assert!(adn.ends_with(" SEQ:0/0"));
    assert_eq!(adn.len(), "TX:00112233 RX:44556677 SEQ:0/0".len());
    assert!(adn[3..11].chars().all(|c| c.is_ascii_hexdigit() && !c.is_ascii_lowercase()));
    // Different keys give different fingerprints (the derivation is not the identity).
    assert_ne!(adn, bob.obtener_estado_adn());
    for _ in 0..12 {
        let c = alice.cifrar("m").unwrap();
        bob.descifrar(&c).unwrap();
    }
    assert!(alice.obtener_estado_adn().ends_with(" SEQ:12/0"));
    assert!(bob.obtener_estado_adn().ends_with(" SEQ:0/12"));
}

#[test]
fn builder_modes_and_errors() {
    let s = seed(9);
    assert!(matches!(
        CryptoNugget::builder(&s, Role::Initiator).build_stateless_envelope(),
        Err(Error::ModoInvalido)
    ));
    assert!(matches!(
        CryptoNugget::builder(&s, Role::Initiator).build_replay_window(),
        Err(Error::ModoInvalido)
    ));
    assert!(matches!(
        CryptoNugget::builder(&s, Role::Initiator)
            .mode(Mode::ReplayWindowChannel { window: 0 })
            .build_replay_window(),
        Err(Error::ModoInvalido)
    ));
    let mut a = CryptoNugget::builder_with_context(&s, Role::Initiator, b"ctx/v1")
        .build_ordered()
        .unwrap();
    let mut b = CryptoNugget::new_with_context(&s, Role::Responder, b"ctx/v1");
    let c = a.cifrar("contexto").unwrap();
    assert_eq!(b.descifrar(&c).unwrap(), "contexto");
}

#[test]
fn envelope_seal_with_nonce_and_tamper() {
    let s = seed(10);
    let env = StatelessEnvelope::new(&s);
    let p = env.seal_with_nonce(b"blob", b"", [1u8; 12]).unwrap();
    assert_eq!(p, env.seal_with_nonce(b"blob", b"", [1u8; 12]).unwrap());
    assert_eq!(p.sequence, 0);
    assert_eq!(p.flags, 0);
    let mut q = p.clone();
    q.sequence = 1;
    assert!(matches!(env.open(&q, b""), Err(Error::Autenticacion)));
    let other = StatelessEnvelope::new_with_context(&s, b"cryptonugget:v1");
    assert_eq!(other.open(&p, b"").unwrap(), b"blob");
}

#[test]
fn seed_token_errors_and_roundtrip() {
    assert!(matches!(
        MasterSeed::from_transfer_token("no base64 !"),
        Err(Error::Base64(_))
    ));
    assert!(matches!(
        MasterSeed::from_transfer_token(&STANDARD.encode([1u8; 31])),
        Err(Error::SemillaInvalida)
    ));
    assert!(matches!(
        MasterSeed::from_transfer_token(&STANDARD.encode([0u8; 32])),
        Err(Error::SemillaInvalida)
    ));
    let s = seed(11);
    let token = s.export_for_transfer();
    assert_eq!(token, STANDARD.encode([11u8; 32]));
    let back = MasterSeed::from_transfer_token(&token).unwrap();
    assert_eq!(back.export_for_transfer(), token);
    let mut bytes = [0u8; 32];
    bytes[31] = 1;
    assert!(MasterSeed::from_bytes(bytes).is_ok());
}

#[test]
fn generated_seeds_differ() {
    let a = MasterSeed::generate();
    let b = MasterSeed::generate();
    assert_ne!(a.export_for_transfer(), b.export_for_transfer());
}

#[test]
fn link_with_bad_token_is_invalid_link() {
    assert!(matches!(
        CryptoNugget::extraer_semilla_de_enlace("nugget://sincronizar?v=1&semilla=%%%"),
        Err(Error::EnlaceInvalido)
    ));
    let s = seed(12);
    let link = CryptoNugget::generar_enlace_invitacion(&s);
    assert_eq!(
        link,
        format!("nugget://sincronizar?v=1&semilla={}", STANDARD.encode([12u8; 32]))
    );
}

#[test]
fn snapshot_import_layout_errors() {
    let wrap = [3u8; 32];
    assert!(matches!(
        CryptoNugget::import_state(&[0u8; 10], &wrap, b"c"),
        Err(Error::PaqueteCorrupto)
    ));
    let s = seed(13);
    let mut alice = CryptoNugget::new_with_context(&s, Role::Initiator, b"c");
    let mut snapshot = alice.export_state(&wrap).unwrap();
    snapshot[0] = b'X';
    assert!(matches!(
        CryptoNugget::import_state(&snapshot, &wrap, b"c"),
        Err(Error::PaqueteCorrupto)
    ));
    snapshot[0] = b'C';
    snapshot[4] = 2;
    assert!(matches!(
        CryptoNugget::import_state(&snapshot, &wrap, b"c"),
        Err(Error::PaqueteCorrupto)
    ));
}

#[test]
fn snapshot_with_nonce_layout_and_epoch() {
    let s = seed(14);
    let wrap = [4u8; 32];
    let mut alice = CryptoNugget::new_with_context(&s, Role::Initiator, b"ep");
    let mut bob = CryptoNugget::new_with_context(&s, Role::Responder, b"ep");
    let snapshot = alice.export_state_with_nonce(&wrap, [8u8; 12]).unwrap();
    assert_eq!(&snapshot[5..17], &[8u8; 12]);
    // Encoded state: 92 fixed bytes + context, plus the tag.
    assert_eq!(snapshot.len(), 17 + 92 + 2 + 16);
    let mut restored = CryptoNugget::import_state(&snapshot, &wrap, b"ep").unwrap();
    restored.mark_resumed();
    // The restored end sends in epoch 1; a peer still in epoch 0 accepts it.
    let c = restored.cifrar("tras restaurar").unwrap();
    assert_eq!(bob.descifrar(&c).unwrap(), "tras restaurar");
    // The original end never sent, so it still holds the first key, which the
    // peer has ratcheted past.
    let c2 = alice.cifrar("alice sigue").unwrap();
    assert!(bob.descifrar(&c2).is_err());
}

#[test]
fn error_messages() {
    assert_eq!(
        Error::VersionNoSoportada(42).mensaje(),
        "Versión de paquete no soportada: 42"
    );
    assert_eq!(
        Error::Base64("x".to_string()).mensaje(),
        "Error decodificando Base64: x"
    );
    assert_eq!(Error::Repetido.mensaje(), "Paquete repetido");
    assert_eq!(
        Error::EstadoSinReanudar.mensaje(),
        "Estado importado sin confirmación explícita de reanudación"
    );
}

#[test]
fn packet_base64_is_standard_base64_of_wire() {
    let p = Packet {
        version: 2,
        flags: 0,
        sequence: 1,
        nonce: [0u8; 12],
        ciphertext: vec![0u8; 16],
    };
    assert_eq!(p.to_base64(), STANDARD.encode(p.to_bytes()));
    assert_eq!(Packet::from_base64(&p.to_base64()).unwrap(), p);
}

#[test]
fn ordered_refuses_caller_data_on_packet_sent_without_it() {
    let s = seed(15);
    let mut alice = CryptoNugget::new(&s, Role::Initiator);
    let mut bob = CryptoNugget::new(&s, Role::Responder);
    let p = alice.cifrar_bytes_with_aad(b"sin aad", b"").unwrap();
    assert!(matches!(
        bob.descifrar_bytes_with_aad(&p, b"inesperado"),
        Err(Error::Autenticacion)
    ));
    assert!(bob.obtener_estado_adn().ends_with(" SEQ:0/0"));
    assert_eq!(bob.descifrar_bytes_with_aad(&p, b"").unwrap(), b"sin aad");
}

#[test]
fn ordered_refuses_sequence_other_than_expected() {
    let s = seed(16);
    let mut alice = CryptoNugget::new(&s, Role::Initiator);
    let mut bob = CryptoNugget::new(&s, Role::Responder);
    let p0 = alice.cifrar_bytes_with_aad(b"cero", b"").unwrap();
    let mut forged = p0.clone();
    forged.sequence = 5;
    assert!(matches!(
        bob.descifrar_bytes_with_aad(&forged, b""),
        Err(Error::Autenticacion)
    ));
    assert_eq!(bob.descifrar_bytes_with_aad(&p0, b"").unwrap(), b"cero");
}

#[test]
fn envelope_refuses_caller_data_on_envelope_sealed_without_it() {
    let s = seed(17);
    let env = StatelessEnvelope::new(&s);
    let p = env.seal(b"evento", b"").unwrap();
    assert_eq!(p.ciphertext.len(), 6 + 16);
    assert!(matches!(env.open(&p, b"tenant:A"), Err(Error::Autenticacion)));
    assert_eq!(env.open(&p, b"").unwrap(), b"evento");
}

#[test]
fn replay_window_refuses_caller_data_on_packet_sent_without_it() {
    let s = seed(18);
    let mut alice = ReplayWindowChannel::new(&s, Role::Initiator, 16).unwrap();
    let mut bob = ReplayWindowChannel::new(&s, Role::Responder, 16).unwrap();
    let p = alice.seal(b"dato", b"").unwrap();
    assert_eq!(p.ciphertext.len(), 4 + 16);
    assert!(matches!(bob.open(&p, b"meta"), Err(Error::Autenticacion)));
    assert_eq!(bob.open(&p, b"").unwrap(), b"dato");
    assert!(matches!(bob.open(&p, b"otra"), Err(Error::Repetido)));
}

#[test]
fn snapshot_length_is_header_state_and_tag() {
    let s = seed(19);
    let mut alice = CryptoNugget::new_with_context(&s, Role::Initiator, b"longitud/v1");
    let snapshot = alice.export_state(&[6u8; 32]).unwrap();
    assert_eq!(snapshot.len(), 4 + 1 + 12 + 16 + 92 + b"longitud/v1".len());
}
