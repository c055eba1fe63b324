//! Typed errors shared by the channel modes, the wire format and the snapshots.

use crate::text::{decimal_text, push_decimal};
use vstd::prelude::*;
use vstd::string::*;

verus! {

/// Errors of the library.
#[derive(Debug, Clone, PartialEq)]
pub enum Error {
    /// The text is not valid base64; carries the decoder's message.
    Base64(String),
    /// The packet is corrupt, too short or malformed.
    PaqueteCorrupto,
    /// The packet's wire version is not supported.
    VersionNoSoportada(u8),
    /// Authentication failed (wrong key, desynchronised channel or tampering).
    Autenticacion,
    /// The decrypted text is not valid UTF-8.
    Utf8,
    /// Encryption failed.
    Cifrado,
    /// The seed does not have the expected form (32 bytes, not all zero).
    SemillaInvalida,
    /// The invitation link is malformed.
    EnlaceInvalido,
    /// The requested operation mode is invalid.
    ModoInvalido,
    /// The packet was already accepted inside the anti-replay window.
    Repetido,
    /// The packet is older than the anti-replay window.
    FueraDeOrden,
    /// The state was imported and the operator has not yet acknowledged resumption.
    EstadoSinReanudar,
}

/// Two errors of the same kind; two `Base64` errors count as the same
/// whatever decoder message they carry.
pub open spec fn same_error(e: Error, f: Error) -> bool {
    match (e, f) {
        (Error::Base64(_), Error::Base64(_)) => true,
        _ => e == f,
    }
}

/// The human-readable message of an error.
pub open spec fn error_message(e: Error) -> Seq<char> {
    match e {
        Error::Base64(detail) => "Error decodificando Base64: "@ + detail@,
        Error::PaqueteCorrupto => "Paquete corrupto o demasiado corto"@,
        Error::VersionNoSoportada(version) => "Versión de paquete no soportada: "@ + decimal_text(
            version as nat,
        ),
        Error::Autenticacion => "Error de autenticación, clave incorrecta o paquete manipulado"@,
        Error::Utf8 => "El texto descifrado no es UTF-8 válido"@,
        Error::Cifrado => "Error crítico en el cifrado"@,
        Error::SemillaInvalida => "La semilla debe contener 32 bytes no nulos"@,
        Error::EnlaceInvalido => "Formato de enlace Nugget inválido o corrupto"@,
        Error::ModoInvalido => "Modo de operación inválido"@,
        Error::Repetido => "Paquete repetido"@,
        Error::FueraDeOrden => "Paquete fuera de la ventana aceptada"@,
        Error::EstadoSinReanudar => "Estado importado sin confirmación explícita de reanudación"@,
    }
}

impl Error {
    /// The human-readable message of this error.
    pub fn mensaje(&self) -> (m: String)
        ensures
            m@ == error_message(*self),
    {
        match self {
            Error::Base64(detail) => {
                let mut m = String::from_str("Error decodificando Base64: ");
                m.append(detail.as_str());
                m
            },
            Error::PaqueteCorrupto => String::from_str("Paquete corrupto o demasiado corto"),
            Error::VersionNoSoportada(version) => {
                let mut m = String::from_str("Versión de paquete no soportada: ");
                push_decimal(&mut m, *version as u64);
                m
            },
            Error::Autenticacion => String::from_str(
                "Error de autenticación, clave incorrecta o paquete manipulado",
            ),
            Error::Utf8 => String::from_str("El texto descifrado no es UTF-8 válido"),
            Error::Cifrado => String::from_str("Error crítico en el cifrado"),
            Error::SemillaInvalida => String::from_str("La semilla debe contener 32 bytes no nulos"),
            Error::EnlaceInvalido => String::from_str("Formato de enlace Nugget inválido o corrupto"),
            Error::ModoInvalido => String::from_str("Modo de operación inválido"),
            Error::Repetido => String::from_str("Paquete repetido"),
            Error::FueraDeOrden => String::from_str("Paquete fuera de la ventana aceptada"),
            Error::EstadoSinReanudar => String::from_str(
                "Estado importado sin confirmación explícita de reanudación",
            ),
        }
    }
}

} // verus!
