//! Device keys on macOS: their classes and tags, what the native calls answer,
//! and which key is created.

use vstd::prelude::*;
use vstd::string::*;

verus! {

/// The status of a native call that succeeded.
pub const MAC_STATUS_OK: i32 = 0;

/// The status of a native call for a key that is not there.
pub const MAC_STATUS_NOT_FOUND: i32 = 1;

/// The status of a native call on a machine without hardware for keys.
pub const MAC_STATUS_HARDWARE_UNAVAILABLE: i32 = 2;

/// The number of the Secure Enclave in native calls.
pub const MAC_KEY_CLASS_SECURE_ENCLAVE: i32 = 0;

/// The number of the protection by the operating system in native calls.
pub const MAC_KEY_CLASS_OS_PROTECTED_NONEXTRACTABLE: i32 = 1;

/// What protects a device key.
#[derive(Debug, Clone, Copy, PartialEq, Eq)]
pub enum DeviceKeyProtectionClass {
    HardwareSecureEnclave,
    HardwareTpm,
    OsProtectedNonextractable,
}

/// How a device key signs.
#[derive(Debug, Clone, Copy, PartialEq, Eq)]
pub enum DeviceKeyAlgorithm {
    EcdsaP256Sha256,
}

/// Why something could not be done with a device key.
#[derive(Debug, Clone, PartialEq, Eq)]
pub enum DeviceKeyError {
    KeyNotFound,
    HardwareBackedKeysUnavailable,
    /// Only a weaker protection than the policy allows is to be had.
    DegradedProtectionNotAllowed { available: DeviceKeyProtectionClass },
    /// The platform says why.
    Platform(String),
}

/// What is public of a device key.
#[derive(Debug, Clone, PartialEq, Eq)]
pub struct DeviceKeyInfo {
    pub key_id: String,
    pub public_key_spki_der: Vec<u8>,
    pub algorithm: DeviceKeyAlgorithm,
    pub protection_class: DeviceKeyProtectionClass,
}

/// A signature by a device key.
#[derive(Debug, Clone, PartialEq, Eq)]
pub struct ProviderSignature {
    pub signature_der: Vec<u8>,
    pub algorithm: DeviceKeyAlgorithm,
}

/// What macOS protects a device key with.
#[derive(Debug, Clone, Copy, PartialEq, Eq)]
pub enum MacKeyClass {
    SecureEnclave,
    OsProtectedNonextractable,
}

/// The protection class that a key class of macOS belongs to.
pub open spec fn protection_of(class: MacKeyClass) -> DeviceKeyProtectionClass {
    match class {
        MacKeyClass::SecureEnclave => DeviceKeyProtectionClass::HardwareSecureEnclave,
        MacKeyClass::OsProtectedNonextractable =>
            DeviceKeyProtectionClass::OsProtectedNonextractable,
    }
}

/// The key class of macOS with a protection class, if there is one.
pub open spec fn class_of(protection: DeviceKeyProtectionClass) -> Option<MacKeyClass> {
    match protection {
        DeviceKeyProtectionClass::HardwareSecureEnclave => Some(MacKeyClass::SecureEnclave),
        DeviceKeyProtectionClass::OsProtectedNonextractable => Some(
            MacKeyClass::OsProtectedNonextractable,
        ),
        DeviceKeyProtectionClass::HardwareTpm => None,
    }
}

/// The name of a key class in tags.
pub open spec fn prefix_of(class: MacKeyClass) -> Seq<char> {
    match class {
        MacKeyClass::SecureEnclave => "secure-enclave"@,
        MacKeyClass::OsProtectedNonextractable => "os-protected-nonextractable"@,
    }
}

/// The tag that a key is stored under.
pub open spec fn tag_of(key_id: Seq<char>, class: MacKeyClass) -> Seq<char> {
    "com.openai.codex.device-key."@ + prefix_of(class) + "."@ + key_id
}

impl MacKeyClass {
    /// The number of the class in native calls.
    pub fn native(self) -> (r: i32)
        ensures
            r == (match self {
                MacKeyClass::SecureEnclave => MAC_KEY_CLASS_SECURE_ENCLAVE,
                MacKeyClass::OsProtectedNonextractable =>
                    MAC_KEY_CLASS_OS_PROTECTED_NONEXTRACTABLE,
            }),
    {
        match self {
            MacKeyClass::SecureEnclave => MAC_KEY_CLASS_SECURE_ENCLAVE,
            MacKeyClass::OsProtectedNonextractable => MAC_KEY_CLASS_OS_PROTECTED_NONEXTRACTABLE,
        }
    }

    pub fn protection_class(self) -> (r: DeviceKeyProtectionClass)
        ensures
            r == protection_of(self),
    {
        match self {
            MacKeyClass::SecureEnclave => DeviceKeyProtectionClass::HardwareSecureEnclave,
            MacKeyClass::OsProtectedNonextractable => {
                DeviceKeyProtectionClass::OsProtectedNonextractable
            },
        }
    }

    /// The name of the class in tags.
    pub fn tag_prefix(self) -> (r: &'static str)
        ensures
            r@ == prefix_of(self),
    {
        match self {
            MacKeyClass::SecureEnclave => "secure-enclave",
            MacKeyClass::OsProtectedNonextractable => "os-protected-nonextractable",
        }
    }

    pub fn from_protection_class(protection_class: DeviceKeyProtectionClass) -> (r: Option<Self>)
        ensures
            r == class_of(protection_class),
    {
        match protection_class {
            DeviceKeyProtectionClass::HardwareSecureEnclave => Some(MacKeyClass::SecureEnclave),
            DeviceKeyProtectionClass::OsProtectedNonextractable => {
                Some(MacKeyClass::OsProtectedNonextractable)
            },
            DeviceKeyProtectionClass::HardwareTpm => None,
        }
    }
}

/// The key class for a key that is to be deleted, read or used. There is no
/// key with a protection that macOS does not have.
pub fn class_for_key(protection_class: DeviceKeyProtectionClass) -> (r: Result<
    MacKeyClass,
    DeviceKeyError,
>)
    ensures
        match class_of(protection_class) {
            Some(class) => r == Ok::<MacKeyClass, DeviceKeyError>(class),
            None => r == Err::<MacKeyClass, DeviceKeyError>(DeviceKeyError::KeyNotFound),
        },
{
    match MacKeyClass::from_protection_class(protection_class) {
        Some(class) => Ok(class),
        None => Err(DeviceKeyError::KeyNotFound),
    }
}

/// The tag that a key is stored under.
pub fn key_tag(key_id: &str, class: MacKeyClass) -> (r: String)
    ensures
        r@ == tag_of(key_id@, class),
{
    let mut r = "com.openai.codex.device-key.".to_owned();
    r.append(class.tag_prefix());
    r.append(".");
    r.append(key_id);
    r
}

/// What is public of a key with the given public key, or why that cannot be
/// had.
pub fn key_info(
    key_id: &str,
    class: MacKeyClass,
    public_key_spki_der: Result<Vec<u8>, DeviceKeyError>,
) -> (r: Result<DeviceKeyInfo, DeviceKeyError>)
    ensures
        match public_key_spki_der {
            Ok(key) => r matches Ok(info) && info.key_id@ == key_id@ && info.public_key_spki_der
                == key && info.algorithm == DeviceKeyAlgorithm::EcdsaP256Sha256
                && info.protection_class == protection_of(class),
            Err(error) => r == Err::<DeviceKeyInfo, DeviceKeyError>(error),
        },
{
    match public_key_spki_der {
        Ok(key) => Ok(
            DeviceKeyInfo {
                key_id: key_id.to_owned(),
                public_key_spki_der: key,
                algorithm: DeviceKeyAlgorithm::EcdsaP256Sha256,
                protection_class: class.protection_class(),
            },
        ),
        Err(error) => Err(error),
    }
}

/// The signature that a native call gave.
pub fn provider_signature(signature_der: Vec<u8>) -> (r: ProviderSignature)
    ensures
        r.signature_der == signature_der,
        r.algorithm == DeviceKeyAlgorithm::EcdsaP256Sha256,
{
    ProviderSignature { signature_der, algorithm: DeviceKeyAlgorithm::EcdsaP256Sha256 }
}

/// The error is one of the platform, with this text.
pub open spec fn is_platform_error<T>(r: Result<T, DeviceKeyError>, text: Seq<char>) -> bool {
    r matches Err(DeviceKeyError::Platform(message)) && message@ == text
}

/// What a native call answered. `data` is what it points to, if it points
/// anywhere, `len` the number of bytes that it says there are, and
/// `error_message` what it says of an error.
pub fn bytes_of_answer(
    status: i32,
    data: Option<Vec<u8>>,
    len: usize,
    error_message: Option<String>,
) -> (r: Result<Vec<u8>, DeviceKeyError>)
    requires
        data matches Some(bytes) ==> bytes@.len() == len,
    ensures
        status == MAC_STATUS_OK ==> match data {
            Some(bytes) => r matches Ok(answer) && answer@ == bytes@,
            None => if len == 0 {
                r matches Ok(answer) && answer@ == Seq::<u8>::empty()
            } else {
                is_platform_error(r, "macOS device-key provider returned null data"@)
            },
        },
        status == MAC_STATUS_NOT_FOUND ==> r == Err::<Vec<u8>, DeviceKeyError>(
            DeviceKeyError::KeyNotFound,
        ),
        status == MAC_STATUS_HARDWARE_UNAVAILABLE ==> r == Err::<Vec<u8>, DeviceKeyError>(
            DeviceKeyError::HardwareBackedKeysUnavailable,
        ),
        status != MAC_STATUS_OK && status != MAC_STATUS_NOT_FOUND && status
            != MAC_STATUS_HARDWARE_UNAVAILABLE ==> is_platform_error(
            r,
            match error_message {
                Some(message) => message@,
                None => "unknown macOS device-key provider error"@,
            },
        ),
{
    if status == MAC_STATUS_OK {
        match data {
            Some(bytes) => Ok(bytes),
            None => {
                if len == 0 {
                    Ok(Vec::new())
                } else {
                    Err(
                        DeviceKeyError::Platform(
                            "macOS device-key provider returned null data".to_owned(),
                        ),
                    )
                }
            },
        }
    } else if status == MAC_STATUS_NOT_FOUND {
        Err(DeviceKeyError::KeyNotFound)
    } else if status == MAC_STATUS_HARDWARE_UNAVAILABLE {
        Err(DeviceKeyError::HardwareBackedKeysUnavailable)
    } else {
        Err(
            DeviceKeyError::Platform(
                match error_message {
                    Some(message) => message,
                    None => "unknown macOS device-key provider error".to_owned(),
                },
            ),
        )
    }
}

/// What is to be done after a key was to be created in the Secure Enclave.
#[derive(Debug, PartialEq, Eq)]
pub enum CreateStep {
    /// Nothing: this is the result.
    Done(Result<DeviceKeyInfo, DeviceKeyError>),
    /// The key is to be created with the protection of the operating system.
    UseOsProtection,
}

/// What is to be done after a key was to be created in the Secure Enclave.
pub open spec fn step_after_secure_enclave(
    result: Result<DeviceKeyInfo, DeviceKeyError>,
    allows_os_protection: bool,
) -> CreateStep {
    match result {
        Err(DeviceKeyError::HardwareBackedKeysUnavailable) => if allows_os_protection {
            CreateStep::UseOsProtection
        } else {
            CreateStep::Done(
                Err(
                    DeviceKeyError::DegradedProtectionNotAllowed {
                        available: DeviceKeyProtectionClass::OsProtectedNonextractable,
                    },
                ),
            )
        },
        _ => CreateStep::Done(result),
    }
}

/// What is to be done after a key was to be created in the Secure Enclave. It
/// is created with the protection of the operating system where there is no
/// hardware for it and the policy allows that.
pub fn after_secure_enclave(
    result: Result<DeviceKeyInfo, DeviceKeyError>,
    allows_os_protection: bool,
) -> (r: CreateStep)
    ensures
        r == step_after_secure_enclave(result, allows_os_protection),
{
    match result {
        Err(DeviceKeyError::HardwareBackedKeysUnavailable) => {
            if allows_os_protection {
                CreateStep::UseOsProtection
            } else {
                CreateStep::Done(
                    Err(
                        DeviceKeyError::DegradedProtectionNotAllowed {
                            available: DeviceKeyProtectionClass::OsProtectedNonextractable,
                        },
                    ),
                )
            }
        },
        other => CreateStep::Done(other),
    }
}

/// The result after a key was to be created with the protection of the
/// operating system. If that failed, the error tells of both attempts, in the
/// given words.
pub fn after_os_protection(
    result: Result<DeviceKeyInfo, DeviceKeyError>,
    secure_enclave_error: &str,
    fallback_error: &str,
) -> (r: Result<DeviceKeyInfo, DeviceKeyError>)
    ensures
        match result {
            Ok(info) => r == Ok::<DeviceKeyInfo, DeviceKeyError>(info),
            Err(_) => is_platform_error(
                r,
                "Secure Enclave key creation failed ("@ + secure_enclave_error@
                    + "); OS-protected fallback failed ("@ + fallback_error@ + ")"@,
            ),
        },
{
    match result {
        Ok(info) => Ok(info),
        Err(_) => {
            let mut message = "Secure Enclave key creation failed (".to_owned();
            message.append(secure_enclave_error);
            message.append("); OS-protected fallback failed (");
            message.append(fallback_error);
            message.append(")");
            Err(DeviceKeyError::Platform(message))
        },
    }
}

/// A key class is that of its own protection class, and no other class is.
pub proof fn law_classes_match(class: MacKeyClass, protection: DeviceKeyProtectionClass)
    ensures
        class_of(protection_of(class)) == Some(class),
        class_of(protection) == Some(class) ==> protection == protection_of(class),
{
}

/// Two keys are stored under the same tag only if they have the same ID and
/// the same class.
pub proof fn law_tags_tell_keys_apart(
    a: Seq<char>,
    class_a: MacKeyClass,
    b: Seq<char>,
    class_b: MacKeyClass,
)
    requires
        tag_of(a, class_a) == tag_of(b, class_b),
    ensures
        a == b,
        class_a == class_b,
{
    let start = "com.openai.codex.device-key."@;
    reveal_strlit("secure-enclave");
    reveal_strlit("os-protected-nonextractable");
    reveal_strlit(".");
    let s = tag_of(a, class_a);
    let t = tag_of(b, class_b);
    assert(s[start.len() as int] == prefix_of(class_a)[0]);
    assert(t[start.len() as int] == prefix_of(class_b)[0]);
    assert(class_a == class_b);
    let n = start.len() + prefix_of(class_a).len() + 1;
    assert(a =~= s.skip(n as int));
    assert(b =~= t.skip(n as int));
}

/// A key gets a weaker protection only where there is no hardware for it and
/// the policy allows that; where it does not, the error tells what could be
/// had.
pub proof fn law_no_silent_degradation(
    result: Result<DeviceKeyInfo, DeviceKeyError>,
    allows_os_protection: bool,
)
    ensures
        step_after_secure_enclave(result, allows_os_protection) is UseOsProtection
            <==> allows_os_protection && result == Err::<DeviceKeyInfo, DeviceKeyError>(
            DeviceKeyError::HardwareBackedKeysUnavailable,
        ),
        !allows_os_protection && result == Err::<DeviceKeyInfo, DeviceKeyError>(
            DeviceKeyError::HardwareBackedKeysUnavailable,
        ) ==> step_after_secure_enclave(result, allows_os_protection) == CreateStep::Done(
            Err(
                DeviceKeyError::DegradedProtectionNotAllowed {
                    available: DeviceKeyProtectionClass::OsProtectedNonextractable,
                },
            ),
        ),
{
}

/// A key of the Secure Enclave is protected by hardware, and one of the operating system
/// by that. macOS has no keys of a TPM.
pub proof fn law_protection_of_classes()
    ensures
        protection_of(MacKeyClass::SecureEnclave)
            == DeviceKeyProtectionClass::HardwareSecureEnclave,
        protection_of(MacKeyClass::OsProtectedNonextractable)
            == DeviceKeyProtectionClass::OsProtectedNonextractable,
        class_of(DeviceKeyProtectionClass::HardwareTpm) is None,
{
}

/// The tag of a key is made of what it is for, its class and its ID.
pub proof fn law_tag_of_a_key(key_id: Seq<char>)
    ensures
        tag_of(key_id, MacKeyClass::SecureEnclave) == "com.openai.codex.device-key."@
            + "secure-enclave"@ + "."@ + key_id,
        tag_of(key_id, MacKeyClass::OsProtectedNonextractable) == "com.openai.codex.device-key."@
            + "os-protected-nonextractable"@ + "."@ + key_id,
{
}

/// Whatever else comes of a key in the Secure Enclave is the result.
pub proof fn law_other_results_are_final(
    result: Result<DeviceKeyInfo, DeviceKeyError>,
    allows_os_protection: bool,
)
    requires
        result != Err::<DeviceKeyInfo, DeviceKeyError>(
            DeviceKeyError::HardwareBackedKeysUnavailable,
        ),
    ensures
        step_after_secure_enclave(result, allows_os_protection) == CreateStep::Done(result),
{
}

} // verus!
