use codex_support::device_key::after_os_protection;
use codex_support::device_key::after_secure_enclave;
use codex_support::device_key::bytes_of_answer;
use codex_support::device_key::class_for_key;
use codex_support::device_key::key_info;
use codex_support::device_key::key_tag;
use codex_support::device_key::provider_signature;
use codex_support::device_key::CreateStep;
use codex_support::device_key::DeviceKeyAlgorithm;
use codex_support::device_key::DeviceKeyError;
use codex_support::device_key::DeviceKeyInfo;
use codex_support::device_key::DeviceKeyProtectionClass;
use codex_support::device_key::MacKeyClass;
use codex_support::skills::AvailableSkills;
use codex_support::skills::AvailableSkillsInstructions;
use codex_support::skills::SkillTexts;

fn info() -> DeviceKeyInfo {
    DeviceKeyInfo {
        key_id: "k".to_string(),
        public_key_spki_der: vec![1, 2],
        algorithm: DeviceKeyAlgorithm::EcdsaP256Sha256,
        protection_class: DeviceKeyProtectionClass::HardwareSecureEnclave,
    }
}

#[test]
fn classes_of_keys() {
    assert_eq!(MacKeyClass::SecureEnclave.native(), 0);
    assert_eq!(MacKeyClass::OsProtectedNonextractable.native(), 1);
    for class in [MacKeyClass::SecureEnclave, MacKeyClass::OsProtectedNonextractable] {
        assert_eq!(MacKeyClass::from_protection_class(class.protection_class()), Some(class));
        assert_eq!(class_for_key(class.protection_class()), Ok(class));
    }
    assert_eq!(MacKeyClass::from_protection_class(DeviceKeyProtectionClass::HardwareTpm), None);
    assert_eq!(
        class_for_key(DeviceKeyProtectionClass::HardwareTpm),
        Err(DeviceKeyError::KeyNotFound)
    );
}

#[test]
fn tags_of_keys() {
    assert_eq!(
        key_tag("dk_1", MacKeyClass::SecureEnclave),
        "com.openai.codex.device-key.secure-enclave.dk_1"
    );
    assert_eq!(
        key_tag("dk_1", MacKeyClass::OsProtectedNonextractable),
        "com.openai.codex.device-key.os-protected-nonextractable.dk_1"
    );
}

#[test]
fn answers_of_native_calls() {
    assert_eq!(bytes_of_answer(0, Some(vec![1, 2]), 2, None), Ok(vec![1, 2]));
    assert_eq!(bytes_of_answer(0, None, 0, None), Ok(Vec::new()));
    assert_eq!(bytes_of_answer(0, Some(Vec::new()), 0, None), Ok(Vec::new()));
    assert_eq!(
        bytes_of_answer(0, None, 2, None),
        Err(DeviceKeyError::Platform("macOS device-key provider returned null data".to_string()))
    );
    assert_eq!(bytes_of_answer(1, None, 0, None), Err(DeviceKeyError::KeyNotFound));
    assert_eq!(
        bytes_of_answer(2, None, 0, None),
        Err(DeviceKeyError::HardwareBackedKeysUnavailable)
    );
    assert_eq!(
        bytes_of_answer(3, None, 0, Some("locked".to_string())),
        Err(DeviceKeyError::Platform("locked".to_string()))
    );
    assert_eq!(
        bytes_of_answer(-1, None, 0, None),
        Err(DeviceKeyError::Platform("unknown macOS device-key provider error".to_string()))
    );
}

#[test]
fn weaker_protection_only_where_it_is_allowed() {
    let unavailable = || Err(DeviceKeyError::HardwareBackedKeysUnavailable);
    assert_eq!(after_secure_enclave(Ok(info()), false), CreateStep::Done(Ok(info())));
    assert_eq!(
        after_secure_enclave(Err(DeviceKeyError::KeyNotFound), true),
        CreateStep::Done(Err(DeviceKeyError::KeyNotFound))
    );
    assert_eq!(after_secure_enclave(unavailable(), true), CreateStep::UseOsProtection);
    assert_eq!(
        after_secure_enclave(unavailable(), false),
        CreateStep::Done(Err(DeviceKeyError::DegradedProtectionNotAllowed {
            available: DeviceKeyProtectionClass::OsProtectedNonextractable
        }))
    );
    assert_eq!(after_os_protection(Ok(info()), "a", "b"), Ok(info()));
    assert_eq!(
        after_os_protection(Err(DeviceKeyError::KeyNotFound), "no hardware", "not found"),
        Err(DeviceKeyError::Platform(
            "Secure Enclave key creation failed (no hardware); \
             OS-protected fallback failed (not found)"
                .to_string()
        ))
    );
}

#[test]
fn what_is_public_of_a_key() {
    assert_eq!(key_info("k", MacKeyClass::SecureEnclave, Ok(vec![1, 2])), Ok(info()));
    assert_eq!(
        key_info("k", MacKeyClass::SecureEnclave, Err(DeviceKeyError::KeyNotFound)),
        Err(DeviceKeyError::KeyNotFound)
    );
    let signature = provider_signature(vec![9]);
    assert_eq!(signature.signature_der, vec![9]);
    assert_eq!(signature.algorithm, DeviceKeyAlgorithm::EcdsaP256Sha256);
}

#[test]
fn instructions_on_skills() {
    let texts = SkillTexts {
        intro_with_absolute_paths: "intro absolute",
        intro_with_aliases: "intro aliases",
        how_to_use_with_absolute_paths: "use absolute",
        how_to_use_with_aliases: "use aliases",
    };
    let absolute = AvailableSkillsInstructions::from(AvailableSkills {
        skill_root_lines: Vec::new(),
        skill_lines: vec!["- one".to_string(), "- two".to_string()],
    });
    assert_eq!(
        absolute.body(&texts),
        "\n## Skills\nintro absolute\n### Available skills\n- one\n- two\n\
         ### How to use skills\nuse absolute\n"
    );
    let aliases = AvailableSkillsInstructions::from(AvailableSkills {
        skill_root_lines: vec!["- r0 = /skills".to_string()],
        skill_lines: vec!["- one".to_string()],
    });
    assert_eq!(
        aliases.body(&texts),
        "\n## Skills\nintro aliases\n### Skill roots\n- r0 = /skills\n### Available skills\n- one\n\
         ### How to use skills\nuse aliases\n"
    );
    let none = AvailableSkillsInstructions::from(AvailableSkills {
        skill_root_lines: Vec::new(),
        skill_lines: Vec::new(),
    });
    assert_eq!(
        none.body(&texts),
        "\n## Skills\nintro absolute\n### Available skills\n### How to use skills\nuse absolute\n"
    );
}
