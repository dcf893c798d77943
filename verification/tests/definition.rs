use sysworxx_io_py::{load_device_definition, load_device_definition_shm, str_equals, Definition};

#[test]
fn known_devices_get_their_definition() {
    assert_eq!(load_device_definition("ctr500"), Definition::Ctr500);
    assert_eq!(load_device_definition("ctr600"), Definition::Ctr600);
    assert_eq!(load_device_definition("ctr700"), Definition::Ctr700);
    assert_eq!(load_device_definition("ctr750"), Definition::Ctr750);
    assert_eq!(load_device_definition("ctr800"), Definition::Ctr800);
    assert_eq!(load_device_definition("pi"), Definition::Pi);
}

#[test]
fn unknown_devices_get_the_fallback() {
    assert_eq!(load_device_definition(""), Definition::Fallback);
    assert_eq!(load_device_definition("ctr900"), Definition::Fallback);
    assert_eq!(load_device_definition("CTR700"), Definition::Fallback);
    assert_eq!(load_device_definition("ctr70"), Definition::Fallback);
    assert_eq!(load_device_definition("ctr7000"), Definition::Fallback);
    assert_eq!(load_device_definition("pi "), Definition::Fallback);
}

#[test]
fn shm_definitions_exist_for_ctr700_ctr750_ctr800() {
    assert_eq!(load_device_definition_shm("ctr700"), Definition::Ctr700);
    assert_eq!(load_device_definition_shm("ctr750"), Definition::Ctr750);
    assert_eq!(load_device_definition_shm("ctr800"), Definition::Ctr800);
}

#[test]
fn other_devices_get_the_fallback_shm_definition() {
    assert_eq!(load_device_definition_shm("ctr500"), Definition::Fallback);
    assert_eq!(load_device_definition_shm("ctr600"), Definition::Fallback);
    assert_eq!(load_device_definition_shm("pi"), Definition::Fallback);
    assert_eq!(load_device_definition_shm("unknown"), Definition::Fallback);
}

#[test]
fn shm_and_plain_loader_agree() {
    for name in ["ctr500", "ctr600", "ctr700", "ctr750", "ctr800", "pi", "x", ""] {
        let shm = load_device_definition_shm(name);
        if shm != Definition::Fallback {
            assert_eq!(shm, load_device_definition(name));
        }
    }
}

#[test]
fn str_equals_compares_characters() {
    assert!(str_equals("äbc", "äbc"));
    assert!(!str_equals("äbc", "abc"));
    assert!(!str_equals("ab", "abc"));
    assert!(str_equals("", ""));
}
