//! Selection of the device definition that belongs to a device name.
use vstd::prelude::*;

use crate::text::str_equals;

verus! {

/// The device definitions that the I/O library knows.
///
/// `Fallback` is the definition used for every device name that no
/// dedicated definition exists for.
#[derive(PartialEq, Eq, Structural, Debug, Clone, Copy)]
pub enum Definition {
    Ctr500,
    Ctr600,
    Ctr700,
    Ctr750,
    Ctr800,
    Pi,
    Fallback,
}

/// The definition selected for a device name.
pub open spec fn definition_for(name: Seq<char>) -> Definition {
    if name == "ctr500"@ {
        Definition::Ctr500
    } else if name == "ctr600"@ {
        Definition::Ctr600
    } else if name == "ctr700"@ {
        Definition::Ctr700
    } else if name == "ctr750"@ {
        Definition::Ctr750
    } else if name == "ctr800"@ {
        Definition::Ctr800
    } else if name == "pi"@ {
        Definition::Pi
    } else {
        Definition::Fallback
    }
}

/// The shared-memory definition selected for a device name: only the
/// devices with a shared-memory process image have one of their own.
pub open spec fn shm_definition_for(name: Seq<char>) -> Definition {
    if name == "ctr700"@ {
        Definition::Ctr700
    } else if name == "ctr750"@ {
        Definition::Ctr750
    } else if name == "ctr800"@ {
        Definition::Ctr800
    } else {
        Definition::Fallback
    }
}

/// Selects the device definition for `device_name`.
pub fn load_device_definition(device_name: &str) -> (def: Definition)
    ensures
        def == definition_for(device_name@),
{
    if str_equals(device_name, "ctr500") {
        Definition::Ctr500
    } else if str_equals(device_name, "ctr600") {
        Definition::Ctr600
    } else if str_equals(device_name, "ctr700") {
        Definition::Ctr700
    } else if str_equals(device_name, "ctr750") {
        Definition::Ctr750
    } else if str_equals(device_name, "ctr800") {
        Definition::Ctr800
    } else if str_equals(device_name, "pi") {
        Definition::Pi
    } else {
        Definition::Fallback
    }
}

/// Selects the shared-memory device definition for `device_name`.
///
/// `Definition::Fallback` stands for the fallback shared-memory
/// definition, which the I/O library may leave empty.
pub fn load_device_definition_shm(device_name: &str) -> (def: Definition)
    ensures
        def == shm_definition_for(device_name@),
{
    if str_equals(device_name, "ctr700") {
        Definition::Ctr700
    } else if str_equals(device_name, "ctr750") {
        Definition::Ctr750
    } else if str_equals(device_name, "ctr800") {
        Definition::Ctr800
    } else {
        Definition::Fallback
    }
}

/// The two loaders agree: a device that has a shared-memory definition of
/// its own gets the same device from the plain loader, and the
/// shared-memory loader only ever picks such a device or the fallback.
pub proof fn lemma_shm_definition_agrees(name: Seq<char>)
    ensures
        shm_definition_for(name) != Definition::Fallback ==> shm_definition_for(name)
            == definition_for(name),
        shm_definition_for(name) == Definition::Fallback || shm_definition_for(name)
            == Definition::Ctr700 || shm_definition_for(name) == Definition::Ctr750
            || shm_definition_for(name) == Definition::Ctr800,
        definition_for(name) == Definition::Ctr700 ==> shm_definition_for(name)
            == Definition::Ctr700,
        definition_for(name) == Definition::Ctr750 ==> shm_definition_for(name)
            == Definition::Ctr750,
        definition_for(name) == Definition::Ctr800 ==> shm_definition_for(name)
            == Definition::Ctr800,
{
    reveal_strlit("ctr500");
    reveal_strlit("ctr600");
    reveal_strlit("ctr700");
    reveal_strlit("ctr750");
    reveal_strlit("ctr800");
    reveal_strlit("pi");
    if name == "ctr700"@ || name == "ctr750"@ || name == "ctr800"@ {
        assert(name[3] != "ctr500"@[3] || name[4] != "ctr500"@[4]);
        assert(name[3] != "ctr600"@[3] || name[4] != "ctr600"@[4]);
    }
    if name == "ctr750"@ || name == "ctr800"@ {
        assert(name[3] != "ctr700"@[3] || name[4] != "ctr700"@[4]);
    }
    if name == "ctr800"@ {
        assert(name[3] != "ctr750"@[3]);
    }
}

} // verus!

verus! {

/// Each known device name selects its own definition, and only these
/// names select a definition other than the fallback; the shared-memory
/// loader selects a definition of its own exactly for `ctr700`, `ctr750`
/// and `ctr800`.
pub proof fn lemma_known_devices(name: Seq<char>)
    ensures
        definition_for("ctr500"@) == Definition::Ctr500,
        definition_for("ctr600"@) == Definition::Ctr600,
        definition_for("ctr700"@) == Definition::Ctr700,
        definition_for("ctr750"@) == Definition::Ctr750,
        definition_for("ctr800"@) == Definition::Ctr800,
        definition_for("pi"@) == Definition::Pi,
        shm_definition_for("ctr700"@) == Definition::Ctr700,
        shm_definition_for("ctr750"@) == Definition::Ctr750,
        shm_definition_for("ctr800"@) == Definition::Ctr800,
        definition_for(name) != Definition::Fallback ==> name == "ctr500"@ || name == "ctr600"@
            || name == "ctr700"@ || name == "ctr750"@ || name == "ctr800"@ || name == "pi"@,
        shm_definition_for(name) != Definition::Fallback ==> name == "ctr700"@ || name
            == "ctr750"@ || name == "ctr800"@,
{
    reveal_strlit("ctr500");
    reveal_strlit("ctr600");
    reveal_strlit("ctr700");
    reveal_strlit("ctr750");
    reveal_strlit("ctr800");
    reveal_strlit("pi");
    assert("ctr600"@[3] != "ctr500"@[3]);
    assert("ctr700"@[3] != "ctr500"@[3]);
    assert("ctr700"@[3] != "ctr600"@[3]);
    assert("ctr750"@[3] != "ctr500"@[3]);
    assert("ctr750"@[3] != "ctr600"@[3]);
    assert("ctr750"@[4] != "ctr700"@[4]);
    assert("ctr800"@[3] != "ctr500"@[3]);
    assert("ctr800"@[3] != "ctr600"@[3]);
    assert("ctr800"@[3] != "ctr700"@[3]);
    assert("ctr800"@[3] != "ctr750"@[3]);
    assert("pi"@.len() != "ctr500"@.len());
    assert("pi"@.len() != "ctr600"@.len());
    assert("pi"@.len() != "ctr700"@.len());
    assert("pi"@.len() != "ctr750"@.len());
    assert("pi"@.len() != "ctr800"@.len());
}

} // verus!
