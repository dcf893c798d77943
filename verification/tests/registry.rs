use sysworxx_io_py::{
    Callback, CallbackRegistry, InputTrigger, PyExceptionKind, RegisterAction, RegistryError,
    UnregisterAction,
};

fn cb(key: u64, name: &str) -> Callback<String> {
    Callback { key, func: name.to_string() }
}

fn keys(r: &CallbackRegistry<String>, channel: usize) -> Option<Vec<u64>> {
    r.callbacks_of(channel).map(|v| v.iter().map(|c| c.key).collect())
}

#[test]
fn not_callable_is_refused() {
    let r: CallbackRegistry<String> = CallbackRegistry::new();
    assert_eq!(r.plan_register(0, false), Err(RegistryError::NotCallable));
    assert_eq!(RegistryError::NotCallable.message(), "Callback must be callable");
}

#[test]
fn first_callback_attaches_the_input() {
    let mut r = CallbackRegistry::new();
    assert_eq!(r.plan_register(3, true), Ok(RegisterAction::AttachInput(InputTrigger::BothEdge)));
    assert!(r.add_callback(3, cb(7, "a")));
    assert_eq!(r.plan_register(3, true), Ok(RegisterAction::Store));
    assert_eq!(r.plan_register(4, true), Ok(RegisterAction::AttachInput(InputTrigger::BothEdge)));
    assert_eq!(keys(&r, 3), Some(vec![7]));
    assert_eq!(keys(&r, 4), None);
}

#[test]
fn registering_twice_has_no_effect() {
    let mut r = CallbackRegistry::new();
    assert!(r.add_callback(1, cb(10, "first")));
    assert!(!r.add_callback(1, cb(10, "second")));
    assert_eq!(keys(&r, 1), Some(vec![10]));
    assert_eq!(r.callbacks_of(1).unwrap()[0].func, "first");
}

#[test]
fn several_callbacks_per_channel() {
    let mut r = CallbackRegistry::new();
    assert!(r.add_callback(1, cb(10, "a")));
    assert!(r.add_callback(1, cb(11, "b")));
    assert!(r.add_callback(2, cb(10, "c")));
    assert_eq!(keys(&r, 1), Some(vec![10, 11]));
    assert_eq!(keys(&r, 2), Some(vec![10]));
}

#[test]
fn unregister_errors() {
    let mut r = CallbackRegistry::new();
    assert_eq!(r.remove_callback(5, 1), Err(RegistryError::ChannelNotRegistered));
    assert!(r.add_callback(5, cb(1, "a")));
    assert_eq!(r.remove_callback(5, 2), Err(RegistryError::CallbackNotRegistered));
    assert_eq!(keys(&r, 5), Some(vec![1]));
    assert_eq!(RegistryError::ChannelNotRegistered.message(), "Channel not registered");
    assert_eq!(
        RegistryError::CallbackNotRegistered.message(),
        "Provided callback was not registered"
    );
}

#[test]
fn unregister_last_callback_detaches_input() {
    let mut r = CallbackRegistry::new();
    assert!(r.add_callback(5, cb(1, "a")));
    assert!(r.add_callback(5, cb(2, "b")));
    assert_eq!(r.remove_callback(5, 1), Ok(UnregisterAction::Done));
    assert_eq!(keys(&r, 5), Some(vec![2]));
    assert!(!r.finish_unregister(5, true));
    assert_eq!(r.remove_callback(5, 2), Ok(UnregisterAction::DetachInput));
    assert_eq!(keys(&r, 5), Some(vec![]));
    assert!(r.finish_unregister(5, true));
    assert_eq!(keys(&r, 5), None);
    assert!(!r.finish_unregister(5, true));
}

#[test]
fn failed_detach_keeps_the_empty_entry() {
    // When releasing the input-level callback fails, the entry stays and the
    // input stays attached: a later registration stores without attaching.
    let mut r = CallbackRegistry::new();
    assert!(r.add_callback(0, cb(1, "a")));
    assert_eq!(r.remove_callback(0, 1), Ok(UnregisterAction::DetachInput));
    assert_eq!(r.plan_register(0, true), Ok(RegisterAction::Store));
    assert!(r.add_callback(0, cb(1, "a")));
    assert_eq!(keys(&r, 0), Some(vec![1]));
}

#[test]
fn register_then_unregister_restores_state() {
    let mut r = CallbackRegistry::new();
    assert!(r.add_callback(2, cb(4, "x")));
    assert!(r.add_callback(2, cb(9, "y")));
    assert_eq!(r.remove_callback(2, 4), Ok(UnregisterAction::Done));
    assert_eq!(keys(&r, 2), Some(vec![9]));
    assert!(r.add_callback(3, cb(4, "z")));
    assert_eq!(r.remove_callback(3, 4), Ok(UnregisterAction::DetachInput));
    assert!(r.finish_unregister(3, true));
    assert_eq!(keys(&r, 3), None);
    assert_eq!(keys(&r, 2), Some(vec![9]));
}

#[test]
fn refusals_are_value_errors() {
    for e in [
        RegistryError::NotCallable,
        RegistryError::ChannelNotRegistered,
        RegistryError::CallbackNotRegistered,
    ] {
        let p = e.to_py_error();
        assert_eq!(p.kind, PyExceptionKind::ValueError);
        assert_eq!(p.message, e.message());
    }
}

#[test]
fn failed_attach_stores_nothing() {
    let mut r = CallbackRegistry::new();
    assert!(!r.finish_register(6, cb(1, "a"), false));
    assert_eq!(keys(&r, 6), None);
    assert!(r.finish_register(6, cb(1, "a"), true));
    assert_eq!(keys(&r, 6), Some(vec![1]));
    // The channel's input is attached already: the callback is stored.
    assert!(r.finish_register(6, cb(2, "b"), false));
    assert_eq!(keys(&r, 6), Some(vec![1, 2]));
}

#[test]
fn failed_detach_keeps_the_entry() {
    let mut r = CallbackRegistry::new();
    assert!(r.finish_register(7, cb(1, "a"), true));
    assert_eq!(r.remove_callback(7, 1), Ok(UnregisterAction::DetachInput));
    assert!(!r.finish_unregister(7, false));
    assert_eq!(keys(&r, 7), Some(vec![]));
    assert!(r.finish_unregister(7, true));
    assert_eq!(keys(&r, 7), None);
}
