use sysworxx_io_py::{get_channel_info, to_map, ChannelDesc, IoChannelInfo};

fn chan(is_dummy: bool, label: Option<&str>) -> ChannelDesc {
    ChannelDesc { is_dummy, label: label.map(|s| s.to_string()) }
}

fn entries(m: &indexmap::IndexMap<usize, String>) -> Vec<(usize, String)> {
    m.iter().map(|(k, v)| (*k, v.clone())).collect()
}

#[test]
fn dummies_are_left_out_and_labels_kept() {
    let chans = vec![
        chan(false, None),
        chan(true, Some("unused")),
        chan(false, Some("Pump")),
        chan(false, None),
    ];
    let m = to_map("DO", &chans);
    assert_eq!(
        entries(&m),
        vec![(0, "DO0".to_string()), (2, "Pump".to_string()), (3, "DO3".to_string())]
    );
}

#[test]
fn fallback_labels_use_decimal_numbers() {
    let mut chans = Vec::new();
    for _ in 0..13 {
        chans.push(chan(false, None));
    }
    let m = to_map("CNT", &chans);
    assert_eq!(m.len(), 13);
    assert_eq!(m.get(&10).unwrap(), "CNT10");
    assert_eq!(m.get(&12).unwrap(), "CNT12");
    assert_eq!(m.get_index(9).unwrap(), (&9, &"CNT9".to_string()));
}

#[test]
fn empty_and_all_dummy_lists_give_empty_maps() {
    assert!(to_map("DI", &[]).is_empty());
    assert!(to_map("DI", &[chan(true, None), chan(true, Some("x"))]).is_empty());
}

#[test]
fn channel_info_uses_group_prefixes() {
    let info = IoChannelInfo {
        run_led: chan(false, None),
        err_led: chan(true, None),
        run_switch: chan(true, None),
        config_switch: chan(false, None),
        outputs: vec![chan(false, None)],
        inputs: vec![chan(true, None), chan(false, None)],
        analog_inputs: vec![chan(false, None)],
        analog_outputs: vec![chan(false, None)],
        temp_sensors: vec![chan(false, None)],
        counter_inputs: vec![chan(false, None)],
        pwm_outputs: vec![chan(false, Some("Fan"))],
    };
    let res = get_channel_info(&info);
    assert!(res.run_led);
    assert!(!res.err_led);
    assert!(!res.run_switch);
    assert!(res.config_switch);
    assert_eq!(entries(&res.outputs), vec![(0, "DO0".to_string())]);
    assert_eq!(entries(&res.inputs), vec![(1, "DI1".to_string())]);
    assert_eq!(entries(&res.analog_inputs), vec![(0, "AI0".to_string())]);
    assert_eq!(entries(&res.analog_outputs), vec![(0, "AO0".to_string())]);
    assert_eq!(entries(&res.temp_sensors), vec![(0, "TMP0".to_string())]);
    assert_eq!(entries(&res.counter_inputs), vec![(0, "CNT0".to_string())]);
    assert_eq!(entries(&res.pwm_outputs), vec![(0, "Fan".to_string())]);
}
