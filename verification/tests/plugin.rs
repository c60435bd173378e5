use conclave::plugin::{is_plugin_extension, plugin_name_version, PluginContext, PluginError, PluginManager};
use std::sync::{Arc, Mutex};

type NoSend = fn(&[u8]);
type NoConfig = fn(&mut [u8]) -> usize;

#[test]
fn context_holds_ids() {
    let ctx: PluginContext<NoSend, NoConfig> = PluginContext::new("camp", "player");
    assert_eq!(ctx.campaign_id(), "camp");
    assert_eq!(ctx.player_id(), "player");
    let mut buf = [1u8; 4];
    assert_eq!(ctx.get_config(&mut buf), 0);
    assert_eq!(buf, [1u8; 4]);
    ctx.send_event(b"ignored");
}

#[test]
fn context_calls_callbacks() {
    let seen = Arc::new(Mutex::new(Vec::new()));
    let seen2 = seen.clone();
    let ctx: PluginContext<NoSend, NoConfig> = PluginContext::new("c", "p");
    let ctx = ctx
        .with_send_event(move |d: &[u8]| seen2.lock().unwrap().extend_from_slice(d))
        .with_get_config(|b: &mut [u8]| {
            b[0] = 9;
            1
        });
    ctx.send_event(b"hi");
    assert_eq!(&*seen.lock().unwrap(), b"hi");
    let mut buf = [0u8; 2];
    assert_eq!(ctx.get_config(&mut buf), 1);
    assert_eq!(buf[0], 9);
    assert_eq!(ctx.campaign_id(), "c");
}

#[test]
fn load_unload_and_associate() {
    let mut m: PluginManager<()> = PluginManager::new();
    assert!(m.check_not_loaded("dice").is_ok());
    assert_eq!(m.finish_load((), "dice".to_string(), "1.0".to_string(), 0).unwrap(), "dice");
    assert!(matches!(m.check_not_loaded("dice"), Err(PluginError::AlreadyLoaded(n)) if n == "dice"));
    assert!(matches!(
        m.finish_load((), "dice".to_string(), "2.0".to_string(), 0),
        Err(PluginError::AlreadyLoaded(_))
    ));
    assert_eq!(m.list_plugins(), vec![("dice".to_string(), "1.0".to_string())]);

    m.associate_with_campaign("c1", "dice").unwrap();
    m.associate_with_campaign("c1", "dice").unwrap();
    assert_eq!(m.get_campaign_plugins("c1"), vec!["dice".to_string(), "dice".to_string()]);
    assert!(matches!(m.associate_with_campaign("c1", "maps"), Err(PluginError::NotFound(n)) if n == "maps"));
    assert!(m.get_campaign_plugins("c2").is_empty());

    m.unload_plugin("dice").unwrap();
    assert!(m.get_campaign_plugins("c1").is_empty());
    assert!(m.list_plugins().is_empty());
    assert!(matches!(m.unload_plugin("dice"), Err(PluginError::NotFound(_))));
}

#[test]
fn failed_init_is_reported_with_its_code() {
    let mut m: PluginManager<()> = PluginManager::new();
    match m.finish_load((), "bad".to_string(), "1".to_string(), -3) {
        Err(PluginError::LoadError(text)) => assert_eq!(text, "Init failed with code -3"),
        _ => panic!("expected LoadError"),
    }
    assert!(m.list_plugins().is_empty());
}

#[test]
fn unload_keeps_other_plugins() {
    let mut m: PluginManager<u32> = PluginManager::new();
    m.finish_load(1, "a".to_string(), "1".to_string(), 0).unwrap();
    m.finish_load(2, "b".to_string(), "2".to_string(), 0).unwrap();
    m.associate_with_campaign("c", "a").unwrap();
    m.associate_with_campaign("c", "b").unwrap();
    m.associate_with_campaign("c", "a").unwrap();
    m.unload_plugin("a").unwrap();
    assert_eq!(m.get_campaign_plugins("c"), vec!["b".to_string()]);
    assert_eq!(m.list_plugins(), vec![("b".to_string(), "2".to_string())]);
}

#[test]
fn init_codes() {
    assert!(conclave::plugin::check_init_result(0).is_ok());
    match conclave::plugin::check_init_result(17) {
        Err(PluginError::LoadError(t)) => assert_eq!(t, "Init failed with code 17"),
        _ => panic!("expected LoadError"),
    }
}

#[test]
fn latest_config_callback_fills_the_buffer() {
    let ctx = PluginContext::<NoSend, NoConfig>::new("c", "p")
        .with_get_config(|_b: &mut [u8]| 99)
        .with_get_config(|b: &mut [u8]| {
            b[0] = 42;
            1
        });
    let mut buf = [0u8; 4];
    assert_eq!(ctx.get_config(&mut buf), 1);
    assert_eq!(buf, [42, 0, 0, 0]);
}

#[test]
fn config_without_callback_leaves_buffer() {
    let ctx = PluginContext::<NoSend, NoConfig>::new("c", "p");
    let mut buf = [7u8; 3];
    assert_eq!(ctx.get_config(&mut buf), 0);
    assert_eq!(buf, [7, 7, 7]);
}

#[test]
fn send_event_hands_data_to_latest_callback() {
    let first = Arc::new(Mutex::new(Vec::<Vec<u8>>::new()));
    let second = Arc::new(Mutex::new(Vec::<Vec<u8>>::new()));
    let f1 = first.clone();
    let f2 = second.clone();
    let ctx = PluginContext::<NoSend, NoConfig>::new("c", "p")
        .with_send_event(move |d: &[u8]| f1.lock().unwrap().push(d.to_vec()))
        .with_send_event(move |d: &[u8]| f2.lock().unwrap().push(d.to_vec()));
    ctx.send_event(b"abc");
    ctx.send_event(b"");
    assert!(first.lock().unwrap().is_empty());
    assert_eq!(*second.lock().unwrap(), vec![b"abc".to_vec(), Vec::new()]);
}

#[test]
fn plugin_extensions() {
    assert!(is_plugin_extension("so"));
    assert!(is_plugin_extension("dll"));
    assert!(is_plugin_extension("dylib"));
    assert!(!is_plugin_extension("txt"));
    assert!(!is_plugin_extension("SO"));
    assert!(!is_plugin_extension(""));
    assert!(!is_plugin_extension("dylibs"));
}

#[test]
fn plugin_info_defaults() {
    assert_eq!(plugin_name_version(None, None), ("unknown".to_string(), "0.0.0".to_string()));
    assert_eq!(
        plugin_name_version(Some("dice".to_string()), None),
        ("dice".to_string(), "0.0.0".to_string())
    );
    assert_eq!(
        plugin_name_version(Some("dice".to_string()), Some("1.2.3".to_string())),
        ("dice".to_string(), "1.2.3".to_string())
    );
}
