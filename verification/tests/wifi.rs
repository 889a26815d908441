use centerpiece::model::Activation;
use centerpiece::plugin::wifi::{access_point_entries, icon_for, pick_access_points, AccessPoint, WifiPlugin};

fn ap(ssid: &str, strength: u8, flags: Option<u32>) -> AccessPoint {
    AccessPoint { ssid: ssid.to_string(), strength, rsn_flags: flags }
}

#[test]
fn one_access_point_per_network_strongest_first() {
    let aps = vec![
        ap("home", 40, Some(1)),
        ap("cafe", 70, Some(0)),
        ap("home", 80, Some(2)),
        ap("attic", 70, Some(0)),
        ap("home", 80, Some(3)),
    ];
    let picked = pick_access_points(&aps);
    let shown: Vec<(&str, u8, Option<u32>)> = picked.iter().map(|a| (a.ssid.as_str(), a.strength, a.rsn_flags)).collect();
    assert_eq!(shown, vec![("home", 80, Some(3)), ("cafe", 70, Some(0)), ("attic", 70, Some(0))]);
}

#[test]
fn icons_by_strength_and_security() {
    assert_eq!(icon_for(0, 0), "󰤯");
    assert_eq!(icon_for(55, 0), "󰤢");
    assert_eq!(icon_for(100, 0), "󰤨");
    assert_eq!(icon_for(101, 0), "󰤫");
    assert_eq!(icon_for(20, 8), "󰤬");
    assert_eq!(icon_for(81, 8), "󰤪");
    assert_eq!(icon_for(200, 8), "󰤫");
}

#[test]
fn entries_mark_the_connected_network_and_skip_unknown_security() {
    let aps = vec![ap("home", 90, Some(8)), ap("open", 30, Some(0)), ap("odd", 50, None)];
    let entries = access_point_entries(&aps, "home");
    let titles: Vec<&str> = entries.iter().map(|e| e.title.as_str()).collect();
    assert_eq!(titles, vec!["󰤪 󰄬 home", "󰤟 open"]);
    assert_eq!(entries[0].id, "home");
    assert_eq!(entries[0].action, "connect");
    assert_eq!(entries[0].meta, "wifi wlan wireless lan");
    assert_eq!(
        entries[1].command,
        Some(vec![
            String::from("nmcli"),
            String::from("device"),
            String::from("wifi"),
            String::from("connect"),
            String::from("open"),
        ])
    );
}

#[test]
fn plugin_connects_through_the_entry_command() {
    let mut p = WifiPlugin::new();
    p.update_entries(&vec![ap("net", 60, Some(0))], "");
    assert_eq!(p.entries.len(), 1);
    match p.activate(p.entries[0].copy()) {
        Ok(Activation::Spawn(words)) => assert_eq!(words[0], "nmcli"),
        _ => panic!("expected a command"),
    }
}
