use centerpiece::model::Message;
use centerpiece::plugin::resource_monitor::battery::{BatteryPlugin, BatteryReading};
use centerpiece::plugin::resource_monitor::cpu::{bar_for, CpuPlugin};
use centerpiece::plugin::resource_monitor::memory::{memory_entries, MemoryPlugin};
use centerpiece::plugin::resource_monitor::{
    core_entries, disk_entries, CoreReading, DiskReading, MachineReading, ResourceMonitorPlugin,
};

#[test]
fn battery_titles() {
    let mut p = BatteryPlugin::new();
    p.update_entries(&vec![
        BatteryReading {
            charge: String::from("87"),
            state: String::from("charging"),
            time_to_full: Some(String::from(": 1h 5m remaining")),
            time_to_empty: None,
        },
        BatteryReading { charge: String::from("40"), state: String::from("full"), time_to_full: None, time_to_empty: None },
    ]);
    assert_eq!(p.entries.len(), 2);
    assert_eq!(p.entries[0].id, "battery");
    assert_eq!(p.entries[0].title, "87% – charging: 1h 5m remaining");
    assert_eq!(p.entries[1].title, "40% – full");
    assert_eq!(p.entries[0].meta, "Resource Monitor Battery");
    assert_eq!(BatteryPlugin::update_timeout(), Some(2));
    p.update_entries(&vec![]);
    assert!(p.entries.is_empty());
}

#[test]
fn cpu_bars_by_usage() {
    assert_eq!(bar_for(0), " ▁");
    assert_eq!(bar_for(12), " ▁");
    assert_eq!(bar_for(13), " ▂");
    assert_eq!(bar_for(50), " ▄");
    assert_eq!(bar_for(87), " ▇");
    assert_eq!(bar_for(88), " █");
    assert_eq!(bar_for(-1), " █");
}

#[test]
fn cpu_title() {
    let mut p = CpuPlugin::new();
    p.update_entries(23, &vec![5, 60, 100]);
    assert_eq!(p.entries.len(), 1);
    assert_eq!(p.entries[0].id, "cpu");
    assert_eq!(p.entries[0].title, "23% – 3 Cores: ▁ ▅ █");
    assert_eq!(p.entries[0].meta, "Resource Monitor CPU");
}

#[test]
fn memory_title() {
    let mut p = MemoryPlugin::new();
    p.update_entries(4_000_000_000, 16_000_000_000, "4.00", "16.00");
    assert_eq!(p.entries[0].id, "memory");
    assert_eq!(p.entries[0].title, "25% (4.00gb / 16.00gb)");
    let e = memory_entries(2, 3, "0.00", "0.00");
    assert_eq!(e[0].title, "66% (0.00gb / 0.00gb)");
}

#[test]
fn disk_and_core_entries() {
    let disks = disk_entries(&vec![DiskReading {
        mount_point: String::from("/"),
        total: 200,
        available: 50,
        used_gb: String::from("0.00"),
        total_gb: String::from("0.00"),
    }]);
    assert_eq!(disks[0].id, "/");
    assert_eq!(disks[0].title, "/ 75% (0.00gb / 0.00gb)");
    let cores = core_entries(&vec![CoreReading { name: String::from("cpu0"), usage: 42, frequency: 2400 }]);
    assert_eq!(cores[0].title, "cpu0: 42% 2400MHz");
}

#[test]
fn combined_monitor_refreshes_and_searches() {
    let mut m = ResourceMonitorPlugin::new();
    let registered = m.register_plugins();
    assert_eq!(registered.len(), 3);
    assert!(matches!(&registered[0], Message::RegisterPlugin(p) if p.id == "cpu-usage" && p.priority == 13));
    let reading = MachineReading {
        cores: vec![CoreReading { name: String::from("cpu0"), usage: 1, frequency: 1000 }],
        disks: vec![],
        used_memory: 1,
        total_memory: 4,
        used_memory_gb: String::from("0.00"),
        total_memory_gb: String::from("0.00"),
    };
    let messages = m.update_entries(&reading);
    assert_eq!(messages.len(), 3);
    assert!(matches!(&messages[2], Message::UpdateEntries(id, es) if id == "memory-usage" && es[0].title == "25% (0.00gb / 0.00gb)"));
    let messages = m.search(String::from("cpu0"));
    assert_eq!(m.last_query, "cpu0");
    assert!(matches!(&messages[0], Message::UpdateEntries(id, es) if id == "cpu-usage" && es.len() == 1));
    assert!(matches!(&messages[1], Message::UpdateEntries(_, es) if es.is_empty()));
}
