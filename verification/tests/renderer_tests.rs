use argvus_storage::config::Config;
use argvus_storage::device::Device;
use argvus_storage::i18n::Lang;
use argvus_storage::renderer::{Renderer, SizeText};

fn sizes(c: &str, u: &str, f: &str) -> SizeText {
    SizeText { capacity: c.to_string(), used: u.to_string(), free: f.to_string() }
}

fn stick() -> Device {
    Device {
        name: "STICK".to_string(),
        filesystem: "vfat".to_string(),
        block: "/dev/sdb1".to_string(),
        mount_point: "/run/media/u/STICK".to_string(),
        mounted: true,
        capacity: 1_000_000_000,
        ..Device::default()
    }
}

fn json(s: &str) -> serde_json::Value {
    serde_json::from_str(s).unwrap()
}

#[test]
fn empty_list_is_hidden_by_default() {
    let cfg = Config::default();
    let r = Renderer::new(&cfg, Lang::En).render(&vec![], &vec![]);
    assert_eq!(r.text, "");
    assert_eq!(r.tooltip, "");
    assert_eq!(r.alt, "storage-empty");
    assert_eq!(r.cls, "storage empty");
    let j = json(&r.json);
    assert_eq!(j["text"], "");
    assert_eq!(j["alt"], "storage-empty");
    assert_eq!(j["class"], serde_json::Value::from(vec!["storage", "empty"]));
    assert!(j.get("tooltip").is_none());
    assert_eq!(j.as_object().unwrap().len(), 3);
}

#[test]
fn empty_list_shows_icon_when_not_hidden() {
    let mut cfg = Config::default();
    cfg.hide_when_empty = false;
    let r = Renderer::new(&cfg, Lang::En).render(&vec![], &vec![]);
    assert_eq!(r.text, "\u{f0a0}");
}

#[test]
fn mounted_device_line() {
    let cfg = Config::default();
    let devs = vec![stick()];
    let r = Renderer::new(&cfg, Lang::En)
        .render(&devs, &vec![sizes("1.0 GB", "200.0 MB", "800.0 MB")]);
    assert_eq!(r.text, "\u{f0a0}");
    assert_eq!(
        r.tooltip,
        "Removable devices\n\u{2022} STICK \u{b7} vfat \u{b7} 1.0 GB \u{b7} 200.0 MB used \u{b7} 800.0 MB free \u{b7} /run/media/u/STICK"
    );
    assert_eq!(r.alt, "storage-mounted");
    assert_eq!(r.cls, "storage mounted");
    let j = json(&r.json);
    assert_eq!(j["text"], "\u{f0a0}");
    assert_eq!(j["tooltip"], r.tooltip.as_str());
    assert_eq!(j["alt"], "storage-mounted");
    assert_eq!(j["class"], serde_json::Value::from(vec!["storage", "mounted"]));
}

#[test]
fn json_line_is_sorted_object() {
    let cfg = Config::default();
    let r = Renderer::new(&cfg, Lang::En).render(&vec![], &vec![]);
    assert_eq!(r.json, "{\"alt\":\"storage-empty\",\"class\":[\"storage\",\"empty\"],\"text\":\"\"}");
}

#[test]
fn overflow_and_portuguese() {
    let mut cfg = Config::default();
    cfg.max_devices = 1;
    let a = Device { mounted: false, mount_point: String::new(), ..stick() };
    let b = Device { name: "OTHER".to_string(), ..stick() };
    let s = vec![sizes("1.0 GB", "0 B", "1.0 GB"), sizes("2.0 GB", "1.0 GB", "1.0 GB")];
    let r = Renderer::new(&cfg, Lang::Pt).render(&vec![a, b], &s);
    assert_eq!(
        r.tooltip,
        "Dispositivos remov\u{ed}veis\n\u{2022} STICK \u{b7} vfat \u{b7} 1.0 GB \u{b7} 0 B used \u{b7} 1.0 GB free\n+1 mais"
    );
    // Only the shown device decides: it is not mounted.
    assert_eq!(r.alt, "storage-unmounted");
    assert_eq!(r.cls, "storage unmounted");
    let j = json(&r.json);
    assert_eq!(j["class"], serde_json::Value::from(vec!["storage", "unmounted"]));
}

#[test]
fn state_and_icon_tokens() {
    let mut cfg = Config::default();
    cfg.tooltip_format = "{icon} {name}\n{state}\n  {block}  ".to_string();
    let locked = Device {
        name: "SECRET".to_string(),
        block: "/dev/sdc1".to_string(),
        encrypted: true,
        locked: true,
        read_only: true,
        ..Device::default()
    };
    let ro = Device {
        name: "RO".to_string(),
        block: "/dev/sdd1".to_string(),
        encrypted: true,
        read_only: true,
        mounted: true,
        ..Device::default()
    };
    let plain = Device { name: "P".to_string(), block: "/dev/sde1".to_string(), ..Device::default() };
    let s = vec![sizes("", "", ""), sizes("", "", ""), sizes("", "", "")];
    let r = Renderer::new(&cfg, Lang::En).render(&vec![locked, ro, plain], &s);
    assert_eq!(
        r.tooltip,
        "Removable devices\n\
         \u{2022} \u{f023} SECRET \u{b7} Encrypted \u{b7} Locked \u{b7} Read-only \u{b7} /dev/sdc1\n\
         \u{2022} \u{f023} RO \u{b7} Encrypted \u{b7} Read-only \u{b7} /dev/sdd1\n\
         \u{2022} \u{f0a0} P \u{b7} /dev/sde1"
    );
    let j = json(&r.json);
    assert_eq!(
        j["class"],
        serde_json::Value::from(vec!["storage", "mounted", "readonly", "encrypted"])
    );
}

#[test]
fn portuguese_state_words() {
    let mut cfg = Config::default();
    cfg.tooltip_format = "{state}".to_string();
    let d = Device { encrypted: true, locked: true, read_only: true, ..Device::default() };
    let r = Renderer::new(&cfg, Lang::Pt).render(&vec![d], &vec![sizes("", "", "")]);
    assert_eq!(
        r.tooltip,
        "Dispositivos remov\u{ed}veis\n\u{2022} Criptografado \u{b7} Bloqueado \u{b7} Somente leitura"
    );
}
