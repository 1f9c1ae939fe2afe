use ramup::application::{Application, ApplicationConfig, ApplicationFile};
use ramup::cfg::Config;
use ramup::maccmd::{
    DiskUtil, HdiUtil, HdiUtilInfo, HdiUtilInfoImage, HdiUtilInfoImageSystemEntity,
};
use ramup::ram::RAM;

fn image(dev_entry: &str, mount_point: &str) -> HdiUtilInfoImage {
    HdiUtilInfoImage {
        autodiskmount: false,
        blockcount: 4194304,
        blocksize: 512,
        hdid_pid: 73094,
        icon_path: String::new(),
        image_encrypted: false,
        image_path: "ram://4194304".to_string(),
        image_type: "read/write".to_string(),
        owner_uid: 501,
        removable: true,
        system_entities: vec![HdiUtilInfoImageSystemEntity {
            content_hint: String::new(),
            dev_entry: dev_entry.to_string(),
            mount_point: mount_point.to_string(),
        }],
        writeable: true,
    }
}

fn info(images: Vec<HdiUtilInfoImage>) -> HdiUtilInfo {
    HdiUtilInfo {
        framework: "480.60.1".to_string(),
        revision: "10.13v480.60.1".to_string(),
        images,
        vendor: "Apple".to_string(),
    }
}

/// A driver held in memory: it takes the arguments that the library
/// builds and keeps the list of attached images.
struct Driver {
    images: Vec<HdiUtilInfoImage>,
    next: usize,
}

impl Driver {
    fn new() -> Driver {
        Driver { images: Vec::new(), next: 2 }
    }

    fn report(&self) -> HdiUtilInfo {
        let mut images = Vec::new();
        for i in &self.images {
            images.push(image(&i.system_entities[0].dev_entry, &i.system_entities[0].mount_point));
        }
        info(images)
    }

    fn hdiutil(&mut self, args: Vec<String>) -> String {
        match args[0].as_str() {
            "attach" => {
                assert_eq!(args[1], "-nomount");
                assert!(args[2].starts_with("ram://"));
                let device = format!("/dev/disk{}", self.next);
                self.next += 1;
                let mut attached = image(&device, "");
                attached.image_path = args[2].clone();
                self.images.push(attached);
                format!("{}          \n", device).trim().to_string()
            }
            "detach" => {
                assert_eq!(args[1], "-force");
                let before = self.images.len();
                self.images.retain(|i| {
                    i.system_entities[0].dev_entry != args[2]
                        && i.system_entities[0].mount_point != args[2]
                });
                assert_eq!(self.images.len() + 1, before);
                String::new()
            }
            other => panic!("unknown command {}", other),
        }
    }

    fn diskutil(&mut self, args: Vec<String>) {
        assert_eq!(args[0], "erasevolume");
        assert_eq!(args[1], "HFS+");
        for i in self.images.iter_mut() {
            if i.system_entities[0].dev_entry == args[3] {
                i.system_entities[0].mount_point = format!("/Volumes/{}", args[2]);
                return;
            }
        }
        panic!("no such device {}", args[3]);
    }
}

#[test]
fn erasevolume() {
    let mut driver = Driver::new();
    let name = "RAMDiskForTest";
    let mount_point = driver.hdiutil(HdiUtil::attach(100000));

    driver.diskutil(DiskUtil::erasevolume(&name, &mount_point));
    let devname = format!("{}{}", "/Volumes/", name);
    driver.hdiutil(HdiUtil::detach(&devname));
    assert!(driver.images.is_empty());
}

#[test]
fn exist() {
    let mut driver = Driver::new();
    let mountpoint = driver.hdiutil(HdiUtil::attach(100));
    assert_eq!(HdiUtil::exist(&driver.report(), &mountpoint), true);
    driver.hdiutil(HdiUtil::detach(&mountpoint));

    let mountpoint = driver.hdiutil(HdiUtil::attach(10000));
    let name = "RAMDiskForExistTest";
    driver.diskutil(DiskUtil::erasevolume(&name, &mountpoint));
    assert_eq!(HdiUtil::exist_volume(&driver.report(), &name), true);
    driver.hdiutil(HdiUtil::detach_volume(&name));
    assert_eq!(HdiUtil::exist_volume(&driver.report(), &name), false);
}

#[test]
fn attach_and_detach() {
    let mut driver = Driver::new();
    let mountpoint = driver.hdiutil(HdiUtil::attach(100));
    assert!(mountpoint.len() > 1);
    assert_eq!(driver.images[0].image_path, "ram://100");
    driver.hdiutil(HdiUtil::detach(&mountpoint));
}

#[test]
fn attach_and_detach_volume() {
    let mut driver = Driver::new();
    let mountpoint = driver.hdiutil(HdiUtil::attach(10000));
    let name = "RAMDiskForAttachAndDetachTest";
    driver.diskutil(DiskUtil::erasevolume(name, &mountpoint));
    assert_eq!(HdiUtil::exist_volume(&driver.report(), &name), true);
    driver.hdiutil(HdiUtil::detach_volume(name));
}

#[test]
fn application_config_deserialize() {
    let config = r#"
        name = "example"
        restart = false
        "#;

    let table: toml::Value = toml::from_str(config).unwrap();
    let mut config = ApplicationConfig::new();
    for (key, value) in table.as_table().unwrap() {
        match key.as_str() {
            "name" => config.set_name(value.as_str().unwrap().to_string()),
            "restart" => config.set_restart(value.as_bool().unwrap()),
            "paths" => config.set_paths(
                value.as_array().unwrap().iter().map(|p| p.as_str().unwrap().to_string()).collect(),
            ),
            _ => {}
        }
    }
    let config = config.with_defaults(ApplicationFile::empty());
    assert_eq!(config.name, "example");
    assert_eq!(config.restart, Some(false));
    assert_eq!(config.paths, Some(vec![]));
}

#[test]
fn not_exist() {
    let report = info(vec![image("/dev/disk2", ""), image("/dev/disk3", "/Volumes/RAMDisk")]);
    assert_eq!(HdiUtil::exist(&report, "DevNameForNotExist"), false);
    assert_eq!(HdiUtil::exist(&info(vec![]), "DevNameForNotExist"), false);
}

#[test]
fn exist_finds_devices_and_mount_points() {
    let report = info(vec![image("/dev/disk2", ""), image("/dev/disk3", "/Volumes/RAMDisk")]);
    assert!(HdiUtil::exist(&report, "/dev/disk2"));
    assert!(HdiUtil::exist(&report, "/dev/disk3"));
    assert!(HdiUtil::exist(&report, "/Volumes/RAMDisk"));
    assert!(HdiUtil::exist(&report, ""));
    assert!(!HdiUtil::exist(&report, "/Volumes/Other"));
}

#[test]
fn exist_reads_the_first_entity_only() {
    let mut two = image("/dev/disk2", "");
    two.system_entities.push(HdiUtilInfoImageSystemEntity {
        content_hint: String::new(),
        dev_entry: "/dev/disk2s1".to_string(),
        mount_point: "/Volumes/Second".to_string(),
    });
    let mut none = image("/dev/disk9", "");
    none.system_entities.clear();
    let report = info(vec![none, two]);
    assert!(HdiUtil::exist(&report, "/dev/disk2"));
    assert!(!HdiUtil::exist(&report, "/dev/disk2s1"));
    assert!(!HdiUtil::exist(&report, "/Volumes/Second"));
    assert!(!HdiUtil::exist(&report, "/dev/disk9"));
}

#[test]
fn exist_volume_looks_under_volumes() {
    let report = info(vec![image("/dev/disk3", "/Volumes/RAMDisk")]);
    assert!(HdiUtil::exist_volume(&report, "RAMDisk"));
    assert!(!HdiUtil::exist_volume(&report, "/Volumes/RAMDisk"));
    assert!(!HdiUtil::exist_volume(&report, "RAMDiskForExistTest"));
    assert_eq!(HdiUtil::volume_path("RAMDisk"), "/Volumes/RAMDisk");
}

#[test]
fn command_arguments() {
    assert_eq!(HdiUtil::detach("/dev/disk2"), vec!["detach", "-force", "/dev/disk2"]);
    assert_eq!(
        HdiUtil::detach_volume("RAMDiskForTest"),
        vec!["detach", "-force", "/Volumes/RAMDiskForTest"]
    );
    assert_eq!(
        DiskUtil::erasevolume("RAMDiskForTest", "/dev/disk2"),
        vec!["erasevolume", "HFS+", "RAMDiskForTest", "/dev/disk2"]
    );
}

#[test]
fn attach_names_a_ram_image() {
    assert_eq!(HdiUtil::attach(100), vec!["attach", "-nomount", "ram://100"]);
    assert_eq!(HdiUtil::attach(8388608), vec!["attach", "-nomount", "ram://8388608"]);
    for size in [0, 7, 9, 10, 11, 99, 1000, 4194304, -1, -10, -907, isize::MAX, isize::MIN] {
        assert_eq!(HdiUtil::attach(size)[2], format!("ram://{}", size));
    }
}

#[test]
fn default_volume() {
    let ram = RAM::default();
    assert_eq!(ram.size, 8_388_608);
    assert_eq!(ram.name, "RAMDiskbyRamup");
    assert_eq!(ram.mount_path, "/Volumes");
    let config = Config::new();
    assert_eq!(config.ram.name, "RAMDiskByRamup");
    assert_eq!(config.ram.size, 8388608);
    assert_eq!(config.ram.mount_path, "/Volumes");
    assert!(config.applications.is_empty());
}

#[test]
fn defaults_fill_what_an_application_leaves_open() {
    let defaults = ApplicationFile {
        name: "example".to_string(),
        restart: true,
        paths: vec!["~/example".to_string(), "/opt/example".to_string()],
    };
    let home = Some("/home/u".to_string());

    let bare = Application { name: "example".to_string(), restart: None, paths: vec![] };
    let full = bare.with_defaults(&defaults, &home);
    assert_eq!(full.name, "example");
    assert_eq!(full.restart, Some(true));
    assert_eq!(full.paths, vec!["/home/u/example", "/opt/example"]);

    let own = Application {
        name: "example".to_string(),
        restart: Some(false),
        paths: vec!["~".to_string(), "~/a/~".to_string(), "~other/x".to_string(), "b/~".to_string()],
    };
    let full = own.with_defaults(&defaults, &home);
    assert_eq!(full.restart, Some(false));
    assert_eq!(full.paths, vec!["/home/u", "/home/u/a/~", "~other/x", "b/~"]);

    let homeless = Application { name: "x".to_string(), restart: None, paths: vec!["~/a".to_string()] };
    let full = homeless.with_defaults(&ApplicationFile::empty(), &None);
    assert_eq!(full.restart, Some(false));
    assert_eq!(full.paths, vec!["~/a"]);
}

#[test]
fn an_application_of_the_configuration_takes_defaults() {
    let defaults = || ApplicationFile {
        name: "example".to_string(),
        restart: true,
        paths: vec!["~/example".to_string()],
    };
    let mut app = ApplicationConfig::new();
    assert_eq!(app.name, "");
    app.set_name("example".to_string());
    let filled = app.with_defaults(defaults());
    assert_eq!(filled.name, "example");
    assert_eq!(filled.restart, Some(true));
    assert_eq!(filled.paths, Some(vec!["~/example".to_string()]));

    let mut app = ApplicationConfig::new();
    app.set_name("example".to_string());
    app.set_restart(false);
    app.set_paths(vec![]);
    let filled = app.with_defaults(defaults());
    assert_eq!(filled.restart, Some(false));
    assert_eq!(filled.paths, Some(vec![]));
}

#[test]
fn the_file_of_defaults_is_found_by_name() {
    let names = vec!["chrome.toml".to_string(), "example.toml".to_string(), "example.toml".to_string()];
    assert_eq!(ApplicationFile::find("example", &names), Some(1));
    assert_eq!(ApplicationFile::find("chrome", &names), Some(0));
    assert_eq!(ApplicationFile::find("example.toml", &names), None);
    assert_eq!(ApplicationFile::find("", &names), None);
    let empty = ApplicationFile::empty();
    assert_eq!(empty.name, "");
    assert_eq!(empty.restart, false);
    assert!(empty.paths.is_empty());
}
