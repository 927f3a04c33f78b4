use component_bus::component::Component;
use component_bus::component::UID;
use component_bus::events::C_Param;
use component_bus::events::EventHandler;
use component_bus::events::PollMode;
use component_bus::events::PollOutcome;
use component_bus::events::Signal;
use component_bus::files::is_prefix;
use component_bus::files::same_path;
use component_bus::files::Filesystem;

const OWNER: UID = [0u8; 16];

fn parts(items: &[&str]) -> Vec<String> {
    items.iter().map(|s| s.to_string()).collect()
}

fn next(bus: &mut EventHandler) -> Signal {
    match bus.poll(PollMode::NonBlocking, 0) {
        PollOutcome::Ready(signal) => signal,
        PollOutcome::Wait(_) => panic!("the poll asked to wait"),
    }
}

fn update(mount: &str) -> Signal {
    Signal::raw("FileSystemUpdate", OWNER, vec![C_Param::from(0, true), C_Param::from_str(mount)])
}

#[test]
fn paths_compare_by_components() {
    assert!(same_path(&parts(&["a", "b"]), &parts(&["a", "b"])));
    assert!(!same_path(&parts(&["a", "b"]), &parts(&["a", "c"])));
    assert!(!same_path(&parts(&["a"]), &parts(&["a", "b"])));
    assert!(is_prefix(&parts(&[]), &parts(&["a"])));
    assert!(is_prefix(&parts(&["a"]), &parts(&["a", "b"])));
    assert!(is_prefix(&parts(&["a", "b"]), &parts(&["a", "b"])));
    assert!(!is_prefix(&parts(&["a", "b"]), &parts(&["a"])));
    assert!(!is_prefix(&parts(&["a"]), &parts(&["ab", "c"])));
}

#[test]
fn new_filesystem_has_nothing_mounted() {
    let fs = Filesystem::new("/srv/disks", "/dev");
    assert_eq!(fs.root(), "/srv/disks");
    assert_eq!(fs.mounted(), 0);
    assert_eq!(fs.uid(), [0u8; 16]);
    assert_eq!(fs.real_path("/anything"), None);
}

#[test]
fn device_path_is_what_follows_the_name() {
    let fs = Filesystem::new("/srv/disks", "/dev");
    assert_eq!(fs.device_path("/dev/disk1"), Some(parts(&["disk1"])));
    assert_eq!(fs.device_path("dev/a/b"), Some(parts(&["a", "b"])));
    assert_eq!(fs.device_path("///dev//disk1/"), Some(parts(&["disk1"])));
    assert_eq!(fs.device_path("/dev"), Some(parts(&[])));
    assert_eq!(fs.device_path("/device/disk1"), None);
    assert_eq!(fs.device_path("/other/disk1"), None);
}

#[test]
fn mount_resolves_paths_below_the_mount_point() {
    let mut bus = EventHandler::new();
    let mut fs = Filesystem::new("/srv/disks", "/dev");
    assert!(fs.mount(&mut bus, "/dev/disk1", "/mnt/a", "/srv/disks/disk1"));
    assert_eq!(fs.mounted(), 1);
    assert_eq!(fs.real_path("/mnt/a"), Some("/srv/disks/disk1/".to_string()));
    assert_eq!(fs.real_path("/mnt/a/x/y.txt"), Some("/srv/disks/disk1/x/y.txt".to_string()));
    assert_eq!(fs.real_path("mnt/a//x/"), Some("/srv/disks/disk1/x".to_string()));
    assert_eq!(fs.real_path("/mnt/ab"), None);
    assert_eq!(fs.real_path("/mnt"), None);
    assert_eq!(bus.len(), 0);
}

#[test]
fn mount_is_refused_for_unknown_or_taken() {
    let mut bus = EventHandler::new();
    let mut fs = Filesystem::new("/srv/disks", "/dev");
    assert!(!fs.mount(&mut bus, "/elsewhere/disk1", "/mnt/a", "/srv/x"));
    assert!(fs.mount(&mut bus, "/dev/disk1", "/mnt/a", "/srv/disks/disk1"));
    assert!(!fs.mount(&mut bus, "/dev/disk1", "/mnt/b", "/srv/disks/disk1"));
    assert!(!fs.mount(&mut bus, "/dev/disk2", "/mnt/a", "/srv/disks/disk2"));
    assert!(!fs.mount(&mut bus, "/dev/disk2", "mnt//a/", "/srv/disks/disk2"));
    assert_eq!(fs.mounted(), 1);
    assert!(fs.mount(&mut bus, "/dev/disk2", "/mnt/b", "/srv/disks/disk2"));
    assert_eq!(fs.mounted(), 2);
}

#[test]
fn deeper_mount_points_win() {
    let mut bus = EventHandler::new();
    let mut fs = Filesystem::new("/srv", "/dev");
    assert!(fs.mount(&mut bus, "/dev/root", "/", "/srv/root"));
    assert!(fs.mount(&mut bus, "/dev/deep", "/a/b/c", "/srv/deep"));
    assert!(fs.mount(&mut bus, "/dev/mid", "/a", "/srv/mid"));
    assert_eq!(fs.real_path("/a/b/c/file"), Some("/srv/deep/file".to_string()));
    assert_eq!(fs.real_path("/a/b/file"), Some("/srv/mid/b/file".to_string()));
    assert_eq!(fs.real_path("/z/file"), Some("/srv/root/z/file".to_string()));
    assert_eq!(fs.real_path("/"), Some("/srv/root/".to_string()));
}

#[test]
fn unmount_removes_the_device() {
    let mut bus = EventHandler::new();
    let mut fs = Filesystem::new("/srv", "/dev");
    assert!(fs.mount(&mut bus, "/dev/one", "/one", "/srv/one"));
    assert!(fs.mount(&mut bus, "/dev/two", "/two", "/srv/two"));
    assert!(!fs.unmount(&mut bus, "/dev/three"));
    assert!(!fs.unmount(&mut bus, "/nowhere/one"));
    assert!(fs.unmount(&mut bus, "/dev/one"));
    assert_eq!(fs.mounted(), 1);
    assert_eq!(fs.real_path("/one/x"), None);
    assert_eq!(fs.real_path("/two/x"), Some("/srv/two/x".to_string()));
    assert!(!fs.unmount(&mut bus, "/dev/one"));
    assert!(fs.mount(&mut bus, "/dev/one", "/one", "/srv/one"));
}

#[test]
fn mounting_publishes_an_update() {
    let mut bus = EventHandler::new();
    let mut fs = Filesystem::new("/srv", "/dev");
    fs.listen(Some(bus.new_emitter(OWNER)));
    assert!(fs.mount(&mut bus, "/dev/one", "//mnt/one", "/srv/one"));
    assert_eq!(next(&mut bus), update("mnt/one"));
    assert!(!fs.mount(&mut bus, "/dev/one", "/again", "/srv/one"));
    assert_eq!(bus.len(), 0);
    assert!(fs.unmount(&mut bus, "/dev/one"));
    assert_eq!(next(&mut bus), update("mnt/one"));
    assert!(!fs.unmount(&mut bus, "/dev/one"));
    assert_eq!(bus.len(), 0);
}
