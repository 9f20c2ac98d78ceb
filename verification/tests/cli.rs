use colek::cli::{CliArgs, Commands, Job};
use colek::error::ColekError;
use colek::filters::{Filter, Filters};
use colek::hasher::HasherEventDuplicate;
use colek::logger::LogLevel;
use colek::system::{Disk, SystemDiskInfo};

fn disk(name: &str, mount: &str, removable: bool) -> Disk {
    Disk {
        name: Some(name.to_string()),
        mount_point: Some(mount.to_string()),
        path: mount.to_string(),
        removable,
    }
}

fn machine(disks: &Vec<Disk>) -> SystemDiskInfo {
    SystemDiskInfo::new(None, None, None, Some("box".to_string()), disks)
}

#[test]
fn no_generic_drive_is_an_error() {
    let mut sys = machine(&vec![disk("sda1", "/", false), disk("sdb1", "/media/usb", true)]);
    for command in [
        Commands::Stdout,
        Commands::Copy { target: None },
        Commands::Zip { output: Some("/tmp/x".to_string()) },
        Commands::Hash { duplicate: HasherEventDuplicate::Print },
    ] {
        assert_eq!(command.run(&mut sys, Filters::default()).unwrap_err(), ColekError::NoGenericDrive);
    }
}

#[test]
fn the_plan_scans_the_generic_drives() {
    let disks =
        vec![disk("sda1", "/", false), disk("sda2", "/home", false), disk("sda3", "/data", false)];
    let mut sys = machine(&disks);
    let filter = Filters::from(vec![Filter::Video]);
    let plan = Commands::Stdout.run(&mut sys, filter).unwrap();
    assert_eq!(plan.job, Job::Stdout);
    assert_eq!(plan.filter, filter);
    assert_eq!(plan.drives.len(), 2);
    assert_eq!(plan.drives[0].path, "/home");
    assert_eq!(plan.drives[1].path, "/data");
}

#[test]
fn copy_and_zip_go_where_they_are_told() {
    let mut sys = machine(&vec![disk("sda2", "/home", false), disk("sdb1", "/media/usb", true)]);
    let plan =
        Commands::Copy { target: Some("/tmp/out".to_string()) }.run(&mut sys, Filters::default());
    assert_eq!(plan.unwrap().job, Job::Copy { dest: "/tmp/out".to_string() });
    let plan =
        Commands::Zip { output: Some("/tmp/out.zip".to_string()) }.run(&mut sys, Filters::default());
    assert_eq!(plan.unwrap().job, Job::Zip { dest: "/tmp/out.zip".to_string() });
}

#[test]
fn copy_and_zip_default_to_the_removable_drive() {
    let mut sys = machine(&vec![disk("sda2", "/home", false), disk("sdb1", "/media/usb", true)]);
    let plan = Commands::Copy { target: None }.run(&mut sys, Filters::default()).unwrap();
    assert_eq!(plan.job, Job::Copy { dest: "/media/usb/colek_box".to_string() });
    let plan = Commands::Zip { output: None }.run(&mut sys, Filters::default()).unwrap();
    assert_eq!(plan.job, Job::Zip { dest: "/media/usb/colek_box".to_string() });
    let mut sys = machine(&vec![disk("sda2", "/home", false)]);
    let plan = Commands::Copy { target: None }.run(&mut sys, Filters::default()).unwrap();
    assert_eq!(plan.job, Job::Copy { dest: "colek_box".to_string() });
}

#[test]
fn hash_carries_the_action() {
    let mut sys = machine(&vec![disk("sda2", "/home", false)]);
    for duplicate in
        [HasherEventDuplicate::Remove, HasherEventDuplicate::Rename, HasherEventDuplicate::Print]
    {
        let plan = Commands::Hash { duplicate }.run(&mut sys, Filters::default()).unwrap();
        assert_eq!(plan.job, Job::Hash { duplicate });
    }
}

#[test]
fn arguments_without_a_filter_want_images() {
    let args = CliArgs { filter: None, verbose: LogLevel::default(), command: Commands::Stdout };
    assert_eq!(args.filters(), Filters::default());
    assert_eq!(args.verbose, LogLevel::Warn);
    let args = CliArgs {
        filter: Some(vec![Filter::Music, Filter::Video]),
        verbose: LogLevel::Trace,
        command: Commands::Stdout,
    };
    assert_eq!(args.filters(), Filters::from(vec![Filter::Video, Filter::Music]));
    let args = CliArgs { filter: Some(Vec::new()), verbose: LogLevel::Off, command: Commands::Stdout };
    assert!(!args.filters().contains(Filter::All));
}
