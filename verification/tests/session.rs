use kdeshare::device::Device;
use kdeshare::device::select_device;
use kdeshare::run::run_outcome;
use kdeshare::session::discovery_command;
use kdeshare::session::names_input;
use kdeshare::session::on_choice;
use kdeshare::session::on_discovery;
use kdeshare::session::on_transfers_done;
use kdeshare::session::picker_command;
use kdeshare::session::run_error_message;
use kdeshare::session::send_notification;
use kdeshare::session::start;
use kdeshare::session::Step;
use kdeshare::session::TransferBatch;
use kdeshare::text::list_entries;

fn files(names: &[&str]) -> Vec<String> {
    names.iter().map(|n| n.to_string()).collect()
}

fn finish_of(step: Step) -> (String, bool) {
    match step {
        Step::Finish { message, failure } => (message, failure),
        _ => panic!("expected the run to finish"),
    }
}

#[test]
fn no_files_ends_before_discovery() {
    match start(Vec::new()) {
        Step::Finish { message, failure } => {
            assert_eq!(message, "No files passed");
            assert!(failure);
        },
        _ => panic!("with no files, discovery must not be reached"),
    }
}

#[test]
fn files_go_to_discovery() {
    match start(files(&["/tmp/a"])) {
        Step::Discover { files } => assert_eq!(files, vec!["/tmp/a".to_string()]),
        _ => panic!("with files, discovery is next"),
    }
}

#[test]
fn no_devices_ends_before_picker() {
    let (message, failure) = finish_of(on_discovery(files(&["/tmp/a"]), Ok(Vec::new())));
    assert_eq!(message, "No connected devices");
    assert!(failure);
    let (message, failure) = finish_of(on_discovery(files(&["/tmp/a"]), Ok(b"\n  \n".to_vec())));
    assert_eq!(message, "No connected devices");
    assert!(failure);
}

#[test]
fn discovery_error_ends_the_run() {
    let (message, failure) = finish_of(
        on_discovery(files(&["/tmp/a"]), Err("Error in running command: no such file".to_string())),
    );
    assert_eq!(message, "Error in running command: no such file");
    assert!(failure);
}

#[test]
fn parsed_devices_go_to_picker() {
    match on_discovery(files(&["/tmp/a"]), Ok(b"Pixel 6: abcd-1234\n- Laptop: ef01-5678".to_vec())) {
        Step::Pick { files, devices } => {
            assert_eq!(files, vec!["/tmp/a".to_string()]);
            assert_eq!(devices.len(), 2);
            assert_eq!(devices[0].name, "Pixel 6");
            assert_eq!(devices[1].id, "ef01-5678");
        },
        _ => panic!("two devices were discovered, the picker is next"),
    }
}

fn two_devices() -> Vec<Device> {
    vec![
        Device { name: "Pixel 6".to_string(), id: "abcd-1234".to_string() },
        Device { name: "Laptop".to_string(), id: "ef01-5678".to_string() },
    ]
}

#[test]
fn cancelled_picker_is_a_selection_error() {
    let (message, failure) = finish_of(on_choice(files(&["/tmp/a"]), two_devices(), None));
    assert_eq!(message, "Error in selecing device");
    assert!(failure);
}

#[test]
fn unknown_name_is_a_selection_error() {
    let (message, failure) = finish_of(
        on_choice(files(&["/tmp/a"]), two_devices(), Some("Tablet".to_string())),
    );
    assert_eq!(message, "Error in selecing device");
    assert!(failure);
}

#[test]
fn matching_name_starts_the_batch() {
    match on_choice(files(&["/tmp/a"]), two_devices(), Some("Laptop".to_string())) {
        Step::Transfer { batch } => {
            assert_eq!(batch.device.id, "ef01-5678");
            assert_eq!(batch.next, 0);
            assert!(batch.failures.is_empty());
        },
        _ => panic!("a matching name starts the transfers"),
    }
}

#[test]
fn first_matching_device_wins() {
    let devices = vec![
        Device { name: "Laptop".to_string(), id: "first-id".to_string() },
        Device { name: "Laptop".to_string(), id: "second-id".to_string() },
    ];
    let d = select_device(&devices, &"Laptop".to_string()).expect("the name matches");
    assert_eq!(d.id, "first-id");
}

#[test]
fn transfer_commands_walk_the_files() {
    let mut batch = TransferBatch::new(files(&["/tmp/a", "/tmp/b"]), Device {
        name: "Laptop".to_string(),
        id: "ef01-5678".to_string(),
    });
    assert!(!batch.done());
    assert_eq!(
        batch.command(),
        vec!["kdeconnect-cli", "--share", "/tmp/a", "--device", "ef01-5678"]
    );
    batch.record(Ok(Vec::new()));
    assert_eq!(
        batch.command(),
        vec!["kdeconnect-cli", "--share", "/tmp/b", "--device", "ef01-5678"]
    );
    batch.record(Ok(Vec::new()));
    assert!(batch.done());
}

#[test]
fn middle_failure_is_recorded_and_the_batch_goes_on() {
    let mut batch = TransferBatch::new(files(&["/tmp/a", "/tmp/b", "/tmp/c"]), Device {
        name: "Laptop".to_string(),
        id: "ef01-5678".to_string(),
    });
    batch.record(Ok(Vec::new()));
    batch.record(Err("Error in running command: boom".to_string()));
    batch.record(Ok(Vec::new()));
    assert!(batch.done());
    assert_eq!(batch.failures, vec!["/tmp/b: Error in running command: boom".to_string()]);
    let (message, failure) = finish_of(on_transfers_done(batch));
    assert_eq!(message, "The following errors occured: /tmp/b: Error in running command: boom");
    assert!(failure);
}

#[test]
fn single_file_success_names_the_basename() {
    let mut batch = TransferBatch::new(files(&["/tmp/photos/cat.jpg"]), Device {
        name: "Laptop".to_string(),
        id: "ef01-5678".to_string(),
    });
    batch.record(Ok(Vec::new()));
    let (message, failure) = finish_of(on_transfers_done(batch));
    assert_eq!(message, "Sent cat.jpg to Laptop");
    assert!(!failure);
}

#[test]
fn two_file_success_counts_the_files() {
    let mut batch = TransferBatch::new(files(&["/tmp/a", "/tmp/b"]), Device {
        name: "Laptop".to_string(),
        id: "ef01-5678".to_string(),
    });
    batch.record(Ok(Vec::new()));
    batch.record(Ok(Vec::new()));
    let (message, failure) = finish_of(on_transfers_done(batch));
    assert_eq!(message, "Sent 2 files to Laptop");
    assert!(!failure);
}

#[test]
fn many_file_success_counts_in_decimal() {
    let names: Vec<String> = (0..12).map(|i| format!("/tmp/f{}", i)).collect();
    let mut batch = TransferBatch::new(names, Device {
        name: "Laptop".to_string(),
        id: "ef01-5678".to_string(),
    });
    while !batch.done() {
        batch.record(Ok(Vec::new()));
    }
    let (message, failure) = finish_of(on_transfers_done(batch));
    assert_eq!(message, "Sent 12 files to Laptop");
    assert!(!failure);
}

#[test]
fn command_lines_are_fixed() {
    assert_eq!(discovery_command(), vec!["kdeconnect-cli", "-a", "-l"]);
    assert_eq!(picker_command(), vec!["rofi", "-dmenu", "-p", "Pick a device"]);
    assert_eq!(
        send_notification("Sent cat.jpg to Laptop"),
        vec!["notify-send", "KDE Connect", "-i", "kdeconnect", "Sent cat.jpg to Laptop"]
    );
    assert_eq!(run_error_message("boom"), "Error in running command: boom");
}

#[test]
fn picker_input_is_names_one_per_line() {
    assert_eq!(names_input(&two_devices()), "Pixel 6\nLaptop");
    assert_eq!(names_input(&Vec::new()), "");
}

#[test]
fn file_list_drops_blank_entries() {
    let entries = list_entries("/tmp/a\n\n   \n/tmp/b\n");
    assert_eq!(entries, vec!["/tmp/a".to_string(), "/tmp/b".to_string()]);
}

#[test]
fn whole_run_reports_the_one_failure() {
    let env = "/tmp/a\n/tmp/b\n/tmp/c";
    let discovery = Ok(b"- Laptop: ef01-5678\n".to_vec());
    let choice = Some("Laptop".to_string());
    let errs = vec![None, Some("spawn failed".to_string()), None];
    let (message, failure) = run_outcome(env, discovery, choice, errs);
    assert_eq!(message, "The following errors occured: /tmp/b: spawn failed");
    assert!(failure);
}

#[test]
fn identical_replies_give_identical_outcomes() {
    let runs: Vec<(String, bool)> = (0..2)
        .map(|_| {
            run_outcome(
                "/tmp/a\n/tmp/b",
                Ok(b"Pixel 6: abcd-1234\n- Laptop: ef01-5678\n".to_vec()),
                Some("Laptop".to_string()),
                vec![None, None],
            )
        })
        .collect();
    assert_eq!(runs[0], runs[1]);
    assert_eq!(runs[0].0, "Sent 2 files to Laptop");
    assert!(!runs[0].1);
}
