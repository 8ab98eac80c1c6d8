//! The run as a sequence of decisions.
//!
//! A run alternates between outside work (spawning the discovery, picker,
//! transfer and notification commands) and decisions about what to do next.
//! Every decision is made here, as a verified step function from the data the
//! outside handed back to the next [`Step`].  The unverified shell only
//! executes the command each step names and feeds the outcome into the next
//! step function, until it reaches [`Step::Finish`], whose message it hands
//! to the notification command before exiting.

use vstd::prelude::*;
use vstd::string::StrSliceExecFns;
use vstd::string::StringExecFns;
use vstd::utf8::decode_utf8;
use vstd::utf8::valid_utf8;

use crate::device::select_device;
use crate::device::selected;
use crate::device::valid_device;
use crate::device::Device;
use crate::device::DeviceView;
use crate::parser::all_lines_ok;
use crate::parser::devices_spec;
use crate::parser::parse_output;
use crate::parser::ParseError;
use crate::text::basename;
use crate::text::basename_spec;
use crate::text::dec_chars;
use crate::text::format_usize;
use crate::text::join_nl;
use crate::text::join_strings;

verus! {

/// What the shell must do next.
pub enum Step {
    /// Run the discovery command and report its captured output.
    Discover { files: Vec<String> },
    /// Run the picker over the device names and report the first line of its
    /// output, or nothing when it wrote none.
    Pick { files: Vec<String>, devices: Vec<Device> },
    /// Run the transfer command for each remaining file of the batch.
    Transfer { batch: TransferBatch },
    /// Send exactly this notification, and exit non-zero iff `failure`.
    Finish { message: String, failure: bool },
}

pub open spec fn no_files_message() -> Seq<char> {
    "No files passed"@
}

pub open spec fn no_devices_message() -> Seq<char> {
    "No connected devices"@
}

pub open spec fn selection_error_message() -> Seq<char> {
    "Error in selecing device"@
}

pub open spec fn encoding_error_message() -> Seq<char> {
    "Discovery output was not valid text"@
}

pub open spec fn malformed_error_message() -> Seq<char> {
    "Malformed device line in discovery output"@
}

/// How one failed transfer is recorded: the file it concerned and the
/// runner's error, separated by `": "`.
pub open spec fn failure_entry(file: Seq<char>, err: Seq<char>) -> Seq<char> {
    file + ": "@ + err
}

/// The notification when at least one file failed: all recorded failures,
/// newline-joined, behind one fixed preamble.
pub open spec fn failure_report(failures: Seq<Seq<char>>) -> Seq<char> {
    "The following errors occured: "@ + join_nl(failures)
}

/// The notification when every file went through: it names the one file sent,
/// or counts them when there were several.
pub open spec fn success_message(files: Seq<Seq<char>>, name: Seq<char>) -> Seq<char> {
    if files.len() == 1 {
        "Sent "@ + basename_spec(files[0]) + " to "@ + name
    } else {
        "Sent "@ + dec_chars(files.len() as int) + " files to "@ + name
    }
}

/// The single notification that ends a run which reached the transfer stage:
/// failures take priority over reporting success.
pub open spec fn outcome_message(
    files: Seq<Seq<char>>,
    failures: Seq<Seq<char>>,
    name: Seq<char>,
) -> Seq<char> {
    if failures.len() > 0 {
        failure_report(failures)
    } else {
        success_message(files, name)
    }
}

/// The first decision: with no files at all the run ends at once, with its
/// notification, and discovery is never invoked.
pub fn start(files: Vec<String>) -> (r: Step)
    ensures
        files@.len() == 0 ==> (r matches Step::Finish { message, failure } && message@
            == no_files_message() && failure),
        files@.len() > 0 ==> (r matches Step::Discover { files: f } && f == files),
{
    if files.len() == 0 {
        Step::Finish { message: String::from_str("No files passed"), failure: true }
    } else {
        Step::Discover { files }
    }
}

/// The decision after discovery ran: a runner error or unreadable output ends
/// the run with that error's notification; an empty device list ends it with
/// its own; otherwise the picker is next, over exactly the parsed devices.
pub fn on_discovery(files: Vec<String>, output: Result<Vec<u8>, String>) -> (r: Step)
    ensures
        output matches Err(e) ==> (r matches Step::Finish { message, failure } && message == e
            && failure),
        output matches Ok(bytes) ==> (!valid_utf8(bytes@) ==> (r matches Step::Finish {
            message,
            failure,
        } && message@ == encoding_error_message() && failure)),
        output matches Ok(bytes) ==> (valid_utf8(bytes@) && !all_lines_ok(decode_utf8(bytes@))
            ==> (r matches Step::Finish { message, failure } && message@
            == malformed_error_message() && failure)),
        output matches Ok(bytes) ==> (valid_utf8(bytes@) && all_lines_ok(decode_utf8(bytes@))
            && devices_spec(decode_utf8(bytes@)).len() == 0 ==> (r matches Step::Finish {
            message,
            failure,
        } && message@ == no_devices_message() && failure)),
        output matches Ok(bytes) ==> (valid_utf8(bytes@) && all_lines_ok(decode_utf8(bytes@))
            && devices_spec(decode_utf8(bytes@)).len() > 0 ==> (r matches Step::Pick {
            files: f,
            devices: d,
        } && f == files && d.deep_view() == devices_spec(decode_utf8(bytes@)))),
{
    match output {
        Err(e) => Step::Finish { message: e, failure: true },
        Ok(bytes) => {
            match parse_output(bytes) {
                Err(ParseError::Encoding) => Step::Finish {
                    message: String::from_str("Discovery output was not valid text"),
                    failure: true,
                },
                Err(ParseError::MalformedLine) => Step::Finish {
                    message: String::from_str("Malformed device line in discovery output"),
                    failure: true,
                },
                Ok(devs) => {
                    if devs.len() == 0 {
                        Step::Finish {
                            message: String::from_str("No connected devices"),
                            failure: true,
                        }
                    } else {
                        Step::Pick { files, devices: devs }
                    }
                },
            }
        },
    }
}

/// The decision after the picker answered: no answer, an unknown name, or a
/// record that must not be targeted all end the run with the selection
/// error; otherwise the transfer batch starts, aimed at the first device
/// whose name matches exactly.
pub fn on_choice(files: Vec<String>, devices: Vec<Device>, choice: Option<String>) -> (r: Step)
    ensures
        choice is None ==> (r matches Step::Finish { message, failure } && message@
            == selection_error_message() && failure),
        choice matches Some(c) ==> (selected(devices.deep_view(), c@) is None ==> (r matches
            Step::Finish { message, failure } && message@ == selection_error_message()
            && failure)),
        choice matches Some(c) ==> (selected(devices.deep_view(), c@) matches Some(dv) ==> ((
        !valid_device(dv) ==> (r matches Step::Finish { message, failure } && message@
            == selection_error_message() && failure)) && (valid_device(dv) ==> (r matches
            Step::Transfer { batch } && batch.files == files && batch.device@ == dv && batch.next
            == 0 && batch.failures@.len() == 0)))),
{
    match choice {
        None => Step::Finish {
            message: String::from_str("Error in selecing device"),
            failure: true,
        },
        Some(c) => match select_device(&devices, &c) {
            None => Step::Finish {
                message: String::from_str("Error in selecing device"),
                failure: true,
            },
            Some(d) => {
                if d.id.as_str().is_empty() {
                    Step::Finish {
                        message: String::from_str("Error in selecing device"),
                        failure: true,
                    }
                } else {
                    Step::Transfer { batch: TransferBatch::new(files, d) }
                }
            },
        },
    }
}

/// One run's transfer work: the files, the chosen device, how many files have
/// been attempted, and one recorded entry per failed file, in file order.
pub struct TransferBatch {
    pub files: Vec<String>,
    pub device: Device,
    pub next: usize,
    pub failures: Vec<String>,
}

impl TransferBatch {
    /// The position never runs past the batch.
    pub open spec fn wf(self) -> bool {
        self.next <= self.files@.len()
    }

    pub fn new(files: Vec<String>, device: Device) -> (r: Self)
        ensures
            r.files == files,
            r.device == device,
            r.next == 0,
            r.failures@.len() == 0,
            r.wf(),
    {
        TransferBatch { files, device, next: 0, failures: Vec::new() }
    }

    /// Whether every file has been attempted.
    pub fn done(&self) -> (r: bool)
        ensures
            r == (self.next == self.files@.len()),
    {
        self.next == self.files.len()
    }

    /// The transfer command for the current file.
    pub fn command(&self) -> (r: Vec<String>)
        requires
            self.next < self.files@.len(),
        ensures
            r.deep_view() == transfer_command_spec(
                self.device@.id,
                self.files.deep_view()[self.next as int],
            ),
    {
        let mut v: Vec<String> = Vec::new();
        v.push(String::from_str("kdeconnect-cli"));
        v.push(String::from_str("--share"));
        v.push(self.files[self.next].clone());
        v.push(String::from_str("--device"));
        v.push(self.device.id.clone());
        proof {
            assert(v.deep_view() =~~= transfer_command_spec(
                self.device@.id,
                self.files.deep_view()[self.next as int],
            ));
        }
        v
    }

    /// Notes the runner's outcome for the current file and moves on: a
    /// failure appends its entry, a success appends nothing, and the batch is
    /// never aborted early.
    pub fn record(&mut self, outcome: Result<Vec<u8>, String>)
        requires
            old(self).next < old(self).files@.len(),
        ensures
            final(self).files == old(self).files,
            final(self).device == old(self).device,
            final(self).next == old(self).next + 1,
            outcome matches Ok(out) ==> final(self).failures.deep_view() == old(
                self,
            ).failures.deep_view(),
            outcome matches Err(e) ==> final(self).failures.deep_view() == old(
                self,
            ).failures.deep_view().push(
                failure_entry(old(self).files.deep_view()[old(self).next as int], e@),
            ),
    {
        // The batch length bounds `next`, so the increment below cannot
        // overflow.
        let n = self.files.len();
        proof {
            assert(self.next < n);
        }
        match outcome {
            Ok(_) => {},
            Err(e) => {
                let mut entry = self.files[self.next].clone();
                entry.append(": ");
                entry.append(e.as_str());
                let ghost before = self.failures.deep_view();
                self.failures.push(entry);
                proof {
                    assert(self.failures.deep_view() =~~= before.push(
                        failure_entry(self.files.deep_view()[self.next as int], e@),
                    ));
                }
            },
        }
        self.next = self.next + 1;
    }
}

/// The last decision: the single notification that sums the batch up, a
/// failure report taking priority over any success message.
pub fn on_transfers_done(batch: TransferBatch) -> (r: Step)
    ensures
        r matches Step::Finish { message, failure } && message@ == outcome_message(
            batch.files.deep_view(),
            batch.failures.deep_view(),
            batch.device@.name,
        ) && failure == (batch.failures@.len() > 0),
{
    if batch.failures.len() > 0 {
        let mut message = String::from_str("The following errors occured: ");
        message.append(join_strings(&batch.failures).as_str());
        Step::Finish { message, failure: true }
    } else if batch.files.len() == 1 {
        let mut message = String::from_str("Sent ");
        message.append(basename(batch.files[0].as_str()).as_str());
        message.append(" to ");
        message.append(batch.device.name.as_str());
        proof {
            assert(message@ =~= success_message(
                batch.files.deep_view(),
                batch.device@.name,
            ));
        }
        Step::Finish { message, failure: false }
    } else {
        let mut message = String::from_str("Sent ");
        message.append(format_usize(batch.files.len()).as_str());
        message.append(" files to ");
        message.append(batch.device.name.as_str());
        proof {
            assert(message@ =~= success_message(
                batch.files.deep_view(),
                batch.device@.name,
            ));
        }
        Step::Finish { message, failure: false }
    }
}

/// The argument vector of the discovery command: list every available device.
pub open spec fn discovery_command_spec() -> Seq<Seq<char>> {
    seq!["kdeconnect-cli"@, "-a"@, "-l"@]
}

/// Builds the discovery command for the shell to execute.
pub fn discovery_command() -> (r: Vec<String>)
    ensures
        r.deep_view() == discovery_command_spec(),
{
    let mut v: Vec<String> = Vec::new();
    v.push(String::from_str("kdeconnect-cli"));
    v.push(String::from_str("-a"));
    v.push(String::from_str("-l"));
    proof {
        assert(v.deep_view() =~~= discovery_command_spec());
    }
    v
}

/// The argument vector of the transfer command: share one file with the
/// device carrying the given identifier.
pub open spec fn transfer_command_spec(id: Seq<char>, file: Seq<char>) -> Seq<Seq<char>> {
    seq!["kdeconnect-cli"@, "--share"@, file, "--device"@, id]
}

/// The argument vector of the interactive picker, whose standard input
/// receives the candidate names.
pub open spec fn picker_command_spec() -> Seq<Seq<char>> {
    seq!["rofi"@, "-dmenu"@, "-p"@, "Pick a device"@]
}

/// Builds the picker command for the shell to execute.
pub fn picker_command() -> (r: Vec<String>)
    ensures
        r.deep_view() == picker_command_spec(),
{
    let mut v: Vec<String> = Vec::new();
    v.push(String::from_str("rofi"));
    v.push(String::from_str("-dmenu"));
    v.push(String::from_str("-p"));
    v.push(String::from_str("Pick a device"));
    proof {
        assert(v.deep_view() =~~= picker_command_spec());
    }
    v
}

/// What the picker is fed on its standard input: the device names, one per
/// line.
pub open spec fn picker_input_spec(devs: Seq<DeviceView>) -> Seq<char> {
    join_nl(devs.map_values(|d: DeviceView| d.name))
}

/// Builds what the shell writes to the picker's standard input.
#[verifier::loop_isolation(false)]
pub fn names_input(devices: &Vec<Device>) -> (r: String)
    ensures
        r@ == picker_input_spec(devices.deep_view()),
{
    let mut names: Vec<String> = Vec::new();
    let mut i: usize = 0;
    while i < devices.len()
        invariant
            i <= devices.len(),
            names.deep_view().len() == i,
            forall|k: int| 0 <= k < i ==> names.deep_view()[k] == devices.deep_view()[k].name,
        decreases devices.len() - i,
    {
        let ghost before = names.deep_view();
        names.push(devices[i].name.clone());
        proof {
            assert(names.deep_view() =~~= before.push(devices.deep_view()[i as int].name));
        }
        i = i + 1;
    }
    proof {
        assert(names.deep_view() =~~= devices.deep_view().map_values(|d: DeviceView| d.name));
    }
    join_strings(&names)
}

/// The argument vector of the notification command: a fixed title and icon,
/// and the message as the final argument.
pub open spec fn notify_command_spec(msg: Seq<char>) -> Seq<Seq<char>> {
    seq!["notify-send"@, "KDE Connect"@, "-i"@, "kdeconnect"@, msg]
}

/// Builds the command that sends `msg` as the run's one notification; the
/// shell executes it last, whatever the outcome was.
pub fn send_notification(msg: &str) -> (r: Vec<String>)
    ensures
        r.deep_view() == notify_command_spec(msg@),
{
    let mut v: Vec<String> = Vec::new();
    v.push(String::from_str("notify-send"));
    v.push(String::from_str("KDE Connect"));
    v.push(String::from_str("-i"));
    v.push(String::from_str("kdeconnect"));
    v.push(String::from_str(msg));
    proof {
        assert(v.deep_view() =~~= notify_command_spec(msg@));
    }
    v
}

/// How the runner words a failure to start a command.
pub open spec fn run_error_message_spec(detail: Seq<char>) -> Seq<char> {
    "Error in running command: "@ + detail
}

/// Builds the runner's failure text around the system's error description.
pub fn run_error_message(detail: &str) -> (r: String)
    ensures
        r@ == run_error_message_spec(detail@),
{
    let mut m = String::from_str("Error in running command: ");
    m.append(detail);
    m
}

} // verus!
