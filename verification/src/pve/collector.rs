//! Collecting reports: what is asked of the host and what is done with the sensors.

use crate::caption::{plain, Caption, PieceView};
use crate::sensors::{entry_views, lemma_entries_are_the_listing, listing, lists, Sensors};
use crate::text::{
    decimal, decimal_text, has_prefix, is_white_space, join2, join4,
    law_trimming_keeps_other_characters, law_trimming_takes_white_space, trim, trimmed,
};
use crate::time::Duration;
use vstd::prelude::*;

verus! {

/// The shell script that the host runs to report on itself.
pub const REMOTE_COMMAND: &'static str = r#"set -eu
node=$(hostname)
task_dir=$(mktemp -d /tmp/aster-pve.XXXXXX)
cleanup() { rm -rf -- "$task_dir"; }
trap cleanup EXIT HUP INT TERM

pvesh get "/nodes/$node/status" --output-format json > "$task_dir/status" &
status_pid=$!
pvesh get /cluster/resources --type vm --output-format json > "$task_dir/guests" &
guests_pid=$!
pvesh get "/nodes/$node/storage" --output-format json > "$task_dir/storage" &
storage_pid=$!
pvesh get "/nodes/$node/network" --output-format json > "$task_dir/network" &
network_pid=$!
wait "$status_pid" "$guests_pid" "$storage_pid" "$network_pid"

printf '__ASTER_NODE__%s\n' "$node"
printf '__ASTER_TIME__'
date '+%H:%M:%S'
printf '__ASTER_STATUS__'
cat "$task_dir/status"
printf '\n__ASTER_GUESTS__'
cat "$task_dir/guests"
printf '\n__ASTER_STORAGE__'
cat "$task_dir/storage"
printf '\n__ASTER_NETWORK__'
cat "$task_dir/network"
printf '\n'
"#;

// ---------------------------------------------------------------------------------------------
// Arguments
// ---------------------------------------------------------------------------------------------
/// What is wrong with the arguments of the collector.
#[derive(Clone, Copy, Debug, PartialEq, Eq, Structural)]
pub enum ArgumentError {
    /// The host is blank or could be taken for an option.
    Host,
    /// The sensors would go nowhere.
    NoOutput,
}

/// The message for a fault in the arguments.
pub open spec fn argument_fault_text(error: ArgumentError) -> Seq<char> {
    match error {
        ArgumentError::Host =>
            "--host must be a non-empty SSH destination and cannot start with '-'"@,
        ArgumentError::NoOutput => "specify --out, --console, or both"@,
    }
}

impl ArgumentError {
    /// The message for the error.
    pub fn message(&self) -> (text: String)
        ensures
            text@ == argument_fault_text(*self),
    {
        match self {
            ArgumentError::Host =>
                "--host must be a non-empty SSH destination and cannot start with '-'".to_owned(),
            ArgumentError::NoOutput => "specify --out, --console, or both".to_owned(),
        }
    }
}

/// Whether `ssh` takes a text for the host: it is not blank, and starts with no hyphen, which would
/// make it an option.
pub open spec fn is_destination(host: Seq<char>) -> bool {
    !(host.len() > 0 && host[0] == '-') && trimmed(host).len() > 0
}

/// Whether the arguments of the collector are in order.
pub open spec fn argument_outcome(host: Seq<char>, to_file: bool, to_console: bool) -> Result<
    (),
    ArgumentError,
> {
    if !is_destination(host) {
        Err(ArgumentError::Host)
    } else if !to_file && !to_console {
        Err(ArgumentError::NoOutput)
    } else {
        Ok(())
    }
}

/// Checks the arguments of the collector: the host, and whether there is a file or a console to
/// write to.
pub fn check_arguments(host: &str, to_file: bool, to_console: bool) -> (outcome: Result<
    (),
    ArgumentError,
>)
    ensures
        outcome == (if !is_destination(host@) {
            Err::<(), ArgumentError>(ArgumentError::Host)
        } else if !to_file && !to_console {
            Err(ArgumentError::NoOutput)
        } else {
            Ok(())
        }),
        outcome == argument_outcome(host@, to_file, to_console),
{
    proof {
        reveal_strlit("-");
        if host@.len() > 0 {
            assert(host@.take(1)[0] == host@[0]);
            assert(host@[0] == '-' ==> host@.take(1) =~= "-"@);
        }
    }
    if has_prefix(host, "-") || trim(host).unicode_len() == 0 {
        return Err(ArgumentError::Host);
    }
    if !to_file && !to_console {
        return Err(ArgumentError::NoOutput);
    }
    Ok(())
}

/// An argument of `ssh`.
#[derive(Debug, PartialEq, Eq)]
pub enum SshArgument {
    Text(String),
    /// The path of the private key.
    Identity,
}

/// An argument by the characters of its text.
pub enum SshArgumentView {
    Text(Seq<char>),
    Identity,
}

impl View for SshArgument {
    type V = SshArgumentView;

    open spec fn view(&self) -> SshArgumentView {
        match *self {
            SshArgument::Text(text) => SshArgumentView::Text(text@),
            SshArgument::Identity => SshArgumentView::Identity,
        }
    }
}

/// The arguments with which `ssh` runs the script on the host.
pub open spec fn ssh_line(connect_timeout: u16, with_identity: bool, host: Seq<char>) -> Seq<
    SshArgumentView,
> {
    let options = seq![
        SshArgumentView::Text("-o"@),
        SshArgumentView::Text("BatchMode=yes"@),
        SshArgumentView::Text("-o"@),
        SshArgumentView::Text("ConnectTimeout="@ + decimal_text(connect_timeout as nat)),
    ];
    let identity = if with_identity {
        seq![SshArgumentView::Text("-i"@), SshArgumentView::Identity]
    } else {
        seq![]
    };
    options + identity + seq![
        SshArgumentView::Text("--"@),
        SshArgumentView::Text(host),
        SshArgumentView::Text(REMOTE_COMMAND@),
    ]
}

/// The arguments with which `ssh` runs the script on the host.
pub fn ssh_arguments(connect_timeout: u16, with_identity: bool, host: &str) -> (arguments: Vec<
    SshArgument,
>)
    ensures
        arguments@.map_values(|argument: SshArgument| argument@) == ssh_line(
            connect_timeout,
            with_identity,
            host@,
        ),
{
    let timeout: String = join2("ConnectTimeout=", decimal(connect_timeout as u128).as_str());
    let mut arguments: Vec<SshArgument> = Vec::new();
    arguments.push(SshArgument::Text("-o".to_owned()));
    arguments.push(SshArgument::Text("BatchMode=yes".to_owned()));
    arguments.push(SshArgument::Text("-o".to_owned()));
    arguments.push(SshArgument::Text(timeout));
    if with_identity {
        arguments.push(SshArgument::Text("-i".to_owned()));
        arguments.push(SshArgument::Identity);
    }
    arguments.push(SshArgument::Text("--".to_owned()));
    arguments.push(SshArgument::Text(host.to_owned()));
    arguments.push(SshArgument::Text(REMOTE_COMMAND.to_owned()));
    assert(arguments@.map_values(|argument: SshArgument| argument@) =~= ssh_line(
        connect_timeout,
        with_identity,
        host@,
    ));
    arguments
}

/// What `ssh` is given behind the end of its options is the host and the script, whatever the host
/// is called.
pub proof fn law_host_is_no_option(connect_timeout: u16, with_identity: bool, host: Seq<char>)
    ensures
        ({
            let line = ssh_line(connect_timeout, with_identity, host);
            &&& line[line.len() - 3] == SshArgumentView::Text("--"@)
            &&& line[line.len() - 2] == SshArgumentView::Text(host)
            &&& line.last() == SshArgumentView::Text(REMOTE_COMMAND@)
        }),
{
}

/// The message for a script that failed, with what it wrote to its standard error.
pub open spec fn failure_line(status: Seq<char>, stderr: Seq<char>) -> Seq<char> {
    "PVE status command failed ("@ + status + "): "@ + trimmed(stderr)
}

/// The message for a script that failed.
pub fn failure_text(status: &str, stderr: &str) -> (text: String)
    ensures
        text@ == failure_line(status@, stderr@),
{
    join4("PVE status command failed (", status, "): ", trim(stderr))
}

// ---------------------------------------------------------------------------------------------
// Output
// ---------------------------------------------------------------------------------------------
/// The line for a sensor.
pub open spec fn sensor_line(key: Seq<char>, caption: Seq<PieceView>) -> Seq<PieceView> {
    plain(key) + plain(": "@) + caption + plain("\n"@)
}

/// The lines for sensors, one behind the other.
pub open spec fn sensor_lines(lines: Seq<(Seq<char>, Seq<PieceView>)>) -> Seq<PieceView>
    decreases lines.len(),
{
    if lines.len() == 0 {
        Seq::empty()
    } else {
        sensor_lines(lines.drop_last()) + sensor_line(lines.last().0, lines.last().1)
    }
}

/// What the sensor file holds: a line for each sensor, in dictionary order of the keys.
pub fn sensor_file(sensors: &Sensors) -> (caption: Caption)
    ensures
        lists(listing(sensors@), sensors@),
        caption@ == sensor_lines(listing(sensors@)),
{
    let entries: &Vec<(String, Caption)> = sensors.entries();
    let ghost lines = entry_views(entries@);
    proof {
        lemma_entries_are_the_listing(entries@);
        assert(lines.take(0) =~= Seq::empty());
    }
    let mut caption: Caption = Caption::empty();
    let mut i: usize = 0;
    while i < entries.len()
        invariant
            i <= entries@.len(),
            lines == entry_views(entries@),
            caption@ == sensor_lines(lines.take(i as int)),
        decreases entries@.len() - i,
    {
        proof {
            assert(lines.take(i as int + 1).drop_last() =~= lines.take(i as int));
            assert(lines.take(i as int + 1).last() == (
                entries@[i as int].0@,
                entries@[i as int].1@,
            ));
        }
        let ghost before = caption@;
        caption =
        caption.with_text(entries[i].0.as_str()).with_text(": ").with_caption(
            &entries[i].1,
        ).with_text("\n");
        assert(caption@ =~= before + sensor_line(entries@[i as int].0@, entries@[i as int].1@));
        i += 1;
    }
    assert(lines.take(i as int) =~= lines);
    caption
}

/// What is written to the console for sensors.
pub open spec fn console_lines(lines: Seq<(Seq<char>, Seq<PieceView>)>) -> Seq<PieceView> {
    sensor_lines(lines) + plain("\n"@)
}

/// What is written to the console: the sensor file and a blank line.
pub fn console_text(sensors: &Sensors) -> (caption: Caption)
    ensures
        caption@ == sensor_lines(listing(sensors@)) + plain("\n"@),
        caption@ == console_lines(listing(sensors@)),
{
    sensor_file(sensors).with_text("\n")
}

// ---------------------------------------------------------------------------------------------
// Refresh
// ---------------------------------------------------------------------------------------------
/// What follows a collection.
#[derive(Clone, Copy, Debug, PartialEq, Eq, Structural)]
pub enum NextCollection {
    /// None follows.
    Never,
    /// One follows at once.
    AtOnce,
    /// One follows after a pause.
    After(Duration),
}

/// What follows a collection, from the interval and the time that the collection took.
pub open spec fn following(refresh: Duration, taken: Duration) -> NextCollection {
    if refresh.nanos == 0 {
        NextCollection::Never
    } else if taken.nanos <= refresh.nanos {
        NextCollection::After(Duration { nanos: (refresh.nanos - taken.nanos) as u128 })
    } else {
        NextCollection::AtOnce
    }
}

/// Decides when to collect again, from the interval and the time that the last collection took.
/// With an interval of zero, there is one collection only.
pub fn next_collection(refresh: Duration, taken: Duration) -> (next: NextCollection)
    ensures
        next == (if refresh.nanos == 0 {
            NextCollection::Never
        } else if taken.nanos <= refresh.nanos {
            NextCollection::After(Duration { nanos: (refresh.nanos - taken.nanos) as u128 })
        } else {
            NextCollection::AtOnce
        }),
        next == following(refresh, taken),
{
    if refresh.nanos == 0 {
        NextCollection::Never
    } else if taken.nanos <= refresh.nanos {
        NextCollection::After(Duration { nanos: refresh.nanos - taken.nanos })
    } else {
        NextCollection::AtOnce
    }
}

// ---------------------------------------------------------------------------------------------
// Laws
// ---------------------------------------------------------------------------------------------
/// A host is refused where it starts with a hyphen or is all white space, and only there. With a
/// host that is accepted, one place to write to is enough, and there has to be one.
pub proof fn law_arguments_need_host_and_output(
    host: Seq<char>,
    position: int,
    to_file: bool,
    to_console: bool,
)
    ensures
        host.len() > 0 && host[0] == '-' ==> argument_outcome(host, to_file, to_console) == Err::<
            (),
            ArgumentError,
        >(ArgumentError::Host),
        (forall|i: int| 0 <= i < host.len() ==> is_white_space(#[trigger] host[i]))
            ==> argument_outcome(host, to_file, to_console) == Err::<(), ArgumentError>(
            ArgumentError::Host,
        ),
        0 <= position < host.len() && !is_white_space(host[position]) && host[0] != '-' ==> {
            &&& argument_outcome(host, false, false) == Err::<(), ArgumentError>(
                ArgumentError::NoOutput,
            )
            &&& argument_outcome(host, true, to_console) == Ok::<(), ArgumentError>(())
            &&& argument_outcome(host, to_file, true) == Ok::<(), ArgumentError>(())
        },
{
    if forall|i: int| 0 <= i < host.len() ==> is_white_space(#[trigger] host[i]) {
        let none = Seq::<char>::empty();
        law_trimming_takes_white_space(host, none, none);
        assert(host + none + none =~= host);
    }
    if 0 <= position < host.len() && !is_white_space(host[position]) {
        law_trimming_keeps_other_characters(host, position);
    }
}

/// The script runs without asking for a password, within the time to connect that is given, and
/// with the private key that is given.
pub proof fn law_ssh_is_given_its_options(connect_timeout: u16, host: Seq<char>)
    ensures
        ssh_line(connect_timeout, false, host) == seq![
            SshArgumentView::Text("-o"@),
            SshArgumentView::Text("BatchMode=yes"@),
            SshArgumentView::Text("-o"@),
            SshArgumentView::Text("ConnectTimeout="@ + decimal_text(connect_timeout as nat)),
            SshArgumentView::Text("--"@),
            SshArgumentView::Text(host),
            SshArgumentView::Text(REMOTE_COMMAND@),
        ],
        ssh_line(connect_timeout, true, host) == seq![
            SshArgumentView::Text("-o"@),
            SshArgumentView::Text("BatchMode=yes"@),
            SshArgumentView::Text("-o"@),
            SshArgumentView::Text("ConnectTimeout="@ + decimal_text(connect_timeout as nat)),
            SshArgumentView::Text("-i"@),
            SshArgumentView::Identity,
            SshArgumentView::Text("--"@),
            SshArgumentView::Text(host),
            SshArgumentView::Text(REMOTE_COMMAND@),
        ],
{
}

/// The file has a line for each sensor: its key, a colon and a space, its caption, and a line end.
pub proof fn law_each_sensor_has_a_line(
    lines: Seq<(Seq<char>, Seq<PieceView>)>,
    key: Seq<char>,
    caption: Seq<PieceView>,
)
    ensures
        sensor_lines(Seq::empty()) == Seq::<PieceView>::empty(),
        sensor_lines(lines.push((key, caption))) == sensor_lines(lines) + seq![
            PieceView::Text(key),
            PieceView::Text(": "@),
        ] + caption + seq![PieceView::Text("\n"@)],
{
    assert(lines.push((key, caption)).drop_last() =~= lines);
    assert(sensor_line(key, caption) =~= seq![PieceView::Text(key), PieceView::Text(": "@)] + caption
        + seq![PieceView::Text("\n"@)]);
    assert(sensor_lines(lines.push((key, caption))) =~= sensor_lines(lines) + seq![
        PieceView::Text(key),
        PieceView::Text(": "@),
    ] + caption + seq![PieceView::Text("\n"@)]);
}

/// With an interval of zero nothing follows. Else the time that a collection took and the pause
/// behind it make up the interval; behind a collection that took longer there is no pause.
pub proof fn law_collections_keep_the_interval(refresh: Duration, taken: Duration)
    ensures
        following(refresh, taken) is Never <==> refresh.nanos == 0,
        following(refresh, taken) is AtOnce <==> 0 < refresh.nanos < taken.nanos,
        following(refresh, taken) matches NextCollection::After(pause) ==> taken.nanos + pause.nanos
            == refresh.nanos,
{
}

/// The message for a script that failed tells the status and what was written, without the white
/// space round it.
pub proof fn law_failure_is_told(
    status: Seq<char>,
    before: Seq<char>,
    message: Seq<char>,
    behind: Seq<char>,
)
    requires
        forall|i: int| 0 <= i < before.len() ==> is_white_space(#[trigger] before[i]),
        forall|i: int| 0 <= i < behind.len() ==> is_white_space(#[trigger] behind[i]),
        message.len() > 0,
        !is_white_space(message[0]),
        !is_white_space(message.last()),
    ensures
        failure_line(status, before + message + behind) == "PVE status command failed ("@ + status
            + "): "@ + message,
{
    law_trimming_takes_white_space(before, message, behind);
}

/// The messages for faults in the arguments.
pub proof fn law_argument_faults_are_told()
    ensures
        argument_fault_text(ArgumentError::Host)
            == "--host must be a non-empty SSH destination and cannot start with '-'"@,
        argument_fault_text(ArgumentError::NoOutput) == "specify --out, --console, or both"@,
{
}

/// An argument is known by its text, or is the place of the private key.
pub proof fn law_arguments_are_known_by_their_texts(argument: SshArgument)
    ensures
        match argument {
            SshArgument::Text(text) => argument@ == SshArgumentView::Text(text@),
            SshArgument::Identity => argument@ is Identity,
        },
{
}

/// The console gets what the file gets, and a line end behind it.
pub proof fn law_console_gets_the_file(lines: Seq<(Seq<char>, Seq<PieceView>)>)
    ensures
        console_lines(lines).drop_last() == sensor_lines(lines),
        console_lines(lines).last() == PieceView::Text("\n"@),
{
    assert(console_lines(lines).drop_last() =~= sensor_lines(lines));
}

} // verus!
