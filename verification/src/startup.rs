//! Choices that are made when the panel program starts.

use vstd::prelude::*;

verus! {

// ---------------------------------------------------------------------------------------------
// Display
// ---------------------------------------------------------------------------------------------
/// Whether the limits for the gap between two taps leave a gap that lies between them.
pub open spec fn is_tap_gap(min_millis: u64, max_millis: u64) -> bool {
    min_millis <= max_millis
}

/// Checks the limits for the gap between two taps: the least must not exceed the greatest.
pub fn check_tap_gap(min_millis: u64, max_millis: u64) -> (valid: bool)
    ensures
        valid == (min_millis <= max_millis),
        valid == is_tap_gap(min_millis, max_millis),
{
    min_millis <= max_millis
}

/// Which display to use.
#[derive(Clone, Copy, Debug, PartialEq, Eq, Structural)]
pub enum DisplaySource {
    /// None: the serial port is simulated.
    Simulated,
    /// The one at a serial device.
    Device,
    /// The one with a USB identifier.
    Usb,
    Default,
}

/// The display to use: the first of these that is asked for.
pub open spec fn chosen_source(simulate: bool, has_device: bool, has_usb: bool) -> DisplaySource {
    if simulate {
        DisplaySource::Simulated
    } else if has_device {
        DisplaySource::Device
    } else if has_usb {
        DisplaySource::Usb
    } else {
        DisplaySource::Default
    }
}

/// Chooses the display. A simulated one takes priority over all others, and a serial device over a
/// USB identifier.
pub fn display_source(simulate: bool, has_device: bool, has_usb: bool) -> (source: DisplaySource)
    ensures
        source is Simulated <==> simulate,
        source is Device <==> !simulate && has_device,
        source is Usb <==> !simulate && !has_device && has_usb,
        source is Default <==> !simulate && !has_device && !has_usb,
        source == chosen_source(simulate, has_device, has_usb),
{
    if simulate {
        DisplaySource::Simulated
    } else if has_device {
        DisplaySource::Device
    } else if has_usb {
        DisplaySource::Usb
    } else {
        DisplaySource::Default
    }
}

/// What to do with the display.
#[derive(Clone, Copy, Debug, PartialEq, Eq, Structural)]
pub enum DisplayTask {
    /// Switch it off and be done.
    Off,
    /// Switch it on and be done.
    On,
    /// Switch it on and show sensor panels.
    Panels,
    /// Switch it on and show an image.
    Image,
    /// Switch it on.
    Blank,
}

/// What to do with the display: the first of these that is asked for.
pub open spec fn chosen_task(off: bool, on: bool, has_config: bool, has_image: bool) -> DisplayTask {
    if off {
        DisplayTask::Off
    } else if on {
        DisplayTask::On
    } else if has_config {
        DisplayTask::Panels
    } else if has_image {
        DisplayTask::Image
    } else {
        DisplayTask::Blank
    }
}

/// Chooses what to do with the display. To switch it off takes priority over to switch it on, both
/// over panels, and panels over an image.
pub fn display_task(off: bool, on: bool, has_config: bool, has_image: bool) -> (task: DisplayTask)
    ensures
        task is Off <==> off,
        task is On <==> !off && on,
        task is Panels <==> !off && !on && has_config,
        task is Image <==> !off && !on && !has_config && has_image,
        task is Blank <==> !off && !on && !has_config && !has_image,
        task == chosen_task(off, on, has_config, has_image),
{
    if off {
        DisplayTask::Off
    } else if on {
        DisplayTask::On
    } else if has_config {
        DisplayTask::Panels
    } else if has_image {
        DisplayTask::Image
    } else {
        DisplayTask::Blank
    }
}

// ---------------------------------------------------------------------------------------------
// Paths
// ---------------------------------------------------------------------------------------------
/// A path in a directory. An absolute path stands for itself.
pub open spec fn path_in(directory: Seq<u8>, path: Seq<u8>) -> Seq<u8> {
    if path.len() > 0 && path[0] == 0x2f {
        path
    } else if directory.len() > 0 && directory.last() != 0x2f {
        directory + seq![0x2fu8] + path
    } else {
        directory + path
    }
}

/// Joins the path of a file with that of a directory, both by their bytes.
pub fn resolve_path(directory: &[u8], path: &[u8]) -> (resolved: Vec<u8>)
    ensures
        resolved@ == path_in(directory@, path@),
{
    let mut resolved: Vec<u8> = Vec::new();
    if path.len() > 0 && path[0] == 0x2f {
        resolved.extend_from_slice(path);
        assert(resolved@ =~= path@);
        return resolved;
    }
    resolved.extend_from_slice(directory);
    assert(resolved@ =~= directory@);
    if directory.len() > 0 && directory[directory.len() - 1] != 0x2f {
        resolved.push(0x2f);
    }
    resolved.extend_from_slice(path);
    assert(resolved@ =~= path_in(directory@, path@));
    resolved
}

/// A resolved path stays as it is when it is resolved again in the same absolute directory.
pub proof fn law_resolved_path_is_settled(directory: Seq<u8>, path: Seq<u8>)
    requires
        directory.len() > 0,
        directory[0] == 0x2f,
    ensures
        path_in(directory, path_in(directory, path)) == path_in(directory, path),
{
}

/// The position of the last dot, or -1 where there is none.
pub open spec fn last_dot(name: Seq<u8>) -> int
    decreases name.len(),
{
    if name.len() == 0 {
        -1
    } else if name.last() == 0x2e {
        name.len() - 1
    } else {
        last_dot(name.drop_last())
    }
}

/// A file name without its extension. A dot at its front starts no extension.
pub open spec fn name_stem(name: Seq<u8>) -> Seq<u8> {
    if last_dot(name) > 0 {
        name.take(last_dot(name))
    } else {
        name
    }
}

/// What is added to the name of a mapping file for the file with the filter.
pub open spec fn filter_mark() -> Seq<u8> {
    seq![0x2d, 0x66, 0x69, 0x6c, 0x74, 0x65, 0x72]
}

/// The name of the file with the filter that goes with a mapping file.
pub open spec fn filter_name(stem: Seq<u8>, extension: Seq<u8>) -> Seq<u8> {
    let base = name_stem(stem + filter_mark());
    if extension.len() > 0 {
        base + seq![0x2eu8] + extension
    } else {
        base
    }
}

proof fn lemma_last_dot_is_inside(name: Seq<u8>)
    ensures
        -1 <= last_dot(name) < name.len(),
    decreases name.len(),
{
    if name.len() > 0 {
        lemma_last_dot_is_inside(name.drop_last());
    }
}

fn find_last_dot(name: &Vec<u8>) -> (end: usize)
    ensures
        end == if last_dot(name@) > 0 {
            last_dot(name@)
        } else {
            name@.len() as int
        },
{
    let mut i: usize = name.len();
    assert(name@.take(i as int) =~= name@);
    while i > 1
        invariant
            i <= name@.len(),
            last_dot(name@) == last_dot(name@.take(i as int)),
        decreases i,
    {
        assert(name@.take(i as int).drop_last() =~= name@.take(i - 1));
        assert(name@.take(i as int).last() == name@[i - 1]);
        if name[i - 1] == 0x2e {
            return i - 1;
        }
        i -= 1;
    }
    proof {
        lemma_last_dot_is_inside(name@.take(i as int));
    }
    name.len()
}

/// The name of the file with the filter, from the stem and the extension of the mapping file.
pub fn filter_file_name(stem: &[u8], extension: &[u8]) -> (name: Vec<u8>)
    ensures
        name@ == filter_name(stem@, extension@),
{
    let mut name: Vec<u8> = Vec::new();
    name.extend_from_slice(stem);
    name.push(0x2d);
    name.push(0x66);
    name.push(0x69);
    name.push(0x6c);
    name.push(0x74);
    name.push(0x65);
    name.push(0x72);
    assert(name@ =~= stem@ + filter_mark());
    proof {
        lemma_last_dot_is_inside(name@);
    }
    let end: usize = find_last_dot(&name);
    name.truncate(end);
    assert(name@ =~= name_stem(stem@ + filter_mark()));
    if extension.len() > 0 {
        name.push(0x2e);
        name.extend_from_slice(extension);
    }
    assert(name@ =~= filter_name(stem@, extension@));
    name
}

// ---------------------------------------------------------------------------------------------
// Laws
// ---------------------------------------------------------------------------------------------
/// Limits between which some gap lies are valid. Of two limits one order is valid, and both are
/// only where they are the same.
pub proof fn law_limits_leave_a_gap(min_millis: u64, max_millis: u64, gap: u64)
    ensures
        min_millis <= gap <= max_millis ==> is_tap_gap(min_millis, max_millis),
        is_tap_gap(min_millis, max_millis) || is_tap_gap(max_millis, min_millis),
        is_tap_gap(min_millis, max_millis) && is_tap_gap(max_millis, min_millis) ==> min_millis
            == max_millis,
{
}

/// A simulated display is used wherever it is asked for. Else a serial device goes before a USB
/// identifier, and where neither is given the default one is used.
pub proof fn law_simulation_goes_before_devices(simulate: bool, has_device: bool, has_usb: bool)
    ensures
        chosen_source(true, has_device, has_usb) == DisplaySource::Simulated,
        chosen_source(false, true, has_usb) == DisplaySource::Device,
        chosen_source(false, false, true) == DisplaySource::Usb,
        chosen_source(false, false, false) == DisplaySource::Default,
        !simulate ==> chosen_source(simulate, has_device, has_usb) != DisplaySource::Simulated,
{
}

/// To switch the display off goes before to switch it on, both before panels, and panels before an
/// image. The display is left blank only where none of these is asked for.
pub proof fn law_switching_goes_before_showing(
    off: bool,
    on: bool,
    has_config: bool,
    has_image: bool,
)
    ensures
        chosen_task(true, on, has_config, has_image) == DisplayTask::Off,
        chosen_task(false, true, has_config, has_image) == DisplayTask::On,
        chosen_task(false, false, true, has_image) == DisplayTask::Panels,
        chosen_task(false, false, false, true) == DisplayTask::Image,
        chosen_task(off, on, has_config, has_image) == DisplayTask::Blank <==> !(off || on
            || has_config || has_image),
{
}

/// A path that starts with a stroke stands for itself in every directory. Any other comes behind
/// the directory, with one stroke between, which the directory may have already; behind no
/// directory it stands alone.
pub proof fn law_paths_are_joined_by_one_stroke(directory: Seq<u8>, path: Seq<u8>)
    ensures
        path_in(directory, seq![0x2fu8] + path) == seq![0x2fu8] + path,
        path.len() > 0 && path[0] != 0x2f && directory.len() > 0 && directory.last() != 0x2f
            ==> path_in(directory, path) == directory + seq![0x2fu8] + path,
        path.len() > 0 && path[0] != 0x2f ==> path_in(directory + seq![0x2fu8], path) == directory
            + seq![0x2fu8] + path,
        path_in(Seq::empty(), path) == path,
        directory.len() > 0 && directory.last() != 0x2f ==> path_in(directory, Seq::empty())
            == directory + seq![0x2fu8],
{
    assert(Seq::<u8>::empty() + path =~= path);
    assert(directory + seq![0x2fu8] + Seq::<u8>::empty() =~= directory + seq![0x2fu8]);
}

proof fn lemma_last_dot(front: Seq<u8>, back: Seq<u8>)
    requires
        !back.contains(0x2e),
    ensures
        last_dot(front + seq![0x2eu8] + back) == front.len(),
        last_dot(back) == -1,
    decreases back.len(),
{
    let name = front + seq![0x2eu8] + back;
    if back.len() == 0 {
        assert(name.last() == 0x2e);
    } else {
        let shorter = back.drop_last();
        assert(back[back.len() - 1] != 0x2e);
        assert(name.drop_last() =~= front + seq![0x2eu8] + shorter);
        assert forall|i: int| 0 <= i < shorter.len() implies #[trigger] shorter[i] != 0x2e by {
            assert(back.contains(back[i]));
        }
        lemma_last_dot(front, shorter);
    }
}

/// The extension of a name starts with its last dot, unless that stands at its front.
pub proof fn law_last_dot_starts_the_extension(front: Seq<u8>, back: Seq<u8>)
    requires
        !back.contains(0x2e),
    ensures
        front.len() > 0 ==> name_stem(front + seq![0x2eu8] + back) == front,
        name_stem(seq![0x2eu8] + back) == seq![0x2eu8] + back,
        name_stem(back) == back,
{
    lemma_last_dot(front, back);
    lemma_last_dot(Seq::empty(), back);
    assert(Seq::<u8>::empty() + seq![0x2eu8] + back =~= seq![0x2eu8] + back);
    assert((front + seq![0x2eu8] + back).take(front.len() as int) =~= front);
}

/// The file with the filter is called like the mapping file, with `-filter` behind the stem, and
/// has the same extension. What stands behind a dot within the stem is left out, and the mark with
/// it.
pub proof fn law_filter_has_the_name_of_the_mapping(
    front: Seq<u8>,
    back: Seq<u8>,
    extension: Seq<u8>,
)
    requires
        !back.contains(0x2e),
    ensures
        ({
            let mark = seq![0x2du8, 0x66, 0x69, 0x6c, 0x74, 0x65, 0x72];
            let ending = seq![0x2eu8] + extension;
            &&& filter_name(back, Seq::empty()) == back + mark
            &&& extension.len() > 0 ==> filter_name(back, extension) == back + mark + ending
            &&& extension.len() > 0 ==> filter_name(seq![0x2eu8] + back, extension) == seq![0x2eu8]
                + back + mark + ending
            &&& front.len() > 0 ==> filter_name(front + seq![0x2eu8] + back, Seq::empty()) == front
            &&& front.len() > 0 && extension.len() > 0 ==> filter_name(
                front + seq![0x2eu8] + back,
                extension,
            ) == front + ending
        }),
{
    let mark = filter_mark();
    let marked = back + mark;
    assert forall|i: int| 0 <= i < marked.len() implies #[trigger] marked[i] != 0x2e by {
        if i < back.len() {
            assert(back.contains(back[i]));
        }
    }
    assert(!marked.contains(0x2e));
    law_last_dot_starts_the_extension(front, marked);
    assert(front + seq![0x2eu8] + back + mark =~= front + seq![0x2eu8] + marked);
    assert(seq![0x2eu8] + back + mark =~= seq![0x2eu8] + marked);
    let ending = seq![0x2eu8] + extension;
    assert(marked + seq![0x2eu8] + extension =~= marked + ending);
    assert(seq![0x2eu8] + marked + seq![0x2eu8] + extension =~= seq![0x2eu8] + back + mark + ending);
    assert(front + seq![0x2eu8] + extension =~= front + ending);
}

} // verus!
