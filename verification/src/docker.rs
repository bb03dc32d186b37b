//! Decisions of the container-engine facade: the image tag, the argument
//! vector a program's features derive, which containers belong to an
//! image, and what one streamed build event means.
//!
//! Driving the engine itself (the HTTP client, the process spawn) is host
//! work done outside the crate against these values.

use vstd::prelude::*;
use crate::program::{Feature, Program, ProgramV};

verus! {

/// The namespaced image tag: prefix, underscore, package name.
pub open spec fn spec_image_tag(prefix: Seq<char>, name: Seq<char>) -> Seq<char> {
    prefix + "_"@ + name
}

/// Builds the namespaced image tag for a package name.
pub fn image_tag(prefix: &str, name: &str) -> (r: String)
    ensures
        r@ == spec_image_tag(prefix@, name@),
{
    String::from_str(prefix).concat("_").concat(name)
}

/// Whether a requested feature set contains `f`.
pub open spec fn has_feature(settings: Seq<Feature>, f: Feature) -> bool {
    exists|i: int| 0 <= i < settings.len() && settings[i] == f
}

/// Checks a feature list for `f`.
pub fn contains_feature(settings: &Vec<Feature>, f: Feature) -> (r: bool)
    ensures
        r == has_feature(settings@, f),
{
    let mut i: usize = 0;
    while i < settings.len()
        invariant
            i <= settings@.len(),
            forall|j: int| 0 <= j < i ==> settings@[j] != f,
        decreases settings@.len() - i,
    {
        if settings[i] == f {
            return true;
        }
        i = i + 1;
    }
    false
}

/// The fixed baseline of every container launch: interactive, host
/// network, removed on exit, shared memory, machine id and the D-Bus
/// system path bound in, privileged.
pub open spec fn spec_baseline_args() -> Seq<Seq<char>> {
    seq![
        "run"@,
        "-ti"@,
        "--net=host"@,
        "--rm"@,
        "-v"@,
        "/dev/shm:/dev/shm"@,
        "-v"@,
        "/etc/machine-id:/etc/machine-id"@,
        "-v"@,
        "/var/lib/dbus:/var/lib/dbus"@,
        "--privileged"@,
    ]
}

/// The full launch argument vector of a program: the baseline, then one
/// addition per requested feature in a fixed order, then the image tag.
///
/// Display binds the X11 socket directory and forwards `DISPLAY`; sound
/// binds the sound devices; home persistence binds the invoking user's
/// home onto itself; timezone binds the host clock configuration;
/// notifications bind the D-Bus system path once more, although the
/// baseline already binds it; devices bind `/dev` wholesale. Webcam and
/// printer requests derive nothing yet.
pub open spec fn spec_run_args(program: ProgramV, home: Seq<char>, prefix: Seq<char>) -> Seq<
    Seq<char>,
> {
    let a = spec_baseline_args();
    let a = if has_feature(program.settings, Feature::Display) {
        a + seq!["-v"@, "/tmp/.X11-unix:/tmp/.X11-unix"@, "--env"@, "DISPLAY"@]
    } else {
        a
    };
    let a = if has_feature(program.settings, Feature::Sound) {
        a + seq!["-v"@, "/dev/snd:/dev/snd"@]
    } else {
        a
    };
    let a = if has_feature(program.settings, Feature::HomePersistent) {
        a + seq!["-v"@, home + ":"@ + home]
    } else {
        a
    };
    let a = if has_feature(program.settings, Feature::Time) {
        a + seq!["-v"@, "/etc/localtime:/etc/localtime"@]
    } else {
        a
    };
    let a = if has_feature(program.settings, Feature::Notification) {
        a + seq!["-v"@, "/var/lib/dbus:/var/lib/dbus"@]
    } else {
        a
    };
    let a = if has_feature(program.settings, Feature::Devices) {
        a + seq!["-v"@, "/dev:/dev"@]
    } else {
        a
    };
    a.push(spec_image_tag(prefix, program.name))
}

/// Derives the launch argument vector of `program`, `home` being the
/// invoking user's home directory and `prefix` the image namespace.
#[verifier::rlimit(60)]
pub fn run_args(program: &Program, home: &str, prefix: &str) -> (r: Vec<String>)
    ensures
        r.deep_view() == spec_run_args(program@, home@, prefix@),
{
    let mut args: Vec<String> = Vec::new();
    args.push(String::from_str("run"));
    args.push(String::from_str("-ti"));
    args.push(String::from_str("--net=host"));
    args.push(String::from_str("--rm"));
    args.push(String::from_str("-v"));
    args.push(String::from_str("/dev/shm:/dev/shm"));
    args.push(String::from_str("-v"));
    args.push(String::from_str("/etc/machine-id:/etc/machine-id"));
    args.push(String::from_str("-v"));
    args.push(String::from_str("/var/lib/dbus:/var/lib/dbus"));
    args.push(String::from_str("--privileged"));
    if contains_feature(&program.settings, Feature::Display) {
        args.push(String::from_str("-v"));
        args.push(String::from_str("/tmp/.X11-unix:/tmp/.X11-unix"));
        args.push(String::from_str("--env"));
        args.push(String::from_str("DISPLAY"));
    }
    if contains_feature(&program.settings, Feature::Sound) {
        args.push(String::from_str("-v"));
        args.push(String::from_str("/dev/snd:/dev/snd"));
    }
    if contains_feature(&program.settings, Feature::HomePersistent) {
        args.push(String::from_str("-v"));
        args.push(String::from_str(home).concat(":").concat(home));
    }
    if contains_feature(&program.settings, Feature::Time) {
        args.push(String::from_str("-v"));
        args.push(String::from_str("/etc/localtime:/etc/localtime"));
    }
    if contains_feature(&program.settings, Feature::Notification) {
        args.push(String::from_str("-v"));
        args.push(String::from_str("/var/lib/dbus:/var/lib/dbus"));
    }
    if contains_feature(&program.settings, Feature::Devices) {
        args.push(String::from_str("-v"));
        args.push(String::from_str("/dev:/dev"));
    }
    args.push(program.get_name(prefix));
    proof {
        assert(args.deep_view() =~= spec_run_args(program@, home@, prefix@));
    }
    args
}

/// The ids among `containers` (pairs of container id and image
/// reference) whose image reference is exactly `image`, in their order.
pub open spec fn spec_containers_of(containers: Seq<(Seq<char>, Seq<char>)>, image: Seq<char>)
    -> Seq<Seq<char>>
    decreases containers.len(),
{
    if containers.len() == 0 {
        Seq::empty()
    } else {
        let pre = spec_containers_of(containers.drop_last(), image);
        if containers.last().1 == image {
            pre.push(containers.last().0)
        } else {
            pre
        }
    }
}

/// Selects the containers instantiated from `image`: teardown deletes
/// exactly these before it deletes the image itself.
pub fn containers_of(containers: &Vec<(String, String)>, image: &str) -> (r: Vec<String>)
    ensures
        r.deep_view() == spec_containers_of(containers.deep_view(), image@),
{
    let mut out: Vec<String> = Vec::new();
    let mut k: usize = 0;
    proof {
        assert(containers.deep_view().subrange(0, 0) =~= Seq::<(Seq<char>, Seq<char>)>::empty());
    }
    while k < containers.len()
        invariant
            k <= containers@.len(),
            containers.deep_view().len() == containers@.len(),
            out.deep_view() == spec_containers_of(
                containers.deep_view().subrange(0, k as int),
                image@,
            ),
        decreases containers@.len() - k,
    {
        let ghost pre = containers.deep_view().subrange(0, k as int);
        let ghost post = containers.deep_view().subrange(0, k as int + 1);
        proof {
            assert(post.drop_last() =~= pre);
            assert(post.last() == containers.deep_view()[k as int]);
        }
        if crate::text::str_eq(containers[k].1.as_str(), image) {
            let ghost old_out = out.deep_view();
            out.push(containers[k].0.clone());
            proof {
                assert(out.deep_view() =~= old_out.push(post.last().0));
            }
        }
        k = k + 1;
    }
    proof {
        assert(containers.deep_view().subrange(0, k as int) =~= containers.deep_view());
    }
    out
}

/// One event of the engine's build stream, already decoded: an error
/// message, a log line, or anything else.
pub enum BuildEvent {
    Error(String),
    Stream(String),
    Other,
}

/// What the facade does with a streamed build event.
#[derive(PartialEq, Eq)]
pub enum BuildAction {
    /// Abort the build and fail with `BuildFailed` carrying the message.
    Abort(String),
    /// Surface the line for observability and keep streaming.
    Log(String),
    /// Keep streaming.
    Ignore,
}

/// Decides one build event: an error aborts the whole build, a stream
/// line is surfaced, anything else is ignored.
pub fn classify_build_event(event: &BuildEvent) -> (r: BuildAction)
    ensures
        match event {
            BuildEvent::Error(m) => r matches BuildAction::Abort(a) && a@ == m@,
            BuildEvent::Stream(m) => r matches BuildAction::Log(l) && l@ == m@,
            BuildEvent::Other => r matches BuildAction::Ignore,
        },
{
    match event {
        BuildEvent::Error(m) => BuildAction::Abort(m.clone()),
        BuildEvent::Stream(m) => BuildAction::Log(m.clone()),
        BuildEvent::Other => BuildAction::Ignore,
    }
}

} // verus!
