//! The start of a machine: what QEMU is launched with, and when it counts as started.

use vstd::prelude::*;

use crate::config::{Config, Image, Profile};
use crate::ids::{format_uuid, hyphenated_uuid, law_hyphenated_uuid_is_injective,
    law_text_writes_one_uuid, parse_uuid, writes_uuid};
use crate::path::{join, joined};
use crate::resource::{build_resource_path, image_resources, law_every_part_of_an_image_is_prepared,
    lemma_joined_is_injective, lemma_joined_parts, resource_path};
use crate::text::{concat2, law_texts_are_those_of_the_strings, push_text, texts};

verus! {

/// The directory that holds the sockets of the machines.
pub open spec fn sock_directory(config: Config) -> Seq<char> {
    joined(config.working_directory@, "sock"@)
}

/// The path of the socket on which the machine of the task `id` shows its screen.
pub open spec fn sock_path(config: Config, id: u128) -> Seq<char> {
    joined(sock_directory(config), hyphenated_uuid(id))
}

/// The path of the socket on which the machine of the task `id` shows its screen.
pub fn build_sock_path(config: &Config, id: u128) -> (path: String)
    ensures
        path@ == sock_path(*config, id),
{
    let directory = join(&config.working_directory, "sock");
    let name = format_uuid(id);
    join(&directory, &name)
}

/// Machines of different tasks have different sockets.
pub proof fn law_sock_paths_are_distinct(config: Config, a: u128, b: u128)
    requires
        a != b,
    ensures
        sock_path(config, a) != sock_path(config, b),
{
    if sock_path(config, a) == sock_path(config, b) {
        assert(hyphenated_uuid(a)[0] != '/' && hyphenated_uuid(b)[0] != '/');
        lemma_joined_is_injective(sock_directory(config), hyphenated_uuid(a), hyphenated_uuid(b));
        law_hyphenated_uuid_is_injective(a, b);
    }
}

/// The arguments that every machine is launched with.
pub open spec fn machine_args() -> Seq<Seq<char>> {
    seq![
        "--enable-kvm"@,
        "-m"@,
        "256M"@,
        "-smp"@,
        "2"@,
        "-device"@,
        "intel-iommu,intremap=on"@,
        "-machine"@,
        "q35,kernel-irqchip=split"@,
        "-cpu"@,
        "host"@,
    ]
}

/// The arguments that make a machine show its screen on the socket at `sock`.
pub open spec fn display_args(sock: Seq<char>) -> Seq<Seq<char>> {
    seq!["-vnc"@, "unix:"@ + sock]
}

/// The arguments that make a machine boot from `image`.
pub open spec fn image_args(config: Config, image: Image) -> Seq<Seq<char>> {
    match image {
        Image::Iso(iso) => seq!["-cdrom"@, resource_path(config, iso.sha256@)],
        Image::Multiboot { kernel, ramdisk, cmdline } => {
            seq!["-kernel"@, resource_path(config, kernel.sha256@)] + (match ramdisk {
                Some(ramdisk) => seq!["-initrd"@, resource_path(config, ramdisk.sha256@)],
                None => Seq::empty(),
            }) + (match cmdline {
                Some(cmdline) => seq!["-append"@, cmdline@],
                None => Seq::empty(),
            })
        },
    }
}

/// A program to run, and the socket that it is to open.
#[derive(Debug)]
pub struct QemuLaunch {
    pub program: String,
    pub args: Vec<String>,
    pub sock_path: String,
}

impl QemuLaunch {
    /// Whether this launches the machine of the task `id` with `profile`.
    pub open spec fn launches(&self, config: Config, id: u128, profile: Profile) -> bool {
        &&& self.program@ == "qemu-system-x86_64"@
        &&& self.sock_path@ == sock_path(config, id)
        &&& texts(self.args@) == machine_args() + display_args(sock_path(config, id)) + image_args(
            config,
            profile.image,
        )
    }
}

/// The launch of the machine of the task `id` with `profile`.
pub fn qemu_launch(config: &Config, id: u128, profile: &Profile) -> (launch: QemuLaunch)
    ensures
        launch.launches(*config, id, *profile),
{
    let mut args: Vec<String> = Vec::new();
    push_text(&mut args, "--enable-kvm");
    push_text(&mut args, "-m");
    push_text(&mut args, "256M");
    push_text(&mut args, "-smp");
    push_text(&mut args, "2");
    push_text(&mut args, "-device");
    push_text(&mut args, "intel-iommu,intremap=on");
    push_text(&mut args, "-machine");
    push_text(&mut args, "q35,kernel-irqchip=split");
    push_text(&mut args, "-cpu");
    push_text(&mut args, "host");
    assert(texts(args@) =~= machine_args());

    let sockpath = build_sock_path(config, id);
    let display = concat2("unix:", &sockpath);
    push_text(&mut args, "-vnc");
    push_text(&mut args, &display);
    let ghost before_image = texts(args@);
    assert(before_image =~= machine_args() + display_args(sock_path(*config, id)));

    match &profile.image {
        Image::Iso(iso) => {
            let path = build_resource_path(config, &iso.sha256);
            push_text(&mut args, "-cdrom");
            push_text(&mut args, &path);
        },
        Image::Multiboot { kernel, ramdisk, cmdline } => {
            let path = build_resource_path(config, &kernel.sha256);
            push_text(&mut args, "-kernel");
            push_text(&mut args, &path);
            if let Some(ramdisk) = ramdisk {
                let path = build_resource_path(config, &ramdisk.sha256);
                push_text(&mut args, "-initrd");
                push_text(&mut args, &path);
            }
            if let Some(cmdline) = cmdline {
                push_text(&mut args, "-append");
                push_text(&mut args, cmdline);
            }
        },
    }
    assert(texts(args@) =~= before_image + image_args(*config, profile.image));
    QemuLaunch { program: "qemu-system-x86_64".to_owned(), args, sock_path: sockpath }
}

/// Whether `plan` launches the machine of the task whose UUID `id` writes, with `profile`,
/// or is an error where `id` writes none.
pub open spec fn plans(
    config: Config,
    id: Seq<char>,
    profile: Profile,
    plan: Result<QemuLaunch, String>,
) -> bool {
    match plan {
        Ok(launch) => exists|value: u128| #[trigger]
            writes_uuid(id, value) && launch.launches(config, value, profile),
        Err(error) => {
            &&& forall|value: u128| !#[trigger] writes_uuid(id, value)
            &&& error@ == "start_qemu: Cannot parse task id"@
        },
    }
}

/// The launch of the machine of the task whose UUID `id` writes, with `profile`; an error
/// where `id` writes none.
pub fn plan_qemu(config: &Config, id: &str, profile: &Profile) -> (plan: Result<QemuLaunch, String>)
    ensures
        plans(*config, id@, *profile, plan),
{
    match parse_uuid(id) {
        Ok(value) => Ok(qemu_launch(config, value, profile)),
        Err(_) => Err("start_qemu: Cannot parse task id".to_owned()),
    }
}

/// How far a launch has come.
#[derive(Debug)]
pub enum BootPhase {
    /// What an earlier machine has left at the path of the socket is being removed.
    Clearing { launch: QemuLaunch },
    /// The program is being run.
    Spawning { sock_path: String },
    /// After a pause the socket is looked for.
    Polling { sock_path: String },
    /// The socket was not there; whether the program has ended is being found out.
    Checking { sock_path: String },
    /// The launch is over.
    Over,
}

/// What has become of a launch. An error or a status is given as it is printed for
/// debugging.
#[derive(Debug)]
pub enum BootEvent {
    /// The removal was tried; it does not matter whether there was anything to remove.
    Cleared,
    /// The program could not be run.
    SpawnFailed { error: String },
    /// The program runs.
    Spawned,
    /// After the pause the socket was there.
    SocketFound,
    /// After the pause the socket was not there.
    SocketMissing,
    /// The program has not ended.
    Running,
    /// The program has ended.
    Exited { status: String },
    /// Whether the program has ended could not be found out.
    WaitFailed { error: String },
}

/// What to do next about a launch.
#[derive(Debug)]
pub enum BootAction {
    /// Remove the file at `path`, if there is one.
    RemoveFile { path: String },
    /// Run the program.
    Spawn { program: String, args: Vec<String> },
    /// Pause for a time, then see whether the socket is there.
    Poll { pause_millis: u64, sock_path: String },
    /// See whether the program has ended.
    CheckExit,
    /// The machine has started, and shows its screen on this socket.
    Ready { sock_path: String },
    /// The machine has not started.
    Fail { error: String },
}

/// One step of a launch: how far it has come, and what to do next.
#[derive(Debug)]
pub struct BootStep {
    pub phase: BootPhase,
    pub action: BootAction,
}

/// The time, in milliseconds, between two looks at the socket.
pub const BOOT_POLL_MILLIS: u64 = 50;

/// Whether `step` starts with `launch`: it removes what is at the path of the socket.
pub open spec fn boot_starts(launch: QemuLaunch, step: BootStep) -> bool {
    &&& step.phase == (BootPhase::Clearing { launch })
    &&& step.action matches BootAction::RemoveFile { path } && path@ == launch.sock_path@
}

/// Whether `event` can be what came of the last action of `phase`.
pub open spec fn boot_expects(phase: BootPhase, event: BootEvent) -> bool {
    match phase {
        BootPhase::Clearing { .. } => event is Cleared,
        BootPhase::Spawning { .. } => event is Spawned || event is SpawnFailed,
        BootPhase::Polling { .. } => event is SocketFound || event is SocketMissing,
        BootPhase::Checking { .. } => event is Running || event is Exited || event is WaitFailed,
        BootPhase::Over => false,
    }
}

/// Whether `step` looks for the socket at `path` after a pause.
pub open spec fn boot_polls(path: Seq<char>, step: BootStep) -> bool {
    &&& step.phase matches BootPhase::Polling { sock_path } && sock_path@ == path
    &&& step.action matches BootAction::Poll { pause_millis, sock_path } && pause_millis
        == BOOT_POLL_MILLIS && sock_path@ == path
}

/// Whether `step` gives a launch up with `error`.
pub open spec fn boot_fails(error: Seq<char>, step: BootStep) -> bool {
    &&& step.phase is Over
    &&& step.action matches BootAction::Fail { error: text } && text@ == error
}

/// Whether a launch that has come to `phase` goes on with `step` after `event`.
pub open spec fn boot_follows(phase: BootPhase, event: BootEvent, step: BootStep) -> bool {
    match (phase, event) {
        (BootPhase::Clearing { launch }, BootEvent::Cleared) => {
            &&& step.phase == (BootPhase::Spawning { sock_path: launch.sock_path })
            &&& step.action == (BootAction::Spawn { program: launch.program, args: launch.args })
        },
        (BootPhase::Spawning { .. }, BootEvent::SpawnFailed { error }) => {
            boot_fails("cannot start qemu: "@ + error@, step)
        },
        (BootPhase::Spawning { sock_path }, BootEvent::Spawned) => boot_polls(sock_path@, step),
        (BootPhase::Polling { sock_path }, BootEvent::SocketFound) => {
            &&& step.phase is Over
            &&& step.action == (BootAction::Ready { sock_path })
        },
        (BootPhase::Polling { sock_path }, BootEvent::SocketMissing) => {
            &&& step.phase == (BootPhase::Checking { sock_path })
            &&& step.action is CheckExit
        },
        (BootPhase::Checking { sock_path }, BootEvent::Running) => boot_polls(sock_path@, step),
        (BootPhase::Checking { .. }, BootEvent::Exited { status }) => {
            boot_fails("qemu early exit: "@ + status@, step)
        },
        (BootPhase::Checking { .. }, BootEvent::WaitFailed { error }) => {
            boot_fails("error on qemu try_wait: "@ + error@, step)
        },
        _ => false,
    }
}

/// Starts with a launch.
pub fn begin_boot(launch: QemuLaunch) -> (step: BootStep)
    ensures
        boot_starts(launch, step),
{
    let path = launch.sock_path.clone();
    BootStep {
        phase: BootPhase::Clearing { launch },
        action: BootAction::RemoveFile { path },
    }
}

/// Looks for the socket at `sock_path` after a pause.
fn poll_step(sock_path: String) -> (step: BootStep)
    ensures
        boot_polls(sock_path@, step),
{
    let path = sock_path.clone();
    BootStep {
        phase: BootPhase::Polling { sock_path },
        action: BootAction::Poll { pause_millis: BOOT_POLL_MILLIS, sock_path: path },
    }
}

/// Gives a launch up.
fn fail_step(error: String) -> (step: BootStep)
    ensures
        boot_fails(error@, step),
{
    BootStep { phase: BootPhase::Over, action: BootAction::Fail { error } }
}

/// Takes a launch that has come to `phase` on after `event`.
pub fn boot_step(phase: BootPhase, event: BootEvent) -> (step: BootStep)
    requires
        boot_expects(phase, event),
    ensures
        boot_follows(phase, event, step),
{
    match (phase, event) {
        (BootPhase::Clearing { launch }, _) => {
            let QemuLaunch { program, args, sock_path } = launch;
            BootStep {
                phase: BootPhase::Spawning { sock_path },
                action: BootAction::Spawn { program, args },
            }
        },
        (BootPhase::Spawning { .. }, BootEvent::SpawnFailed { error }) => {
            fail_step(concat2("cannot start qemu: ", &error))
        },
        (BootPhase::Spawning { sock_path }, _) => poll_step(sock_path),
        (BootPhase::Polling { sock_path }, BootEvent::SocketFound) => BootStep {
            phase: BootPhase::Over,
            action: BootAction::Ready { sock_path },
        },
        (BootPhase::Polling { sock_path }, _) => BootStep {
            phase: BootPhase::Checking { sock_path },
            action: BootAction::CheckExit,
        },
        (BootPhase::Checking { .. }, BootEvent::Exited { status }) => {
            fail_step(concat2("qemu early exit: ", &status))
        },
        (BootPhase::Checking { .. }, BootEvent::WaitFailed { error }) => {
            fail_step(concat2("error on qemu try_wait: ", &error))
        },
        (BootPhase::Checking { sock_path }, _) => poll_step(sock_path),
        (BootPhase::Over, _) => fail_step(String::new()),
    }
}

/// The course of a launch: the step that it starts with and those that the events lead to.
pub struct BootCourse {
    pub steps: Seq<BootStep>,
    pub events: Seq<BootEvent>,
}

impl BootCourse {
    /// Whether the event at `at` comes of the step before it and leads to the next.
    pub open spec fn step_taken(self, at: int) -> bool {
        &&& boot_expects(self.steps[at].phase, self.events[at])
        &&& boot_follows(self.steps[at].phase, self.events[at], self.steps[at + 1])
    }

    /// Whether this is a course of `launch`.
    pub open spec fn taken(self, launch: QemuLaunch) -> bool {
        &&& self.steps.len() == self.events.len() + 1
        &&& boot_starts(launch, self.steps[0])
        &&& forall|at: int| 0 <= at < self.events.len() ==> #[trigger] self.step_taken(at)
    }
}

/// How a launch stands, by the number of its events.
proof fn lemma_boot_stands(launch: QemuLaunch, course: BootCourse, at: int)
    requires
        course.taken(launch),
        0 <= at <= course.events.len(),
    ensures
        match course.steps[at].phase {
            BootPhase::Clearing { .. } => at == 0,
            BootPhase::Spawning { sock_path } => at == 1 && sock_path@ == launch.sock_path@,
            BootPhase::Polling { sock_path } => at >= 2 && at % 2 == 0 && sock_path@
                == launch.sock_path@,
            BootPhase::Checking { sock_path } => at >= 3 && at % 2 == 1 && sock_path@
                == launch.sock_path@,
            BootPhase::Over => at == course.events.len() && at >= 2,
        },
    decreases at,
{
    if at > 0 {
        lemma_boot_stands(launch, course, at - 1);
        assert(course.step_taken(at - 1));
        if at < course.events.len() {
            assert(course.step_taken(at));
        }
    }
}

/// First of all, what is at the path of the socket is to be removed; only then, and once, is
/// the program run, with its arguments. So what an earlier machine has left there is not
/// taken for this one's socket.
pub proof fn law_socket_is_cleared_before_the_program_runs(
    launch: QemuLaunch,
    course: BootCourse,
    at: int,
)
    requires
        course.taken(launch),
        0 <= at <= course.events.len(),
    ensures
        course.steps[at].action is RemoveFile <==> at == 0,
        course.steps[0].action matches BootAction::RemoveFile { path } && path@
            == launch.sock_path@,
        course.steps[at].action is Spawn <==> at == 1,
        at == 1 ==> course.events[0] is Cleared && course.steps[1].action == (BootAction::Spawn {
            program: launch.program,
            args: launch.args,
        }),
{
    lemma_boot_stands(launch, course, at);
    if at > 0 {
        lemma_boot_stands(launch, course, at - 1);
        assert(course.step_taken(at - 1));
        assert(course.step_taken(0));
    }
}

/// A machine counts as started only when the socket was cleared, the program was run, and
/// its socket was found: before that, every look that missed the socket was followed by one
/// that saw the program running. The socket that is looked for and handed on is the one
/// that the program was told of.
pub proof fn law_ready_machine_was_run_and_found(launch: QemuLaunch, course: BootCourse, at: int)
    requires
        course.taken(launch),
        0 < at <= course.events.len(),
        course.steps[at].action is Ready,
    ensures
        course.steps[at].action matches BootAction::Ready { sock_path } && sock_path@
            == launch.sock_path@,
        at == course.events.len(),
        at >= 3,
        course.events[0] is Cleared,
        course.events[1] is Spawned,
        course.events[at - 1] is SocketFound,
        forall|k: int|
            2 <= k < at - 1 ==> if k % 2 == 0 {
                (#[trigger] course.events[k]) is SocketMissing
            } else {
                course.events[k] is Running
            },
{
    lemma_boot_stands(launch, course, at);
    lemma_boot_stands(launch, course, at - 1);
    assert(course.step_taken(at - 1));
    if at < course.events.len() {
        assert(course.step_taken(at));
    }
    assert(course.step_taken(0));
    assert(course.step_taken(1));
    lemma_boot_stands(launch, course, 2);
    assert forall|k: int| 2 <= k < at - 1 implies if k % 2 == 0 {
        (#[trigger] course.events[k]) is SocketMissing
    } else {
        course.events[k] is Running
    } by {
        lemma_boot_stands(launch, course, k);
        lemma_boot_stands(launch, course, k + 1);
        assert(course.step_taken(k));
        assert(course.step_taken(k + 1));
    }
}

/// A machine counts as started when its socket was found and at no other time; it counts
/// as not started when it could not be run, has ended or cannot be watched, and in every
/// other case the launch goes on.
pub proof fn law_boot_ends_on_socket_or_failure(phase: BootPhase, event: BootEvent, step: BootStep)
    requires
        boot_expects(phase, event),
        boot_follows(phase, event, step),
    ensures
        step.action is Ready <==> event is SocketFound,
        step.action is Fail <==> (event is SpawnFailed || event is Exited || event is WaitFailed),
        step.phase is Over <==> (step.action is Ready || step.action is Fail),
{
}

/// A machine is launched with the arguments that every machine has, then with those for its
/// screen, on its own socket, and then with its image: an ISO image as a disc, or a kernel,
/// with its ramdisk and its command line where it has them, each of them by itself.
pub proof fn law_machine_is_told_all_of_its_image(
    launch: QemuLaunch,
    config: Config,
    id: u128,
    profile: Profile,
)
    requires
        launch.launches(config, id, profile),
    ensures
        launch.program@ == "qemu-system-x86_64"@,
        ({
            let args = launch.args@;
            &&& args.len() >= 15
            &&& args[0]@ == "--enable-kvm"@
            &&& args[1]@ == "-m"@
            &&& args[2]@ == "256M"@
            &&& args[3]@ == "-smp"@
            &&& args[4]@ == "2"@
            &&& args[5]@ == "-device"@
            &&& args[6]@ == "intel-iommu,intremap=on"@
            &&& args[7]@ == "-machine"@
            &&& args[8]@ == "q35,kernel-irqchip=split"@
            &&& args[9]@ == "-cpu"@
            &&& args[10]@ == "host"@
            &&& args[11]@ == "-vnc"@
            &&& args[12]@ == "unix:"@ + launch.sock_path@
            &&& profile.image matches Image::Iso(iso) ==> {
                &&& args.len() == 15
                &&& args[13]@ == "-cdrom"@
                &&& args[14]@ == resource_path(config, iso.sha256@)
            }
            &&& profile.image matches Image::Multiboot { kernel, ramdisk, cmdline } ==> {
                &&& args.len() == 15 + (if ramdisk is Some {
                    2int
                } else {
                    0int
                }) + (if cmdline is Some {
                    2int
                } else {
                    0int
                })
                &&& args[13]@ == "-kernel"@
                &&& args[14]@ == resource_path(config, kernel.sha256@)
                &&& ramdisk matches Some(ramdisk) ==> args[15]@ == "-initrd"@ && args[16]@
                    == resource_path(config, ramdisk.sha256@)
                &&& cmdline matches Some(cmdline) ==> args[args.len() - 2]@ == "-append"@
                    && args[args.len() - 1]@ == cmdline@
            }
        }),
{
    let args = launch.args@;
    law_texts_are_those_of_the_strings(args);
    let all = machine_args() + display_args(sock_path(config, id)) + image_args(
        config,
        profile.image,
    );
    assert(texts(args) == all);
    assert forall|i: int| 0 <= i < args.len() implies (#[trigger] args[i])@ == all[i] by {
        assert(texts(args)[i] == args[i]@);
    }
}

/// Every resource that is prepared for an image reaches the machine: its path is among the
/// arguments, behind the option for what it is.
pub proof fn law_every_prepared_resource_reaches_the_machine(
    launch: QemuLaunch,
    config: Config,
    id: u128,
    profile: Profile,
    part: int,
)
    requires
        launch.launches(config, id, profile),
        0 <= part < image_resources(profile.image).len(),
    ensures
        exists|i: int|
            0 < i < launch.args@.len() && (#[trigger] launch.args@[i])@ == resource_path(
                config,
                image_resources(profile.image)[part].sha256@,
            ) && launch.args@[i - 1]@ == (if profile.image is Iso {
                "-cdrom"@
            } else if part == 0 {
                "-kernel"@
            } else {
                "-initrd"@
            }),
{
    law_machine_is_told_all_of_its_image(launch, config, id, profile);
    law_every_part_of_an_image_is_prepared(profile.image);
    let i = 14 + 2 * part;
    assert(launch.args@[i]@ == resource_path(
        config,
        image_resources(profile.image)[part].sha256@,
    ));
}

/// The socket of a machine is in the directory `sock` of the working directory, under the id
/// of the task: the path starts with the working directory and ends in the id, and between
/// them is `sock` alone.
pub proof fn law_socket_is_named_after_the_task(config: Config, id: u128)
    ensures
        ({
            let path = sock_path(config, id);
            let base = config.working_directory@;
            let between = if base.len() == 0 || base.last() == '/' {
                "sock/"@
            } else {
                "/sock/"@
            };
            &&& path.len() == base.len() + between.len() + 36
            &&& path.take(base.len() as int) == base
            &&& path.subrange(base.len() as int, (base.len() + between.len()) as int) == between
            &&& path.skip((base.len() + between.len()) as int) == hyphenated_uuid(id)
        }),
        sock_path(config, id).take(sock_directory(config).len() as int) == sock_directory(config),
        sock_path(config, id).len() == sock_directory(config).len() + 37,
{
    reveal_strlit("sock");
    reveal_strlit("sock/");
    reveal_strlit("/sock/");
    let base = config.working_directory@;
    let name = hyphenated_uuid(id);
    lemma_joined_parts(base, "sock"@);
    let directory = sock_directory(config);
    assert(directory.last() == 'k');
    assert(name[0] != '/');
    lemma_joined_parts(directory, name);
    let path = sock_path(config, id);
    let between = if base.len() == 0 || base.last() == '/' {
        "sock/"@
    } else {
        "/sock/"@
    };
    assert(path.take(base.len() as int) =~= base);
    assert(path.subrange(base.len() as int, (base.len() + between.len()) as int) =~= between);
    assert(path.skip((base.len() + between.len()) as int) =~= name);
    assert(path.take(directory.len() as int) =~= directory);
}

/// The machine of a task is launched exactly if the id of the task writes a UUID; then it is
/// the machine of that UUID, with its socket, and otherwise the id is refused.
pub proof fn law_launch_needs_a_uuid(
    config: Config,
    id: Seq<char>,
    profile: Profile,
    plan: Result<QemuLaunch, String>,
    value: u128,
)
    requires
        plans(config, id, profile, plan),
    ensures
        writes_uuid(id, value) ==> (plan matches Ok(launch) && launch.launches(
            config,
            value,
            profile,
        ) && launch.sock_path@ == sock_path(config, value)),
        plan is Ok ==> exists|value: u128| #[trigger] writes_uuid(id, value),
        plan matches Err(error) ==> error@ == "start_qemu: Cannot parse task id"@,
{
    if let Ok(launch) = plan {
        let found = choose|found: u128| #[trigger]
            writes_uuid(id, found) && launch.launches(config, found, profile);
        if writes_uuid(id, value) {
            law_text_writes_one_uuid(id, found, value);
        }
    }
}

/// Whether `path` is the path of the socket that a launch in `phase` waits for.
pub open spec fn awaits(phase: BootPhase, path: Seq<char>) -> bool {
    match phase {
        BootPhase::Clearing { launch } => launch.sock_path@ == path,
        BootPhase::Spawning { sock_path } => sock_path@ == path,
        BootPhase::Polling { sock_path } => sock_path@ == path,
        BootPhase::Checking { sock_path } => sock_path@ == path,
        BootPhase::Over => false,
    }
}

/// When the way is clear the program of the launch is run with its arguments; as soon as it
/// runs, and as long as it does, its socket is looked for every 50 milliseconds; and when the
/// socket is missing, the program is looked at.
pub proof fn law_launch_goes_on_until_the_socket_is_found(
    phase: BootPhase,
    event: BootEvent,
    step: BootStep,
    path: Seq<char>,
)
    requires
        boot_expects(phase, event),
        boot_follows(phase, event, step),
        awaits(phase, path),
    ensures
        event is Cleared ==> (phase matches BootPhase::Clearing { launch }
            && step.action matches BootAction::Spawn { program, args } && program@
            == launch.program@ && args@ == launch.args@),
        event is Spawned || event is Running ==> (
        step.action matches BootAction::Poll { pause_millis, sock_path } && pause_millis == 50
            && sock_path@ == path),
        event is SocketMissing ==> step.action is CheckExit,
        event is SocketFound ==> (step.action matches BootAction::Ready { sock_path } && sock_path@
            == path),
        match step.action {
            BootAction::RemoveFile { .. } => false,
            BootAction::Spawn { .. } => step.phase matches BootPhase::Spawning { sock_path }
                && sock_path@ == path,
            BootAction::Poll { .. } => step.phase matches BootPhase::Polling { sock_path }
                && sock_path@ == path,
            BootAction::CheckExit => step.phase matches BootPhase::Checking { sock_path }
                && sock_path@ == path,
            BootAction::Ready { .. } => step.phase is Over,
            BootAction::Fail { .. } => step.phase is Over,
        },
{
}

/// A launch that fails says why.
pub proof fn law_failed_launch_says_why(phase: BootPhase, event: BootEvent, step: BootStep)
    requires
        boot_expects(phase, event),
        boot_follows(phase, event, step),
    ensures
        event matches BootEvent::SpawnFailed { error } ==> (
        step.action matches BootAction::Fail { error: text } && text@ == "cannot start qemu: "@
            + error@),
        event matches BootEvent::Exited { status } ==> (
        step.action matches BootAction::Fail { error: text } && text@ == "qemu early exit: "@
            + status@),
        event matches BootEvent::WaitFailed { error } ==> (
        step.action matches BootAction::Fail { error: text } && text@
            == "error on qemu try_wait: "@ + error@),
        step.action is Fail ==> event is SpawnFailed || event is Exited || event is WaitFailed,
{
}

/// Whatever comes of an action of a launch, the launch can be taken on with it.
pub proof fn law_every_outcome_of_a_launch_is_taken(phase: BootPhase, event: BootEvent)
    ensures
        phase is Clearing && event is Cleared ==> boot_expects(phase, event),
        phase is Spawning && (event is Spawned || event is SpawnFailed) ==> boot_expects(
            phase,
            event,
        ),
        phase is Polling && (event is SocketFound || event is SocketMissing) ==> boot_expects(
            phase,
            event,
        ),
        phase is Checking && (event is Running || event is Exited || event is WaitFailed)
            ==> boot_expects(phase, event),
{
}

/// A launch starts with its program, its arguments and its socket, and with the removal of
/// what is at the path of the socket.
pub proof fn law_launch_starts_with_an_empty_place(launch: QemuLaunch, step: BootStep)
    requires
        boot_starts(launch, step),
    ensures
        step.phase matches BootPhase::Clearing { launch: kept } && kept == launch,
        step.action matches BootAction::RemoveFile { path } && path@ == launch.sock_path@,
{
}

} // verus!
