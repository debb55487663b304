use flat_playground_runner::config::{Config, Image, Profile, Resource};
use flat_playground_runner::qemu::{
    begin_boot, boot_step, plan_qemu, qemu_launch, BootAction, BootEvent, BootPhase, BootStep,
    QemuLaunch, BOOT_POLL_MILLIS,
};

fn config() -> Config {
    Config {
        working_directory: "/srv".to_string(),
        api_token: "secret".to_string(),
        api_url: None,
        num_workers: 1,
        concurrency_per_worker: 2,
        public_url: "wss://runner.example".to_string(),
        port: 7000,
        vm_max_inactive_secs: 60,
    }
}

fn resource(sha256: &str) -> Resource {
    Resource { url: "https://files.example/x".to_string(), sha256: sha256.to_string() }
}

fn profile(image: Image) -> Profile {
    Profile { id: "p".to_string(), name: "P".to_string(), image }
}

const MACHINE: [&str; 11] = [
    "--enable-kvm",
    "-m",
    "256M",
    "-smp",
    "2",
    "-device",
    "intel-iommu,intremap=on",
    "-machine",
    "q35,kernel-irqchip=split",
    "-cpu",
    "host",
];

fn expected(rest: &[&str]) -> Vec<String> {
    MACHINE.iter().chain(rest.iter()).map(|x| x.to_string()).collect()
}

const ID: u128 = 0x67e55044_10b1_426f_9247_bb680e5fe0c8;
const DISPLAY: &str = "unix:/srv/sock/67e55044-10b1-426f-9247-bb680e5fe0c8";

#[test]
fn launch_with_an_iso() {
    let launch = qemu_launch(&config(), ID, &profile(Image::Iso(resource("aa"))));
    assert_eq!(launch.program, "qemu-system-x86_64");
    assert_eq!(launch.sock_path, "/srv/sock/67e55044-10b1-426f-9247-bb680e5fe0c8");
    assert_eq!(launch.args, expected(&["-vnc", DISPLAY, "-cdrom", "/srv/res/aa"]));
}

#[test]
fn launch_with_a_kernel_alone() {
    let image = Image::Multiboot { kernel: resource("kk"), ramdisk: None, cmdline: None };
    let launch = qemu_launch(&config(), ID, &profile(image));
    assert_eq!(launch.args, expected(&["-vnc", DISPLAY, "-kernel", "/srv/res/kk"]));
}

#[test]
fn launch_with_everything() {
    let image = Image::Multiboot {
        kernel: resource("kk"),
        ramdisk: Some(resource("rr")),
        cmdline: Some("quiet splash".to_string()),
    };
    let launch = qemu_launch(&config(), ID, &profile(image));
    assert_eq!(
        launch.args,
        expected(&[
            "-vnc",
            DISPLAY,
            "-kernel",
            "/srv/res/kk",
            "-initrd",
            "/srv/res/rr",
            "-append",
            "quiet splash"
        ])
    );
}

#[test]
fn launch_with_a_command_line_and_no_ramdisk() {
    let image = Image::Multiboot {
        kernel: resource("kk"),
        ramdisk: None,
        cmdline: Some("quiet".to_string()),
    };
    let launch = qemu_launch(&config(), ID, &profile(image));
    assert_eq!(
        launch.args,
        expected(&["-vnc", DISPLAY, "-kernel", "/srv/res/kk", "-append", "quiet"])
    );
}

#[test]
fn every_form_of_a_uuid_is_taken() {
    let forms = [
        "67e55044-10b1-426f-9247-bb680e5fe0c8",
        "67E55044-10B1-426f-9247-BB680E5FE0C8",
        "67e5504410b1426f9247bb680e5fe0c8",
        "67E5504410B1426F9247BB680E5FE0C8",
        "urn:uuid:67e55044-10b1-426f-9247-bb680e5fe0c8",
        "urn:uuid:67E55044-10b1-426f-9247-bb680e5fe0C8",
    ];
    for form in forms.iter() {
        let launch = plan_qemu(&config(), form, &profile(Image::Iso(resource("aa")))).unwrap();
        assert_eq!(launch.sock_path, "/srv/sock/67e55044-10b1-426f-9247-bb680e5fe0c8");
    }
}

#[test]
fn what_is_no_uuid_is_refused() {
    let texts = [
        "",
        "task",
        "67e55044-10b1-426f-9247-bb680e5fe0c",
        "67e55044-10b1-426f-9247-bb680e5fe0c88",
        "67e55044-10b1-426f-9247bb680e5fe0c8",
        "67e55044-10b1-426f-9247-bb680e5fe0cg",
        "67e5504-410b1-426f-9247-bb680e5fe0c8",
        "URN:UUID:67e55044-10b1-426f-9247-bb680e5fe0c8",
        "urn:uuid:67e5504410b1426f9247bb680e5fe0c8",
        "urn:uuid;67e55044-10b1-426f-9247-bb680e5fe0c8",
        "67e5504410b1426f9247bb680e5fe0ü",
        "{67e55044-10b1-426f-9247-bb680e5fe0}",
        "67e5504410b1426f9247bb680e5fe0c8abcd",
        "67e550-4105b1426f9247bb680e5fe0c",
    ];
    for text in texts.iter() {
        let error = plan_qemu(&config(), text, &profile(Image::Iso(resource("aa")))).unwrap_err();
        assert_eq!(error, "start_qemu: Cannot parse task id");
    }
}

fn launch() -> QemuLaunch {
    qemu_launch(&config(), ID, &profile(Image::Iso(resource("aa"))))
}

fn spawning() -> BootStep {
    boot_step(begin_boot(launch()).phase, BootEvent::Cleared)
}

fn polling() -> BootStep {
    boot_step(spawning().phase, BootEvent::Spawned)
}

fn checking() -> BootStep {
    boot_step(polling().phase, BootEvent::SocketMissing)
}

fn boot_error(before: BootStep, event: BootEvent) -> String {
    let step = boot_step(before.phase, event);
    assert!(matches!(step.phase, BootPhase::Over));
    match step.action {
        BootAction::Fail { error } => error,
        _ => panic!("the launch goes on"),
    }
}

const SOCKET: &str = "/srv/sock/67e55044-10b1-426f-9247-bb680e5fe0c8";

#[test]
fn boot_removes_the_old_socket_before_it_runs_the_program() {
    let step = begin_boot(launch());
    assert!(matches!(&step.action, BootAction::RemoveFile { path } if path == SOCKET));
    let step = boot_step(step.phase, BootEvent::Cleared);
    match step.action {
        BootAction::Spawn { program, args } => {
            assert_eq!(program, "qemu-system-x86_64");
            assert_eq!(args, expected(&["-vnc", DISPLAY, "-cdrom", "/srv/res/aa"]));
        }
        _ => panic!("nothing is run"),
    }
}

#[test]
fn boot_fails_with_the_reason() {
    assert_eq!(
        boot_error(spawning(), BootEvent::SpawnFailed { error: "NotFound".to_string() }),
        "cannot start qemu: NotFound"
    );
    assert_eq!(
        boot_error(checking(), BootEvent::Exited { status: "ExitStatus(1)".to_string() }),
        "qemu early exit: ExitStatus(1)"
    );
    assert_eq!(
        boot_error(checking(), BootEvent::WaitFailed { error: "Interrupted".to_string() }),
        "error on qemu try_wait: Interrupted"
    );
}

fn polls(step: &BootStep) -> bool {
    matches!(&step.action, BootAction::Poll { pause_millis: 50, sock_path } if sock_path == SOCKET)
}

#[test]
fn boot_waits_for_the_socket() {
    assert_eq!(BOOT_POLL_MILLIS, 50);
    let step = polling();
    assert!(polls(&step));
    let step = boot_step(step.phase, BootEvent::SocketMissing);
    assert!(matches!(step.action, BootAction::CheckExit));
    let step = boot_step(step.phase, BootEvent::Running);
    assert!(polls(&step));
    let step = boot_step(step.phase, BootEvent::SocketFound);
    assert!(matches!(step.phase, BootPhase::Over));
    assert!(matches!(&step.action, BootAction::Ready { sock_path } if sock_path == SOCKET));
}
