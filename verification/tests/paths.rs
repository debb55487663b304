use flat_playground_runner::config::{Config, Image, Resource};
use flat_playground_runner::path::join;
use flat_playground_runner::qemu::build_sock_path;
use flat_playground_runner::resource::{build_resource_path, image_resource};
use flat_playground_runner::text::{concat2, concat3, concat4, push_text, take_before};
use std::path::PathBuf;

fn config(directory: &str) -> Config {
    Config {
        working_directory: directory.to_string(),
        api_token: "secret".to_string(),
        api_url: None,
        num_workers: 2,
        concurrency_per_worker: 3,
        public_url: "wss://runner.example".to_string(),
        port: 7000,
        vm_max_inactive_secs: 60,
    }
}

fn resource(name: &str) -> Resource {
    Resource {
        url: format!("https://files.example/{}", name),
        sha256: format!("sum-{}", name),
    }
}

#[test]
fn total_concurrency_is_the_product() {
    assert_eq!(config("/srv").total_concurrency(), 6);
    let mut most = config("/srv");
    most.num_workers = 255;
    most.concurrency_per_worker = 255;
    assert_eq!(most.total_concurrency(), 65025);
    most.num_workers = 0;
    assert_eq!(most.total_concurrency(), 0);
}

#[test]
fn join_is_what_pathbuf_does() {
    let bases = ["", "/", "a", "a/", "/srv/runner", "/srv/runner/", "ü", "a//"];
    let parts = ["", "/", "b", "b/c", "/etc", "ö", ".", ".."];
    for base in bases.iter() {
        for part in parts.iter() {
            let mut expected = PathBuf::from(base);
            expected.push(part);
            assert_eq!(join(base, part), expected.to_str().unwrap());
        }
    }
}

#[test]
fn resource_path_is_under_res() {
    assert_eq!(build_resource_path(&config("/srv/runner"), "abc"), "/srv/runner/res/abc");
    assert_eq!(build_resource_path(&config("/srv/runner/"), "abc"), "/srv/runner/res/abc");
    assert_eq!(build_resource_path(&config(""), "abc"), "res/abc");
    assert_eq!(build_resource_path(&config("/srv"), "/etc/image"), "/etc/image");
}

#[test]
fn resource_paths_differ_with_the_checksum() {
    let config = config("/srv");
    assert_ne!(build_resource_path(&config, "a"), build_resource_path(&config, "b"));
}

#[test]
fn sock_path_is_under_sock() {
    assert_eq!(
        build_sock_path(&config("/srv"), 0x936da01f_9abd_4d9d_80c7_02af85c822a8),
        "/srv/sock/936da01f-9abd-4d9d-80c7-02af85c822a8"
    );
    assert_eq!(
        build_sock_path(&config("/srv"), 0),
        "/srv/sock/00000000-0000-0000-0000-000000000000"
    );
    assert_ne!(build_sock_path(&config("/srv"), 1), build_sock_path(&config("/srv"), 2));
}

#[test]
fn image_resources_come_in_order() {
    let iso = Image::Iso(resource("iso"));
    assert_eq!(image_resource(&iso, 0), Some(&resource("iso")));
    assert_eq!(image_resource(&iso, 1), None);
    let kernel = Image::Multiboot { kernel: resource("kernel"), ramdisk: None, cmdline: None };
    assert_eq!(image_resource(&kernel, 0), Some(&resource("kernel")));
    assert_eq!(image_resource(&kernel, 1), None);
    let both = Image::Multiboot {
        kernel: resource("kernel"),
        ramdisk: Some(resource("ramdisk")),
        cmdline: None,
    };
    assert_eq!(image_resource(&both, 0), Some(&resource("kernel")));
    assert_eq!(image_resource(&both, 1), Some(&resource("ramdisk")));
    assert_eq!(image_resource(&both, 2), None);
}

#[test]
fn resources_clone_as_they_are() {
    assert_eq!(resource("iso").clone(), resource("iso"));
}

#[test]
fn texts_are_put_together() {
    assert_eq!(concat2("a", "b"), "ab");
    assert_eq!(concat3("a", "", "ü"), "aü");
    assert_eq!(concat4("a", "b", "c", "d"), "abcd");
    let mut list = Vec::new();
    push_text(&mut list, "x");
    push_text(&mut list, "y");
    assert_eq!(list, vec!["x".to_string(), "y".to_string()]);
}

#[test]
fn take_before_stops_at_the_first_mark() {
    assert_eq!(take_before("abc  file", ' '), "abc");
    assert_eq!(take_before(" abc", ' '), "");
    assert_eq!(take_before("abc", ' '), "abc");
    assert_eq!(take_before("", ' '), "");
    assert_eq!(take_before("äö ü", ' '), "äö");
}
