//! Where the runner keeps the images that its profiles boot from.

use vstd::prelude::*;

use crate::config::{Config, Image, Resource};
use crate::path::{is_absolute, join, joined, law_join_keeps_both_parts};

verus! {

/// The directory that holds the images.
pub open spec fn resource_directory(config: Config) -> Seq<char> {
    joined(config.working_directory@, "res"@)
}

/// The path of the image with the checksum `sha256`.
pub open spec fn resource_path(config: Config, sha256: Seq<char>) -> Seq<char> {
    joined(resource_directory(config), sha256)
}

/// The path at which the image with the checksum `sha256` is kept.
pub fn build_resource_path(config: &Config, sha256: &str) -> (path: String)
    ensures
        path@ == resource_path(*config, sha256@),
{
    let directory = join(&config.working_directory, "res");
    join(&directory, sha256)
}

/// The resources that an image is made of, in the order in which they are prepared.
pub open spec fn image_resources(image: Image) -> Seq<Resource> {
    match image {
        Image::Iso(iso) => seq![iso],
        Image::Multiboot { kernel, ramdisk: Some(ramdisk), .. } => seq![kernel, ramdisk],
        Image::Multiboot { kernel, ramdisk: None, .. } => seq![kernel],
    }
}

/// The resource that comes at `index` in the order in which those of `image` are prepared.
pub fn image_resource(image: &Image, index: usize) -> (resource: Option<&Resource>)
    ensures
        match resource {
            Some(resource) => index < image_resources(*image).len() && *resource
                == image_resources(*image)[index as int],
            None => index >= image_resources(*image).len(),
        },
{
    match image {
        Image::Iso(iso) => if index == 0 {
            Some(iso)
        } else {
            None
        },
        Image::Multiboot { kernel, ramdisk, .. } => if index == 0 {
            Some(kernel)
        } else {
            match ramdisk {
                Some(ramdisk) => if index == 1 {
                    Some(ramdisk)
                } else {
                    None
                },
                None => None,
            }
        },
    }
}

/// Two parts that are not absolute extend a path to the same path only if they are equal.
pub proof fn lemma_joined_is_injective(base: Seq<char>, a: Seq<char>, b: Seq<char>)
    requires
        !is_absolute(a),
        !is_absolute(b),
        joined(base, a) == joined(base, b),
    ensures
        a == b,
{
    let start = if base.len() == 0 || base.last() == '/' {
        base
    } else {
        base + seq!['/']
    };
    assert(joined(base, a) =~= start + a);
    assert(joined(base, b) =~= start + b);
    assert((start + a).skip(start.len() as int) =~= a);
    assert((start + b).skip(start.len() as int) =~= b);
}

/// Images with different checksums are kept at different paths. (A checksum that starts
/// with `/` is itself the path.)
pub proof fn law_resource_paths_are_distinct(config: Config, a: Seq<char>, b: Seq<char>)
    requires
        !is_absolute(a),
        !is_absolute(b),
        a != b,
    ensures
        resource_path(config, a) != resource_path(config, b),
{
    if resource_path(config, a) == resource_path(config, b) {
        lemma_joined_is_injective(resource_directory(config), a, b);
    }
}

/// Where a base brings no `/` of its own, joining puts one behind it.
pub(crate) proof fn lemma_joined_parts(base: Seq<char>, part: Seq<char>)
    requires
        part.len() == 0 || part[0] != '/',
    ensures
        joined(base, part) == (if base.len() == 0 || base.last() == '/' {
            base + part
        } else {
            base + seq!['/'] + part
        }),
{
    law_join_keeps_both_parts(base, part);
}

/// Images are kept in the directory `res` of the working directory, each under its own
/// checksum: the path starts with the working directory and ends in the checksum, and
/// between them is `res` alone. (A checksum that starts with `/` is itself the path.)
pub proof fn law_images_are_kept_by_checksum(config: Config, sha256: Seq<char>)
    requires
        sha256.len() == 0 || sha256[0] != '/',
    ensures
        ({
            let path = resource_path(config, sha256);
            let base = config.working_directory@;
            let between = if base.len() == 0 || base.last() == '/' {
                "res/"@
            } else {
                "/res/"@
            };
            &&& path.len() == base.len() + between.len() + sha256.len()
            &&& path.take(base.len() as int) == base
            &&& path.subrange(base.len() as int, (base.len() + between.len()) as int) == between
            &&& path.skip((base.len() + between.len()) as int) == sha256
        }),
{
    reveal_strlit("res");
    reveal_strlit("res/");
    reveal_strlit("/res/");
    let base = config.working_directory@;
    lemma_joined_parts(base, "res"@);
    let directory = resource_directory(config);
    assert(directory.last() == 's');
    lemma_joined_parts(directory, sha256);
    let path = resource_path(config, sha256);
    let between = if base.len() == 0 || base.last() == '/' {
        "res/"@
    } else {
        "/res/"@
    };
    assert(path.take(base.len() as int) =~= base);
    assert(path.subrange(base.len() as int, (base.len() + between.len()) as int) =~= between);
    assert(path.skip((base.len() + between.len()) as int) =~= sha256);
}

/// The directory of the images is the one that their paths lie in.
pub proof fn law_images_lie_in_their_directory(config: Config, sha256: Seq<char>)
    requires
        sha256.len() == 0 || sha256[0] != '/',
    ensures
        resource_path(config, sha256).take(resource_directory(config).len() as int)
            == resource_directory(config),
        resource_path(config, sha256).len() == resource_directory(config).len() + 1
            + sha256.len(),
{
    reveal_strlit("res");
    lemma_joined_parts(config.working_directory@, "res"@);
    assert(resource_directory(config).last() == 's');
    law_join_keeps_both_parts(resource_directory(config), sha256);
}

/// What is prepared for an image is what it is made of: the file of an ISO image, or the
/// kernel and then the ramdisk where there is one. Nothing else is, and nothing is left out,
/// whatever the command line.
pub proof fn law_every_part_of_an_image_is_prepared(image: Image)
    ensures
        image matches Image::Iso(iso) ==> image_resources(image).len() == 1
            && image_resources(image)[0] == iso,
        image matches Image::Multiboot { kernel, ramdisk, .. } ==> {
            &&& image_resources(image)[0] == kernel
            &&& ramdisk is None ==> image_resources(image).len() == 1
            &&& ramdisk matches Some(ramdisk) ==> image_resources(image).len() == 2
                && image_resources(image)[1] == ramdisk
        },
{
}

} // verus!
