//! The runner's configuration and the profiles that it offers.

use vstd::prelude::*;

verus! {

/// What the operator sets for one runner.
#[derive(Debug)]
pub struct Config {
    pub working_directory: String,
    pub api_token: String,
    pub api_url: Option<String>,
    pub num_workers: u8,
    pub concurrency_per_worker: u8,
    pub public_url: String,
    pub port: u16,
    pub vm_max_inactive_secs: u64,
}

impl Config {
    /// The number of machines that all workers together may run at a time.
    pub open spec fn spec_total_concurrency(&self) -> nat {
        (self.num_workers as nat) * (self.concurrency_per_worker as nat)
    }

    /// The number of machines that all workers together may run at a time.
    pub fn total_concurrency(&self) -> (total: u16)
        ensures
            total as nat == self.spec_total_concurrency(),
    {
        let workers: u16 = self.num_workers as u16;
        let each: u16 = self.concurrency_per_worker as u16;
        assert(workers * each <= 255 * 255) by (nonlinear_arith)
            requires
                workers <= 255,
                each <= 255,
        ;
        workers * each
    }
}

/// The profiles that the runner offers.
#[derive(Clone, Debug, PartialEq, Eq)]
pub struct RootProfile {
    pub profiles: Vec<Profile>,
}

/// A machine that a client can ask for.
#[derive(Clone, Debug, PartialEq, Eq)]
pub struct Profile {
    pub id: String,
    pub name: String,
    pub image: Image,
}

/// Type of a bootable image.
#[derive(Clone, Debug, PartialEq, Eq)]
pub enum Image {
    /// An ISO image.
    Iso(Resource),
    /// A multiboot kernel/ramdisk/cmdline tuple.
    Multiboot { kernel: Resource, ramdisk: Option<Resource>, cmdline: Option<String> },
}

/// Resource with a URL and a SHA-256 checksum.
#[derive(Debug, PartialEq, Eq)]
pub struct Resource {
    pub url: String,
    pub sha256: String,
}

impl Clone for Resource {
    fn clone(&self) -> (copy: Resource)
        ensures
            copy == *self,
    {
        Resource { url: self.url.clone(), sha256: self.sha256.clone() }
    }
}

/// Without workers there are no machines, and each worker adds as many as it may run: what
/// the workers may run together is the sum of what each of them may.
pub proof fn law_each_worker_adds_its_machines(fewer: Config, more: Config)
    requires
        more.num_workers == fewer.num_workers + 1,
        more.concurrency_per_worker == fewer.concurrency_per_worker,
    ensures
        more.spec_total_concurrency() == fewer.spec_total_concurrency()
            + more.concurrency_per_worker,
        fewer.num_workers == 0 ==> fewer.spec_total_concurrency() == 0,
{
    let (n, each) = (fewer.num_workers as nat, fewer.concurrency_per_worker as nat);
    assert((n + 1) * each == n * each + each) by (nonlinear_arith);
    assert(0 * each == 0) by (nonlinear_arith);
}

} // verus!
