//! The image: its base, its runtimes, and what each role adds.
use vstd::prelude::*;

use crate::named::{find_row, row, Named};


verus! {

/// Everything the model says about the image.
#[derive(Debug)]
pub struct ImagesFile {
    /// The schema tag.
    pub spec: String,
    /// The upstream base, pinned by digest.
    pub base: Base,
    /// What a node's signature policy will accept.
    pub signing: Signing,
    /// Where a node pulls from, in order.
    pub registries: Registries,
    /// The legal container runtimes.
    pub runtime: Vec<Runtime>,
    /// The runtime a variant takes when it does not say otherwise.
    pub default_runtime: String,
    /// What each role adds.
    pub variant: Vec<Variant>,
}

/// The upstream base image and everything every node has.
#[derive(Debug)]
pub struct Base {
    /// Repository, without a tag or digest.
    pub image: String,
    /// Recorded for provenance. Nothing pulls it.
    pub tag: String,
    /// The multi-arch index digest.
    pub digest: String,
    /// The amd64 manifest inside that index.
    pub amd64_digest: String,
    /// The fleet's uniform architecture.
    pub architecture: String,
    /// When the digest was resolved.
    pub resolved_on: String,
    /// Why this base rather than another.
    pub reason: String,
    /// Packages, binaries and kernel arguments every node gets.
    pub content: BaseContent,
    /// SSH daemon policy.
    pub sshd: Sshd,
    /// SELinux policy.
    pub selinux: Selinux,
    /// Quadlets every node runs.
    pub quadlet: Vec<Quadlet>,
}

/// What the base image adds on top of the upstream.
#[derive(Debug)]
pub struct BaseContent {
    /// Packages installed from a repository.
    pub packages: Vec<String>,
    /// Binaries this repository builds and copies in.
    pub binaries: Vec<String>,
    /// Kernel arguments every node carries.
    pub kargs: Vec<String>,
}

/// SSH daemon policy.
#[derive(Debug)]
pub struct Sshd {
    /// Whether passwords are accepted. They are not.
    pub password_authentication: bool,
    /// `PermitRootLogin`.
    pub permit_root_login: String,
    /// Whether keyboard-interactive is accepted. It is not.
    pub kbd_interactive_authentication: bool,
}

/// SELinux configuration.
#[derive(Debug)]
pub struct Selinux {
    /// `enforcing`, and it stays that way.
    pub mode: String,
    /// `targeted`.
    pub policy_type: String,
    /// The custom policy module's name.
    pub module: String,
    /// `build`. Nothing compiles policy at runtime on a read-only root.
    pub compile_at: String,
}

/// What a node's signature policy will accept.
///
/// The identity is a workflow reference and not merely a repository: an image
/// signed by a different workflow in the same repository must not stage.
#[derive(Debug)]
pub struct Signing {
    /// The OIDC issuer.
    pub issuer: String,
    /// The repository whose workflow may sign.
    pub repository: String,
    /// The workflow file that may sign, relative to the repository root.
    pub workflow: String,
    /// The ref it must run on.
    pub ref_: String,
    /// The transparency log a signature is recorded in.
    pub transparency_log: String,
}

/// Where a node pulls from, in order.
#[derive(Debug)]
pub struct Registries {
    /// The port the local registry serves on.
    pub port: u16,
    /// Tried in order when the local registry does not answer.
    pub fallbacks: Vec<String>,
}

/// One legal container runtime.
#[derive(Debug)]
pub struct Runtime {
    /// `docker` or `podman-compat`.
    pub id: String,
    /// The packages the build installs for it.
    pub packages: Vec<String>,
    /// The socket unit whose API answers.
    pub socket_unit: String,
    /// What `DOCKER_HOST` is set to.
    pub docker_host: String,
    /// What it is.
    pub description: String,
}

/// What one role adds to the image.
#[derive(Debug)]
pub struct Variant {
    /// Variant identifier.
    pub id: String,
    /// The role this variant belongs to.
    pub role: String,
    /// Which [`Runtime`] this variant declares.
    pub runtime: String,
    /// Packages beyond the base.
    pub packages: Vec<String>,
    /// Artifacts unpacked from outside a package repository.
    pub upstream: Vec<Upstream>,
    /// Native systemd units enabled on this variant.
    pub services: Vec<String>,
    /// Kernel arguments beyond the base.
    pub kargs: Vec<String>,
    /// Quadlets beyond the base.
    pub quadlet: Vec<Quadlet>,
    /// Actions runners this role hosts.
    pub runner: Vec<Runner>,
    /// Devcontainer Features added to every session this role starts.
    pub features: Vec<String>,
    /// Network filesystems mounted.
    pub mount: Vec<Mount>,
    /// CPU isolation, on the variant that has any.
    pub isolation: Option<Isolation>,
}

/// An artifact unpacked into the image at build time.
#[derive(Debug)]
pub struct Upstream {
    /// Stable identifier.
    pub name: String,
    /// Where it is fetched from.
    pub url: String,
    /// What its bytes must hash to.
    pub sha256: String,
    /// Where it is unpacked.
    pub install_dir: String,
}

/// The artifact that installs the Actions runner.
pub const RUNNER_ARTIFACT: &'static str = "actions-runner";

/// A Quadlet unit shipped inside the image.
#[derive(Debug)]
pub struct Quadlet {
    /// Unit name without its extension.
    pub name: String,
    /// `container`, `volume`, or `network`.
    pub kind: String,
    /// The image, pinned as tightly as its upstream allows.
    pub image: String,
    /// `PublishPort=` entries.
    pub publish: Vec<String>,
    /// `Network=`, when the unit needs one.
    pub network: Option<String>,
    /// What the unit is for.
    pub description: String,
    /// Arguments the container is started with.
    pub arguments: Vec<String>,
    /// Volume mounts. Every one carries a relabel flag.
    pub mount: Vec<QuadletMount>,
}

/// One volume mount on a Quadlet.
#[derive(Debug)]
pub struct QuadletMount {
    /// Host path.
    pub source: String,
    /// Path inside the container.
    pub target: String,
    /// Mount options other than the relabel flag.
    pub options: String,
    /// `Z` for a private label, `z` for a shared one.
    pub relabel: String,
}

/// An Actions runner.
#[derive(Debug)]
pub struct Runner {
    /// Runner name.
    pub name: String,
    /// Labels a workflow targets it by.
    pub labels: Vec<String>,
    /// An ephemeral runner exits after one job.
    pub ephemeral: bool,
    /// A concurrency lock, on the role that needs one.
    pub concurrency: Option<u32>,
}

/// A network filesystem mount.
#[derive(Debug)]
pub struct Mount {
    /// What is mounted.
    pub what: String,
    /// Where it is mounted.
    pub where_: String,
    /// Filesystem type.
    pub fstype: String,
    /// Mount options.
    pub options: String,
}

/// CPU isolation on the measurement role.
#[derive(Debug)]
pub struct Isolation {
    /// The isolated set, as the kernel spells it.
    pub isolated_cpus: String,
    /// The scaling governor pinned on every CPU.
    pub governor: String,
    /// Where interrupts are steered, which is away from the isolated set.
    pub irq_affinity: String,
}

impl Signing {
    /// The exact certificate identity a signature must carry.
    pub open spec fn identity_spec(&self) -> Seq<char> {
        "https://github.com/"@ + self.repository@ + "/"@ + self.workflow@ + "@"@ + self.ref_@
    }

    /// The exact certificate identity a signature must carry.
    ///
    /// Built here rather than declared, so the policy and the workflow cannot
    /// disagree about which of them is authoritative.
    pub fn certificate_identity(&self) -> (r: String)
        ensures
            r@ == self.identity_spec(),
    {
        "https://github.com/".to_owned().concat(self.repository.as_str()).concat("/").concat(
            self.workflow.as_str(),
        ).concat("@").concat(self.ref_.as_str())
    }
}

impl Named for Variant {
    open spec fn key(&self) -> Seq<char> {
        self.role@
    }

    fn name_of(&self) -> (r: &str) {
        self.role.as_str()
    }
}

impl Named for Runtime {
    open spec fn key(&self) -> Seq<char> {
        self.id@
    }

    fn name_of(&self) -> (r: &str) {
        self.id.as_str()
    }
}

impl Named for Upstream {
    open spec fn key(&self) -> Seq<char> {
        self.name@
    }

    fn name_of(&self) -> (r: &str) {
        self.name.as_str()
    }
}

/// Where the first variant from `i` on that unpacks the runner puts it.
pub open spec fn runner_dir_from(variants: Seq<Variant>, i: int) -> Option<Seq<char>>
    decreases variants.len() - i,
{
    if i < 0 || i >= variants.len() {
        None
    } else {
        match row(variants[i].upstream@, RUNNER_ARTIFACT@) {
            Some(artifact) => Some(artifact.install_dir@),
            None => runner_dir_from(variants, i + 1),
        }
    }
}

impl ImagesFile {
    /// Look up a variant by its role.
    pub fn variant_for(&self, role: &str) -> (r: Option<&Variant>)
        ensures
            match r {
                Some(v) => row(self.variant@, role@) == Some(*v),
                None => row(self.variant@, role@) is None,
            },
    {
        find_row(&self.variant, role)
    }

    /// Look up a runtime by id.
    pub fn runtime(&self, id: &str) -> (r: Option<&Runtime>)
        ensures
            match r {
                Some(v) => row(self.runtime@, id@) == Some(*v),
                None => row(self.runtime@, id@) is None,
            },
    {
        find_row(&self.runtime, id)
    }

    /// The runtime a variant actually builds against.
    pub fn runtime_of(&self, variant: &Variant) -> (r: Option<&Runtime>)
        ensures
            match r {
                Some(v) => row(self.runtime@, variant.runtime@) == Some(*v),
                None => row(self.runtime@, variant.runtime@) is None,
            },
    {
        self.runtime(variant.runtime.as_str())
    }

    /// Whether any role hosts an Actions runner.
    pub open spec fn hosts_runners_spec(&self) -> bool {
        exists|i: int|
            0 <= i < self.variant@.len() && (#[trigger] self.variant@[i]).runner@.len() > 0
    }

    /// Whether any role hosts an Actions runner.
    pub fn hosts_runners(&self) -> (r: bool)
        ensures
            r == self.hosts_runners_spec(),
    {
        let mut i: usize = 0;
        while i < self.variant.len()
            invariant
                i <= self.variant.len(),
                forall|k: int| 0 <= k < i ==> (#[trigger] self.variant@[k]).runner@.len() == 0,
            decreases self.variant.len() - i,
        {
            if self.variant[i].runner.len() > 0 {
                return true;
            }
            i = i + 1;
        }
        false
    }

    /// Where the Actions runner is unpacked.
    pub fn runner_install_dir(&self) -> (r: Option<&str>)
        ensures
            match r {
                Some(dir) => runner_dir_from(self.variant@, 0) == Some(dir@),
                None => runner_dir_from(self.variant@, 0) is None,
            },
    {
        let mut i: usize = 0;
        while i < self.variant.len()
            invariant
                i <= self.variant.len(),
                runner_dir_from(self.variant@, 0) == runner_dir_from(self.variant@, i as int),
            decreases self.variant.len() - i,
        {
            if let Some(artifact) = find_row(&self.variant[i].upstream, RUNNER_ARTIFACT) {
                return Some(artifact.install_dir.as_str());
            }
            i = i + 1;
        }
        None
    }
}

impl Variant {
    /// Every Quadlet this variant runs: the base's, then its own.
    pub fn all_quadlets<'a>(&'a self, base: &'a Base) -> (out: Vec<&'a Quadlet>)
        ensures
            out.len() == base.quadlet.len() + self.quadlet.len(),
            forall|i: int|
                0 <= i < out.len() ==> *(#[trigger] out@[i]) == (base.quadlet@ + self.quadlet@)[i],
    {
        let mut out: Vec<&'a Quadlet> = Vec::new();
        let mut i: usize = 0;
        while i < base.quadlet.len()
            invariant
                i <= base.quadlet.len(),
                out.len() == i,
                forall|k: int| 0 <= k < i ==> *(#[trigger] out@[k]) == base.quadlet@[k],
            decreases base.quadlet.len() - i,
        {
            out.push(&base.quadlet[i]);
            i = i + 1;
        }
        let mut j: usize = 0;
        while j < self.quadlet.len()
            invariant
                j <= self.quadlet.len(),
                out.len() == base.quadlet.len() + j,
                forall|k: int|
                    0 <= k < out.len() ==> *(#[trigger] out@[k]) == (base.quadlet@
                        + self.quadlet@)[k],
            decreases self.quadlet.len() - j,
        {
            out.push(&self.quadlet[j]);
            j = j + 1;
        }
        out
    }

    /// Every kernel argument this variant boots with.
    pub fn all_kargs(&self, base: &Base) -> (out: Vec<String>)
        ensures
            out@ == base.content.kargs@ + self.kargs@,
    {
        let mut out: Vec<String> = Vec::new();
        let mut i: usize = 0;
        while i < base.content.kargs.len()
            invariant
                i <= base.content.kargs.len(),
                out@ =~= base.content.kargs@.take(i as int),
            decreases base.content.kargs.len() - i,
        {
            out.push(base.content.kargs[i].clone());
            i = i + 1;
        }
        let mut j: usize = 0;
        while j < self.kargs.len()
            invariant
                j <= self.kargs.len(),
                out@ =~= base.content.kargs@ + self.kargs@.take(j as int),
            decreases self.kargs.len() - j,
        {
            out.push(self.kargs[j].clone());
            j = j + 1;
        }
        out
    }
}

impl QuadletMount {
    /// The `Volume=` value a Quadlet takes, relabel flag included.
    pub open spec fn volume_spec(&self) -> Seq<char> {
        self.source@ + ":"@ + self.target@ + ":"@ + self.options@ + ","@ + self.relabel@
    }

    /// The `Volume=` value a Quadlet takes, relabel flag included.
    pub fn volume_line(&self) -> (r: String)
        ensures
            r@ == self.volume_spec(),
    {
        self.source.clone().concat(":").concat(self.target.as_str()).concat(":").concat(
            self.options.as_str(),
        ).concat(",").concat(self.relabel.as_str())
    }
}

// ---- laws of the images ----

/// A signature is of the workflow in its repository, at its reference.
pub proof fn a_signature_is_of_its_workflow(signing: Signing, r: String)
    requires
        call_ensures(Signing::certificate_identity, (&signing,), r),
    ensures
        r@ == "https://github.com/"@ + signing.repository@ + "/"@ + signing.workflow@ + "@"@
            + signing.ref_@,
{
}

/// A volume names its source, its target, its options and its label, in that
/// order.
pub proof fn a_volume_says_what_is_mounted_where(mount: QuadletMount, r: String)
    requires
        call_ensures(QuadletMount::volume_line, (&mount,), r),
    ensures
        r@ == mount.source@ + ":"@ + mount.target@ + ":"@ + mount.options@ + ","@ + mount.relabel@,
{
}

/// An image of a role runs what every image runs, and then what is its own, and
/// nothing else; and it boots with the arguments of both.
pub proof fn an_image_runs_what_the_base_runs(
    variant: Variant,
    base: Base,
    out: Vec<&Quadlet>,
    kargs: Vec<String>,
    i: int,
)
    requires
        call_ensures(Variant::all_quadlets, (&variant, &base), out),
        call_ensures(Variant::all_kargs, (&variant, &base), kargs),
    ensures
        out@.len() == base.quadlet@.len() + variant.quadlet@.len(),
        0 <= i < base.quadlet@.len() ==> *out@[i] == base.quadlet@[i],
        0 <= i < variant.quadlet@.len() ==> *out@[base.quadlet@.len() + i] == variant.quadlet@[i],
        kargs@.len() == base.content.kargs@.len() + variant.kargs@.len(),
        0 <= i < base.content.kargs@.len() ==> kargs@[i] == base.content.kargs@[i],
        0 <= i < variant.kargs@.len() ==> kargs@[base.content.kargs@.len() + i]
            == variant.kargs@[i],
{
}

/// The runner stands where the first image that unpacks it puts it.
pub proof fn the_runner_stands_where_it_is_unpacked(images: ImagesFile, dir: Option<&str>, i: int)
    requires
        call_ensures(ImagesFile::runner_install_dir, (&images,), dir),
        0 <= i < images.variant@.len(),
    ensures
        row(images.variant@[i].upstream@, "actions-runner"@) is Some && (forall|k: int|
            0 <= k < i ==> row((#[trigger] images.variant@[k]).upstream@, "actions-runner"@) is None)
            ==> dir is Some && dir.unwrap()@ == row(
            images.variant@[i].upstream@,
            "actions-runner"@,
        ).unwrap().install_dir@,
        (forall|k: int|
            0 <= k < images.variant@.len() ==> row(
                (#[trigger] images.variant@[k]).upstream@,
                "actions-runner"@,
            ) is None) ==> dir is None,
{
    let list = images.variant@;
    if row(list[i].upstream@, "actions-runner"@) is Some && (forall|k: int|
        0 <= k < i ==> row((#[trigger] list[k]).upstream@, "actions-runner"@) is None) {
        lemma_runner_dir(list, 0, i);
    }
    if forall|k: int|
        0 <= k < list.len() ==> row((#[trigger] list[k]).upstream@, "actions-runner"@) is None {
        lemma_no_runner_dir(list, 0);
    }
}

proof fn lemma_runner_dir(list: Seq<Variant>, from: int, i: int)
    requires
        0 <= from <= i < list.len(),
        row(list[i].upstream@, "actions-runner"@) is Some,
        forall|k: int|
            from <= k < i ==> row((#[trigger] list[k]).upstream@, "actions-runner"@) is None,
    ensures
        runner_dir_from(list, from) == Some(
            row(list[i].upstream@, "actions-runner"@).unwrap().install_dir@,
        ),
    decreases i - from,
{
    if from < i {
        lemma_runner_dir(list, from + 1, i);
    }
}

proof fn lemma_no_runner_dir(list: Seq<Variant>, from: int)
    requires
        0 <= from,
        forall|k: int|
            from <= k < list.len() ==> row((#[trigger] list[k]).upstream@, "actions-runner"@)
                is None,
    ensures
        runner_dir_from(list, from) is None,
    decreases list.len() - from,
{
    if from < list.len() {
        lemma_no_runner_dir(list, from + 1);
    }
}

/// Runners are hosted exactly where some image has one.
pub proof fn runners_are_hosted_where_an_image_has_one(images: ImagesFile, r: bool)
    requires
        call_ensures(ImagesFile::hosts_runners, (&images,), r),
    ensures
        r <==> exists|i: int|
            0 <= i < images.variant@.len() && (#[trigger] images.variant@[i]).runner@.len() > 0,
{
}

} // verus!
