use vstd::prelude::*;

use crate::scripts::{ScriptSet, ScriptSetView};
use crate::strutil::{contains, ends_with, spec_contains, spec_ends_with, spec_starts_with,
    starts_with};

verus! {

/// One file slated for installation: its unix-style target path, its size in
/// bytes, and — for everything but a symlink — its content digest.
pub struct Asset {
    pub target_path: String,
    pub source_size: u64,
    pub content_digest: Option<Vec<u8>>,
}

/// Mathematical image of one asset.
pub ghost struct AssetView {
    pub target_path: Seq<char>,
    pub source_size: u64,
    pub content_digest: Option<Seq<u8>>,
}

impl View for Asset {
    type V = AssetView;

    open spec fn view(&self) -> AssetView {
        AssetView {
            target_path: self.target_path@,
            source_size: self.source_size,
            content_digest: match self.content_digest {
                Some(d) => Some(d@),
                None => None,
            },
        }
    }
}

/// The sum of the source sizes of all assets.
pub open spec fn sum_sizes(assets: Seq<AssetView>) -> int
    decreases assets.len(),
{
    if assets.len() == 0 {
        0
    } else {
        assets[0].source_size + sum_sizes(assets.drop_first())
    }
}

proof fn lemma_sum_sizes_nonneg(assets: Seq<AssetView>)
    ensures
        sum_sizes(assets) >= 0,
    decreases assets.len(),
{
    if assets.len() > 0 {
        lemma_sum_sizes_nonneg(assets.drop_first());
    }
}

proof fn lemma_sum_sizes_split(assets: Seq<AssetView>, i: int)
    requires
        0 <= i <= assets.len(),
    ensures
        sum_sizes(assets) == sum_sizes(assets.subrange(0, i)) + sum_sizes(
            assets.skip(i),
        ),
    decreases i,
{
    if i == 0 {
        assert(assets.subrange(0, 0) =~= Seq::<AssetView>::empty());
        assert(assets.skip(0) =~= assets);
    } else {
        lemma_sum_sizes_split(assets.drop_first(), i - 1);
        assert(assets.subrange(0, i).drop_first() =~= assets.drop_first().subrange(
            0,
            i - 1,
        ));
        assert(assets.skip(i) =~= assets.drop_first().skip(i - 1));
        assert(assets.subrange(0, i).len() > 0);
        assert(assets.subrange(0, i)[0] == assets[0]);
    }
}

/// Adds the source sizes of all assets up.
pub fn sum_asset_sizes(assets: &Vec<Asset>) -> (r: u64)
    requires
        sum_sizes(assets@.map_values(|a: Asset| a@)) <= u64::MAX as int,
    ensures
        r == sum_sizes(assets@.map_values(|a: Asset| a@)),
{
    let ghost av = assets@.map_values(|a: Asset| a@);
    let mut acc: u64 = 0;
    let mut i: usize = 0;
    while i < assets.len()
        invariant
            0 <= i <= assets@.len(),
            av == assets@.map_values(|a: Asset| a@),
            sum_sizes(av) <= u64::MAX as int,
            acc == sum_sizes(av.subrange(0, i as int)),
        decreases assets@.len() - i,
    {
        proof {
            lemma_sum_sizes_split(av, i as int);
            assert(av.skip(i as int).len() > 0);
            assert(av.skip(i as int)[0] == av[i as int]);
            assert(av.skip(i as int).drop_first() =~= av.skip(i + 1));
            lemma_sum_sizes_nonneg(av.skip(i + 1));
            assert(av.subrange(0, i + 1) =~= av.subrange(0, i as int).push(av[i as int]));
            lemma_sum_sizes_split(av.subrange(0, i + 1), i as int);
            assert(av.subrange(0, i + 1).subrange(0, i as int) =~= av.subrange(
                0,
                i as int,
            ));
            assert(av.subrange(0, i + 1).skip(i as int) =~= seq![av[i as int]]);
            assert(sum_sizes(seq![av[i as int]]) == av[i as int].source_size + sum_sizes(
                seq![av[i as int]].drop_first(),
            ));
            assert(seq![av[i as int]].drop_first() =~= Seq::<AssetView>::empty());
        }
        acc = acc + assets[i].source_size;
        i += 1;
    }
    proof {
        assert(av.subrange(0, av.len() as int) =~= av);
    }
    acc
}

/// The version-control kinds a repository declaration can be tagged with.
#[derive(Clone, Copy, PartialEq, Eq, Structural, Debug)]
pub enum VcsKind {
    Git,
    Hg,
}

impl VcsKind {
    /// The name of the kind as it appears in the control field key.
    pub open spec fn spec_str(self) -> Seq<char> {
        match self {
            VcsKind::Git => "Git"@,
            VcsKind::Hg => "Hg"@,
        }
    }

    pub fn as_str(self) -> (r: &'static str)
        ensures
            r@ == self.spec_str(),
    {
        match self {
            VcsKind::Git => "Git",
            VcsKind::Hg => "Hg",
        }
    }
}

/// The version-control kind a repository URL is recognized as, going by the
/// hosts and scheme prefixes the packaging policy knows.
pub open spec fn spec_repository_type(repo: Seq<char>) -> Option<VcsKind> {
    if spec_starts_with(repo, "git+"@) || spec_ends_with(repo, ".git"@) || spec_contains(
        repo,
        "github.com"@,
    ) || spec_contains(repo, "gitlab.com"@) {
        Some(VcsKind::Git)
    } else if spec_starts_with(repo, "hg+"@) || spec_contains(repo, "bitbucket.org"@) {
        Some(VcsKind::Hg)
    } else {
        None
    }
}

/// Recognizes the version-control kind of a repository URL.
pub fn repository_type(repo: &str) -> (r: Option<VcsKind>)
    ensures
        r == spec_repository_type(repo@),
{
    if starts_with(repo, "git+") || ends_with(repo, ".git") || contains(repo, "github.com")
        || contains(repo, "gitlab.com") {
        Some(VcsKind::Git)
    } else if starts_with(repo, "hg+") || contains(repo, "bitbucket.org") {
        Some(VcsKind::Hg)
    } else {
        None
    }
}

/// Everything one control-archive build reads: the package identity and
/// dependency fields, the asset list with its precomputed digests, and the
/// optional conffiles text, maintainer scripts, generated systemd fragments
/// and triggers-file content.
pub struct PackageConfig {
    pub deb_name: String,
    pub deb_version: String,
    pub architecture: String,
    pub repository: Option<String>,
    pub homepage: Option<String>,
    pub documentation: Option<String>,
    pub section: Option<String>,
    pub priority: String,
    pub maintainer: String,
    /// The dependency line, already resolved by the caller.
    pub depends: String,
    pub build_depends: Option<String>,
    pub conflicts: Option<String>,
    pub breaks: Option<String>,
    pub replaces: Option<String>,
    pub provides: Option<String>,
    pub description: String,
    pub extended_description: Option<String>,
    pub assets: Vec<Asset>,
    /// The conffiles declaration, verbatim, where one is configured.
    pub conf_files: Option<String>,
    /// The user's maintainer script directory, where one is configured: its
    /// contents under the six canonical names.
    pub maintainer_scripts: Option<ScriptSet>,
    /// Present iff systemd-unit integration is configured: the shell
    /// fragments the external unit-fragment generator produced, one per
    /// lifecycle script that needs them.
    pub systemd_units: Option<ScriptSet>,
    /// The content of the configured triggers file; absent when none is
    /// configured or the file cannot be read.
    pub triggers_file: Option<Vec<u8>>,
}

/// Mathematical image of one build configuration.
pub ghost struct ConfigView {
    pub deb_name: Seq<char>,
    pub deb_version: Seq<char>,
    pub architecture: Seq<char>,
    pub repository: Option<Seq<char>>,
    pub homepage: Option<Seq<char>>,
    pub documentation: Option<Seq<char>>,
    pub section: Option<Seq<char>>,
    pub priority: Seq<char>,
    pub maintainer: Seq<char>,
    pub depends: Seq<char>,
    pub build_depends: Option<Seq<char>>,
    pub conflicts: Option<Seq<char>>,
    pub breaks: Option<Seq<char>>,
    pub replaces: Option<Seq<char>>,
    pub provides: Option<Seq<char>>,
    pub description: Seq<char>,
    pub extended_description: Option<Seq<char>>,
    pub assets: Seq<AssetView>,
    pub conf_files: Option<Seq<char>>,
    pub maintainer_scripts: Option<ScriptSetView>,
    pub systemd_units: Option<ScriptSetView>,
    pub triggers_file: Option<Seq<u8>>,
}

pub open spec fn opt_str_view(o: Option<String>) -> Option<Seq<char>> {
    match o {
        Some(s) => Some(s@),
        None => None,
    }
}

impl View for PackageConfig {
    type V = ConfigView;

    open spec fn view(&self) -> ConfigView {
        ConfigView {
            deb_name: self.deb_name@,
            deb_version: self.deb_version@,
            architecture: self.architecture@,
            repository: opt_str_view(self.repository),
            homepage: opt_str_view(self.homepage),
            documentation: opt_str_view(self.documentation),
            section: opt_str_view(self.section),
            priority: self.priority@,
            maintainer: self.maintainer@,
            depends: self.depends@,
            build_depends: opt_str_view(self.build_depends),
            conflicts: opt_str_view(self.conflicts),
            breaks: opt_str_view(self.breaks),
            replaces: opt_str_view(self.replaces),
            provides: opt_str_view(self.provides),
            description: self.description@,
            extended_description: opt_str_view(self.extended_description),
            assets: self.assets@.map_values(|a: Asset| a@),
            conf_files: opt_str_view(self.conf_files),
            maintainer_scripts: match self.maintainer_scripts {
                Some(ref s) => Some(s@),
                None => None,
            },
            systemd_units: match self.systemd_units {
                Some(ref s) => Some(s@),
                None => None,
            },
            triggers_file: match self.triggers_file {
                Some(ref t) => Some(t@),
                None => None,
            },
        }
    }
}

} // verus!
