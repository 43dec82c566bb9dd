//! The configuration a deployment run works from: packages, their file
//! mappings, and run-wide settings, with the validation that must reject a
//! malformed configuration before any side effect.

use vstd::prelude::*;

verus! {

/// A declared (source, destination) pair describing one file or directory
/// to deploy.
pub struct FileMapping {
    pub source: String,
    pub destination: String,
}

/// A package to install, with the file mappings it declares.
pub struct Package {
    pub name: String,
    pub is_aur: bool,
    pub files: Vec<FileMapping>,
}

/// Run-wide settings.
pub struct Settings {
    pub skip_existing: bool,
}

/// A whole configuration: packages in declaration order, and settings.
pub struct DottyConfig {
    pub packages: Vec<Package>,
    pub settings: Option<Settings>,
}

/// Why a configuration was rejected.
pub enum ConfigError {
    EmptyPackageName,
    EmptySourcePath { package: String },
    EmptyDestinationPath { package: String },
}

/// A mapping is well formed when both of its paths are non-empty.
pub open spec fn mapping_wf(m: FileMapping) -> bool {
    m.source@.len() > 0 && m.destination@.len() > 0
}

/// A package is well formed when its name is non-empty and every mapping
/// it declares is well formed.
pub open spec fn package_wf(p: Package) -> bool {
    &&& p.name@.len() > 0
    &&& forall|i: int| 0 <= i < p.files@.len() ==> mapping_wf(#[trigger] p.files@[i])
}

/// A configuration is valid when every package is well formed.
pub open spec fn config_wf(c: &DottyConfig) -> bool {
    forall|i: int| 0 <= i < c.packages@.len() ==> package_wf(#[trigger] c.packages@[i])
}

/// The error `validate` reports for the ill-formed package `p`: an empty
/// name first, otherwise the first ill-formed mapping's missing path, named
/// after the package.
pub open spec fn describes_violation(p: Package, e: ConfigError) -> bool {
    if p.name@.len() == 0 {
        e is EmptyPackageName
    } else {
        exists|j: int|
            0 <= j < p.files@.len() && !mapping_wf(#[trigger] p.files@[j]) && (forall|k: int|
                0 <= k < j ==> mapping_wf(#[trigger] p.files@[k])) && (if p.files@[j].source@.len()
                == 0 {
                e matches ConfigError::EmptySourcePath { package } && package@ == p.name@
            } else {
                e matches ConfigError::EmptyDestinationPath { package } && package@ == p.name@
            })
    }
}

/// The flat sequence of all file mappings, in package-declaration order
/// then per-package file order.
pub open spec fn flat_files(s: Seq<Package>) -> Seq<FileMapping>
    decreases s.len(),
{
    if s.len() == 0 {
        Seq::empty()
    } else {
        flat_files(s.drop_last()) + s.last().files@
    }
}

/// The sum of the packages' file counts.
pub open spec fn total_file_count(s: Seq<Package>) -> nat
    decreases s.len(),
{
    if s.len() == 0 {
        0
    } else {
        total_file_count(s.drop_last()) + s.last().files@.len()
    }
}

/// Law: the resolver's output is exactly as long as the sum of each
/// package's file count.
pub proof fn lemma_resolver_length(s: Seq<Package>)
    ensures
        flat_files(s).len() == total_file_count(s),
    decreases s.len(),
{
    if s.len() > 0 {
        lemma_resolver_length(s.drop_last());
    }
}

/// Whether the run was configured to leave already-present destination
/// files untouched.
pub open spec fn spec_skip_existing(c: &DottyConfig) -> bool {
    match c.settings {
        Some(s) => s.skip_existing,
        None => false,
    }
}

impl ConfigError {
    /// The report the run prints for this rejection.
    pub fn message(&self) -> (r: String)
        ensures
            match self {
                ConfigError::EmptyPackageName => r@ == "Package name cannot be empty"@,
                ConfigError::EmptySourcePath { package } => r@
                    == "Source path cannot be empty for package "@ + package@,
                ConfigError::EmptyDestinationPath { package } => r@
                    == "Destination path cannot be empty for package "@ + package@,
            },
    {
        match self {
            ConfigError::EmptyPackageName => "Package name cannot be empty".to_owned(),
            ConfigError::EmptySourcePath { package } => crate::paths::concat_str(
                "Source path cannot be empty for package ",
                package.as_str(),
            ),
            ConfigError::EmptyDestinationPath { package } => crate::paths::concat_str(
                "Destination path cannot be empty for package ",
                package.as_str(),
            ),
        }
    }
}

impl FileMapping {
    /// A copy of this mapping.
    pub fn duplicate(&self) -> (r: FileMapping)
        ensures
            r == *self,
    {
        let r = FileMapping { source: self.source.clone(), destination: self.destination.clone() };
        r
    }
}

impl DottyConfig {
    /// Accepts exactly the well-formed configurations; on a rejection the
    /// error describes the first ill-formed package.
    pub fn validate(&self) -> (r: Result<(), ConfigError>)
        ensures
            r is Ok <==> config_wf(self),
            r matches Err(e) ==> exists|i: int|
                0 <= i < self.packages@.len() && !package_wf(#[trigger] self.packages@[i]) && (
                forall|k: int| 0 <= k < i ==> package_wf(#[trigger] self.packages@[k]))
                    && describes_violation(self.packages@[i], e),
    {
        let n = self.packages.len();
        let mut i: usize = 0;
        while i < n
            invariant
                i <= n,
                n == self.packages@.len(),
                forall|k: int| 0 <= k < i ==> package_wf(#[trigger] self.packages@[k]),
            decreases n - i,
        {
            let package = &self.packages[i];
            if package.name.as_str().is_empty() {
                proof {
                    assert(!package_wf(self.packages@[i as int]));
                }
                return Err(ConfigError::EmptyPackageName);
            }
            let m = package.files.len();
            let mut j: usize = 0;
            while j < m
                invariant
                    j <= m,
                    i < n,
                    n == self.packages@.len(),
                    m == package.files@.len(),
                    package == self.packages@[i as int],
                    package.name@.len() > 0,
                    forall|k: int| 0 <= k < i ==> package_wf(#[trigger] self.packages@[k]),
                    forall|k: int| 0 <= k < j ==> mapping_wf(#[trigger] package.files@[k]),
                decreases m - j,
            {
                let file = &package.files[j];
                if file.source.as_str().is_empty() {
                    let e = ConfigError::EmptySourcePath { package: package.name.clone() };
                    proof {
                        assert(!mapping_wf(package.files@[j as int]));
                        assert(describes_violation(self.packages@[i as int], e));
                        assert(!package_wf(self.packages@[i as int]));
                    }
                    return Err(e);
                }
                if file.destination.as_str().is_empty() {
                    let e = ConfigError::EmptyDestinationPath { package: package.name.clone() };
                    proof {
                        assert(!mapping_wf(package.files@[j as int]));
                        assert(describes_violation(self.packages@[i as int], e));
                        assert(!package_wf(self.packages@[i as int]));
                    }
                    return Err(e);
                }
                j = j + 1;
            }
            i = i + 1;
        }
        Ok(())
    }

    /// The ordered sequence of all file mappings across all packages, in
    /// package-declaration order then per-package file order.
    pub fn get_all_file_mappings(&self) -> (r: Vec<FileMapping>)
        ensures
            r@ == flat_files(self.packages@),
    {
        let mut out: Vec<FileMapping> = Vec::new();
        let n = self.packages.len();
        let mut i: usize = 0;
        while i < n
            invariant
                i <= n,
                n == self.packages@.len(),
                out@ == flat_files(self.packages@.take(i as int)),
            decreases n - i,
        {
            let files = &self.packages[i].files;
            let m = files.len();
            let mut j: usize = 0;
            while j < m
                invariant
                    j <= m,
                    i < n,
                    n == self.packages@.len(),
                    m == files@.len(),
                    files == self.packages@[i as int].files,
                    out@ == flat_files(self.packages@.take(i as int)) + files@.take(j as int),
                decreases m - j,
            {
                out.push(files[j].duplicate());
                proof {
                    assert(files@.take(j + 1 as int) =~= files@.take(j as int).push(files@[j as int]));
                }
                j = j + 1;
            }
            proof {
                let taken = self.packages@.take(i + 1 as int);
                assert(taken.drop_last() =~= self.packages@.take(i as int));
                assert(files@.take(m as int) =~= files@);
                assert(out@ =~= flat_files(taken));
            }
            i = i + 1;
        }
        proof {
            assert(self.packages@.take(n as int) =~= self.packages@);
        }
        out
    }

    /// Whether this configuration asks the synchronizer to skip existing
    /// destination files.
    pub fn should_skip_existing(&self) -> (r: bool)
        ensures
            r == spec_skip_existing(self),
    {
        match &self.settings {
            Some(s) => s.skip_existing,
            None => false,
        }
    }
}

} // verus!
